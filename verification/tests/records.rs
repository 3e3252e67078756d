use psp_packer::bytes::{put_bytes, put_u16, put_u32, put_u64, put_word, read_u16, read_u32};
use psp_packer::bytes::{read_u64, read_word, truncate_u16, truncate_u32, word_bytes};
use psp_packer::elf::{Elf32Ehdr, Elf32Phdr, Elf32Shdr};
use psp_packer::error::Error;
use psp_packer::pack::KeyFiller;
use psp_packer::psp::{DecryptMode, ModInfoAttribute, PbpHeader, PspHeader, SceModuleInfo};
use psp_packer::utils::{gzip_max_compressed_size, seed_from_hash, split_bytes, split_mut_bytes};
use psp_packer::utils::{AsBytes, Record, TryFromBytes};
use psp_packer::view::write_at;

const WORD: usize = std::mem::size_of::<usize>();

fn counting(len: usize) -> Vec<u8> {
    (0..len).map(|i| (i * 3 + 1) as u8).collect()
}

fn pbp_bytes() -> Vec<u8> {
    let mut v = Vec::new();
    for word in [0x50425000u32, 0x10000, 40, 41, 42, 43, 44, 45, 46, 47] {
        v.extend_from_slice(&word.to_le_bytes());
    }
    v
}

#[test]
fn sizes_and_alignments() {
    assert_eq!((Elf32Ehdr::size(), Elf32Ehdr::align()), (52, 4));
    assert_eq!((Elf32Phdr::size(), Elf32Phdr::align()), (32, 4));
    assert_eq!((Elf32Shdr::size(), Elf32Shdr::align()), (40, 4));
    assert_eq!((PbpHeader::size(), PbpHeader::align()), (40, 4));
    assert_eq!((SceModuleInfo::size(), SceModuleInfo::align()), (32 + 5 * WORD, 4));
    assert_eq!(word_bytes(), WORD);
}

#[test]
fn owned_copy_of_a_short_range() {
    for len in [0usize, 1, 39] {
        let src = counting(len);
        let res = PbpHeader::from_bytes(&src);
        assert!(matches!(
            res,
            Err(Error::FromBytes { input_len, expected_len: Some(40) }) if input_len == len
        ));
    }
    assert!(matches!(
        Elf32Ehdr::from_bytes(&counting(51)),
        Err(Error::FromBytes { input_len: 51, expected_len: Some(52) })
    ));
    assert!(matches!(
        Elf32Phdr::from_bytes(&counting(31)),
        Err(Error::FromBytes { input_len: 31, expected_len: Some(32) })
    ));
    assert!(matches!(
        Elf32Shdr::from_bytes(&counting(39)),
        Err(Error::FromBytes { input_len: 39, expected_len: Some(40) })
    ));
    let need = 32 + 5 * WORD;
    assert!(matches!(
        SceModuleInfo::from_bytes(&counting(need - 1)),
        Err(Error::FromBytes { input_len, expected_len: Some(n) }) if input_len == need - 1 && n == need
    ));
}

#[test]
fn owned_array_of_a_short_range() {
    let src = counting(95);
    assert!(matches!(
        Elf32Phdr::from_bytes_with_elems(&src, 3),
        Err(Error::FromBytes { input_len: 95, expected_len: Some(96) })
    ));
    assert!(matches!(
        Elf32Phdr::from_bytes_with_elems(&[], 1),
        Err(Error::FromBytes { input_len: 0, expected_len: Some(32) })
    ));
    assert_eq!(Elf32Phdr::from_bytes_with_elems(&[], 0).unwrap().len(), 0);
}

#[test]
fn array_too_long_for_any_range() {
    let src = counting(64);
    assert!(matches!(
        Elf32Phdr::from_bytes_with_elems(&src, usize::MAX),
        Err(Error::FromBytes { input_len: 64, expected_len: None })
    ));
    assert!(matches!(
        Elf32Phdr::ref_from_bytes_with_elems_at(&src, usize::MAX / 2, 0),
        Err(Error::FromBytes { input_len: 64, expected_len: None })
    ));
    let mut src = src;
    assert!(matches!(
        Elf32Phdr::mut_from_bytes_with_elems_at(&mut src, usize::MAX / 16, 0),
        Err(Error::FromBytes { input_len: 64, expected_len: None })
    ));
}

#[test]
fn borrowed_views_of_a_short_range() {
    let mut src = counting(39);
    assert!(matches!(
        PbpHeader::ref_from_bytes_at(&src, 1),
        Err(Error::FromBytes { input_len: 39, expected_len: Some(40) })
    ));
    assert!(matches!(
        PbpHeader::ref_from_bytes(&src),
        Err(Error::FromBytes { input_len: 39, expected_len: Some(40) })
    ));
    assert!(matches!(
        PbpHeader::ref_from_bytes_with_elems_at(&src, 1, 1),
        Err(Error::FromBytes { input_len: 39, expected_len: Some(40) })
    ));
    assert!(matches!(
        PbpHeader::ref_from_bytes_with_elems(&src, 2),
        Err(Error::FromBytes { input_len: 39, expected_len: Some(80) })
    ));
    assert!(matches!(
        PbpHeader::mut_from_bytes_at(&mut src, 1),
        Err(Error::FromBytes { input_len: 39, expected_len: Some(40) })
    ));
    assert!(matches!(
        PbpHeader::mut_from_bytes(&mut src),
        Err(Error::FromBytes { input_len: 39, expected_len: Some(40) })
    ));
    assert!(matches!(
        PbpHeader::mut_from_bytes_with_elems_at(&mut src, 1, 1),
        Err(Error::FromBytes { input_len: 39, expected_len: Some(40) })
    ));
    assert!(matches!(
        PbpHeader::mut_from_bytes_with_elems(&mut src, 3),
        Err(Error::FromBytes { input_len: 39, expected_len: Some(120) })
    ));
    assert_eq!(src, counting(39));
}

#[test]
fn misaligned_views_report_alignment_and_address() {
    let mut src = pbp_bytes();
    for addr in [1usize, 2, 3, 0x1001, usize::MAX] {
        assert!(matches!(
            PbpHeader::ref_from_bytes_at(&src, addr),
            Err(Error::Alignment { align: 4, addr: a }) if a == addr
        ));
        assert!(matches!(
            PbpHeader::ref_from_bytes_with_elems_at(&src, 1, addr),
            Err(Error::Alignment { align: 4, addr: a }) if a == addr
        ));
        assert!(matches!(
            PbpHeader::mut_from_bytes_at(&mut src, addr),
            Err(Error::Alignment { align: 4, addr: a }) if a == addr
        ));
        assert!(matches!(
            PbpHeader::mut_from_bytes_with_elems_at(&mut src, 1, addr),
            Err(Error::Alignment { align: 4, addr: a }) if a == addr
        ));
    }
    for addr in [0usize, 4, 0x1000] {
        assert!(PbpHeader::ref_from_bytes_at(&src, addr).is_ok());
    }
    assert_eq!(src, pbp_bytes());
}

#[test]
fn length_is_checked_before_alignment_and_alignment_before_acceptance() {
    let src = vec![0u8; 39];
    assert!(matches!(PbpHeader::ref_from_bytes_at(&src, 1), Err(Error::FromBytes { .. })));
    let src = vec![0u8; 40];
    assert!(matches!(PbpHeader::ref_from_bytes_at(&src, 1), Err(Error::Alignment { .. })));
    assert!(matches!(PbpHeader::ref_from_bytes_at(&src, 4), Err(Error::NotPbp)));
    assert!(matches!(PbpHeader::from_bytes(&src), Err(Error::NotPbp)));
}

#[test]
fn view_at_the_address_of_the_range() {
    let mut buffer = vec![0u8; 48];
    for offset in 0..4usize {
        buffer[offset..offset + 40].copy_from_slice(&pbp_bytes());
        let src = &buffer[offset..];
        let addr = src.as_ptr() as usize;
        match PbpHeader::ref_from_bytes(src) {
            Ok(view) => {
                assert_eq!(addr % 4, 0);
                assert_eq!(view.get().psar_offset, 47);
                assert_eq!(view.as_bytes(), &src[..40]);
            }
            Err(Error::Alignment { align, addr: reported }) => {
                assert_ne!(addr % 4, 0);
                assert_eq!(align, 4);
                assert_eq!(reported, addr);
            }
            Err(_) => panic!("unexpected error"),
        }
        match PbpHeader::mut_from_bytes(&mut buffer[offset..]) {
            Ok(view) => {
                assert_eq!(addr % 4, 0);
                assert_eq!(view.get().prx_offset, 46);
            }
            Err(Error::Alignment { align, addr: reported }) => {
                assert_eq!((align, reported), (4, addr));
            }
            Err(_) => panic!("unexpected error"),
        }
        buffer[offset..offset + 40].fill(0);
    }
}

#[test]
fn file_header_fields() {
    let mut src = counting(60);
    src[..4].copy_from_slice(&0x464C457Fu32.to_le_bytes());
    let h = Elf32Ehdr::from_bytes(&src).unwrap();
    assert_eq!(h.e_magic, 0x464C457F);
    assert_eq!((h.e_class, h.e_data, h.e_idver), (src[4], src[5], src[6]));
    assert_eq!(&h.pad[..], &src[7..16]);
    assert_eq!(h.e_type, u16::from_le_bytes([src[16], src[17]]));
    assert_eq!(h.e_machine, u16::from_le_bytes([src[18], src[19]]));
    assert_eq!(h.e_version, u32::from_le_bytes([src[20], src[21], src[22], src[23]]));
    assert_eq!(h.e_entry, u32::from_le_bytes([src[24], src[25], src[26], src[27]]));
    assert_eq!(h.e_phoff, u32::from_le_bytes([src[28], src[29], src[30], src[31]]));
    assert_eq!(h.e_shoff, u32::from_le_bytes([src[32], src[33], src[34], src[35]]));
    assert_eq!(h.e_flags, u32::from_le_bytes([src[36], src[37], src[38], src[39]]));
    assert_eq!(h.e_ehsize, u16::from_le_bytes([src[40], src[41]]));
    assert_eq!(h.e_phentsize, u16::from_le_bytes([src[42], src[43]]));
    assert_eq!(h.e_phnum, u16::from_le_bytes([src[44], src[45]]));
    assert_eq!(h.e_shentsize, u16::from_le_bytes([src[46], src[47]]));
    assert_eq!(h.e_shnum, u16::from_le_bytes([src[48], src[49]]));
    assert_eq!(h.e_shstrndx, u16::from_le_bytes([src[50], src[51]]));
    assert_eq!(h.as_bytes(), &src[..52]);
    assert!(!h.is_prx());
    let prx = Elf32Ehdr { e_type: 0xFFA0, ..h };
    assert!(prx.is_prx());
    assert_eq!(Elf32Ehdr::from_bytes(&prx.as_bytes()).unwrap(), prx);
}

#[test]
fn file_header_without_the_magic() {
    let mut src = counting(52);
    src[..4].copy_from_slice(&0x464C457Eu32.to_le_bytes());
    assert!(matches!(Elf32Ehdr::from_bytes(&src), Err(Error::NotElf)));
    assert!(matches!(Elf32Ehdr::from_bytes_with_elems(&src, 1), Err(Error::NotElf)));
}

#[test]
fn records_are_written_as_they_were_read() {
    let src = counting(200);
    let phdr = Elf32Phdr::from_bytes(&src).unwrap();
    assert_eq!(phdr.p_type, 0x0A070401);
    assert_eq!(phdr.p_align, u32::from_le_bytes([src[28], src[29], src[30], src[31]]));
    assert_eq!(phdr.as_bytes(), &src[..32]);
    let shdr = Elf32Shdr::from_bytes(&src).unwrap();
    assert_eq!(shdr.sh_offset, u32::from_le_bytes([src[16], src[17], src[18], src[19]]));
    assert_eq!(shdr.sh_size, u32::from_le_bytes([src[20], src[21], src[22], src[23]]));
    assert_eq!(shdr.as_bytes(), &src[..40]);
    let info = SceModuleInfo::from_bytes(&src).unwrap();
    assert_eq!(info.mod_attr.bits, u16::from_le_bytes([src[0], src[1]]));
    assert_eq!((info.mod_version_low, info.mod_version_high), (src[2], src[3]));
    assert_eq!(&info.mod_name[..], &src[4..31]);
    assert_eq!(info.terminal, src[31]);
    let mut word = [0u8; WORD];
    word.copy_from_slice(&src[32..32 + WORD]);
    assert_eq!(info.gp_value, usize::from_le_bytes(word));
    word.copy_from_slice(&src[32 + 4 * WORD..32 + 5 * WORD]);
    assert_eq!(info.stub_end, usize::from_le_bytes(word));
    assert_eq!(info.as_bytes(), &src[..32 + 5 * WORD]);
    let other = SceModuleInfo { mod_attr: ModInfoAttribute { bits: 0x0200 }, ..info };
    let bytes = other.as_bytes();
    assert_eq!(&bytes[..2], &[0x00, 0x02]);
    assert_eq!(&bytes[2..], &src[2..32 + 5 * WORD]);
    assert_eq!(SceModuleInfo::from_bytes(&bytes).unwrap(), other);
}

#[test]
fn array_elements_in_order() {
    let src = counting(100);
    let phdrs = Elf32Phdr::from_bytes_with_elems(&src, 3).unwrap();
    assert_eq!(phdrs.len(), 3);
    for (i, phdr) in phdrs.iter().enumerate() {
        assert_eq!(*phdr, Elf32Phdr::from_bytes(&src[32 * i..]).unwrap());
        assert_eq!(phdr.as_bytes(), &src[32 * i..32 * i + 32]);
    }
    let view = Elf32Phdr::ref_from_bytes_with_elems_at(&src, 3, 8).unwrap();
    assert_eq!(view.len(), 3);
    assert_eq!(view.bytes, &src[..96]);
    for i in 0..3 {
        assert_eq!(view.get(i), phdrs[i]);
    }
}

#[test]
fn first_refused_element_stops_the_array() {
    let mut src = Vec::new();
    src.extend_from_slice(&pbp_bytes());
    src.extend_from_slice(&[0u8; 40]);
    src.extend_from_slice(&pbp_bytes());
    assert_eq!(PbpHeader::from_bytes_with_elems(&src, 1).unwrap().len(), 1);
    assert!(matches!(PbpHeader::from_bytes_with_elems(&src, 2), Err(Error::NotPbp)));
    assert!(matches!(PbpHeader::from_bytes_with_elems(&src, 3), Err(Error::NotPbp)));
    assert!(matches!(PbpHeader::ref_from_bytes_with_elems_at(&src, 3, 0), Err(Error::NotPbp)));
    assert!(matches!(PbpHeader::validate_elems(&src, 2), Err(Error::NotPbp)));
    assert!(PbpHeader::validate_elems(&src, 1).is_ok());
}

#[test]
fn writing_through_a_view() {
    let mut buffer = pbp_bytes();
    buffer.extend_from_slice(&[0xEE; 5]);
    let mut view = PbpHeader::mut_from_bytes_at(&mut buffer, 0).unwrap();
    let mut header = view.get();
    assert_eq!(header.prx_offset, 46);
    header.prx_offset = 0x01020304;
    view.set(&header);
    assert_eq!(view.get(), header);
    let mut expected = pbp_bytes();
    expected[32..36].copy_from_slice(&[4, 3, 2, 1]);
    expected.extend_from_slice(&[0xEE; 5]);
    assert_eq!(buffer, expected);
}

#[test]
fn writing_through_a_view_of_an_array() {
    let mut buffer = counting(100);
    let before = buffer.clone();
    let mut view = Elf32Phdr::mut_from_bytes_with_elems_at(&mut buffer, 3, 4).unwrap();
    assert_eq!(view.len(), 3);
    let mut second = view.get(1);
    assert_eq!(second.as_bytes(), &before[32..64]);
    second.p_vaddr = 0xAABBCCDD;
    view.set(1, &second);
    assert_eq!(view.get(1), second);
    assert_eq!(view.get(0).as_bytes(), &before[..32]);
    assert_eq!(view.get(2).as_bytes(), &before[64..96]);
    let mut expected = before;
    expected[40..44].copy_from_slice(&[0xDD, 0xCC, 0xBB, 0xAA]);
    assert_eq!(buffer, expected);
}

#[test]
fn splitting() {
    let src = counting(10);
    let (head, rest) = split_bytes(&src, 4).unwrap();
    assert_eq!((head, rest), (&src[..4], &src[4..]));
    let (head, rest) = split_bytes(&src, 10).unwrap();
    assert_eq!((head.len(), rest.len()), (10, 0));
    assert!(matches!(
        split_bytes(&src, 11),
        Err(Error::FromBytes { input_len: 10, expected_len: Some(11) })
    ));
    let mut copy = src.clone();
    {
        let (head, rest) = split_mut_bytes(&mut copy, 3).unwrap();
        head[0] = 0xFF;
        rest[0] = 0xFE;
    }
    assert_eq!(copy[0], 0xFF);
    assert_eq!(copy[3], 0xFE);
    assert!(matches!(
        split_mut_bytes(&mut copy, 11),
        Err(Error::FromBytes { input_len: 10, expected_len: Some(11) })
    ));
}

#[test]
fn little_endian_integers() {
    let src = [0x01u8, 0x02, 0x03, 0x04, 0x05, 0x06, 0x07, 0x08, 0x09];
    assert_eq!(read_u16(&src, 0), 0x0201);
    assert_eq!(read_u16(&src, 7), 0x0908);
    assert_eq!(read_u32(&src, 1), 0x05040302);
    assert_eq!(read_u64(&src, 1), 0x0908070605040302);
    assert_eq!(read_u32(&[0xFF; 4], 0), u32::MAX);
    assert_eq!(read_u64(&[0xFF; 8], 0), u64::MAX);
    let mut word = [0u8; WORD];
    word.copy_from_slice(&src[..WORD]);
    assert_eq!(read_word(&src, 0), usize::from_le_bytes(word));
    let mut out = vec![0xAA];
    put_u16(&mut out, 0xBEEF);
    put_u32(&mut out, 0x12345678);
    put_u64(&mut out, 0x0102030405060708);
    put_bytes(&mut out, &[9, 9]);
    put_word(&mut out, usize::MAX - 1);
    let mut expected = vec![0xAA, 0xEF, 0xBE, 0x78, 0x56, 0x34, 0x12, 8, 7, 6, 5, 4, 3, 2, 1, 9, 9];
    expected.extend_from_slice(&(usize::MAX - 1).to_le_bytes());
    assert_eq!(out, expected);
}

#[test]
fn low_bits() {
    assert_eq!(truncate_u32(0), 0);
    assert_eq!(truncate_u32(0xFFFF_FFFF), 0xFFFF_FFFF);
    assert_eq!(truncate_u32(usize::MAX), 0xFFFF_FFFF);
    assert_eq!(truncate_u16(0x0001_0040), 0x0040);
    assert_eq!(truncate_u16(0xFFFF), 0xFFFF);
    if WORD == 8 {
        assert_eq!(truncate_u32(0x1_0000_0005), 5);
    }
}

#[test]
fn overwriting_in_place() {
    let mut dst = counting(8);
    let before = dst.clone();
    write_at(&mut dst, 3, &[0xF0, 0xF1]);
    assert_eq!(&dst[..3], &before[..3]);
    assert_eq!(&dst[3..5], &[0xF0, 0xF1]);
    assert_eq!(&dst[5..], &before[5..]);
    write_at(&mut dst, 8, &[]);
    write_at(&mut dst, 6, &[1, 2]);
    assert_eq!(&dst[6..], &[1, 2]);
}

#[test]
fn bound_on_the_compressed_size() {
    assert_eq!(gzip_max_compressed_size(0), 24);
    assert_eq!(gzip_max_compressed_size(1), 30);
    assert_eq!(gzip_max_compressed_size(16384), 30);
    assert_eq!(gzip_max_compressed_size(16385), 36);
    assert_eq!(gzip_max_compressed_size(10 * 16384), 84);
    assert_eq!(gzip_max_compressed_size(usize::MAX), (usize::MAX / 16384 + 1) * 6 + 24);
}

#[test]
fn seed_of_a_hash() {
    let seed = seed_from_hash(0x0807060504030201);
    let expected: Vec<u8> = (1..=8).chain(0..16).collect();
    assert_eq!(&seed[..], &expected[..]);
    assert_eq!(&seed_from_hash(0)[..8], &[0; 8]);
    assert_eq!(&seed_from_hash(u64::MAX)[..8], &[0xFF; 8]);
}

#[test]
fn random_filler_is_filled() {
    let filler = KeyFiller::random();
    let all: Vec<u8> = filler
        .key_data0
        .iter()
        .chain(filler.key_data1.iter())
        .chain(filler.key_data3.iter())
        .copied()
        .collect();
    assert_eq!(all.len(), 0x30 + 0x10 + 0x1C);
    assert!(all.iter().any(|b| *b != 0));
    let zeroed = KeyFiller::zeroed();
    assert!(zeroed.key_data0.iter().chain(&zeroed.key_data1).chain(&zeroed.key_data3).all(|b| *b == 0));
}

#[test]
fn raw_bytes_under_a_view() {
    let mut buffer = pbp_bytes();
    let mut view = PbpHeader::mut_from_bytes_at(&mut buffer, 0).unwrap();
    assert_eq!(view.as_bytes(), &pbp_bytes()[..]);
    view.as_mut_bytes()[36] = 0x77;
    assert_eq!(view.get().psar_offset, 0x77);
    assert_eq!(buffer[36], 0x77);
    let mut records = counting(64);
    let before = records.clone();
    let mut views = Elf32Phdr::mut_from_bytes_with_elems_at(&mut records, 2, 0).unwrap();
    assert_eq!(views.as_bytes(), &before[..]);
    views.as_mut_bytes()[32] = 0;
    assert_eq!(views.get(1).p_type & 0xFF, 0);
    let shown = Elf32Phdr::ref_from_bytes_with_elems_at(&before, 2, 0).unwrap();
    assert_eq!(shown.as_bytes(), &before[..]);
}

#[test]
fn writing_to_the_bytes_of_a_record() {
    let mut header = PbpHeader::from_bytes(&pbp_bytes()).unwrap();
    {
        let mut raw = header.as_mut_bytes();
        assert_eq!(raw.as_slice(), &pbp_bytes()[..]);
        raw.write(36, &[1, 2, 3, 4]);
        raw.write(40, &[]);
        assert_eq!(&raw.as_slice()[36..40], &[1, 2, 3, 4]);
        assert_eq!(&raw.as_slice()[..36], &pbp_bytes()[..36]);
    }
    assert_eq!(header.psar_offset, 0x04030201);
    assert_eq!(header.prx_offset, 46);
    let mut info = SceModuleInfo::from_bytes(&counting(100)).unwrap();
    {
        let mut raw = info.as_mut_bytes();
        raw.write(0, &[0x00, 0x10]);
    }
    assert_eq!(info.mod_attr.bits, 0x1000);
    assert_eq!(info.terminal, counting(100)[31]);
}

#[test]
fn output_header_is_read_back() {
    assert_eq!((PspHeader::size(), PspHeader::align()), (336, 4));
    let mut header = PspHeader::default();
    header.attribute = ModInfoAttribute { bits: 0x0800 };
    header.module_name = [7; 28];
    header.num_segments = 3;
    header.elf_size = 0x01020304;
    header.seg_align = [1, 2, 3, 4];
    header.seg_addr = [5, 6, 7, 8];
    header.seg_size = [9, 10, 11, 12];
    header.reserved = [13, 14, 15, 16, 17];
    header.devkit_version = 0x05070210;
    header.decrypt_mode = DecryptMode::Updater;
    header.key_data0 = [0xA0; 0x30];
    header.reserved2 = [18, 19];
    header.key_data1 = [0xA1; 0x10];
    header.tag = 0x457B06F0;
    header.scheck = [0x5C; 0x58];
    header.oe_tag = 0x8555ABF2;
    header.key_data3 = [0xA3; 0x1C];
    let bytes = header.as_bytes();
    assert_eq!(PspHeader::from_bytes(&bytes).unwrap(), header);
    let mut longer = bytes.clone();
    longer.extend_from_slice(&[1, 2, 3]);
    assert_eq!(PspHeader::from_bytes(&longer).unwrap(), header);
    assert_eq!(PspHeader::from_bytes(&counting(400)).unwrap().as_bytes()[..124], counting(400)[..124]);
    assert!(matches!(
        PspHeader::from_bytes(&bytes[..335]),
        Err(Error::FromBytes { input_len: 335, expected_len: Some(336) })
    ));
    assert!(matches!(
        PspHeader::ref_from_bytes_at(&bytes, 2),
        Err(Error::Alignment { align: 4, addr: 2 })
    ));
    assert_eq!(PspHeader::ref_from_bytes_at(&bytes, 8).unwrap().get(), header);
}

#[test]
fn mode_bytes() {
    let codes = [
        (0x2u8, DecryptMode::Kernel),
        (0x3, DecryptMode::Vsh),
        (0x4, DecryptMode::Standard),
        (0xC, DecryptMode::Updater),
        (0xE, DecryptMode::App),
        (0xA, DecryptMode::UsbWlan),
        (0xD, DecryptMode::Ms),
    ];
    for (code, mode) in codes {
        assert_eq!(DecryptMode::from_code(code), mode);
        assert_eq!(mode.code(), code);
        let mut bytes = PspHeader::default().as_bytes();
        bytes[124] = code;
        assert_eq!(PspHeader::from_bytes(&bytes).unwrap().decrypt_mode, mode);
    }
    for code in [0u8, 1, 5, 0xB, 0xF, 0xFF] {
        assert_eq!(DecryptMode::from_code(code), DecryptMode::Standard);
    }
}

#[test]
fn arrays_out_of_bytes() {
    let src = counting(20);
    let a: [u8; 5] = psp_packer::bytes::read_array([0u8; 5], &src, 3);
    assert_eq!(&a[..], &src[3..8]);
    let all: [u8; 20] = psp_packer::bytes::read_array([9u8; 20], &src, 0);
    assert_eq!(&all[..], &src[..]);
    let none: [u8; 0] = psp_packer::bytes::read_array([], &src, 20);
    assert_eq!(none.len(), 0);
}
