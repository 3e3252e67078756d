use std::io::Read;

use psp_packer::error::Error;
use psp_packer::locate::{find_module_info_phdr, find_segment, read_image_header};
use psp_packer::locate::{read_records, read_segments_bss_info};
use psp_packer::elf::{Elf32Phdr, Elf32Shdr};
use psp_packer::pack::{assemble, plan, reposition, write_back, KeyFiller, UnkPspExecutable};
use psp_packer::psp::{ExecutableKind, PspHeader};

const WORD: usize = std::mem::size_of::<usize>();
const INFO_SIZE: usize = 32 + 5 * WORD;
const HEADER_SIZE: usize = 336;
const NAMES: &[u8] = b"\0.shstrtab\0.bss\0.rodata.sceModuleInfo\0.data\0";
const NAME_SHSTRTAB: u32 = 1;
const NAME_BSS: u32 = 11;
const NAME_MODULE_INFO: u32 = 16;
const NAME_DATA: u32 = 38;

fn put16(v: &mut Vec<u8>, x: u16) {
    v.extend_from_slice(&x.to_le_bytes());
}

fn put32(v: &mut Vec<u8>, x: u32) {
    v.extend_from_slice(&x.to_le_bytes());
}

fn get16(v: &[u8], at: usize) -> u16 {
    u16::from_le_bytes([v[at], v[at + 1]])
}

fn get32(v: &[u8], at: usize) -> u32 {
    u32::from_le_bytes([v[at], v[at + 1], v[at + 2], v[at + 3]])
}

fn set16(v: &mut [u8], at: usize, x: u16) {
    v[at..at + 2].copy_from_slice(&x.to_le_bytes());
}

fn set32(v: &mut [u8], at: usize, x: u32) {
    v[at..at + 4].copy_from_slice(&x.to_le_bytes());
}

/// What a synthetic image is made of.
struct Image {
    e_type: u16,
    attr: u16,
    kernel_address: bool,
    info_by_segment: bool,
    info_by_section: bool,
    segments: u16,
    bss_name: u32,
    payload: usize,
}

impl Image {
    fn user() -> Image {
        Image {
            e_type: 0xFFA0,
            attr: 0,
            kernel_address: false,
            info_by_segment: true,
            info_by_section: false,
            segments: 1,
            bss_name: NAME_BSS,
            payload: 4096,
        }
    }

    /// Layout: file header, segment headers, module information, payload,
    /// names, section headers.
    fn build(&self) -> Vec<u8> {
        let phoff = 52usize;
        let info_at = phoff + 32 * self.segments as usize;
        let payload_at = info_at + INFO_SIZE;
        let names_at = payload_at + self.payload;
        let shoff = names_at + NAMES.len();
        let shnum: u16 = 4;
        let mut v = Vec::new();
        put32(&mut v, 0x464C457F);
        v.extend_from_slice(&[1, 1, 1]);
        v.extend_from_slice(&[0; 9]);
        put16(&mut v, self.e_type);
        put16(&mut v, 8);
        put32(&mut v, 1);
        put32(&mut v, 0x1234);
        put32(&mut v, phoff as u32);
        put32(&mut v, shoff as u32);
        put32(&mut v, 0);
        put16(&mut v, 52);
        put16(&mut v, 32);
        put16(&mut v, self.segments);
        put16(&mut v, 40);
        put16(&mut v, shnum);
        put16(&mut v, 1);
        assert_eq!(v.len(), 52);
        for i in 0..self.segments as u32 {
            let first = i == 0 && self.info_by_segment;
            let paddr = if first {
                info_at as u32 | if self.kernel_address { 0x8000_0000 } else { 0 }
            } else {
                0x4000 + i
            };
            put32(&mut v, 1);
            put32(&mut v, payload_at as u32);
            put32(&mut v, if first { 0 } else { paddr });
            put32(&mut v, paddr);
            put32(&mut v, self.payload as u32);
            put32(&mut v, 0x2000 + i);
            put32(&mut v, 5);
            put32(&mut v, 0x0001_0040 + i);
        }
        assert_eq!(v.len(), info_at);
        put16(&mut v, self.attr);
        v.extend_from_slice(&[1, 2]);
        let mut name = [0u8; 27];
        name[..6].copy_from_slice(b"sample");
        v.extend_from_slice(&name);
        v.push(0);
        for word in 0..5u8 {
            v.extend(std::iter::repeat(0x10 + word).take(WORD));
        }
        assert_eq!(v.len(), payload_at);
        v.extend(std::iter::repeat(0xAB).take(self.payload));
        v.extend_from_slice(NAMES);
        assert_eq!(v.len(), shoff);
        let sections: [(u32, u32, u32); 4] = [
            (0, 0, 0),
            (NAME_SHSTRTAB, names_at as u32, NAMES.len() as u32),
            (self.bss_name, 0, 0x100),
            (
                if self.info_by_section { NAME_MODULE_INFO } else { NAME_DATA },
                info_at as u32,
                INFO_SIZE as u32,
            ),
        ];
        for (name, offset, size) in sections {
            put32(&mut v, name);
            put32(&mut v, 1);
            put32(&mut v, 0);
            put32(&mut v, 0);
            put32(&mut v, offset);
            put32(&mut v, size);
            put32(&mut v, 0);
            put32(&mut v, 0);
            put32(&mut v, 4);
            put32(&mut v, 0);
        }
        v
    }

    fn info_at(&self) -> usize {
        52 + 32 * self.segments as usize
    }
}

/// A package of `preamble` bytes before the image and `trailing` after it.
fn package(image: &[u8], preamble: usize, trailing: usize) -> Vec<u8> {
    assert!(preamble >= 40);
    let mut v = Vec::new();
    put32(&mut v, 0x50425000);
    put32(&mut v, 0x0001_0000);
    for offset in [40u32, 40, 40, 40, 40, 40] {
        put32(&mut v, offset);
    }
    put32(&mut v, preamble as u32);
    put32(&mut v, (preamble + image.len()) as u32);
    v.extend((40..preamble).map(|i| i as u8));
    v.extend_from_slice(image);
    v.extend((0..trailing).map(|i| (i * 7) as u8));
    v
}

fn gunzip(stream: &[u8]) -> Vec<u8> {
    let mut out = Vec::new();
    flate2::read::GzDecoder::new(stream).read_to_end(&mut out).unwrap();
    out
}

fn filler() -> KeyFiller {
    KeyFiller { key_data0: [0xA0; 0x30], key_data1: [0xA1; 0x10], key_data3: [0xA3; 0x1C] }
}

fn pack(file: Vec<u8>) -> Result<Vec<u8>, Error> {
    UnkPspExecutable::new(file)
        .compress_with_filler(None, None, &filler())
        .map(|out| out.as_bytes().to_vec())
}

#[test]
fn minimal_module_round_trip_shape() {
    let input = Image::user().build();
    let packed = UnkPspExecutable::new(input.clone()).compress().unwrap();
    assert_eq!(packed.kind(), ExecutableKind::UserPrx);
    let out = packed.as_bytes();
    assert_eq!(packed.size(), out.len());
    assert_eq!(get32(out, 0), 0x5053507E);
    let elf_size = get32(out, 40);
    let psp_size = get32(out, 44);
    let comp_size = get32(out, 176);
    assert_eq!(elf_size as usize, input.len());
    assert!(comp_size < elf_size);
    assert_eq!(psp_size as usize, out.len());
    assert_eq!(comp_size as usize, out.len() - HEADER_SIZE);
    assert_eq!(get32(out, 56), 0x100);
    assert_eq!(gunzip(&out[HEADER_SIZE..]), input);
}

#[test]
fn header_fields_of_a_user_module() {
    let image = Image::user();
    let input = image.build();
    let out = pack(input.clone()).unwrap();
    assert_eq!(get16(&out, 4), 0);
    assert_eq!(get16(&out, 6), 1);
    assert_eq!(&out[8..10], &[1, 2]);
    assert_eq!(&out[10..16], b"sample");
    assert!(out[16..38].iter().all(|b| *b == 0));
    assert_eq!(out[38], 1);
    assert_eq!(out[39], 1);
    assert_eq!(get32(&out, 48), 0x1234);
    assert_eq!(get32(&out, 52), image.info_at() as u32);
    assert_eq!(get16(&out, 60), 0x0040);
    assert_eq!(&out[62..68], &[0; 6]);
    assert_eq!(get32(&out, 68), 0);
    assert_eq!(&out[72..84], &[0; 12]);
    assert_eq!(get32(&out, 84), 0x2000);
    assert_eq!(&out[88..120], &[0; 32]);
    assert_eq!(get32(&out, 120), 0x05070210);
    assert_eq!(out[124], 0x4);
    assert_eq!(&out[125..128], &[0; 3]);
    assert_eq!(&out[128..176], &[0xA0; 0x30]);
    assert_eq!(get32(&out, 180), 0x80);
    assert_eq!(&out[184..192], &[0; 8]);
    assert_eq!(&out[192..208], &[0xA1; 0x10]);
    assert_eq!(get32(&out, 208), 0x457B06F0);
    assert_eq!(&out[212..300], &[0; 0x58]);
    assert_eq!(get32(&out, 300), 0);
    assert_eq!(get32(&out, 304), 0x8555ABF2);
    assert_eq!(&out[308..336], &[0xA3; 0x1C]);
}

#[test]
fn gzip_stream_names_its_operating_system() {
    let out = pack(Image::user().build()).unwrap();
    let stream = &out[HEADER_SIZE..];
    assert_eq!(&stream[..4], &[0x1F, 0x8B, 8, 0]);
    assert_eq!(&stream[4..8], &[0; 4]);
    assert_eq!(stream[8], 2);
    assert_eq!(stream[9], 0x0B);
}

#[test]
fn same_filler_gives_the_same_bytes() {
    let input = Image::user().build();
    assert_eq!(pack(input.clone()).unwrap(), pack(input).unwrap());
}

#[test]
fn random_filler_changes_the_key_regions_only() {
    let input = Image::user().build();
    let fixed = pack(input.clone()).unwrap();
    let random = UnkPspExecutable::new(input).compress().unwrap();
    let random = random.as_bytes();
    assert_eq!(random.len(), fixed.len());
    for (i, (a, b)) in random.iter().zip(fixed.iter()).enumerate() {
        let key = (128..176).contains(&i) || (192..208).contains(&i) || (308..336).contains(&i);
        assert!(key || a == b, "byte {i} differs");
    }
}

#[test]
fn tags_of_the_caller_win() {
    let input = Image::user().build();
    let out = UnkPspExecutable::new(input).compress_with_tags(0x11223344, 0x55667788).unwrap();
    assert_eq!(get32(out.as_bytes(), 208), 0x11223344);
    assert_eq!(get32(out.as_bytes(), 304), 0x55667788);
}

#[test]
fn one_tag_of_the_caller_and_one_default() {
    let input = Image::user().build();
    let out = UnkPspExecutable::new(input)
        .compress_with_filler(None, Some(7), &filler())
        .unwrap();
    assert_eq!(get32(out.as_bytes(), 208), 0x457B06F0);
    assert_eq!(get32(out.as_bytes(), 304), 7);
}

#[test]
fn packed_input_is_refused_on_its_signature() {
    assert!(matches!(pack(b"~PSP".to_vec()), Err(Error::AlreadyPacked)));
    let mut long = b"~PSP".to_vec();
    long.extend_from_slice(&Image::user().build());
    assert!(matches!(pack(long), Err(Error::AlreadyPacked)));
    let out = pack(Image::user().build()).unwrap();
    assert!(matches!(pack(out), Err(Error::AlreadyPacked)));
}

#[test]
fn input_without_a_whole_signature_fails_in_the_reader() {
    for len in 0..4 {
        let res = pack(b"~PS"[..len].to_vec());
        match res {
            Err(Error::Io(e)) => assert_eq!(e.kind(), std::io::ErrorKind::UnexpectedEof),
            _ => panic!("expected an error of the reader"),
        }
    }
}

#[test]
fn image_shorter_than_a_file_header() {
    let input = Image::user().build();
    let res = pack(input[..51].to_vec());
    assert!(matches!(
        res,
        Err(Error::FromBytes { input_len: 51, expected_len: Some(52) })
    ));
}

#[test]
fn image_without_the_elf_magic() {
    let mut input = Image::user().build();
    input[0] = 0x7E;
    assert!(matches!(pack(input), Err(Error::NotElf)));
}

#[test]
fn bare_image_of_another_type() {
    let mut image = Image::user();
    image.e_type = 2;
    assert!(matches!(pack(image.build()), Err(Error::NotPrx)));
}

#[test]
fn segment_count_zero() {
    let mut image = Image::user();
    image.segments = 0;
    image.info_by_segment = false;
    image.info_by_section = true;
    assert!(matches!(pack(image.build()), Err(Error::NoSegments)));
}

#[test]
fn segment_count_five() {
    let mut image = Image::user();
    image.segments = 5;
    assert!(matches!(pack(image.build()), Err(Error::NoSegments)));
}

#[test]
fn segment_counts_one_to_four_fill_the_table_in_order() {
    for segments in 1..=4u16 {
        let mut image = Image::user();
        image.segments = segments;
        let out = pack(image.build()).unwrap();
        assert_eq!(out[39] as u16, segments);
        for i in 0..4usize {
            let set = i < segments as usize;
            let vaddr = if i == 0 || !set { 0 } else { 0x4000 + i as u32 };
            assert_eq!(get16(&out, 60 + 2 * i), if set { 0x0040 + i as u16 } else { 0 });
            assert_eq!(get32(&out, 68 + 4 * i), vaddr);
            assert_eq!(get32(&out, 84 + 4 * i), if set { 0x2000 + i as u32 } else { 0 });
        }
    }
}

#[test]
fn image_without_a_bss_section() {
    let mut image = Image::user();
    image.bss_name = NAME_DATA;
    assert!(matches!(pack(image.build()), Err(Error::BssNotFound)));
}

#[test]
fn section_whose_name_only_starts_with_bss_does_not_count() {
    let image = Image::user();
    let mut input = image.build();
    let names_at = image.info_at() + INFO_SIZE + image.payload;
    assert_eq!(&input[names_at + 11..names_at + 16], b".bss\0");
    input[names_at + 15] = b'x';
    assert!(matches!(pack(input), Err(Error::BssNotFound)));
}

#[test]
fn image_without_sections_has_no_bss() {
    let mut input = Image::user().build();
    set16(&mut input, 48, 0);
    assert!(matches!(pack(input), Err(Error::BssNotFound)));
}

#[test]
fn name_table_index_past_the_sections() {
    let mut input = Image::user().build();
    set16(&mut input, 50, 4);
    assert!(matches!(pack(input), Err(Error::FileTooSmall)));
}

#[test]
fn module_info_found_by_section_name() {
    let mut image = Image::user();
    image.info_by_segment = false;
    image.info_by_section = true;
    let input = image.build();
    let out = pack(input.clone()).unwrap();
    assert_eq!(get32(&out, 52), image.info_at() as u32);
    assert_eq!(&out[10..16], b"sample");
    assert_eq!(gunzip(&out[HEADER_SIZE..]), input);
}

#[test]
fn segment_wins_over_section() {
    let mut image = Image::user();
    image.info_by_section = true;
    let mut input = image.build();
    let shoff = get32(&input, 32) as usize;
    set32(&mut input, shoff + 3 * 40 + 16, 0);
    let out = pack(input).unwrap();
    assert_eq!(get32(&out, 52), image.info_at() as u32);
}

#[test]
fn image_without_module_info() {
    let mut image = Image::user();
    image.info_by_segment = false;
    assert!(matches!(pack(image.build()), Err(Error::NoModuleInfo)));
}

#[test]
fn section_name_without_an_end() {
    let image = Image::user();
    let mut input = image.build();
    let shoff = get32(&input, 32) as usize;
    let names_at = image.info_at() + INFO_SIZE + image.payload;
    let tail_at = input.len();
    input.extend_from_slice(b"tail");
    set32(&mut input, shoff, (tail_at - names_at) as u32);
    assert!(matches!(pack(input.clone()), Err(Error::CStr)));
    input.push(0);
    assert!(pack(input).is_ok());
}

#[test]
fn section_name_past_the_end_of_the_file() {
    let mut input = Image::user().build();
    let shoff = get32(&input, 32) as usize;
    let len = input.len() as u32;
    set32(&mut input, shoff, len);
    assert!(matches!(pack(input.clone()), Err(Error::FileTooSmall)));
    assert!(matches!(find_segment(&input, 0, b".bss"), Err(Error::FileTooSmall)));
    // the search for the zero-initialised data passes over such a section
    let mut header = PspHeader::default();
    header.num_segments = 1;
    read_segments_bss_info(&input, 0, &mut header).unwrap();
    assert_eq!(header.bss_size, 0x100);
}

#[test]
fn missing_bss_with_a_name_at_the_very_end_of_the_file() {
    let mut image = Image::user();
    image.bss_name = NAME_DATA;
    let mut input = image.build();
    let shoff = get32(&input, 32) as usize;
    let names_at = image.info_at() + INFO_SIZE + image.payload;
    // the first section is named by the last two bytes of the file: "s" and
    // its terminator
    let tail_at = input.len();
    input.extend_from_slice(b"s\0");
    set32(&mut input, shoff, (tail_at - names_at) as u32);
    assert!(matches!(pack(input.clone()), Err(Error::BssNotFound)));
    let mut header = PspHeader::default();
    header.num_segments = 1;
    assert!(matches!(
        read_segments_bss_info(&input, 0, &mut header),
        Err(Error::BssNotFound)
    ));
    // no terminator at all: the name cannot be `.bss`, the search goes on
    input.truncate(tail_at);
    input.extend_from_slice(b".bs");
    let mut header = PspHeader::default();
    header.num_segments = 1;
    assert!(matches!(
        read_segments_bss_info(&input, 0, &mut header),
        Err(Error::BssNotFound)
    ));
    // a name past the end of the file is passed over too
    set32(&mut input, shoff, u32::MAX);
    assert!(matches!(
        read_segments_bss_info(&input, 0, &mut header),
        Err(Error::BssNotFound)
    ));
}

#[test]
fn bss_at_the_end_of_the_file_needs_its_terminator() {
    let mut image = Image::user();
    image.bss_name = NAME_DATA;
    let mut input = image.build();
    let shoff = get32(&input, 32) as usize;
    let names_at = image.info_at() + INFO_SIZE + image.payload;
    let tail_at = input.len();
    input.extend_from_slice(b".bss");
    set32(&mut input, shoff + 2 * 40, (tail_at - names_at) as u32);
    let mut header = PspHeader::default();
    header.num_segments = 1;
    assert!(matches!(
        read_segments_bss_info(&input, 0, &mut header),
        Err(Error::BssNotFound)
    ));
    input.push(0);
    read_segments_bss_info(&input, 0, &mut header).unwrap();
    assert_eq!(header.bss_size, 0x100);
    assert!(pack(input).is_ok());
}

#[test]
fn segment_headers_past_the_end_of_the_file() {
    let mut input = Image::user().build();
    let len = input.len() as u32;
    set32(&mut input, 28, len + 1);
    assert!(matches!(pack(input), Err(Error::FileTooSmall)));
}

#[test]
fn segment_headers_cut_short() {
    let mut input = Image::user().build();
    let len = input.len() as u32;
    set32(&mut input, 28, len - 8);
    assert!(matches!(
        pack(input),
        Err(Error::FromBytes { input_len: 8, expected_len: Some(32) })
    ));
}

#[test]
fn module_info_cut_short() {
    let image = Image::user();
    let mut input = image.build();
    let len = input.len() as u32;
    set32(&mut input, 52 + 12, len - 10);
    set32(&mut input, 52 + 8, 0);
    let res = pack(input);
    assert!(matches!(
        res,
        Err(Error::FromBytes { input_len: 10, expected_len: Some(INFO_SIZE) })
    ));
}

#[test]
fn kernel_module() {
    let mut image = Image::user();
    image.kernel_address = true;
    image.attr = 0x1000;
    let input = image.build();
    let packed = UnkPspExecutable::new(input.clone())
        .compress_with_filler(None, None, &filler())
        .unwrap();
    assert_eq!(packed.kind(), ExecutableKind::KernelPrx);
    let out = packed.as_bytes();
    assert_eq!(get16(out, 4), 0x1000);
    assert_eq!(get32(out, 52), image.info_at() as u32 | 0x8000_0000);
    assert_eq!(get32(out, 120), 0x05070110);
    assert_eq!(out[124], 0x2);
    assert_eq!(get32(out, 208), 0xDADADAF0);
    assert_eq!(get32(out, 304), 0x55668D96);
    assert_eq!(gunzip(&out[HEADER_SIZE..]), input);
}

#[test]
fn kernel_boot_module() {
    let mut image = Image::user();
    image.kernel_address = true;
    image.attr = 0x3000;
    let out = pack(image.build()).unwrap();
    assert_eq!(get32(&out, 120), 0x06060110);
    assert_eq!(out[124], 0x2);
}

#[test]
fn kernel_address_with_user_attributes() {
    let mut image = Image::user();
    image.kernel_address = true;
    assert!(matches!(pack(image.build()), Err(Error::MixedPrivileges)));
}

#[test]
fn user_address_with_kernel_attributes() {
    let mut image = Image::user();
    image.attr = 0x1000;
    assert!(matches!(pack(image.build()), Err(Error::MixedPrivileges)));
}

#[test]
fn vsh_user_module_keeps_the_devkit_version() {
    let mut image = Image::user();
    image.attr = 0x0800;
    let out = pack(image.build()).unwrap();
    assert_eq!(out[124], 0x3);
    assert_eq!(get32(&out, 120), 0);
}

#[test]
fn package_is_put_together_again() {
    let mut image = Image::user();
    image.e_type = 2;
    let image_bytes = image.build();
    let preamble = 100;
    let trailing = 33;
    let input = package(&image_bytes, preamble, trailing);
    let packed = UnkPspExecutable::new(input.clone())
        .compress_with_filler(None, None, &filler())
        .unwrap();
    assert_eq!(packed.kind(), ExecutableKind::Pbp);
    let out = packed.as_bytes();
    let comp_size = get32(out, preamble + 176) as usize;
    assert_eq!(get32(out, 32) as usize, preamble);
    assert_eq!(out.len(), preamble + (HEADER_SIZE + comp_size) + trailing);
    assert_eq!(&out[..32], &input[..32]);
    assert_eq!(&out[36..preamble], &input[36..preamble]);
    assert_eq!(&out[out.len() - trailing..], &input[input.len() - trailing..]);
    assert_eq!(get32(out, preamble), 0x5053507E);
    assert_eq!(get32(out, preamble + 40) as usize, image_bytes.len());
    assert_eq!(get32(out, preamble + 44) as usize, HEADER_SIZE + comp_size);
    assert_eq!(get32(out, preamble + 208), 0xADF305F0);
    assert_eq!(get32(out, preamble + 304), 0x7316308C);
    // without an API flag the module becomes a Memory Stick module, in the
    // header and in the image that is compressed
    assert_eq!(get16(out, preamble + 4), 0x0200);
    assert_eq!(out[preamble + 124], 0xD);
    assert_eq!(get32(out, preamble + 120), 0x06020010);
    let mut expected = image_bytes.clone();
    set16(&mut expected, image.info_at(), 0x0200);
    assert_eq!(gunzip(&out[preamble + HEADER_SIZE..out.len() - trailing]), expected);
}

#[test]
fn package_modes_by_api() {
    for (attr, mode) in [(0x0800u16, 0xCu8), (0x0E00, 0xC), (0x0600, 0xE), (0x0400, 0xA)] {
        let mut image = Image::user();
        image.attr = attr;
        let input = package(&image.build(), 40, 0);
        let out = pack(input).unwrap();
        assert_eq!(out[40 + 124], mode);
        assert_eq!(get16(&out, 40 + 4), attr);
        assert_eq!(get32(&out, 40 + 120), 0);
    }
}

#[test]
fn kernel_package() {
    let mut image = Image::user();
    image.kernel_address = true;
    image.attr = 0x1000;
    let input = package(&image.build(), 40, 0);
    assert!(matches!(pack(input), Err(Error::KernelPbp)));
}

#[test]
fn package_shorter_than_its_header() {
    let mut input = Vec::new();
    put32(&mut input, 0x50425000);
    input.extend_from_slice(&[0; 35]);
    assert!(matches!(
        pack(input),
        Err(Error::FromBytes { input_len: 39, expected_len: Some(40) })
    ));
}

#[test]
fn package_whose_image_ends_before_it_starts() {
    let image = Image::user().build();
    let mut input = package(&image, 40, 0);
    set32(&mut input, 36, 39);
    assert!(matches!(pack(input), Err(Error::FileTooSmall)));
}

#[test]
fn package_whose_image_ends_past_the_file() {
    let image = Image::user().build();
    let mut input = package(&image, 40, 0);
    let len = input.len() as u32;
    set32(&mut input, 36, len + 1);
    assert!(matches!(pack(input), Err(Error::FileTooSmall)));
}

#[test]
fn plan_of_a_package_at_an_odd_address() {
    let input = package(&Image::user().build(), 40, 0);
    let res = plan(&input, 0x1001, None, None);
    assert!(matches!(res, Err(Error::Alignment { align: 4, addr: 0x1001 })));
    assert!(plan(&input, 0x1000, None, None).is_ok());
}

#[test]
fn plan_of_a_bare_image_ignores_the_address() {
    let input = Image::user().build();
    let a = plan(&input, 0x1001, None, None).unwrap();
    let b = plan(&input, 0x1000, None, None).unwrap();
    assert_eq!(a.header, b.header);
    assert_eq!(a.kind, ExecutableKind::UserPrx);
    assert_eq!((a.image_start, a.image_end), (0, input.len()));
    assert_eq!(a.mod_info_start, 84);
    assert_eq!(a.header.comp_size, 0);
    assert_eq!(a.header.psp_size, 0);
}

#[test]
fn stages_by_hand() {
    let image = Image::user();
    let mut input = package(&image.build(), 48, 5);
    let p = plan(&input, 0, Some(1), Some(2)).unwrap();
    assert_eq!((p.image_start, p.image_end), (48, input.len() - 5));
    assert_eq!(p.mod_info.mod_attr.bits, 0x0200);
    write_back(&mut input, &p);
    assert_eq!(get16(&input, 48 + image.info_at()), 0x0200);
    let compressed = [9u8, 8, 7];
    let mut out = assemble(&input, &p, &filler(), &compressed);
    assert_eq!(out.len(), 48 + HEADER_SIZE + 3 + 5);
    assert_eq!(&out[..48], &input[..48]);
    assert_eq!(&out[48 + HEADER_SIZE..48 + HEADER_SIZE + 3], &compressed);
    assert_eq!(&out[48 + HEADER_SIZE + 3..], &input[input.len() - 5..]);
    assert_eq!(get32(&out, 48 + 176), 3);
    assert_eq!(get32(&out, 48 + 44), HEADER_SIZE as u32 + 3);
    let before = out.clone();
    assert!(matches!(
        reposition(&mut out, 2, 77),
        Err(Error::Alignment { align: 4, addr: 2 })
    ));
    assert_eq!(out, before);
    reposition(&mut out, 8, 77).unwrap();
    assert_eq!(get32(&out, 32), 77);
    assert_eq!(&out[..32], &before[..32]);
    assert_eq!(&out[36..], &before[36..]);
}

#[test]
fn reposition_needs_a_package_header() {
    let mut out = vec![0u8; 40];
    assert!(matches!(reposition(&mut out, 0, 1), Err(Error::NotPbp)));
    let mut short = vec![0u8; 39];
    assert!(matches!(
        reposition(&mut short, 0, 1),
        Err(Error::FromBytes { input_len: 39, expected_len: Some(40) })
    ));
}

#[test]
fn file_sizes_and_bytes() {
    let mut file = UnkPspExecutable::new(vec![1, 2, 3]);
    assert_eq!(file.size(), 3);
    assert_eq!(file.as_bytes(), &[1, 2, 3]);
    file.as_mut_bytes()[1] = 9;
    assert_eq!(file.as_bytes(), &[1, 9, 3]);
    let taken = UnkPspExecutable::from_vec(vec![4, 5]).unwrap();
    assert_eq!(taken.as_bytes(), &[4, 5]);
}

#[test]
fn search_by_segment() {
    let mut image = Image::user();
    image.segments = 3;
    let input = image.build();
    let found = find_module_info_phdr(&input, 0).unwrap().unwrap();
    assert_eq!(found.p_paddr as usize, image.info_at());
    assert_eq!(found.p_vaddr, 0);
    assert_eq!(found.p_memsz, 0x2000);
    image.info_by_segment = false;
    assert_eq!(find_module_info_phdr(&image.build(), 0).unwrap(), None);
    let boxed = package(&input, 64, 3);
    assert_eq!(find_module_info_phdr(&boxed, 64).unwrap(), Some(found));
    assert!(matches!(find_module_info_phdr(&input, input.len() + 1), Err(Error::FileTooSmall)));
    assert!(matches!(
        find_module_info_phdr(&input, input.len()),
        Err(Error::FromBytes { input_len: 0, expected_len: Some(52) })
    ));
    assert!(matches!(find_module_info_phdr(&input, 1), Err(Error::NotElf)));
}

#[test]
fn first_loadable_segment_with_two_addresses_wins() {
    let mut image = Image::user();
    image.segments = 3;
    let mut input = image.build();
    // the first segment is not loadable, the third has two addresses too
    set32(&mut input, 52, 2);
    set32(&mut input, 52 + 64 + 8, 0x100);
    set32(&mut input, 52 + 64 + 12, 0x200);
    let found = find_module_info_phdr(&input, 0).unwrap().unwrap();
    assert_eq!((found.p_vaddr, found.p_paddr), (0x100, 0x200));
    // now the second has, and comes first
    set32(&mut input, 52 + 32 + 8, 0x300);
    let found = find_module_info_phdr(&input, 0).unwrap().unwrap();
    assert_eq!(found.p_vaddr, 0x300);
}

#[test]
fn search_by_section_name() {
    let image = Image::user();
    let input = image.build();
    let bss = find_segment(&input, 0, b".bss").unwrap().unwrap();
    assert_eq!(bss.sh_size, 0x100);
    let data = find_segment(&input, 0, b".data").unwrap().unwrap();
    assert_eq!(data.sh_offset as usize, image.info_at());
    let names = find_segment(&input, 0, b".shstrtab").unwrap().unwrap();
    assert_eq!(names.sh_size as usize, NAMES.len());
    let null = find_segment(&input, 0, b"").unwrap().unwrap();
    assert_eq!((null.sh_name, null.sh_size), (0, 0));
    assert_eq!(find_segment(&input, 0, b".bs").unwrap(), None);
    assert_eq!(find_segment(&input, 0, b".bss\0").unwrap(), None);
    assert_eq!(find_segment(&input, 0, b".rodata.sceModuleInfo").unwrap(), None);
    assert_eq!(find_segment(&input, 0, b"bss").unwrap(), None);
    let boxed = package(&input, 48, 0);
    assert_eq!(find_segment(&boxed, 48, b".bss").unwrap(), Some(bss));
}

#[test]
fn headers_of_an_image() {
    let mut image = Image::user();
    image.segments = 2;
    let input = image.build();
    let header = read_image_header(&input, 0).unwrap();
    assert_eq!((header.e_phnum, header.e_shnum, header.e_shstrndx), (2, 4, 1));
    let phdrs: Vec<Elf32Phdr> = read_records(&input, 0, header.e_phoff, 2).unwrap();
    assert_eq!(phdrs.len(), 2);
    assert_eq!(phdrs[1].p_paddr, 0x4001);
    let shdrs: Vec<Elf32Shdr> = read_records(&input, 0, header.e_shoff, 4).unwrap();
    assert_eq!(shdrs[2].sh_name, NAME_BSS);
    let missing: Result<Vec<Elf32Shdr>, Error> = read_records(&input, 1, u32::MAX, 1);
    assert!(matches!(missing, Err(Error::FileTooSmall)));
    let past: Result<Vec<Elf32Shdr>, Error> = read_records(&input, usize::MAX, 1, 0);
    assert!(matches!(past, Err(Error::FileTooSmall)));
}

#[test]
fn segment_table_and_bss_size() {
    let mut image = Image::user();
    image.segments = 3;
    let input = image.build();
    let mut header = PspHeader::default();
    header.num_segments = 2;
    header.seg_addr = [9, 9, 9, 9];
    let before = header;
    read_segments_bss_info(&input, 0, &mut header).unwrap();
    let expected = PspHeader {
        seg_align: [0x0040, 0x0041, 0, 0],
        seg_addr: [0, 0x4001, 9, 9],
        seg_size: [0x2000, 0x2001, 0, 0],
        bss_size: 0x100,
        ..before
    };
    assert_eq!(header, expected);
}

#[test]
fn segment_table_is_left_filled_when_bss_is_missing() {
    let mut image = Image::user();
    image.bss_name = NAME_DATA;
    let input = image.build();
    let mut header = PspHeader::default();
    header.num_segments = 1;
    let before = header;
    assert!(matches!(
        read_segments_bss_info(&input, 0, &mut header),
        Err(Error::BssNotFound)
    ));
    let expected = PspHeader {
        seg_align: [0x0040, 0, 0, 0],
        seg_size: [0x2000, 0, 0, 0],
        ..before
    };
    assert_eq!(header, expected);
}

#[test]
fn segment_table_has_four_places() {
    let mut image = Image::user();
    image.segments = 5;
    let input = image.build();
    let mut header = PspHeader::default();
    header.num_segments = 5;
    let before = header;
    assert!(matches!(
        read_segments_bss_info(&input, 0, &mut header),
        Err(Error::NoSegments)
    ));
    assert_eq!(header, before);
    header.num_segments = 4;
    read_segments_bss_info(&input, 0, &mut header).unwrap();
    assert_eq!(header.seg_size, [0x2000, 0x2001, 0x2002, 0x2003]);
    header.num_segments = 0;
    header.seg_size = [1, 2, 3, 4];
    read_segments_bss_info(&input, 0, &mut header).unwrap();
    assert_eq!(header.seg_size, [1, 2, 3, 4]);
}
