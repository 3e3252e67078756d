use psp_packer::error::Error;
use psp_packer::psp::{choose_tags, default_oe_tag_handler, default_psp_tag_handler, DecryptMode};
use psp_packer::psp::{ExecutableKind, ModInfoAttribute, PspHeader};
use psp_packer::utils::AsBytes;

fn derived(bits: u16, is_pbp: bool) -> (DecryptMode, u32, u16) {
    let mut header = PspHeader::default();
    header.attribute = ModInfoAttribute::from_bits_retain(bits);
    header.devkit_version = 0xDEAD;
    let before = header;
    header.set_decript_mode(is_pbp);
    let expected = PspHeader {
        attribute: header.attribute,
        decrypt_mode: header.decrypt_mode,
        devkit_version: header.devkit_version,
        ..before
    };
    assert_eq!(header, expected);
    (header.decrypt_mode, header.devkit_version, header.attribute.bits())
}

#[test]
fn mode_table() {
    let rows: [(u16, bool, DecryptMode, u32, u16); 20] = [
        // kernel mode comes first, package or not
        (0x1000, false, DecryptMode::Kernel, 0x05070110, 0x1000),
        (0x1000, true, DecryptMode::Kernel, 0x05070110, 0x1000),
        (0x3000, false, DecryptMode::Kernel, 0x06060110, 0x3000),
        (0x3000, true, DecryptMode::Kernel, 0x06060110, 0x3000),
        (0x1E00, true, DecryptMode::Kernel, 0x05070110, 0x1E00),
        (0x3800, false, DecryptMode::Kernel, 0x06060110, 0x3800),
        // packages by API
        (0x0800, true, DecryptMode::Updater, 0xDEAD, 0x0800),
        (0x0E00, true, DecryptMode::Updater, 0xDEAD, 0x0E00),
        (0x2800, true, DecryptMode::Updater, 0xDEAD, 0x2800),
        (0x0600, true, DecryptMode::App, 0xDEAD, 0x0600),
        (0x0400, true, DecryptMode::UsbWlan, 0xDEAD, 0x0400),
        (0x0000, true, DecryptMode::Ms, 0x06020010, 0x0200),
        (0x0200, true, DecryptMode::Ms, 0x06020010, 0x0200),
        (0x2000, true, DecryptMode::Ms, 0x06020010, 0x2200),
        (0x00FF, true, DecryptMode::Ms, 0x06020010, 0x02FF),
        // bare user modules
        (0x0800, false, DecryptMode::Vsh, 0xDEAD, 0x0800),
        (0x0E00, false, DecryptMode::Vsh, 0xDEAD, 0x0E00),
        (0x0000, false, DecryptMode::Standard, 0x05070210, 0x0000),
        (0x0600, false, DecryptMode::Standard, 0x05070210, 0x0600),
        (0x2400, false, DecryptMode::Standard, 0x05070210, 0x2400),
    ];
    for (bits, is_pbp, mode, devkit, after) in rows {
        assert_eq!(derived(bits, is_pbp), (mode, devkit, after), "{bits:#06X} {is_pbp}");
    }
}

#[test]
fn mode_depends_on_the_flags_alone() {
    for flags in (0..0x40u16).map(|i| i << 9) {
        for is_pbp in [false, true] {
            let (mode, devkit, _) = derived(flags & 0x3E00, is_pbp);
            for noise in [0x0001u16, 0x01FF, 0x4000, 0x8000, 0xC1FF] {
                let (m, d, _) = derived((flags & 0x3E00) | noise, is_pbp);
                assert_eq!((m, d), (mode, devkit));
            }
            assert_eq!(derived(flags & 0x3E00, is_pbp).0, mode);
        }
    }
}

#[test]
fn mode_codes() {
    let codes = [
        (DecryptMode::Kernel, 0x2u8),
        (DecryptMode::Vsh, 0x3),
        (DecryptMode::Standard, 0x4),
        (DecryptMode::Updater, 0xC),
        (DecryptMode::App, 0xE),
        (DecryptMode::UsbWlan, 0xA),
        (DecryptMode::Ms, 0xD),
    ];
    for (mode, code) in codes {
        assert_eq!(mode.code(), code);
        let header = PspHeader { decrypt_mode: mode, ..PspHeader::default() };
        assert_eq!(header.as_bytes()[124], code);
    }
    assert_eq!(DecryptMode::default(), DecryptMode::Standard);
}

#[test]
fn default_tags_of_each_kind() {
    assert_eq!(default_psp_tag_handler(ExecutableKind::UserPrx), 0x457B06F0);
    assert_eq!(default_psp_tag_handler(ExecutableKind::KernelPrx), 0xDADADAF0);
    assert_eq!(default_psp_tag_handler(ExecutableKind::Pbp), 0xADF305F0);
    assert_eq!(default_oe_tag_handler(ExecutableKind::UserPrx), 0x8555ABF2);
    assert_eq!(default_oe_tag_handler(ExecutableKind::KernelPrx), 0x55668D96);
    assert_eq!(default_oe_tag_handler(ExecutableKind::Pbp), 0x7316308C);
}

#[test]
fn tags_left_open_and_tags_given() {
    let kinds = [
        (ExecutableKind::UserPrx, 0x457B06F0u32, 0x8555ABF2u32),
        (ExecutableKind::KernelPrx, 0xDADADAF0, 0x55668D96),
        (ExecutableKind::Pbp, 0xADF305F0, 0x7316308C),
    ];
    for (kind, tag, oe_tag) in kinds {
        assert_eq!(choose_tags(kind, None, None), (tag, oe_tag));
        assert_eq!(choose_tags(kind, Some(1), Some(2)), (1, 2));
        assert_eq!(choose_tags(kind, Some(0), None), (0, oe_tag));
        assert_eq!(choose_tags(kind, None, Some(u32::MAX)), (tag, u32::MAX));
    }
}

#[test]
fn kinds() {
    assert!(ExecutableKind::UserPrx.is_prx());
    assert!(ExecutableKind::KernelPrx.is_prx());
    assert!(!ExecutableKind::Pbp.is_prx());
    assert!(ExecutableKind::Pbp.is_pbp());
    assert!(!ExecutableKind::UserPrx.is_pbp());
    assert!(!ExecutableKind::KernelPrx.is_pbp());
    assert_eq!(ExecutableKind::UserPrx.name(), "User PRX");
    assert_eq!(ExecutableKind::KernelPrx.name(), "Kernel PRX");
    assert_eq!(ExecutableKind::Pbp.name(), "PBP");
}

#[test]
fn attribute_sets() {
    let mut set = ModInfoAttribute::from_bits_retain(0x0400);
    assert_eq!(set.bits(), 0x0400);
    assert!(set.contains(ModInfoAttribute::usb_wlan_api()));
    assert!(!set.contains(ModInfoAttribute::app_api()));
    assert!(!set.contains(ModInfoAttribute::ms_api()));
    set.insert(ModInfoAttribute::ms_api());
    assert_eq!(set.bits(), 0x0600);
    assert!(set.contains(ModInfoAttribute::app_api()));
    assert!(set.contains(ModInfoAttribute::from_bits_retain(0)));
    assert_eq!(ModInfoAttribute::kernel_mode().bits(), 0x1000);
    assert_eq!(ModInfoAttribute::boot_mode().bits(), 0x2000);
    assert_eq!(ModInfoAttribute::vsh_api().bits(), 0x0800);
    assert_eq!(ModInfoAttribute::app_api().bits(), 0x0600);
    assert_eq!(ModInfoAttribute::usb_wlan_api().bits(), 0x0400);
    assert_eq!(ModInfoAttribute::ms_api().bits(), 0x0200);
    let odd = ModInfoAttribute::from_bits_retain(0x8001);
    assert_eq!(odd.bits(), 0x8001);
}

#[test]
fn blank_header() {
    let header = PspHeader::default();
    let bytes = header.as_bytes();
    assert_eq!(bytes.len(), 336);
    for (i, b) in bytes.iter().enumerate() {
        let expected = match i {
            0 => 0x7E,
            1 => 0x50,
            2 => 0x53,
            3 => 0x50,
            38 => 1,
            124 => 4,
            180 => 0x80,
            _ => 0,
        };
        assert_eq!(*b, expected, "byte {i}");
    }
}

#[test]
fn header_layout() {
    let mut header = PspHeader::default();
    header.attribute = ModInfoAttribute::from_bits_retain(0x0102);
    header.comp_attribute = 0x0304;
    header.module_version_low = 5;
    header.module_version_high = 6;
    header.module_name = [7; 28];
    header.version = 8;
    header.num_segments = 9;
    header.elf_size = 0x0A0B0C0D;
    header.psp_size = 0x0E0F1011;
    header.entry = 0x12131415;
    header.module_info_offset = 0x16171819;
    header.bss_size = 0x1A1B1C1D;
    header.seg_align = [0x0101, 0x0202, 0x0303, 0x0404];
    header.seg_addr = [0x11111111, 0x22222222, 0x33333333, 0x44444444];
    header.seg_size = [0x55555555, 0x66666666, 0x77777777, 0x88888888];
    header.reserved = [1, 2, 3, 4, 5];
    header.devkit_version = 0x1E1F2021;
    header.decrypt_mode = DecryptMode::App;
    header.padding = 0x22;
    header.overlap_size = 0x2324;
    header.key_data0 = [0x25; 0x30];
    header.comp_size = 0x26272829;
    header._80 = 0x2A2B2C2D;
    header.reserved2 = [6, 7];
    header.key_data1 = [0x2E; 0x10];
    header.tag = 0x2F303132;
    header.scheck = [0x33; 0x58];
    header.key_data2 = 0x34353637;
    header.oe_tag = 0x38393A3B;
    header.key_data3 = [0x3C; 0x1C];
    let b = header.as_bytes();
    assert_eq!(b.len(), 336);
    assert_eq!(&b[..4], b"~PSP");
    assert_eq!(&b[4..10], &[0x02, 0x01, 0x04, 0x03, 5, 6]);
    assert_eq!(&b[10..38], &[7; 28]);
    assert_eq!(&b[38..40], &[8, 9]);
    assert_eq!(&b[40..44], &[0x0D, 0x0C, 0x0B, 0x0A]);
    assert_eq!(&b[44..48], &[0x11, 0x10, 0x0F, 0x0E]);
    assert_eq!(&b[48..52], &[0x15, 0x14, 0x13, 0x12]);
    assert_eq!(&b[52..56], &[0x19, 0x18, 0x17, 0x16]);
    assert_eq!(&b[56..60], &[0x1D, 0x1C, 0x1B, 0x1A]);
    assert_eq!(&b[60..68], &[1, 1, 2, 2, 3, 3, 4, 4]);
    assert_eq!(&b[68..72], &[0x11; 4]);
    assert_eq!(&b[80..84], &[0x44; 4]);
    assert_eq!(&b[84..88], &[0x55; 4]);
    assert_eq!(&b[96..100], &[0x88; 4]);
    assert_eq!(&b[100..104], &[1, 0, 0, 0]);
    assert_eq!(&b[116..120], &[5, 0, 0, 0]);
    assert_eq!(&b[120..124], &[0x21, 0x20, 0x1F, 0x1E]);
    assert_eq!(&b[124..128], &[0xE, 0x22, 0x24, 0x23]);
    assert_eq!(&b[128..176], &[0x25; 0x30]);
    assert_eq!(&b[176..180], &[0x29, 0x28, 0x27, 0x26]);
    assert_eq!(&b[180..184], &[0x2D, 0x2C, 0x2B, 0x2A]);
    assert_eq!(&b[184..192], &[6, 0, 0, 0, 7, 0, 0, 0]);
    assert_eq!(&b[192..208], &[0x2E; 0x10]);
    assert_eq!(&b[208..212], &[0x32, 0x31, 0x30, 0x2F]);
    assert_eq!(&b[212..300], &[0x33; 0x58]);
    assert_eq!(&b[300..304], &[0x37, 0x36, 0x35, 0x34]);
    assert_eq!(&b[304..308], &[0x3B, 0x3A, 0x39, 0x38]);
    assert_eq!(&b[308..336], &[0x3C; 0x1C]);
}

#[test]
fn exit_codes() {
    let io = std::io::Error::from(std::io::ErrorKind::NotFound);
    let table = [
        (Error::Io(io), 101),
        (Error::AlreadyPacked, 102),
        (Error::NotPrx, 103),
        (Error::NotPbp, 104),
        (Error::NotElf, 105),
        (Error::NoModuleInfo, 106),
        (Error::FileTooBig, 107),
        (Error::FileTooSmall, 108),
        (Error::KernelPbp, 109),
        (Error::MixedPrivileges, 110),
        (Error::NoSegments, 111),
        (Error::BssNotFound, 112),
        (Error::FromBytes { input_len: 1, expected_len: Some(2) }, 113),
        (Error::Alignment { align: 4, addr: 1 }, 114),
        (Error::CStr, 115),
    ];
    for (error, code) in table {
        assert_eq!(error.error_code(), code);
    }
}

#[test]
fn descriptions() {
    assert_eq!(Error::AlreadyPacked.description(), "file already packed");
    assert_eq!(Error::FileTooSmall.description(), "the file is smaller than expected");
    assert_eq!(Error::NotElf.description(), "no elf found");
    assert_eq!(Error::NotPrx.description(), "the program was expecting a PRX file");
    assert_eq!(Error::NotPbp.description(), "the program was expecting a PBP file");
    assert_eq!(
        Error::NoModuleInfo.description(),
        "the elf part of the file do not have a module info section"
    );
    assert_eq!(Error::KernelPbp.description(), "a kernel PBP is not a valid PSP format");
    assert_eq!(
        Error::MixedPrivileges.description(),
        "the file has mixed privileges between the elf and module info data"
    );
    assert_eq!(Error::NoSegments.description(), "the elf part of the file has no segments");
    assert_eq!(
        Error::BssNotFound.description(),
        "the elf part of the file do not have a `.bss` section"
    );
    assert_eq!(
        Error::FileTooBig.description(),
        "the file is bigger than expected for a PSP file"
    );
    let conversion = "the program had a internal type conversion error";
    assert_eq!(Error::FromBytes { input_len: 0, expected_len: None }.description(), conversion);
    assert_eq!(Error::Alignment { align: 4, addr: 2 }.description(), conversion);
    assert_eq!(Error::CStr.description(), conversion);
}

#[test]
fn reader_errors_become_errors_of_the_library() {
    let io = std::io::Error::from(std::io::ErrorKind::PermissionDenied);
    match Error::from(io) {
        Error::Io(inner) => assert_eq!(inner.kind(), std::io::ErrorKind::PermissionDenied),
        _ => panic!("expected the reader's error"),
    }
}
