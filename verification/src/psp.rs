//! The records and tags of the PSP formats: the PBP package header, the
//! module information that an image carries, and the `~PSP` header that the
//! packer writes.
use vstd::prelude::*;
use vstd::array::spec_array_fill_for_copy_type;
use crate::bytes::{le_u16, le_u32, le_word, put_bytes, put_u16, put_u32, put_word, read_u16};
use crate::bytes::{read_u32, read_word, u16_le, u32_le, word_bytes, word_le, word_size};
use crate::bytes::{lemma_le_u16_at, lemma_le_u32_at, lemma_le_word_at, lemma_u16_bytes_round_trip};
use crate::bytes::{lemma_u32_bytes_round_trip, lemma_word_bytes_round_trip, lemma_word_round_trip};
use crate::bytes::{array_of, lemma_array_of, lemma_word_size, read_array};
use crate::error::Error;
use crate::utils::{AsBytes, Record, TryFromBytes};

verus! {

/// `~PSP`, read as a little-endian word.
pub const PSP_HEADER_MAGIC: u32 = 0x5053507E;

/// `\0PBP`, read as a little-endian word.
pub const PBP_HEADER_MAGIC: u32 = 0x50425000;

/// The module runs in kernel mode.
pub const KERNEL_MODE: u16 = 0x1000;

/// The module is loaded at boot.
pub const BOOT_MODE: u16 = 0x2000;

/// The module uses the VSH/XMB API (updaters).
pub const VSH_API: u16 = 0x0800;

/// The module uses the application API (comics and the like).
pub const APP_API: u16 = 0x0600;

/// The module uses the USB and WLAN API.
pub const USB_WLAN_API: u16 = 0x0400;

/// The module uses the Memory Stick API.
pub const MS_API: u16 = 0x0200;

/// The size of the `~PSP` header in bytes.
pub const PSP_HEADER_SIZE: usize = 336;

/// The attributes of a module: a set of flags, kept with the exact bits of
/// the file.
#[derive(Clone, Copy, Debug, Default, PartialEq, Eq, PartialOrd, Ord, Hash)]
pub struct ModInfoAttribute {
    pub bits: u16,
}

impl ModInfoAttribute {
    /// Whether every bit of `flags` is set.
    pub open spec fn has(&self, flags: u16) -> bool {
        self.bits & flags == flags
    }

    pub open spec fn is_kernel_mode(&self) -> bool {
        self.has(KERNEL_MODE)
    }

    pub open spec fn is_boot_mode(&self) -> bool {
        self.has(BOOT_MODE)
    }

    pub open spec fn has_vsh_api(&self) -> bool {
        self.has(VSH_API)
    }

    pub open spec fn has_app_api(&self) -> bool {
        self.has(APP_API)
    }

    pub open spec fn has_usb_wlan_api(&self) -> bool {
        self.has(USB_WLAN_API)
    }

    /// The set with exactly the bits of `bits`, known or not.
    pub fn from_bits_retain(bits: u16) -> (set: Self)
        ensures
            set.bits == bits,
    {
        ModInfoAttribute { bits }
    }

    pub fn bits(&self) -> (bits: u16)
        ensures
            bits == self.bits,
    {
        self.bits
    }

    /// Whether every flag of `other` is in this set.
    pub fn contains(&self, other: ModInfoAttribute) -> (yes: bool)
        ensures
            yes == self.has(other.bits),
    {
        self.bits & other.bits == other.bits
    }

    /// Adds the flags of `other` to this set.
    pub fn insert(&mut self, other: ModInfoAttribute)
        ensures
            final(self).bits == old(self).bits | other.bits,
    {
        self.bits = self.bits | other.bits;
    }

    pub fn kernel_mode() -> (set: Self)
        ensures
            set.bits == KERNEL_MODE,
    {
        ModInfoAttribute { bits: KERNEL_MODE }
    }

    pub fn boot_mode() -> (set: Self)
        ensures
            set.bits == BOOT_MODE,
    {
        ModInfoAttribute { bits: BOOT_MODE }
    }

    pub fn vsh_api() -> (set: Self)
        ensures
            set.bits == VSH_API,
    {
        ModInfoAttribute { bits: VSH_API }
    }

    pub fn app_api() -> (set: Self)
        ensures
            set.bits == APP_API,
    {
        ModInfoAttribute { bits: APP_API }
    }

    pub fn usb_wlan_api() -> (set: Self)
        ensures
            set.bits == USB_WLAN_API,
    {
        ModInfoAttribute { bits: USB_WLAN_API }
    }

    pub fn ms_api() -> (set: Self)
        ensures
            set.bits == MS_API,
    {
        ModInfoAttribute { bits: MS_API }
    }
}

/// Which key handling the firmware applies to the module.
#[derive(Clone, Copy, Debug, PartialEq, Eq, PartialOrd, Ord, Hash)]
pub enum DecryptMode {
    Kernel,
    Vsh,
    Standard,
    Updater,
    App,
    UsbWlan,
    Ms,
}

impl DecryptMode {
    /// The byte that stands for the mode in the `~PSP` header.
    pub open spec fn code_spec(&self) -> u8 {
        match self {
            DecryptMode::Kernel => 0x2,
            DecryptMode::Vsh => 0x3,
            DecryptMode::Standard => 0x4,
            DecryptMode::Updater => 0xC,
            DecryptMode::App => 0xE,
            DecryptMode::UsbWlan => 0xA,
            DecryptMode::Ms => 0xD,
        }
    }

    pub fn code(&self) -> (code: u8)
        ensures
            code == self.code_spec(),
    {
        match self {
            DecryptMode::Kernel => 0x2,
            DecryptMode::Vsh => 0x3,
            DecryptMode::Standard => 0x4,
            DecryptMode::Updater => 0xC,
            DecryptMode::App => 0xE,
            DecryptMode::UsbWlan => 0xA,
            DecryptMode::Ms => 0xD,
        }
    }
}

impl DecryptMode {
    /// The mode that a byte of the `~PSP` header stands for. A byte that
    /// stands for no mode is read as the standard mode.
    pub open spec fn of_code(code: u8) -> DecryptMode {
        if code == 0x2 {
            DecryptMode::Kernel
        } else if code == 0x3 {
            DecryptMode::Vsh
        } else if code == 0xC {
            DecryptMode::Updater
        } else if code == 0xE {
            DecryptMode::App
        } else if code == 0xA {
            DecryptMode::UsbWlan
        } else if code == 0xD {
            DecryptMode::Ms
        } else {
            DecryptMode::Standard
        }
    }

    /// Whether a byte stands for a mode.
    pub open spec fn is_code(code: u8) -> bool {
        DecryptMode::of_code(code).code_spec() == code
    }

    pub fn from_code(code: u8) -> (mode: Self)
        ensures
            mode == DecryptMode::of_code(code),
    {
        match code {
            0x2 => DecryptMode::Kernel,
            0x3 => DecryptMode::Vsh,
            0xC => DecryptMode::Updater,
            0xE => DecryptMode::App,
            0xA => DecryptMode::UsbWlan,
            0xD => DecryptMode::Ms,
            _ => DecryptMode::Standard,
        }
    }
}

impl Default for DecryptMode {
    fn default() -> (mode: Self)
        ensures
            mode == DecryptMode::Standard,
    {
        DecryptMode::Standard
    }
}

/// What kind of executable a file is. It is found while the file is read
/// and decides the mode and the tags of the output.
#[derive(Clone, Copy, Debug, PartialEq, Eq, PartialOrd, Ord, Hash)]
pub enum ExecutableKind {
    UserPrx,
    KernelPrx,
    Pbp,
}

impl ExecutableKind {
    pub fn is_prx(&self) -> (yes: bool)
        ensures
            yes == (*self is KernelPrx || *self is UserPrx),
    {
        matches!(self, ExecutableKind::KernelPrx | ExecutableKind::UserPrx)
    }

    pub fn is_pbp(&self) -> (yes: bool)
        ensures
            yes == (*self is Pbp),
    {
        matches!(self, ExecutableKind::Pbp)
    }

    pub open spec fn name_spec(&self) -> Seq<char> {
        match self {
            ExecutableKind::UserPrx => "User PRX"@,
            ExecutableKind::KernelPrx => "Kernel PRX"@,
            ExecutableKind::Pbp => "PBP"@,
        }
    }

    /// The name of the kind, for a report to the user.
    pub fn name(&self) -> (text: &'static str)
        ensures
            text@ == self.name_spec(),
    {
        match self {
            ExecutableKind::UserPrx => "User PRX",
            ExecutableKind::KernelPrx => "Kernel PRX",
            ExecutableKind::Pbp => "PBP",
        }
    }
}

/// The `tag` of the output for each kind of executable.
pub open spec fn default_psp_tag(kind: ExecutableKind) -> u32 {
    match kind {
        ExecutableKind::UserPrx => 0x457B06F0,
        ExecutableKind::KernelPrx => 0xDADADAF0,
        ExecutableKind::Pbp => 0xADF305F0,
    }
}

/// The `oe_tag` of the output for each kind of executable.
pub open spec fn default_oe_tag(kind: ExecutableKind) -> u32 {
    match kind {
        ExecutableKind::UserPrx => 0x8555ABF2,
        ExecutableKind::KernelPrx => 0x55668D96,
        ExecutableKind::Pbp => 0x7316308C,
    }
}

pub fn default_psp_tag_handler(kind: ExecutableKind) -> (tag: u32)
    ensures
        tag == default_psp_tag(kind),
{
    match kind {
        ExecutableKind::UserPrx => 0x457B06F0,
        ExecutableKind::KernelPrx => 0xDADADAF0,
        ExecutableKind::Pbp => 0xADF305F0,
    }
}

pub fn default_oe_tag_handler(kind: ExecutableKind) -> (tag: u32)
    ensures
        tag == default_oe_tag(kind),
{
    match kind {
        ExecutableKind::UserPrx => 0x8555ABF2,
        ExecutableKind::KernelPrx => 0x55668D96,
        ExecutableKind::Pbp => 0x7316308C,
    }
}

/// The pair of tags that the output carries: what the caller chose, and
/// for what the caller left open the tag that belongs to the kind.
pub open spec fn chosen_tags(kind: ExecutableKind, psp_tag: Option<u32>, oe_tag: Option<u32>) -> (
    u32,
    u32,
) {
    (
        match psp_tag {
            Some(tag) => tag,
            None => default_psp_tag(kind),
        },
        match oe_tag {
            Some(tag) => tag,
            None => default_oe_tag(kind),
        },
    )
}

/// Picks the two tags of the output. A tag given by the caller always wins.
pub fn choose_tags(kind: ExecutableKind, psp_tag: Option<u32>, oe_tag: Option<u32>) -> (tags: (
    u32,
    u32,
))
    ensures
        tags == chosen_tags(kind, psp_tag, oe_tag),
        psp_tag matches Some(tag) ==> tags.0 == tag,
        oe_tag matches Some(tag) ==> tags.1 == tag,
{
    let tag = match psp_tag {
        Some(tag) => tag,
        None => default_psp_tag_handler(kind),
    };
    let oe = match oe_tag {
        Some(tag) => tag,
        None => default_oe_tag_handler(kind),
    };
    (tag, oe)
}

/// The header of a PBP package, 40 bytes: where each part of the package
/// starts. The image lies between `prx_offset` and `psar_offset`.
#[derive(Clone, Copy, Debug, PartialEq, Eq)]
pub struct PbpHeader {
    pub magic: u32,
    pub version: u32,
    pub sfo_offset: u32,
    pub icon0_offset: u32,
    pub icon1_offset: u32,
    pub pic0_offset: u32,
    pub pic1_offset: u32,
    pub snd0_offset: u32,
    pub prx_offset: u32,
    pub psar_offset: u32,
}

impl Record for PbpHeader {
    open spec fn size_spec() -> nat {
        40
    }

    open spec fn align_spec() -> nat {
        4
    }

    open spec fn decode_spec(bytes: Seq<u8>) -> Self {
        PbpHeader {
            magic: le_u32(bytes, 0),
            version: le_u32(bytes, 4),
            sfo_offset: le_u32(bytes, 8),
            icon0_offset: le_u32(bytes, 12),
            icon1_offset: le_u32(bytes, 16),
            pic0_offset: le_u32(bytes, 20),
            pic1_offset: le_u32(bytes, 24),
            snd0_offset: le_u32(bytes, 28),
            prx_offset: le_u32(bytes, 32),
            psar_offset: le_u32(bytes, 36),
        }
    }

    /// A package header is refused unless it starts with the PBP magic.
    open spec fn rejection(&self) -> Option<Error> {
        if self.magic != PBP_HEADER_MAGIC {
            Some(Error::NotPbp)
        } else {
            None
        }
    }

    fn size() -> (n: usize) {
        40
    }

    fn align() -> (n: usize) {
        4
    }

    fn decode(src: &[u8]) -> (rec: Self) {
        PbpHeader {
            magic: read_u32(src, 0),
            version: read_u32(src, 4),
            sfo_offset: read_u32(src, 8),
            icon0_offset: read_u32(src, 12),
            icon1_offset: read_u32(src, 16),
            pic0_offset: read_u32(src, 20),
            pic1_offset: read_u32(src, 24),
            snd0_offset: read_u32(src, 28),
            prx_offset: read_u32(src, 32),
            psar_offset: read_u32(src, 36),
        }
    }
}

impl TryFromBytes for PbpHeader {
    fn validate(src: &Self) -> (res: Result<&Self, Error>) {
        if src.magic != PBP_HEADER_MAGIC {
            return Err(Error::NotPbp);
        }
        Ok(src)
    }
}

impl AsBytes for PbpHeader {
    open spec fn bytes_spec(&self) -> Seq<u8> {
        u32_le(self.magic) + u32_le(self.version) + u32_le(self.sfo_offset) + u32_le(
            self.icon0_offset,
        ) + u32_le(self.icon1_offset) + u32_le(self.pic0_offset) + u32_le(self.pic1_offset)
            + u32_le(self.snd0_offset) + u32_le(self.prx_offset) + u32_le(self.psar_offset)
    }

    fn as_bytes(&self) -> (out: Vec<u8>) {
        let mut out: Vec<u8> = Vec::with_capacity(40);
        put_u32(&mut out, self.magic);
        put_u32(&mut out, self.version);
        put_u32(&mut out, self.sfo_offset);
        put_u32(&mut out, self.icon0_offset);
        put_u32(&mut out, self.icon1_offset);
        put_u32(&mut out, self.pic0_offset);
        put_u32(&mut out, self.pic1_offset);
        put_u32(&mut out, self.snd0_offset);
        put_u32(&mut out, self.prx_offset);
        put_u32(&mut out, self.psar_offset);
        assert(out@ =~= self.bytes_spec());
        out
    }
}

/// The module information that an image carries: attributes, version, name
/// and five addresses, each as wide as a machine word.
#[derive(Clone, Copy, Debug, PartialEq, Eq)]
pub struct SceModuleInfo {
    pub mod_attr: ModInfoAttribute,
    pub mod_version_low: u8,
    pub mod_version_high: u8,
    pub mod_name: [u8; 27],
    pub terminal: u8,
    pub gp_value: usize,
    pub ent_top: usize,
    pub ent_end: usize,
    pub stub_top: usize,
    pub stub_end: usize,
}

impl Record for SceModuleInfo {
    open spec fn size_spec() -> nat {
        32 + 5 * word_size()
    }

    open spec fn align_spec() -> nat {
        4
    }

    open spec fn decode_spec(bytes: Seq<u8>) -> Self {
        SceModuleInfo {
            mod_attr: ModInfoAttribute { bits: le_u16(bytes, 0) },
            mod_version_low: bytes[2],
            mod_version_high: bytes[3],
            mod_name: [
                bytes[4],
                bytes[5],
                bytes[6],
                bytes[7],
                bytes[8],
                bytes[9],
                bytes[10],
                bytes[11],
                bytes[12],
                bytes[13],
                bytes[14],
                bytes[15],
                bytes[16],
                bytes[17],
                bytes[18],
                bytes[19],
                bytes[20],
                bytes[21],
                bytes[22],
                bytes[23],
                bytes[24],
                bytes[25],
                bytes[26],
                bytes[27],
                bytes[28],
                bytes[29],
                bytes[30],
            ],
            terminal: bytes[31],
            gp_value: le_word(bytes, 32),
            ent_top: le_word(bytes, 32 + word_size() as int),
            ent_end: le_word(bytes, 32 + 2 * word_size() as int),
            stub_top: le_word(bytes, 32 + 3 * word_size() as int),
            stub_end: le_word(bytes, 32 + 4 * word_size() as int),
        }
    }

    /// Every module information record is accepted.
    open spec fn rejection(&self) -> Option<Error> {
        None
    }

    fn size() -> (n: usize) {
        32 + 5 * word_bytes()
    }

    fn align() -> (n: usize) {
        4
    }

    fn decode(src: &[u8]) -> (rec: Self) {
        let word = word_bytes();
        SceModuleInfo {
            mod_attr: ModInfoAttribute { bits: read_u16(src, 0) },
            mod_version_low: src[2],
            mod_version_high: src[3],
            mod_name: [
                src[4],
                src[5],
                src[6],
                src[7],
                src[8],
                src[9],
                src[10],
                src[11],
                src[12],
                src[13],
                src[14],
                src[15],
                src[16],
                src[17],
                src[18],
                src[19],
                src[20],
                src[21],
                src[22],
                src[23],
                src[24],
                src[25],
                src[26],
                src[27],
                src[28],
                src[29],
                src[30],
            ],
            terminal: src[31],
            gp_value: read_word(src, 32),
            ent_top: read_word(src, 32 + word),
            ent_end: read_word(src, 32 + 2 * word),
            stub_top: read_word(src, 32 + 3 * word),
            stub_end: read_word(src, 32 + 4 * word),
        }
    }
}

impl TryFromBytes for SceModuleInfo {
    fn validate(src: &Self) -> (res: Result<&Self, Error>) {
        Ok(src)
    }
}

impl AsBytes for SceModuleInfo {
    open spec fn bytes_spec(&self) -> Seq<u8> {
        u16_le(self.mod_attr.bits) + seq![self.mod_version_low, self.mod_version_high]
            + self.mod_name@ + seq![self.terminal] + word_le(self.gp_value) + word_le(
            self.ent_top,
        ) + word_le(self.ent_end) + word_le(self.stub_top) + word_le(self.stub_end)
    }

    fn as_bytes(&self) -> (out: Vec<u8>) {
        let mut out: Vec<u8> = Vec::with_capacity(72);
        put_u16(&mut out, self.mod_attr.bits);
        out.push(self.mod_version_low);
        out.push(self.mod_version_high);
        assert(out@ =~= u16_le(self.mod_attr.bits) + seq![
            self.mod_version_low,
            self.mod_version_high,
        ]);
        put_bytes(&mut out, &self.mod_name);
        out.push(self.terminal);
        assert(out@ =~= u16_le(self.mod_attr.bits) + seq![
            self.mod_version_low,
            self.mod_version_high,
        ] + self.mod_name@ + seq![self.terminal]);
        put_word(&mut out, self.gp_value);
        put_word(&mut out, self.ent_top);
        put_word(&mut out, self.ent_end);
        put_word(&mut out, self.stub_top);
        put_word(&mut out, self.stub_end);
        out
    }
}

/// The header of a `~PSP` file, 336 bytes.
///
/// The three `key_data` regions that are arrays hold filler without a
/// meaning; `scheck` and `key_data2` stay zero.
#[derive(Clone, Copy, Debug, PartialEq, Eq)]
pub struct PspHeader {
    pub signature: u32,
    pub attribute: ModInfoAttribute,
    pub comp_attribute: u16,
    pub module_version_low: u8,
    pub module_version_high: u8,
    pub module_name: [u8; 28],
    pub version: u8,
    pub num_segments: u8,
    pub elf_size: u32,
    pub psp_size: u32,
    pub entry: u32,
    pub module_info_offset: u32,
    pub bss_size: u32,
    pub seg_align: [u16; 4],
    pub seg_addr: [u32; 4],
    pub seg_size: [u32; 4],
    pub reserved: [u32; 5],
    pub devkit_version: u32,
    pub decrypt_mode: DecryptMode,
    pub padding: u8,
    pub overlap_size: u16,
    pub key_data0: [u8; 0x30],
    pub comp_size: u32,
    pub _80: u32,
    pub reserved2: [u32; 2],
    pub key_data1: [u8; 0x10],
    pub tag: u32,
    pub scheck: [u8; 0x58],
    pub key_data2: u32,
    pub oe_tag: u32,
    pub key_data3: [u8; 0x1C],
}

/// Appends one byte to `out`.
fn put_u8(out: &mut Vec<u8>, b: u8)
    ensures
        final(out)@ == old(out)@ + seq![b],
{
    out.push(b);
    assert(out@ =~= old(out)@ + seq![b]);
}

impl PspHeader {
    /// The header before anything is known of the module: the signature, the
    /// format version 1 and the fixed word `0x80` are set, all else is zero
    /// and the mode is the standard one.
    pub open spec fn blank() -> PspHeader {
        PspHeader {
            signature: PSP_HEADER_MAGIC,
            attribute: ModInfoAttribute { bits: 0 },
            comp_attribute: 0,
            module_version_low: 0,
            module_version_high: 0,
            module_name: spec_array_fill_for_copy_type::<u8, 28>(0),
            version: 1,
            num_segments: 0,
            elf_size: 0,
            psp_size: 0,
            entry: 0,
            module_info_offset: 0,
            bss_size: 0,
            seg_align: spec_array_fill_for_copy_type::<u16, 4>(0),
            seg_addr: spec_array_fill_for_copy_type::<u32, 4>(0),
            seg_size: spec_array_fill_for_copy_type::<u32, 4>(0),
            reserved: spec_array_fill_for_copy_type::<u32, 5>(0),
            devkit_version: 0,
            decrypt_mode: DecryptMode::Standard,
            padding: 0,
            overlap_size: 0,
            key_data0: spec_array_fill_for_copy_type::<u8, 0x30>(0),
            comp_size: 0,
            _80: 0x80,
            reserved2: spec_array_fill_for_copy_type::<u32, 2>(0),
            key_data1: spec_array_fill_for_copy_type::<u8, 0x10>(0),
            tag: 0,
            scheck: spec_array_fill_for_copy_type::<u8, 0x58>(0),
            key_data2: 0,
            oe_tag: 0,
            key_data3: spec_array_fill_for_copy_type::<u8, 0x1C>(0),
        }
    }
}

impl Default for PspHeader {
    fn default() -> (header: Self)
        ensures
            header == PspHeader::blank(),
    {
        PspHeader {
            signature: PSP_HEADER_MAGIC,
            attribute: ModInfoAttribute { bits: 0 },
            comp_attribute: 0,
            module_version_low: 0,
            module_version_high: 0,
            module_name: [0u8; 28],
            version: 1,
            num_segments: 0,
            elf_size: 0,
            psp_size: 0,
            entry: 0,
            module_info_offset: 0,
            bss_size: 0,
            seg_align: [0u16; 4],
            seg_addr: [0u32; 4],
            seg_size: [0u32; 4],
            reserved: [0u32; 5],
            devkit_version: 0,
            decrypt_mode: DecryptMode::Standard,
            padding: 0,
            overlap_size: 0,
            key_data0: [0u8; 0x30],
            comp_size: 0,
            _80: 0x80,
            reserved2: [0u32; 2],
            key_data1: [0u8; 0x10],
            tag: 0,
            scheck: [0u8; 0x58],
            key_data2: 0,
            oe_tag: 0,
            key_data3: [0u8; 0x1C],
        }
    }
}

impl PspHeader {
    /// The first 60 bytes: signature, attributes, versions, name, segment count,
    /// sizes, entry point, offset of the module information, size of the
    /// zero-initialised data.
    pub open spec fn identity_bytes(&self) -> Seq<u8> {
        u32_le(self.signature) + u16_le(self.attribute.bits) + u16_le(self.comp_attribute)
            + seq![self.module_version_low] + seq![self.module_version_high] + self.module_name@
            + seq![self.version] + seq![self.num_segments] + u32_le(self.elf_size)
            + u32_le(self.psp_size) + u32_le(self.entry) + u32_le(self.module_info_offset)
            + u32_le(self.bss_size)
    }

    /// Bytes 60 to 100: the segment table, as four alignments, four addresses
    /// and four sizes.
    pub open spec fn segment_bytes(&self) -> Seq<u8> {
        u16_le(self.seg_align[0]) + u16_le(self.seg_align[1]) + u16_le(self.seg_align[2])
            + u16_le(self.seg_align[3]) + u32_le(self.seg_addr[0]) + u32_le(self.seg_addr[1])
            + u32_le(self.seg_addr[2]) + u32_le(self.seg_addr[3]) + u32_le(self.seg_size[0])
            + u32_le(self.seg_size[1]) + u32_le(self.seg_size[2]) + u32_le(self.seg_size[3])
    }

    /// Bytes 100 to 128: five reserved words, devkit version, decrypt mode,
    /// padding and overlap size.
    pub open spec fn mode_bytes(&self) -> Seq<u8> {
        u32_le(self.reserved[0]) + u32_le(self.reserved[1]) + u32_le(self.reserved[2])
            + u32_le(self.reserved[3]) + u32_le(self.reserved[4]) + u32_le(self.devkit_version)
            + seq![self.decrypt_mode.code_spec()] + seq![self.padding] + u16_le(self.overlap_size)
    }

    /// Bytes 128 to 336: the key regions, with the size of the compressed
    /// image, the fixed word, two reserved words and the two tags between them.
    pub open spec fn key_bytes(&self) -> Seq<u8> {
        self.key_data0@ + u32_le(self.comp_size) + u32_le(self._80) + u32_le(self.reserved2[0])
            + u32_le(self.reserved2[1]) + self.key_data1@ + u32_le(self.tag) + self.scheck@
            + u32_le(self.key_data2) + u32_le(self.oe_tag) + self.key_data3@
    }

    /// Appends the first part of the header to `out`.
    fn put_identity(&self, out: &mut Vec<u8>)
        ensures
            final(out)@ == old(out)@ + self.identity_bytes(),
    {
        put_u32(out, self.signature);
        put_u16(out, self.attribute.bits);
        put_u16(out, self.comp_attribute);
        put_u8(out, self.module_version_low);
        put_u8(out, self.module_version_high);
        put_bytes(out, &self.module_name);
        put_u8(out, self.version);
        put_u8(out, self.num_segments);
        put_u32(out, self.elf_size);
        put_u32(out, self.psp_size);
        put_u32(out, self.entry);
        put_u32(out, self.module_info_offset);
        put_u32(out, self.bss_size);
        assert(out@ =~= old(out)@ + self.identity_bytes());
    }

    /// Appends the segment table of the header to `out`.
    fn put_segment(&self, out: &mut Vec<u8>)
        ensures
            final(out)@ == old(out)@ + self.segment_bytes(),
    {
        put_u16(out, self.seg_align[0]);
        put_u16(out, self.seg_align[1]);
        put_u16(out, self.seg_align[2]);
        put_u16(out, self.seg_align[3]);
        put_u32(out, self.seg_addr[0]);
        put_u32(out, self.seg_addr[1]);
        put_u32(out, self.seg_addr[2]);
        put_u32(out, self.seg_addr[3]);
        put_u32(out, self.seg_size[0]);
        put_u32(out, self.seg_size[1]);
        put_u32(out, self.seg_size[2]);
        put_u32(out, self.seg_size[3]);
        assert(out@ =~= old(out)@ + self.segment_bytes());
    }

    /// Appends the third part of the header to `out`.
    fn put_mode(&self, out: &mut Vec<u8>)
        ensures
            final(out)@ == old(out)@ + self.mode_bytes(),
    {
        put_u32(out, self.reserved[0]);
        put_u32(out, self.reserved[1]);
        put_u32(out, self.reserved[2]);
        put_u32(out, self.reserved[3]);
        put_u32(out, self.reserved[4]);
        put_u32(out, self.devkit_version);
        put_u8(out, self.decrypt_mode.code());
        put_u8(out, self.padding);
        put_u16(out, self.overlap_size);
        assert(out@ =~= old(out)@ + self.mode_bytes());
    }

    /// Appends the last part of the header to `out`.
    fn put_key(&self, out: &mut Vec<u8>)
        ensures
            final(out)@ == old(out)@ + self.key_bytes(),
    {
        put_bytes(out, &self.key_data0);
        put_u32(out, self.comp_size);
        put_u32(out, self._80);
        put_u32(out, self.reserved2[0]);
        put_u32(out, self.reserved2[1]);
        put_bytes(out, &self.key_data1);
        put_u32(out, self.tag);
        put_bytes(out, &self.scheck);
        put_u32(out, self.key_data2);
        put_u32(out, self.oe_tag);
        put_bytes(out, &self.key_data3);
        assert(out@ =~= old(out)@ + self.key_bytes());
    }
}

impl Record for PspHeader {
    open spec fn size_spec() -> nat {
        336
    }

    open spec fn align_spec() -> nat {
        4
    }

    /// The header that `bytes` hold. A mode byte that stands for no mode is
    /// read as the standard mode.
    open spec fn decode_spec(bytes: Seq<u8>) -> Self {
        PspHeader {
            signature: le_u32(bytes, 0),
            attribute: ModInfoAttribute { bits: le_u16(bytes, 4) },
            comp_attribute: le_u16(bytes, 6),
            module_version_low: bytes[8],
            module_version_high: bytes[9],
            module_name: array_of(bytes.subrange(10, 38)),
            version: bytes[38],
            num_segments: bytes[39],
            elf_size: le_u32(bytes, 40),
            psp_size: le_u32(bytes, 44),
            entry: le_u32(bytes, 48),
            module_info_offset: le_u32(bytes, 52),
            bss_size: le_u32(bytes, 56),
            seg_align: [le_u16(bytes, 60), le_u16(bytes, 62), le_u16(bytes, 64), le_u16(bytes, 66)],
            seg_addr: [le_u32(bytes, 68), le_u32(bytes, 72), le_u32(bytes, 76), le_u32(bytes, 80)],
            seg_size: [le_u32(bytes, 84), le_u32(bytes, 88), le_u32(bytes, 92), le_u32(bytes, 96)],
            reserved: [
                le_u32(bytes, 100),
                le_u32(bytes, 104),
                le_u32(bytes, 108),
                le_u32(bytes, 112),
                le_u32(bytes, 116),
            ],
            devkit_version: le_u32(bytes, 120),
            decrypt_mode: DecryptMode::of_code(bytes[124]),
            padding: bytes[125],
            overlap_size: le_u16(bytes, 126),
            key_data0: array_of(bytes.subrange(128, 176)),
            comp_size: le_u32(bytes, 176),
            _80: le_u32(bytes, 180),
            reserved2: [le_u32(bytes, 184), le_u32(bytes, 188)],
            key_data1: array_of(bytes.subrange(192, 208)),
            tag: le_u32(bytes, 208),
            scheck: array_of(bytes.subrange(212, 300)),
            key_data2: le_u32(bytes, 300),
            oe_tag: le_u32(bytes, 304),
            key_data3: array_of(bytes.subrange(308, 336)),
        }
    }

    /// Every header is accepted.
    open spec fn rejection(&self) -> Option<Error> {
        None
    }

    fn size() -> (n: usize) {
        PSP_HEADER_SIZE
    }

    fn align() -> (n: usize) {
        4
    }

    fn decode(src: &[u8]) -> (rec: Self) {
        PspHeader {
            signature: read_u32(src, 0),
            attribute: ModInfoAttribute { bits: read_u16(src, 4) },
            comp_attribute: read_u16(src, 6),
            module_version_low: src[8],
            module_version_high: src[9],
            module_name: read_array([0u8; 28], src, 10),
            version: src[38],
            num_segments: src[39],
            elf_size: read_u32(src, 40),
            psp_size: read_u32(src, 44),
            entry: read_u32(src, 48),
            module_info_offset: read_u32(src, 52),
            bss_size: read_u32(src, 56),
            seg_align: [read_u16(src, 60), read_u16(src, 62), read_u16(src, 64), read_u16(src, 66)],
            seg_addr: [read_u32(src, 68), read_u32(src, 72), read_u32(src, 76), read_u32(src, 80)],
            seg_size: [read_u32(src, 84), read_u32(src, 88), read_u32(src, 92), read_u32(src, 96)],
            reserved: [
                read_u32(src, 100),
                read_u32(src, 104),
                read_u32(src, 108),
                read_u32(src, 112),
                read_u32(src, 116),
            ],
            devkit_version: read_u32(src, 120),
            decrypt_mode: DecryptMode::from_code(src[124]),
            padding: src[125],
            overlap_size: read_u16(src, 126),
            key_data0: read_array([0u8; 48], src, 128),
            comp_size: read_u32(src, 176),
            _80: read_u32(src, 180),
            reserved2: [read_u32(src, 184), read_u32(src, 188)],
            key_data1: read_array([0u8; 16], src, 192),
            tag: read_u32(src, 208),
            scheck: read_array([0u8; 88], src, 212),
            key_data2: read_u32(src, 300),
            oe_tag: read_u32(src, 304),
            key_data3: read_array([0u8; 28], src, 308),
        }
    }
}

impl TryFromBytes for PspHeader {
    fn validate(src: &Self) -> (res: Result<&Self, Error>) {
        Ok(src)
    }
}

impl AsBytes for PspHeader {
    open spec fn bytes_spec(&self) -> Seq<u8> {
        self.identity_bytes() + self.segment_bytes() + self.mode_bytes() + self.key_bytes()
    }

    fn as_bytes(&self) -> (out: Vec<u8>) {
        let mut out: Vec<u8> = Vec::with_capacity(PSP_HEADER_SIZE);
        self.put_identity(&mut out);
        assert(out@ =~= self.identity_bytes());
        self.put_segment(&mut out);
        self.put_mode(&mut out);
        self.put_key(&mut out);
        out
    }
}

/// What the mode derivation decides: the mode, the devkit version where the
/// rule fixes one, and whether the Memory Stick flag is forced on.
pub struct ModeRule {
    pub decrypt_mode: DecryptMode,
    pub devkit_version: Option<u32>,
    pub force_ms_api: bool,
}

/// The rules of the mode derivation, in the order of their priority.
///
/// 1. A kernel module is decrypted as such; its devkit version depends on
///    the boot flag.
/// 2. Otherwise a package goes by its API: VSH, then application, then USB
///    and WLAN; with none of them it becomes a Memory Stick module.
/// 3. Otherwise a bare user module is a VSH module or a standard one.
pub open spec fn mode_rule(attribute: ModInfoAttribute, is_pbp: bool) -> ModeRule {
    if attribute.is_kernel_mode() {
        ModeRule {
            decrypt_mode: DecryptMode::Kernel,
            devkit_version: Some(
                if attribute.is_boot_mode() {
                    0x06060110u32
                } else {
                    0x05070110u32
                },
            ),
            force_ms_api: false,
        }
    } else if is_pbp {
        if attribute.has_vsh_api() {
            ModeRule { decrypt_mode: DecryptMode::Updater, devkit_version: None, force_ms_api: false }
        } else if attribute.has_app_api() {
            ModeRule { decrypt_mode: DecryptMode::App, devkit_version: None, force_ms_api: false }
        } else if attribute.has_usb_wlan_api() {
            ModeRule { decrypt_mode: DecryptMode::UsbWlan, devkit_version: None, force_ms_api: false }
        } else {
            ModeRule {
                decrypt_mode: DecryptMode::Ms,
                devkit_version: Some(0x06020010u32),
                force_ms_api: true,
            }
        }
    } else {
        if attribute.has_vsh_api() {
            ModeRule { decrypt_mode: DecryptMode::Vsh, devkit_version: None, force_ms_api: false }
        } else {
            ModeRule {
                decrypt_mode: DecryptMode::Standard,
                devkit_version: Some(0x05070210u32),
                force_ms_api: false,
            }
        }
    }
}

impl PspHeader {
    /// The header after the mode derivation: the mode of the rule, its
    /// devkit version where it fixes one, and the Memory Stick flag added to
    /// the attributes where the rule forces it.
    pub open spec fn with_mode(self, is_pbp: bool) -> PspHeader {
        let rule = mode_rule(self.attribute, is_pbp);
        PspHeader {
            attribute: if rule.force_ms_api {
                ModInfoAttribute { bits: self.attribute.bits | MS_API }
            } else {
                self.attribute
            },
            decrypt_mode: rule.decrypt_mode,
            devkit_version: match rule.devkit_version {
                Some(version) => version,
                None => self.devkit_version,
            },
            ..self
        }
    }

    /// Derives the decrypt mode and the devkit version from the attributes
    /// of the header and from whether the executable is a package.
    pub fn set_decript_mode(&mut self, is_pbp: bool)
        ensures
            *final(self) == old(self).with_mode(is_pbp),
    {
        if self.attribute.contains(ModInfoAttribute::kernel_mode()) {
            if self.attribute.contains(ModInfoAttribute::boot_mode()) {
                self.devkit_version = 0x06060110;
            } else {
                self.devkit_version = 0x05070110;
            }
            self.decrypt_mode = DecryptMode::Kernel;
        } else if is_pbp {
            if self.attribute.contains(ModInfoAttribute::vsh_api()) {
                self.decrypt_mode = DecryptMode::Updater;
            } else if self.attribute.contains(ModInfoAttribute::app_api()) {
                self.decrypt_mode = DecryptMode::App;
            } else if self.attribute.contains(ModInfoAttribute::usb_wlan_api()) {
                self.decrypt_mode = DecryptMode::UsbWlan;
            } else {
                self.attribute.insert(ModInfoAttribute::ms_api());
                self.decrypt_mode = DecryptMode::Ms;
                self.devkit_version = 0x06020010;
            }
        } else {
            // Standalone user PRX
            if self.attribute.contains(ModInfoAttribute::vsh_api()) {
                self.decrypt_mode = DecryptMode::Vsh;
            } else {
                self.devkit_version = 0x05070210;
                self.decrypt_mode = DecryptMode::Standard;
            }
        }
    }
}

/// The mode and the devkit version depend on nothing but whether the
/// executable is a package and on the kernel, boot, VSH, application and
/// USB/WLAN flags: two sets of attributes that agree on these flags get the
/// same rule.
pub proof fn lemma_mode_depends_on_flags(a: ModInfoAttribute, b: ModInfoAttribute, is_pbp: bool)
    requires
        a.bits & 0x3E00 == b.bits & 0x3E00,
    ensures
        mode_rule(a, is_pbp) == mode_rule(b, is_pbp),
{
    let x = a.bits;
    let y = b.bits;
    assert(x & 0x3E00 == y & 0x3E00 ==> ((x & 0x1000 == 0x1000) == (y & 0x1000 == 0x1000)) && ((x
        & 0x2000 == 0x2000) == (y & 0x2000 == 0x2000)) && ((x & 0x0800 == 0x0800) == (y & 0x0800
        == 0x0800)) && ((x & 0x0600 == 0x0600) == (y & 0x0600 == 0x0600)) && ((x & 0x0400
        == 0x0400) == (y & 0x0400 == 0x0400))) by (bit_vector);
}

impl PbpHeader {
    /// The bytes of a record are as many as its size, and they are read
    /// back as the record.
    pub proof fn lemma_round_trip(self)
        ensures
            self.bytes_spec().len() == Self::size_spec(),
            Self::decode_spec(self.bytes_spec()) == self,
    {
        let bytes = self.bytes_spec();
        assert(bytes.subrange(0, 4) =~= u32_le(self.magic));
        lemma_le_u32_at(bytes, 0, self.magic);
        assert(bytes.subrange(4, 8) =~= u32_le(self.version));
        lemma_le_u32_at(bytes, 4, self.version);
        assert(bytes.subrange(8, 12) =~= u32_le(self.sfo_offset));
        lemma_le_u32_at(bytes, 8, self.sfo_offset);
        assert(bytes.subrange(12, 16) =~= u32_le(self.icon0_offset));
        lemma_le_u32_at(bytes, 12, self.icon0_offset);
        assert(bytes.subrange(16, 20) =~= u32_le(self.icon1_offset));
        lemma_le_u32_at(bytes, 16, self.icon1_offset);
        assert(bytes.subrange(20, 24) =~= u32_le(self.pic0_offset));
        lemma_le_u32_at(bytes, 20, self.pic0_offset);
        assert(bytes.subrange(24, 28) =~= u32_le(self.pic1_offset));
        lemma_le_u32_at(bytes, 24, self.pic1_offset);
        assert(bytes.subrange(28, 32) =~= u32_le(self.snd0_offset));
        lemma_le_u32_at(bytes, 28, self.snd0_offset);
        assert(bytes.subrange(32, 36) =~= u32_le(self.prx_offset));
        lemma_le_u32_at(bytes, 32, self.prx_offset);
        assert(bytes.subrange(36, 40) =~= u32_le(self.psar_offset));
        lemma_le_u32_at(bytes, 36, self.psar_offset);
    }

    /// The record that is read from bytes is written as those bytes.
    pub proof fn lemma_bytes_round_trip(bytes: Seq<u8>)
        requires
            bytes.len() >= Self::size_spec(),
        ensures
            Self::decode_spec(bytes).bytes_spec() == bytes.subrange(0, Self::size_spec() as int),
    {
        lemma_u32_bytes_round_trip(bytes, 0);
        lemma_u32_bytes_round_trip(bytes, 4);
        lemma_u32_bytes_round_trip(bytes, 8);
        lemma_u32_bytes_round_trip(bytes, 12);
        lemma_u32_bytes_round_trip(bytes, 16);
        lemma_u32_bytes_round_trip(bytes, 20);
        lemma_u32_bytes_round_trip(bytes, 24);
        lemma_u32_bytes_round_trip(bytes, 28);
        lemma_u32_bytes_round_trip(bytes, 32);
        lemma_u32_bytes_round_trip(bytes, 36);
        assert(Self::decode_spec(bytes).bytes_spec() =~= bytes.subrange(0, 40));
    }
}

impl SceModuleInfo {
    /// The bytes of a record are as many as its size, and they are read
    /// back as the record.
    pub proof fn lemma_round_trip(self)
        ensures
            self.bytes_spec().len() == Self::size_spec(),
            Self::decode_spec(self.bytes_spec()) == self,
    {
        broadcast use vstd::array::array_len_matches_n;

        lemma_word_size();
        lemma_word_round_trip(self.gp_value);
        lemma_word_round_trip(self.ent_top);
        lemma_word_round_trip(self.ent_end);
        lemma_word_round_trip(self.stub_top);
        lemma_word_round_trip(self.stub_end);
        let bytes = self.bytes_spec();
        let w = word_size() as int;
        assert(bytes.len() == 32 + 5 * w);
        assert(bytes.subrange(0, 2) =~= u16_le(self.mod_attr.bits));
        lemma_le_u16_at(bytes, 0, self.mod_attr.bits);
        assert(Self::decode_spec(bytes).mod_name =~= self.mod_name);
        assert(bytes.subrange(32, 32 + w) =~= word_le(self.gp_value));
        lemma_le_word_at(bytes, 32, self.gp_value);
        assert(bytes.subrange(32 + w, 32 + 2 * w) =~= word_le(self.ent_top));
        lemma_le_word_at(bytes, 32 + w, self.ent_top);
        assert(bytes.subrange(32 + 2 * w, 32 + 3 * w) =~= word_le(self.ent_end));
        lemma_le_word_at(bytes, 32 + 2 * w, self.ent_end);
        assert(bytes.subrange(32 + 3 * w, 32 + 4 * w) =~= word_le(self.stub_top));
        lemma_le_word_at(bytes, 32 + 3 * w, self.stub_top);
        assert(bytes.subrange(32 + 4 * w, 32 + 5 * w) =~= word_le(self.stub_end));
        lemma_le_word_at(bytes, 32 + 4 * w, self.stub_end);
    }

    /// The record that is read from bytes is written as those bytes.
    pub proof fn lemma_bytes_round_trip(bytes: Seq<u8>)
        requires
            bytes.len() >= Self::size_spec(),
        ensures
            Self::decode_spec(bytes).bytes_spec() == bytes.subrange(0, Self::size_spec() as int),
    {
        broadcast use vstd::array::array_len_matches_n;

        lemma_word_size();
        let w = word_size() as int;
        let rec = Self::decode_spec(bytes);
        lemma_u16_bytes_round_trip(bytes, 0);
        lemma_word_bytes_round_trip(bytes, 32);
        lemma_word_bytes_round_trip(bytes, 32 + w);
        lemma_word_bytes_round_trip(bytes, 32 + 2 * w);
        lemma_word_bytes_round_trip(bytes, 32 + 3 * w);
        lemma_word_bytes_round_trip(bytes, 32 + 4 * w);
        assert(rec.mod_name@ =~= bytes.subrange(4, 31));
        let head = u16_le(rec.mod_attr.bits) + seq![rec.mod_version_low, rec.mod_version_high]
            + rec.mod_name@ + seq![rec.terminal];
        assert(head =~= bytes.subrange(0, 32));
        assert(rec.bytes_spec() =~= bytes.subrange(0, 32 + 5 * w));
    }

    /// The record with other attributes is written as the same bytes but
    /// for the first two, which hold the attributes.
    pub proof fn lemma_attribute_bytes(self, attribute: ModInfoAttribute)
        ensures
            (SceModuleInfo { mod_attr: attribute, ..self }).bytes_spec() == crate::bytes::overwrite(
                self.bytes_spec(),
                0,
                u16_le(attribute.bits),
            ),
    {
        assert((SceModuleInfo { mod_attr: attribute, ..self }).bytes_spec()
            =~= crate::bytes::overwrite(self.bytes_spec(), 0, u16_le(attribute.bits)));
    }
}

impl PbpHeader {
    /// The header with another offset of the image is written as the same
    /// bytes but for the four from byte 32 on, which hold the offset.
    pub proof fn lemma_offset_bytes(self, offset: u32)
        ensures
            (PbpHeader { prx_offset: offset, ..self }).bytes_spec() == crate::bytes::overwrite(
                self.bytes_spec(),
                32,
                u32_le(offset),
            ),
    {
        assert((PbpHeader { prx_offset: offset, ..self }).bytes_spec() =~= crate::bytes::overwrite(
            self.bytes_spec(),
            32,
            u32_le(offset),
        ));
    }
}

impl PspHeader {
    /// Where each field lies in the 60 bytes of this part of the header.
    pub proof fn lemma_identity_layout(self)
        ensures
            self.identity_bytes().len() == 60,
            self.identity_bytes().subrange(0, 4) == u32_le(self.signature),
            self.identity_bytes().subrange(4, 6) == u16_le(self.attribute.bits),
            self.identity_bytes().subrange(6, 8) == u16_le(self.comp_attribute),
            self.identity_bytes()[8] == self.module_version_low,
            self.identity_bytes()[9] == self.module_version_high,
            self.identity_bytes().subrange(10, 38) == self.module_name@,
            self.identity_bytes()[38] == self.version,
            self.identity_bytes()[39] == self.num_segments,
            self.identity_bytes().subrange(40, 44) == u32_le(self.elf_size),
            self.identity_bytes().subrange(44, 48) == u32_le(self.psp_size),
            self.identity_bytes().subrange(48, 52) == u32_le(self.entry),
            self.identity_bytes().subrange(52, 56) == u32_le(self.module_info_offset),
            self.identity_bytes().subrange(56, 60) == u32_le(self.bss_size),
    {
        broadcast use vstd::array::array_len_matches_n;

        assert(self.identity_bytes().subrange(0, 4) =~= u32_le(self.signature));
        assert(self.identity_bytes().subrange(4, 6) =~= u16_le(self.attribute.bits));
        assert(self.identity_bytes().subrange(6, 8) =~= u16_le(self.comp_attribute));
        assert(self.identity_bytes().subrange(10, 38) =~= self.module_name@);
        assert(self.identity_bytes().subrange(40, 44) =~= u32_le(self.elf_size));
        assert(self.identity_bytes().subrange(44, 48) =~= u32_le(self.psp_size));
        assert(self.identity_bytes().subrange(48, 52) =~= u32_le(self.entry));
        assert(self.identity_bytes().subrange(52, 56) =~= u32_le(self.module_info_offset));
        assert(self.identity_bytes().subrange(56, 60) =~= u32_le(self.bss_size));
    }

    /// Where each field lies in the 40 bytes of this part of the header.
    pub proof fn lemma_segment_layout(self)
        ensures
            self.segment_bytes().len() == 40,
            self.segment_bytes().subrange(0, 2) == u16_le(self.seg_align[0]),
            self.segment_bytes().subrange(2, 4) == u16_le(self.seg_align[1]),
            self.segment_bytes().subrange(4, 6) == u16_le(self.seg_align[2]),
            self.segment_bytes().subrange(6, 8) == u16_le(self.seg_align[3]),
            self.segment_bytes().subrange(8, 12) == u32_le(self.seg_addr[0]),
            self.segment_bytes().subrange(12, 16) == u32_le(self.seg_addr[1]),
            self.segment_bytes().subrange(16, 20) == u32_le(self.seg_addr[2]),
            self.segment_bytes().subrange(20, 24) == u32_le(self.seg_addr[3]),
            self.segment_bytes().subrange(24, 28) == u32_le(self.seg_size[0]),
            self.segment_bytes().subrange(28, 32) == u32_le(self.seg_size[1]),
            self.segment_bytes().subrange(32, 36) == u32_le(self.seg_size[2]),
            self.segment_bytes().subrange(36, 40) == u32_le(self.seg_size[3]),
    {
        broadcast use vstd::array::array_len_matches_n;

        assert(self.segment_bytes().subrange(0, 2) =~= u16_le(self.seg_align[0]));
        assert(self.segment_bytes().subrange(2, 4) =~= u16_le(self.seg_align[1]));
        assert(self.segment_bytes().subrange(4, 6) =~= u16_le(self.seg_align[2]));
        assert(self.segment_bytes().subrange(6, 8) =~= u16_le(self.seg_align[3]));
        assert(self.segment_bytes().subrange(8, 12) =~= u32_le(self.seg_addr[0]));
        assert(self.segment_bytes().subrange(12, 16) =~= u32_le(self.seg_addr[1]));
        assert(self.segment_bytes().subrange(16, 20) =~= u32_le(self.seg_addr[2]));
        assert(self.segment_bytes().subrange(20, 24) =~= u32_le(self.seg_addr[3]));
        assert(self.segment_bytes().subrange(24, 28) =~= u32_le(self.seg_size[0]));
        assert(self.segment_bytes().subrange(28, 32) =~= u32_le(self.seg_size[1]));
        assert(self.segment_bytes().subrange(32, 36) =~= u32_le(self.seg_size[2]));
        assert(self.segment_bytes().subrange(36, 40) =~= u32_le(self.seg_size[3]));
    }

    /// Where each field lies in the 28 bytes of this part of the header.
    pub proof fn lemma_mode_layout(self)
        ensures
            self.mode_bytes().len() == 28,
            self.mode_bytes().subrange(0, 4) == u32_le(self.reserved[0]),
            self.mode_bytes().subrange(4, 8) == u32_le(self.reserved[1]),
            self.mode_bytes().subrange(8, 12) == u32_le(self.reserved[2]),
            self.mode_bytes().subrange(12, 16) == u32_le(self.reserved[3]),
            self.mode_bytes().subrange(16, 20) == u32_le(self.reserved[4]),
            self.mode_bytes().subrange(20, 24) == u32_le(self.devkit_version),
            self.mode_bytes()[24] == self.decrypt_mode.code_spec(),
            self.mode_bytes()[25] == self.padding,
            self.mode_bytes().subrange(26, 28) == u16_le(self.overlap_size),
    {
        broadcast use vstd::array::array_len_matches_n;

        assert(self.mode_bytes().subrange(0, 4) =~= u32_le(self.reserved[0]));
        assert(self.mode_bytes().subrange(4, 8) =~= u32_le(self.reserved[1]));
        assert(self.mode_bytes().subrange(8, 12) =~= u32_le(self.reserved[2]));
        assert(self.mode_bytes().subrange(12, 16) =~= u32_le(self.reserved[3]));
        assert(self.mode_bytes().subrange(16, 20) =~= u32_le(self.reserved[4]));
        assert(self.mode_bytes().subrange(20, 24) =~= u32_le(self.devkit_version));
        assert(self.mode_bytes().subrange(26, 28) =~= u16_le(self.overlap_size));
    }

    /// Where each field lies in the 208 bytes of this part of the header.
    pub proof fn lemma_key_layout(self)
        ensures
            self.key_bytes().len() == 208,
            self.key_bytes().subrange(0, 48) == self.key_data0@,
            self.key_bytes().subrange(48, 52) == u32_le(self.comp_size),
            self.key_bytes().subrange(52, 56) == u32_le(self._80),
            self.key_bytes().subrange(56, 60) == u32_le(self.reserved2[0]),
            self.key_bytes().subrange(60, 64) == u32_le(self.reserved2[1]),
            self.key_bytes().subrange(64, 80) == self.key_data1@,
            self.key_bytes().subrange(80, 84) == u32_le(self.tag),
            self.key_bytes().subrange(84, 172) == self.scheck@,
            self.key_bytes().subrange(172, 176) == u32_le(self.key_data2),
            self.key_bytes().subrange(176, 180) == u32_le(self.oe_tag),
            self.key_bytes().subrange(180, 208) == self.key_data3@,
    {
        broadcast use vstd::array::array_len_matches_n;

        assert(self.key_bytes().subrange(0, 48) =~= self.key_data0@);
        assert(self.key_bytes().subrange(48, 52) =~= u32_le(self.comp_size));
        assert(self.key_bytes().subrange(52, 56) =~= u32_le(self._80));
        assert(self.key_bytes().subrange(56, 60) =~= u32_le(self.reserved2[0]));
        assert(self.key_bytes().subrange(60, 64) =~= u32_le(self.reserved2[1]));
        assert(self.key_bytes().subrange(64, 80) =~= self.key_data1@);
        assert(self.key_bytes().subrange(80, 84) =~= u32_le(self.tag));
        assert(self.key_bytes().subrange(84, 172) =~= self.scheck@);
        assert(self.key_bytes().subrange(172, 176) =~= u32_le(self.key_data2));
        assert(self.key_bytes().subrange(176, 180) =~= u32_le(self.oe_tag));
        assert(self.key_bytes().subrange(180, 208) =~= self.key_data3@);
    }

    /// Whether the first 60 bytes of `bytes` hold the fields of the identity part
    /// at their places.
    pub open spec fn identity_laid_out(&self, bytes: Seq<u8>) -> bool {
        &&& bytes.len() == PSP_HEADER_SIZE
        &&& bytes.subrange(0, 4) == u32_le(self.signature)
        &&& bytes.subrange(4, 6) == u16_le(self.attribute.bits)
        &&& bytes.subrange(6, 8) == u16_le(self.comp_attribute)
        &&& bytes[8] == self.module_version_low
        &&& bytes[9] == self.module_version_high
        &&& bytes.subrange(10, 38) == self.module_name@
        &&& bytes[38] == self.version
        &&& bytes[39] == self.num_segments
        &&& bytes.subrange(40, 44) == u32_le(self.elf_size)
        &&& bytes.subrange(44, 48) == u32_le(self.psp_size)
        &&& bytes.subrange(48, 52) == u32_le(self.entry)
        &&& bytes.subrange(52, 56) == u32_le(self.module_info_offset)
        &&& bytes.subrange(56, 60) == u32_le(self.bss_size)
    }

    /// Whether the bytes 60 to 100 of `bytes` hold the fields of the segment part
    /// at their places.
    pub open spec fn segment_laid_out(&self, bytes: Seq<u8>) -> bool {
        &&& bytes.len() == PSP_HEADER_SIZE
        &&& bytes.subrange(60, 62) == u16_le(self.seg_align[0])
        &&& bytes.subrange(62, 64) == u16_le(self.seg_align[1])
        &&& bytes.subrange(64, 66) == u16_le(self.seg_align[2])
        &&& bytes.subrange(66, 68) == u16_le(self.seg_align[3])
        &&& bytes.subrange(68, 72) == u32_le(self.seg_addr[0])
        &&& bytes.subrange(72, 76) == u32_le(self.seg_addr[1])
        &&& bytes.subrange(76, 80) == u32_le(self.seg_addr[2])
        &&& bytes.subrange(80, 84) == u32_le(self.seg_addr[3])
        &&& bytes.subrange(84, 88) == u32_le(self.seg_size[0])
        &&& bytes.subrange(88, 92) == u32_le(self.seg_size[1])
        &&& bytes.subrange(92, 96) == u32_le(self.seg_size[2])
        &&& bytes.subrange(96, 100) == u32_le(self.seg_size[3])
    }

    /// Whether the bytes 100 to 128 of `bytes` hold the fields of the mode part
    /// at their places.
    pub open spec fn mode_laid_out(&self, bytes: Seq<u8>) -> bool {
        &&& bytes.len() == PSP_HEADER_SIZE
        &&& bytes.subrange(100, 104) == u32_le(self.reserved[0])
        &&& bytes.subrange(104, 108) == u32_le(self.reserved[1])
        &&& bytes.subrange(108, 112) == u32_le(self.reserved[2])
        &&& bytes.subrange(112, 116) == u32_le(self.reserved[3])
        &&& bytes.subrange(116, 120) == u32_le(self.reserved[4])
        &&& bytes.subrange(120, 124) == u32_le(self.devkit_version)
        &&& bytes[124] == self.decrypt_mode.code_spec()
        &&& bytes[125] == self.padding
        &&& bytes.subrange(126, 128) == u16_le(self.overlap_size)
    }

    /// Whether the bytes 128 to 336 of `bytes` hold the fields of the key part
    /// at their places.
    pub open spec fn key_laid_out(&self, bytes: Seq<u8>) -> bool {
        &&& bytes.len() == PSP_HEADER_SIZE
        &&& bytes.subrange(128, 176) == self.key_data0@
        &&& bytes.subrange(176, 180) == u32_le(self.comp_size)
        &&& bytes.subrange(180, 184) == u32_le(self._80)
        &&& bytes.subrange(184, 188) == u32_le(self.reserved2[0])
        &&& bytes.subrange(188, 192) == u32_le(self.reserved2[1])
        &&& bytes.subrange(192, 208) == self.key_data1@
        &&& bytes.subrange(208, 212) == u32_le(self.tag)
        &&& bytes.subrange(212, 300) == self.scheck@
        &&& bytes.subrange(300, 304) == u32_le(self.key_data2)
        &&& bytes.subrange(304, 308) == u32_le(self.oe_tag)
        &&& bytes.subrange(308, 336) == self.key_data3@
    }

    /// Whether `bytes` hold each field of the header at its place: 336 bytes,
    /// field after field, little-endian.
    pub open spec fn laid_out(&self, bytes: Seq<u8>) -> bool {
        &&& self.identity_laid_out(bytes)
        &&& self.segment_laid_out(bytes)
        &&& self.mode_laid_out(bytes)
        &&& self.key_laid_out(bytes)
    }

    /// Where each field lies in the 336 bytes of the header.
    pub proof fn lemma_layout(self)
        ensures
            self.laid_out(self.bytes_spec()),
    {
        self.lemma_identity_layout();
        self.lemma_segment_layout();
        self.lemma_mode_layout();
        self.lemma_key_layout();
        let bytes = self.bytes_spec();
        assert(bytes.subrange(0, 4) =~= self.identity_bytes().subrange(0, 4));
        assert(bytes.subrange(4, 6) =~= self.identity_bytes().subrange(4, 6));
        assert(bytes.subrange(6, 8) =~= self.identity_bytes().subrange(6, 8));
        assert(bytes.subrange(10, 38) =~= self.identity_bytes().subrange(10, 38));
        assert(bytes.subrange(40, 44) =~= self.identity_bytes().subrange(40, 44));
        assert(bytes.subrange(44, 48) =~= self.identity_bytes().subrange(44, 48));
        assert(bytes.subrange(48, 52) =~= self.identity_bytes().subrange(48, 52));
        assert(bytes.subrange(52, 56) =~= self.identity_bytes().subrange(52, 56));
        assert(bytes.subrange(56, 60) =~= self.identity_bytes().subrange(56, 60));
        assert(bytes.subrange(60, 62) =~= self.segment_bytes().subrange(0, 2));
        assert(bytes.subrange(62, 64) =~= self.segment_bytes().subrange(2, 4));
        assert(bytes.subrange(64, 66) =~= self.segment_bytes().subrange(4, 6));
        assert(bytes.subrange(66, 68) =~= self.segment_bytes().subrange(6, 8));
        assert(bytes.subrange(68, 72) =~= self.segment_bytes().subrange(8, 12));
        assert(bytes.subrange(72, 76) =~= self.segment_bytes().subrange(12, 16));
        assert(bytes.subrange(76, 80) =~= self.segment_bytes().subrange(16, 20));
        assert(bytes.subrange(80, 84) =~= self.segment_bytes().subrange(20, 24));
        assert(bytes.subrange(84, 88) =~= self.segment_bytes().subrange(24, 28));
        assert(bytes.subrange(88, 92) =~= self.segment_bytes().subrange(28, 32));
        assert(bytes.subrange(92, 96) =~= self.segment_bytes().subrange(32, 36));
        assert(bytes.subrange(96, 100) =~= self.segment_bytes().subrange(36, 40));
        assert(bytes.subrange(100, 104) =~= self.mode_bytes().subrange(0, 4));
        assert(bytes.subrange(104, 108) =~= self.mode_bytes().subrange(4, 8));
        assert(bytes.subrange(108, 112) =~= self.mode_bytes().subrange(8, 12));
        assert(bytes.subrange(112, 116) =~= self.mode_bytes().subrange(12, 16));
        assert(bytes.subrange(116, 120) =~= self.mode_bytes().subrange(16, 20));
        assert(bytes.subrange(120, 124) =~= self.mode_bytes().subrange(20, 24));
        assert(bytes.subrange(126, 128) =~= self.mode_bytes().subrange(26, 28));
        assert(bytes.subrange(128, 176) =~= self.key_bytes().subrange(0, 48));
        assert(bytes.subrange(176, 180) =~= self.key_bytes().subrange(48, 52));
        assert(bytes.subrange(180, 184) =~= self.key_bytes().subrange(52, 56));
        assert(bytes.subrange(184, 188) =~= self.key_bytes().subrange(56, 60));
        assert(bytes.subrange(188, 192) =~= self.key_bytes().subrange(60, 64));
        assert(bytes.subrange(192, 208) =~= self.key_bytes().subrange(64, 80));
        assert(bytes.subrange(208, 212) =~= self.key_bytes().subrange(80, 84));
        assert(bytes.subrange(212, 300) =~= self.key_bytes().subrange(84, 172));
        assert(bytes.subrange(300, 304) =~= self.key_bytes().subrange(172, 176));
        assert(bytes.subrange(304, 308) =~= self.key_bytes().subrange(176, 180));
        assert(bytes.subrange(308, 336) =~= self.key_bytes().subrange(180, 208));
    }
}

impl PspHeader {
    /// The fields of the identity part are read back from bytes that are laid
    /// out as the header.
    proof fn lemma_identity_read_back(self, bytes: Seq<u8>)
        requires
            self.identity_laid_out(bytes),
        ensures
            Self::decode_spec(bytes).signature == self.signature,
            Self::decode_spec(bytes).attribute.bits == self.attribute.bits,
            Self::decode_spec(bytes).comp_attribute == self.comp_attribute,
            Self::decode_spec(bytes).module_version_low == self.module_version_low,
            Self::decode_spec(bytes).module_version_high == self.module_version_high,
            Self::decode_spec(bytes).module_name == self.module_name,
            Self::decode_spec(bytes).version == self.version,
            Self::decode_spec(bytes).num_segments == self.num_segments,
            Self::decode_spec(bytes).elf_size == self.elf_size,
            Self::decode_spec(bytes).psp_size == self.psp_size,
            Self::decode_spec(bytes).entry == self.entry,
            Self::decode_spec(bytes).module_info_offset == self.module_info_offset,
            Self::decode_spec(bytes).bss_size == self.bss_size,
    {
        lemma_le_u32_at(bytes, 0, self.signature);
        lemma_le_u16_at(bytes, 4, self.attribute.bits);
        lemma_le_u16_at(bytes, 6, self.comp_attribute);
        lemma_array_of::<28>(bytes.subrange(10, 38));
        lemma_le_u32_at(bytes, 40, self.elf_size);
        lemma_le_u32_at(bytes, 44, self.psp_size);
        lemma_le_u32_at(bytes, 48, self.entry);
        lemma_le_u32_at(bytes, 52, self.module_info_offset);
        lemma_le_u32_at(bytes, 56, self.bss_size);
    }

    /// The identity part of the header that is read from bytes is written as
    /// the bytes it was read from.
    proof fn lemma_identity_written(bytes: Seq<u8>)
        requires
            bytes.len() >= Self::size_spec(),
        ensures
            Self::decode_spec(bytes).identity_bytes() == bytes.subrange(0, 60),
    {
        lemma_u32_bytes_round_trip(bytes, 0);
        lemma_u16_bytes_round_trip(bytes, 4);
        lemma_u16_bytes_round_trip(bytes, 6);
        lemma_array_of::<28>(bytes.subrange(10, 38));
        lemma_u32_bytes_round_trip(bytes, 40);
        lemma_u32_bytes_round_trip(bytes, 44);
        lemma_u32_bytes_round_trip(bytes, 48);
        lemma_u32_bytes_round_trip(bytes, 52);
        lemma_u32_bytes_round_trip(bytes, 56);
        assert(Self::decode_spec(bytes).identity_bytes() =~= bytes.subrange(0, 60));
    }

    /// The fields of the segment part are read back from bytes that are laid out
    /// as the header.
    proof fn lemma_segment_read_back(self, bytes: Seq<u8>)
        requires
            self.segment_laid_out(bytes),
        ensures
            Self::decode_spec(bytes).seg_align == self.seg_align,
            Self::decode_spec(bytes).seg_addr == self.seg_addr,
            Self::decode_spec(bytes).seg_size == self.seg_size,
    {
        lemma_le_u16_at(bytes, 60, self.seg_align[0]);
        lemma_le_u16_at(bytes, 62, self.seg_align[1]);
        lemma_le_u16_at(bytes, 64, self.seg_align[2]);
        lemma_le_u16_at(bytes, 66, self.seg_align[3]);
        assert(Self::decode_spec(bytes).seg_align =~= self.seg_align);
        lemma_le_u32_at(bytes, 68, self.seg_addr[0]);
        lemma_le_u32_at(bytes, 72, self.seg_addr[1]);
        lemma_le_u32_at(bytes, 76, self.seg_addr[2]);
        lemma_le_u32_at(bytes, 80, self.seg_addr[3]);
        assert(Self::decode_spec(bytes).seg_addr =~= self.seg_addr);
        lemma_le_u32_at(bytes, 84, self.seg_size[0]);
        lemma_le_u32_at(bytes, 88, self.seg_size[1]);
        lemma_le_u32_at(bytes, 92, self.seg_size[2]);
        lemma_le_u32_at(bytes, 96, self.seg_size[3]);
        assert(Self::decode_spec(bytes).seg_size =~= self.seg_size);
    }

    /// The segment part of the header that is read from bytes is written as
    /// the bytes it was read from.
    proof fn lemma_segment_written(bytes: Seq<u8>)
        requires
            bytes.len() >= Self::size_spec(),
        ensures
            Self::decode_spec(bytes).segment_bytes() == bytes.subrange(60, 100),
    {
        lemma_u16_bytes_round_trip(bytes, 60);
        lemma_u16_bytes_round_trip(bytes, 62);
        lemma_u16_bytes_round_trip(bytes, 64);
        lemma_u16_bytes_round_trip(bytes, 66);
        lemma_u32_bytes_round_trip(bytes, 68);
        lemma_u32_bytes_round_trip(bytes, 72);
        lemma_u32_bytes_round_trip(bytes, 76);
        lemma_u32_bytes_round_trip(bytes, 80);
        lemma_u32_bytes_round_trip(bytes, 84);
        lemma_u32_bytes_round_trip(bytes, 88);
        lemma_u32_bytes_round_trip(bytes, 92);
        lemma_u32_bytes_round_trip(bytes, 96);
        assert(Self::decode_spec(bytes).segment_bytes() =~= bytes.subrange(60, 100));
    }

    /// The fields of the mode part are read back from bytes that are laid out
    /// as the header.
    proof fn lemma_mode_read_back(self, bytes: Seq<u8>)
        requires
            self.mode_laid_out(bytes),
        ensures
            Self::decode_spec(bytes).reserved == self.reserved,
            Self::decode_spec(bytes).devkit_version == self.devkit_version,
            Self::decode_spec(bytes).decrypt_mode == self.decrypt_mode,
            Self::decode_spec(bytes).padding == self.padding,
            Self::decode_spec(bytes).overlap_size == self.overlap_size,
    {
        lemma_le_u32_at(bytes, 100, self.reserved[0]);
        lemma_le_u32_at(bytes, 104, self.reserved[1]);
        lemma_le_u32_at(bytes, 108, self.reserved[2]);
        lemma_le_u32_at(bytes, 112, self.reserved[3]);
        lemma_le_u32_at(bytes, 116, self.reserved[4]);
        assert(Self::decode_spec(bytes).reserved =~= self.reserved);
        lemma_le_u32_at(bytes, 120, self.devkit_version);
        lemma_le_u16_at(bytes, 126, self.overlap_size);
    }

    /// The mode part of the header that is read from bytes is written as
    /// the bytes it was read from.
    proof fn lemma_mode_written(bytes: Seq<u8>)
        requires
            bytes.len() >= Self::size_spec(),
            DecryptMode::is_code(bytes[124]),
        ensures
            Self::decode_spec(bytes).mode_bytes() == bytes.subrange(100, 128),
    {
        lemma_u32_bytes_round_trip(bytes, 100);
        lemma_u32_bytes_round_trip(bytes, 104);
        lemma_u32_bytes_round_trip(bytes, 108);
        lemma_u32_bytes_round_trip(bytes, 112);
        lemma_u32_bytes_round_trip(bytes, 116);
        lemma_u32_bytes_round_trip(bytes, 120);
        lemma_u16_bytes_round_trip(bytes, 126);
        assert(Self::decode_spec(bytes).mode_bytes() =~= bytes.subrange(100, 128));
    }

    /// The fields of the key part are read back from bytes that are laid out
    /// as the header.
    proof fn lemma_key_read_back(self, bytes: Seq<u8>)
        requires
            self.key_laid_out(bytes),
        ensures
            Self::decode_spec(bytes).key_data0 == self.key_data0,
            Self::decode_spec(bytes).comp_size == self.comp_size,
            Self::decode_spec(bytes)._80 == self._80,
            Self::decode_spec(bytes).reserved2 == self.reserved2,
            Self::decode_spec(bytes).key_data1 == self.key_data1,
            Self::decode_spec(bytes).tag == self.tag,
            Self::decode_spec(bytes).scheck == self.scheck,
            Self::decode_spec(bytes).key_data2 == self.key_data2,
            Self::decode_spec(bytes).oe_tag == self.oe_tag,
            Self::decode_spec(bytes).key_data3 == self.key_data3,
    {
        lemma_array_of::<48>(bytes.subrange(128, 176));
        lemma_le_u32_at(bytes, 176, self.comp_size);
        lemma_le_u32_at(bytes, 180, self._80);
        lemma_le_u32_at(bytes, 184, self.reserved2[0]);
        lemma_le_u32_at(bytes, 188, self.reserved2[1]);
        assert(Self::decode_spec(bytes).reserved2 =~= self.reserved2);
        lemma_array_of::<16>(bytes.subrange(192, 208));
        lemma_le_u32_at(bytes, 208, self.tag);
        lemma_array_of::<88>(bytes.subrange(212, 300));
        lemma_le_u32_at(bytes, 300, self.key_data2);
        lemma_le_u32_at(bytes, 304, self.oe_tag);
        lemma_array_of::<28>(bytes.subrange(308, 336));
    }

    /// The key part of the header that is read from bytes is written as
    /// the bytes it was read from.
    proof fn lemma_key_written(bytes: Seq<u8>)
        requires
            bytes.len() >= Self::size_spec(),
        ensures
            Self::decode_spec(bytes).key_bytes() == bytes.subrange(128, 336),
    {
        lemma_array_of::<48>(bytes.subrange(128, 176));
        lemma_u32_bytes_round_trip(bytes, 176);
        lemma_u32_bytes_round_trip(bytes, 180);
        lemma_u32_bytes_round_trip(bytes, 184);
        lemma_u32_bytes_round_trip(bytes, 188);
        lemma_array_of::<16>(bytes.subrange(192, 208));
        lemma_u32_bytes_round_trip(bytes, 208);
        lemma_array_of::<88>(bytes.subrange(212, 300));
        lemma_u32_bytes_round_trip(bytes, 300);
        lemma_u32_bytes_round_trip(bytes, 304);
        lemma_array_of::<28>(bytes.subrange(308, 336));
        assert(Self::decode_spec(bytes).key_bytes() =~= bytes.subrange(128, 336));
    }

    /// The bytes of a header are read back as the header.
    pub proof fn lemma_round_trip(self)
        ensures
            self.bytes_spec().len() == Self::size_spec(),
            Self::decode_spec(self.bytes_spec()) == self,
    {
        self.lemma_layout();
        let bytes = self.bytes_spec();
        self.lemma_identity_read_back(bytes);
        self.lemma_segment_read_back(bytes);
        self.lemma_mode_read_back(bytes);
        self.lemma_key_read_back(bytes);
    }

    /// The header that is read from bytes is written as those bytes, where
    /// the mode byte stands for a mode.
    pub proof fn lemma_bytes_round_trip(bytes: Seq<u8>)
        requires
            bytes.len() >= Self::size_spec(),
            DecryptMode::is_code(bytes[124]),
        ensures
            Self::decode_spec(bytes).bytes_spec() == bytes.subrange(0, Self::size_spec() as int),
    {
        Self::lemma_identity_written(bytes);
        Self::lemma_segment_written(bytes);
        Self::lemma_mode_written(bytes);
        Self::lemma_key_written(bytes);
        assert(bytes.subrange(0, 60) + bytes.subrange(60, 100) + bytes.subrange(100, 128)
            + bytes.subrange(128, 336) =~= bytes.subrange(0, 336));
    }
}

} // verus!
