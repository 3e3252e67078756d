//! The repacking pipeline: from the bytes of a file to the plan of the
//! output, and from the plan and the compressed image to the bytes of the
//! output.
use vstd::prelude::*;
use vstd::slice::slice_subrange;
use crate::bytes::{le_u32, low_u32, overwrite, put_bytes, read_u32, truncate_u32};
use crate::elf::{Elf32Ehdr, Elf32Phdr, Elf32Shdr, ELF_TYPE_PRX};
use crate::error::Error;
use crate::locate::{find_module_info_phdr, find_segment, module_info_phdr};
use crate::locate::{named_section, read_segments_bss_info, segments_bss_info, tail};
use crate::psp::{choose_tags, chosen_tags, ExecutableKind, ModInfoAttribute, PbpHeader};
use crate::psp::{PspHeader, SceModuleInfo, PBP_HEADER_MAGIC, PSP_HEADER_MAGIC, PSP_HEADER_SIZE};
use crate::utils::{address_of, borrowed, gzip_max_compressed_size, owned_copy, AsBytes, Record};
use crate::utils::{rand, TryFromBytes};
use crate::view::write_at;

verus! {

/// The name of the section that holds the module information:
/// `.rodata.sceModuleInfo`.
pub open spec fn module_info_name() -> Seq<u8> {
    seq![
        0x2Eu8, 0x72u8, 0x6Fu8, 0x64u8, 0x61u8, 0x74u8, 0x61u8,
        0x2Eu8, 0x73u8, 0x63u8, 0x65u8,
        0x4Du8, 0x6Fu8, 0x64u8, 0x75u8, 0x6Cu8, 0x65u8,
        0x49u8, 0x6Eu8, 0x66u8, 0x6Fu8,
    ]
}

/// The top bit of a physical address: the image is placed in kernel memory.
pub const KERNEL_ADDRESS: u32 = 0x8000_0000;

/// The bits of a physical address that give the offset in the image.
pub const OFFSET_MASK: u32 = 0x7FFF_FFFF;

/// Where the image lies in a file, and whether a package holds it.
#[derive(Clone, Copy, Debug, PartialEq, Eq)]
pub struct ImageRange {
    pub is_pbp: bool,
    pub start: usize,
    pub end: usize,
}

/// Where the image lies in a file that is none of the packer's own, when the
/// file starts at address `addr`. A package says so in its header, which is
/// read through a borrowed view; any other file is the image.
pub open spec fn image_range(exec: Seq<u8>, addr: usize) -> Result<ImageRange, Error> {
    if le_u32(exec, 0) == PBP_HEADER_MAGIC {
        match borrowed::<PbpHeader>(exec, addr) {
            Err(e) => Err(e),
            Ok(bytes) => Ok(
                ImageRange {
                    is_pbp: true,
                    start: PbpHeader::decode_spec(bytes).prx_offset as usize,
                    end: PbpHeader::decode_spec(bytes).psar_offset as usize,
                },
            ),
        }
    } else {
        Ok(ImageRange { is_pbp: false, start: 0, end: exec.len() as usize })
    }
}

/// The module information of an image and the place where it was found.
#[derive(Clone, Copy, Debug, PartialEq, Eq)]
pub struct Located {
    pub kind: ExecutableKind,
    /// The offset as the image gives it, with the kernel bit if it has one.
    pub offset: u32,
    /// Where the record starts in the file.
    pub start: usize,
    pub info: SceModuleInfo,
}

/// The module information, from what the two searches gave.
///
/// A segment wins over a section. The top bit of the segment's physical
/// address says that the image is placed in kernel memory; a package must
/// not be, and the attributes of the module must say the same.
pub open spec fn located(
    exec: Seq<u8>,
    range: ImageRange,
    phdr: Option<Elf32Phdr>,
    shdr: Option<Elf32Shdr>,
) -> Result<Located, Error> {
    let is_kernel = phdr is Some && phdr->0.p_paddr & KERNEL_ADDRESS != 0;
    if is_kernel && range.is_pbp {
        Err(Error::KernelPbp)
    } else if phdr is None && shdr is None {
        Err(Error::NoModuleInfo)
    } else {
        let offset = if phdr is Some {
            phdr->0.p_paddr
        } else {
            shdr->0.sh_offset
        };
        let start = range.start + (offset & OFFSET_MASK);
        if start > exec.len() {
            Err(Error::FileTooSmall)
        } else {
            match owned_copy::<SceModuleInfo>(tail(exec, start)) {
                Err(e) => Err(e),
                Ok(info) => if is_kernel != info.mod_attr.is_kernel_mode() {
                    Err(Error::MixedPrivileges)
                } else {
                    Ok(
                        Located {
                            kind: if is_kernel {
                                ExecutableKind::KernelPrx
                            } else if range.is_pbp {
                                ExecutableKind::Pbp
                            } else {
                                ExecutableKind::UserPrx
                            },
                            offset,
                            start: start as usize,
                            info,
                        },
                    )
                },
            }
        }
    }
}

/// The 27 bytes of a module name in the 28 bytes of the header, with a zero
/// at the end.
pub open spec fn padded_name(name: [u8; 27]) -> [u8; 28] {
    [
        name[0],
        name[1],
        name[2],
        name[3],
        name[4],
        name[5],
        name[6],
        name[7],
        name[8],
        name[9],
        name[10],
        name[11],
        name[12],
        name[13],
        name[14],
        name[15],
        name[16],
        name[17],
        name[18],
        name[19],
        name[20],
        name[21],
        name[22],
        name[23],
        name[24],
        name[25],
        name[26],
        0u8,
    ]
}

/// The header as far as the file header and the module information give it.
pub open spec fn base_header(
    range: ImageRange,
    elf_header: Elf32Ehdr,
    found: Located,
) -> PspHeader {
    PspHeader {
        attribute: found.info.mod_attr,
        module_info_offset: found.offset,
        comp_attribute: 1,
        module_version_low: found.info.mod_version_low,
        module_version_high: found.info.mod_version_high,
        module_name: padded_name(found.info.mod_name),
        elf_size: low_u32((range.end - range.start) as nat),
        entry: elf_header.e_entry,
        num_segments: elf_header.e_phnum as u8,
        ..PspHeader::blank()
    }
}

/// The header of the output but for the two sizes and the key filler, which
/// are known only after the image is compressed.
///
/// An image with no segment or with more than four is refused before the
/// segment table is read.
pub open spec fn synthesized(
    exec: Seq<u8>,
    range: ImageRange,
    elf_header: Elf32Ehdr,
    found: Located,
    psp_tag: Option<u32>,
    oe_tag: Option<u32>,
) -> Result<PspHeader, Error> {
    if elf_header.e_phnum == 0 || elf_header.e_phnum > 4 {
        Err(Error::NoSegments)
    } else {
        match segments_bss_info(exec, range.start as int, base_header(range, elf_header, found)) {
            Err((e, _)) => Err(e),
            Ok(header) => Ok(
                PspHeader {
                    tag: chosen_tags(found.kind, psp_tag, oe_tag).0,
                    oe_tag: chosen_tags(found.kind, psp_tag, oe_tag).1,
                    ..header.with_mode(range.is_pbp)
                },
            ),
        }
    }
}

/// All that is decided before the image is compressed.
#[derive(Clone, Copy, Debug, PartialEq, Eq)]
pub struct Plan {
    pub kind: ExecutableKind,
    /// Where the image starts in the file.
    pub image_start: usize,
    /// Where the image ends in the file.
    pub image_end: usize,
    /// Where the module information starts in the file.
    pub mod_info_start: usize,
    /// The module information as it is written back, with the attributes of
    /// the header.
    pub mod_info: SceModuleInfo,
    /// The header of the output but for the two sizes and the key filler.
    pub header: PspHeader,
}

impl Plan {
    /// The plan is one for a file of `len` bytes: the image and the module
    /// information lie within the file.
    pub open spec fn fits(&self, len: nat) -> bool {
        &&& self.image_start <= self.image_end <= len
        &&& self.mod_info_start + SceModuleInfo::size_spec() <= len
    }
}

/// The plan for a file of at least four bytes that starts at address
/// `addr`, or the error that refuses the file.
///
/// A bare image must be of the PRX type. Whether the image of a package may
/// be of that type is an open question of the format: here a package is
/// taken with an image of any type.
pub open spec fn plan_spec(
    exec: Seq<u8>,
    addr: usize,
    psp_tag: Option<u32>,
    oe_tag: Option<u32>,
) -> Result<Plan, Error> {
    if le_u32(exec, 0) == PSP_HEADER_MAGIC {
        Err(Error::AlreadyPacked)
    } else {
        match image_range(exec, addr) {
            Err(e) => Err(e),
            Ok(range) => if range.start > range.end || range.end > exec.len() {
                Err(Error::FileTooSmall)
            } else {
                match owned_copy::<Elf32Ehdr>(exec.subrange(range.start as int, range.end as int)) {
                    Err(e) => Err(e),
                    Ok(elf_header) => if !range.is_pbp && elf_header.e_type != ELF_TYPE_PRX {
                        Err(Error::NotPrx)
                    } else {
                        match module_info_phdr(exec, range.start as int) {
                            Err(e) => Err(e),
                            Ok(phdr) => match named_section(
                                exec,
                                range.start as int,
                                module_info_name(),
                            ) {
                                Err(e) => Err(e),
                                Ok(shdr) => match located(exec, range, phdr, shdr) {
                                    Err(e) => Err(e),
                                    Ok(found) => match synthesized(
                                        exec,
                                        range,
                                        elf_header,
                                        found,
                                        psp_tag,
                                        oe_tag,
                                    ) {
                                        Err(e) => Err(e),
                                        Ok(header) => Ok(
                                            Plan {
                                                kind: found.kind,
                                                image_start: range.start,
                                                image_end: range.end,
                                                mod_info_start: found.start,
                                                mod_info: SceModuleInfo {
                                                    mod_attr: header.attribute,
                                                    ..found.info
                                                },
                                                header,
                                            },
                                        ),
                                    },
                                },
                            },
                        }
                    },
                }
            },
        }
    }
}

/// The first four bytes of `exec`, read with `std::io::Read::read_exact`:
/// they are given when `exec` has four bytes, and an error when it has
/// fewer.
#[verifier::external_body]
fn read_magic(exec: &[u8]) -> (res: Result<[u8; 4], std::io::Error>)
    ensures
        res is Ok <==> exec@.len() >= 4,
        res matches Ok(magic) ==> magic@ == exec@.subrange(0, 4),
{
    let mut file_magic = [0u8; 4];
    let mut reader = exec;
    std::io::Read::read_exact(&mut reader, &mut file_magic)?;
    Ok(file_magic)
}

/// Finds where the image lies in a file whose first word is `file_magic`.
fn find_image(exec: &[u8], addr: usize, file_magic: u32) -> (res: Result<ImageRange, Error>)
    requires
        exec@.len() >= 4,
        file_magic == le_u32(exec@, 0),
    ensures
        res == image_range(exec@, addr),
{
    if file_magic == PBP_HEADER_MAGIC {
        match PbpHeader::ref_from_bytes_at(exec, addr) {
            Err(e) => Err(e),
            Ok(view) => {
                let pbp = view.get();
                Ok(
                    ImageRange {
                        is_pbp: true,
                        start: pbp.prx_offset as usize,
                        end: pbp.psar_offset as usize,
                    },
                )
            },
        }
    } else {
        Ok(ImageRange { is_pbp: false, start: 0, end: exec.len() })
    }
}

/// Reads the module information from the place that the two searches gave
/// and checks the privilege level.
fn locate(exec: &[u8], range: &ImageRange, phdr: Option<Elf32Phdr>, shdr: Option<Elf32Shdr>) -> (res:
    Result<Located, Error>)
    requires
        range.start <= exec@.len(),
    ensures
        res == located(exec@, *range, phdr, shdr),
{
    let is_kernel_module = match phdr {
        Some(phdr) => (phdr.p_paddr & KERNEL_ADDRESS) != 0,
        None => false,
    };
    if is_kernel_module && range.is_pbp {
        return Err(Error::KernelPbp);
    }
    let mod_info_off = match (phdr, shdr) {
        (Some(phdr), _) => phdr.p_paddr,
        (None, Some(shdr)) => shdr.sh_offset,
        (None, None) => {
            return Err(Error::NoModuleInfo);
        },
    };
    let len = exec.len();
    let relative = (mod_info_off & OFFSET_MASK) as usize;
    if relative > len - range.start {
        return Err(Error::FileTooSmall);
    }
    let mod_info_start = range.start + relative;
    let mod_info_slice = slice_subrange(exec, mod_info_start, len);
    let mod_info = match SceModuleInfo::from_bytes(mod_info_slice) {
        Err(e) => {
            return Err(e);
        },
        Ok(info) => info,
    };
    if is_kernel_module != mod_info.mod_attr.contains(ModInfoAttribute::kernel_mode()) {
        return Err(Error::MixedPrivileges);
    }
    let kind = if is_kernel_module {
        ExecutableKind::KernelPrx
    } else if range.is_pbp {
        ExecutableKind::Pbp
    } else {
        ExecutableKind::UserPrx
    };
    Ok(Located { kind, offset: mod_info_off, start: mod_info_start, info: mod_info })
}

/// Copies a module name into the name field of the header.
fn pad_name(name: &[u8; 27]) -> (padded: [u8; 28])
    ensures
        padded == padded_name(*name),
{
    [
        name[0],
        name[1],
        name[2],
        name[3],
        name[4],
        name[5],
        name[6],
        name[7],
        name[8],
        name[9],
        name[10],
        name[11],
        name[12],
        name[13],
        name[14],
        name[15],
        name[16],
        name[17],
        name[18],
        name[19],
        name[20],
        name[21],
        name[22],
        name[23],
        name[24],
        name[25],
        name[26],
        0,
    ]
}

/// Derives the header of the output from the file header, the module
/// information and the sections of the image.
fn synthesize(
    exec: &[u8],
    range: &ImageRange,
    elf_header: &Elf32Ehdr,
    found: &Located,
    psp_tag: Option<u32>,
    oe_tag: Option<u32>,
) -> (res: Result<PspHeader, Error>)
    requires
        range.start <= range.end,
    ensures
        res == synthesized(exec@, *range, *elf_header, *found, psp_tag, oe_tag),
{
    if elf_header.e_phnum == 0 || elf_header.e_phnum > 4 {
        return Err(Error::NoSegments);
    }
    let mut psp_header = PspHeader::default();
    psp_header.attribute = found.info.mod_attr;
    psp_header.module_info_offset = found.offset;
    // set comp attribute to use gzip
    psp_header.comp_attribute = 1;
    psp_header.module_version_low = found.info.mod_version_low;
    psp_header.module_version_high = found.info.mod_version_high;
    psp_header.module_name = pad_name(&found.info.mod_name);
    psp_header.elf_size = truncate_u32(range.end - range.start);
    psp_header.entry = elf_header.e_entry;
    psp_header.num_segments = elf_header.e_phnum as u8;
    assert(psp_header == base_header(*range, *elf_header, *found));
    match read_segments_bss_info(exec, range.start, &mut psp_header) {
        Err(e) => {
            return Err(e);
        },
        Ok(_) => {},
    }
    psp_header.set_decript_mode(range.is_pbp);
    let tags = choose_tags(found.kind, psp_tag, oe_tag);
    psp_header.tag = tags.0;
    psp_header.oe_tag = tags.1;
    Ok(psp_header)
}

/// Reads a file that starts at address `addr` and decides all that does
/// not depend on the compressed image: the kind of the executable, where
/// its image and its module information lie, the module information as it
/// is to be written back, and the header of the output but for the sizes
/// and the key filler.
///
/// A file of fewer than four bytes fails as the reader of the standard
/// library fails on it.
pub fn plan(exec: &[u8], addr: usize, psp_tag: Option<u32>, oe_tag: Option<u32>) -> (res: Result<
    Plan,
    Error,
>)
    ensures
        exec@.len() < 4 ==> res matches Err(Error::Io(_)),
        exec@.len() >= 4 ==> res == plan_spec(exec@, addr, psp_tag, oe_tag),
        res matches Ok(plan) ==> plan.fits(exec@.len()),
{
    let file_magic = match read_magic(exec) {
        Err(e) => {
            return Err(Error::Io(e));
        },
        Ok(magic) => read_u32(&magic, 0),
    };
    if file_magic == PSP_HEADER_MAGIC {
        return Err(Error::AlreadyPacked);
    }
    let range = match find_image(exec, addr, file_magic) {
        Err(e) => {
            return Err(e);
        },
        Ok(range) => range,
    };
    if range.start > range.end || range.end > exec.len() {
        return Err(Error::FileTooSmall);
    }
    let elf_slice = slice_subrange(exec, range.start, range.end);
    let elf_header = match Elf32Ehdr::from_bytes(elf_slice) {
        Err(e) => {
            return Err(e);
        },
        Ok(header) => header,
    };
    if !range.is_pbp && !elf_header.is_prx() {
        // A bare file can only be a PRX: without the PRX type in its file
        // header it is no PSP module.
        return Err(Error::NotPrx);
    }
    let mod_info_phdr = match find_module_info_phdr(exec, range.start) {
        Err(e) => {
            return Err(e);
        },
        Ok(phdr) => phdr,
    };
    let name: [u8; 21] = [
        0x2E, 0x72, 0x6F, 0x64, 0x61, 0x74, 0x61,
        0x2E, 0x73, 0x63, 0x65,
        0x4D, 0x6F, 0x64, 0x75, 0x6C, 0x65,
        0x49, 0x6E, 0x66, 0x6F,
    ];
    assert(name@ =~= module_info_name());
    let mod_info_shdr = match find_segment(exec, range.start, &name) {
        Err(e) => {
            return Err(e);
        },
        Ok(shdr) => shdr,
    };
    let found = match locate(exec, &range, mod_info_phdr, mod_info_shdr) {
        Err(e) => {
            return Err(e);
        },
        Ok(found) => found,
    };
    let header = match synthesize(exec, &range, &elf_header, &found, psp_tag, oe_tag) {
        Err(e) => {
            return Err(e);
        },
        Ok(header) => header,
    };
    // The module information goes back into the image with the attributes
    // of the header, so that the two agree.
    let mut mod_info = found.info;
    mod_info.mod_attr = header.attribute;
    Ok(
        Plan {
            kind: found.kind,
            image_start: range.start,
            image_end: range.end,
            mod_info_start: found.start,
            mod_info,
            header,
        },
    )
}

/// The operating system that the compressed stream names in its header.
pub const GZIP_OS: u8 = 0x0B;

/// The level of compression: the highest.
pub const GZIP_LEVEL: u32 = 9;

/// What flate2 makes of `data` at compression level `level`, with `os` as
/// the operating system of the stream's header and no other header field
/// set: the gzip stream, or nothing where the encoder fails. The encoder
/// writes to a vector, so both depend on `data`, `os` and `level` alone.
pub uninterp spec fn gzip_result(data: Seq<u8>, os: u8, level: u32) -> Option<Seq<u8>>;

/// Compresses `data` with flate2: a `GzBuilder` with the operating system
/// `os`, a `GzEncoder` at level `level` that writes to a vector, one
/// `write_all` of `data`, and `finish`. What the encoder wrote is returned,
/// or the error of the encoder. Nothing is claimed of when the encoder
/// fails, but that it does so on the same arguments every time. The level
/// is kept to the scale of 0 to 9 that flate2 documents.
#[verifier::external_body]
fn gzip(data: &[u8], os: u8, level: u32) -> (res: Result<Vec<u8>, std::io::Error>)
    requires
        level <= 9,
    ensures
        res matches Ok(stream) ==> gzip_result(data@, os, level) == Some(stream@),
        res is Err ==> gzip_result(data@, os, level) is None,
{
    let builder = flate2::GzBuilder::new().operating_system(os);
    let mut encoder = builder.write(Vec::new(), flate2::Compression::new(level));
    std::io::Write::write_all(&mut encoder, data)?;
    encoder.finish()
}

/// The bytes that fill the three key regions of the header. They have no
/// meaning to the packer.
#[derive(Clone, Copy, Debug, PartialEq, Eq)]
pub struct KeyFiller {
    pub key_data0: [u8; 0x30],
    pub key_data1: [u8; 0x10],
    pub key_data3: [u8; 0x1C],
}

/// Fills `dest` with bytes from `rng`, through `rand::Rng::fill`. Nothing is
/// claimed of the bytes.
#[verifier::external_body]
fn fill(rng: &mut rapidhash::RapidRng, dest: &mut [u8])
    ensures
        final(dest)@.len() == old(dest)@.len(),
{
    rand::Rng::fill(rng, dest);
}

impl KeyFiller {
    /// Filler of zeros.
    pub fn zeroed() -> (filler: Self)
        ensures
            forall|i: int| 0 <= i < 0x30 ==> filler.key_data0[i] == 0,
            forall|i: int| 0 <= i < 0x10 ==> filler.key_data1[i] == 0,
            forall|i: int| 0 <= i < 0x1C ==> filler.key_data3[i] == 0,
    {
        KeyFiller { key_data0: [0u8; 0x30], key_data1: [0u8; 0x10], key_data3: [0u8; 0x1C] }
    }

    /// Filler from a generator that is seeded anew for each call. Nothing is
    /// known of the bytes.
    pub fn random() -> (filler: Self) {
        let mut rnd = rand();
        let mut key_data0 = [0u8; 0x30];
        let mut key_data1 = [0u8; 0x10];
        let mut key_data3 = [0u8; 0x1C];
        fill(&mut rnd, &mut key_data0);
        fill(&mut rnd, &mut key_data1);
        fill(&mut rnd, &mut key_data3);
        KeyFiller { key_data0, key_data1, key_data3 }
    }
}

/// The file with the module information of the plan written back.
pub open spec fn patched(exec: Seq<u8>, plan: Plan) -> Seq<u8> {
    overwrite(exec, plan.mod_info_start as int, plan.mod_info.bytes_spec())
}

/// What is compressed: the image, with the module information of the plan
/// where that lies within the image.
pub open spec fn payload(exec: Seq<u8>, plan: Plan) -> Seq<u8> {
    patched(exec, plan).subrange(plan.image_start as int, plan.image_end as int)
}

/// The header of the output: that of the plan with the size of the
/// compressed image, the size of header and compressed image together, and
/// the key filler.
pub open spec fn finished_header(plan: Plan, filler: KeyFiller, compressed_len: nat) -> PspHeader {
    PspHeader {
        comp_size: low_u32(compressed_len),
        psp_size: low_u32(PSP_HEADER_SIZE as nat + compressed_len),
        key_data0: filler.key_data0,
        key_data1: filler.key_data1,
        key_data3: filler.key_data3,
        ..plan.header
    }
}

/// The output before the package header is touched: the header and the
/// compressed image; for a package, between what came before the image and
/// what came after it in the file.
#[verifier::opaque]
pub open spec fn assembled(exec: Seq<u8>, plan: Plan, filler: KeyFiller, compressed: Seq<u8>) -> Seq<
    u8,
> {
    let core = finished_header(plan, filler, compressed.len()).bytes_spec() + compressed;
    if plan.kind is Pbp {
        patched(exec, plan).subrange(0, plan.image_start as int) + core + patched(
            exec,
            plan,
        ).subrange(plan.image_end as int, exec.len() as int)
    } else {
        core
    }
}

/// The package `out`, which starts at address `addr`, with the offset of
/// the image in its header set to `image_start`. The header is reached
/// through a view for writing; no other byte changes.
#[verifier::opaque]
pub open spec fn repositioned(out: Seq<u8>, addr: usize, image_start: usize) -> Result<
    Seq<u8>,
    Error,
> {
    match borrowed::<PbpHeader>(out, addr) {
        Err(e) => Err(e),
        Ok(head) => Ok(
            overwrite(
                out,
                0,
                PbpHeader {
                    prx_offset: low_u32(image_start as nat),
                    ..PbpHeader::decode_spec(head)
                }.bytes_spec(),
            ),
        ),
    }
}

/// Writes the module information of the plan back into the file.
pub fn write_back(exec: &mut [u8], plan: &Plan)
    requires
        plan.fits(old(exec)@.len()),
    ensures
        final(exec)@ == patched(old(exec)@, *plan),
{
    proof {
        plan.mod_info.lemma_round_trip();
    }
    let image = plan.mod_info.as_bytes();
    write_at(exec, plan.mod_info_start, image.as_slice());
}

/// Puts the output together from the file, with the module information
/// written back, and from the compressed image.
pub fn assemble(exec: &[u8], plan: &Plan, filler: &KeyFiller, compressed: &[u8]) -> (out: Vec<u8>)
    requires
        plan.image_start <= plan.image_end <= exec@.len(),
    ensures
        out@ == ({
            let core = finished_header(*plan, *filler, compressed@.len()).bytes_spec()
                + compressed@;
            if plan.kind is Pbp {
                exec@.subrange(0, plan.image_start as int) + core + exec@.subrange(
                    plan.image_end as int,
                    exec@.len() as int,
                )
            } else {
                core
            }
        }),
{
    let psp_header = finish_header(plan, filler, compressed.len());
    let header_bytes = psp_header.as_bytes();
    let guess_size = gzip_max_compressed_size(plan.image_end - plan.image_start);
    let mut out: Vec<u8> = Vec::with_capacity(guess_size.saturating_add(PSP_HEADER_SIZE));
    let ghost core = header_bytes@ + compressed@;
    // if PBP we need to insert the PBP header/icons etc
    if plan.kind.is_pbp() {
        put_bytes(&mut out, slice_subrange(exec, 0, plan.image_start));
        put_bytes(&mut out, header_bytes.as_slice());
        put_bytes(&mut out, compressed);
        put_bytes(&mut out, slice_subrange(exec, plan.image_end, exec.len()));
        assert(out@ =~= exec@.subrange(0, plan.image_start as int) + core + exec@.subrange(
            plan.image_end as int,
            exec@.len() as int,
        ));
    } else {
        put_bytes(&mut out, header_bytes.as_slice());
        put_bytes(&mut out, compressed);
        assert(out@ =~= core);
    }
    out
}

/// Completes the header of the plan with the sizes and the key filler.
fn finish_header(plan: &Plan, filler: &KeyFiller, compressed_len: usize) -> (header: PspHeader)
    ensures
        header == finished_header(*plan, *filler, compressed_len as nat),
{
    let mut psp_header = plan.header;
    psp_header.key_data0 = filler.key_data0;
    psp_header.key_data1 = filler.key_data1;
    psp_header.key_data3 = filler.key_data3;
    psp_header.comp_size = truncate_u32(compressed_len);
    psp_header.psp_size = low_sum(PSP_HEADER_SIZE, compressed_len);
    psp_header
}

/// The low 32 bits of `a + b`.
fn low_sum(a: usize, b: usize) -> (x: u32)
    ensures
        x == low_u32((a + b) as nat),
{
    let wide: u128 = a as u128 + b as u128;
    (wide % 0x1_0000_0000) as u32
}

/// Sets the offset of the image in the header of the package `out`, which
/// starts at address `addr`, to `image_start`.
pub fn reposition(out: &mut [u8], addr: usize, image_start: usize) -> (res: Result<(), Error>)
    ensures
        match repositioned(old(out)@, addr, image_start) {
            Ok(bytes) => res == Ok::<(), Error>(()) && final(out)@ == bytes,
            Err(e) => res == Err::<(), Error>(e) && final(out)@ == old(out)@,
        },
{
    reveal(repositioned);
    match PbpHeader::mut_from_bytes_at(out, addr) {
        Err(e) => Err(e),
        Ok(mut view) => {
            let mut pbp = view.get();
            pbp.prx_offset = truncate_u32(image_start);
            proof {
                pbp.lemma_round_trip();
            }
            view.set(&pbp);
            Ok(())
        },
    }
}

/// What a run makes of a file.
pub enum Packed {
    /// The bytes of the output and the kind of the executable.
    Output { bytes: Seq<u8>, kind: ExecutableKind },
    /// The file, or the package that was made of it, was refused.
    Refused { error: Error },
    /// The compressor failed on the image.
    CompressorFailed,
}

/// What a run makes of a file of four bytes or more.
///
/// `addr` is the address at which the file starts and `out_addr` the one at
/// which the output starts; they count for a package only, whose header is
/// reached through borrowed views.
pub open spec fn packed(
    exec: Seq<u8>,
    addr: usize,
    psp_tag: Option<u32>,
    oe_tag: Option<u32>,
    filler: KeyFiller,
    out_addr: usize,
) -> Packed {
    match plan_spec(exec, addr, psp_tag, oe_tag) {
        Err(error) => Packed::Refused { error },
        Ok(plan) => match gzip_result(payload(exec, plan), GZIP_OS, GZIP_LEVEL) {
            None => Packed::CompressorFailed,
            Some(compressed) => if plan.kind is Pbp {
                match repositioned(
                    assembled(exec, plan, filler, compressed),
                    out_addr,
                    plan.image_start,
                ) {
                    Err(error) => Packed::Refused { error },
                    Ok(bytes) => Packed::Output { bytes, kind: plan.kind },
                }
            } else {
                Packed::Output {
                    bytes: assembled(exec, plan, filler, compressed),
                    kind: plan.kind,
                }
            },
        },
    }
}

/// A PSP file of an unknown format.
#[derive(Debug)]
pub struct UnkPspExecutable {
    content: Vec<u8>,
}

impl View for UnkPspExecutable {
    type V = Seq<u8>;

    /// The bytes of the file.
    closed spec fn view(&self) -> Seq<u8> {
        self.content@
    }
}

/// A compressed PSP executable with known kind.
#[derive(Debug)]
pub struct CompPspExecutable {
    content: Vec<u8>,
    kind: ExecutableKind,
}

impl View for CompPspExecutable {
    type V = (Seq<u8>, ExecutableKind);

    /// The bytes of the file and the kind of the executable.
    closed spec fn view(&self) -> (Seq<u8>, ExecutableKind) {
        (self.content@, self.kind)
    }
}

/// Whether `res` is what `outcome` says: the output with these bytes and
/// this kind, the error that refused the file, or an error of the
/// compressor.
pub open spec fn shows(res: Result<CompPspExecutable, Error>, outcome: Packed) -> bool {
    match outcome {
        Packed::Output { bytes, kind } => res matches Ok(file) && file@ == (bytes, kind),
        Packed::Refused { error } => res == Err::<CompPspExecutable, Error>(error),
        Packed::CompressorFailed => res matches Err(Error::Io(_)),
    }
}

/// What holds of every run on a file with the key filler `filler`.
///
/// A file of fewer than four bytes fails in the reader. A file that is no
/// package gives what `packed` says, whatever the addresses. A package
/// gives what `packed` says for the two addresses that the run met.
pub open spec fn packed_with(
    exec: Seq<u8>,
    psp_tag: Option<u32>,
    oe_tag: Option<u32>,
    filler: KeyFiller,
    res: Result<CompPspExecutable, Error>,
) -> bool {
    if exec.len() < 4 {
        res matches Err(Error::Io(_))
    } else if le_u32(exec, 0) != PBP_HEADER_MAGIC {
        shows(res, packed(exec, 0, psp_tag, oe_tag, filler, 0))
    } else {
        exists|addr: usize, out_addr: usize|
            shows(res, #[trigger] packed(exec, addr, psp_tag, oe_tag, filler, out_addr))
    }
}

/// For a file that is no package, neither the plan nor the outcome depends
/// on an address, and the kind is not that of a package.
pub proof fn lemma_bare_image(
    exec: Seq<u8>,
    addr: usize,
    psp_tag: Option<u32>,
    oe_tag: Option<u32>,
    filler: KeyFiller,
    out_addr: usize,
)
    requires
        le_u32(exec, 0) != PBP_HEADER_MAGIC,
    ensures
        plan_spec(exec, addr, psp_tag, oe_tag) == plan_spec(exec, 0, psp_tag, oe_tag),
        plan_spec(exec, addr, psp_tag, oe_tag) matches Ok(plan) ==> !(plan.kind is Pbp),
        packed(exec, addr, psp_tag, oe_tag, filler, out_addr) == packed(
            exec,
            0,
            psp_tag,
            oe_tag,
            filler,
            0,
        ),
{
}

/// Whether a run on the file is owed success: the file is no package, a
/// plan exists for it, and the compressor takes its image.
pub open spec fn success_owed(exec: Seq<u8>, psp_tag: Option<u32>, oe_tag: Option<u32>) -> bool {
    &&& exec.len() >= 4
    &&& le_u32(exec, 0) != PBP_HEADER_MAGIC
    &&& plan_spec(exec, 0, psp_tag, oe_tag) matches Ok(plan)
    &&& gzip_result(payload(exec, plan), GZIP_OS, GZIP_LEVEL) is Some
}

impl UnkPspExecutable {
    pub fn new(buf: Vec<u8>) -> (file: Self)
        ensures
            file@ == buf@,
    {
        UnkPspExecutable { content: buf }
    }

    /// Takes the bytes of a file, unless they are as many as the platform's
    /// signed size limit or more.
    pub fn from_vec(file: Vec<u8>) -> (res: Result<Self, Error>)
        ensures
            file@.len() >= isize::MAX ==> res matches Err(Error::FileTooBig),
            file@.len() < isize::MAX ==> (res matches Ok(taken) && taken@ == file@),
    {
        if file.len() >= isize::MAX as usize {
            return Err(Error::FileTooBig);
        }
        Ok(Self::new(file))
    }

    /// Repacks the file with the tags that belong to its kind and with key
    /// filler drawn at random.
    pub fn compress(self) -> (res: Result<CompPspExecutable, Error>)
        ensures
            exists|filler: KeyFiller| #[trigger] packed_with(self@, None, None, filler, res),
            success_owed(self@, None, None) ==> res is Ok,
            self@.len() >= 4 && le_u32(self@, 0) == PSP_HEADER_MAGIC ==> res matches Err(
                Error::AlreadyPacked,
            ),
    {
        self.compress_impl(None, None)
    }

    /// Repacks the file with the tags of the caller and with key filler
    /// drawn at random.
    pub fn compress_with_tags(self, psp_tag: u32, oe_tag: u32) -> (res: Result<
        CompPspExecutable,
        Error,
    >)
        ensures
            exists|filler: KeyFiller| #[trigger]
                packed_with(self@, Some(psp_tag), Some(oe_tag), filler, res),
            success_owed(self@, Some(psp_tag), Some(oe_tag)) ==> res is Ok,
            self@.len() >= 4 && le_u32(self@, 0) == PSP_HEADER_MAGIC ==> res matches Err(
                Error::AlreadyPacked,
            ),
    {
        self.compress_impl(Some(psp_tag), Some(oe_tag))
    }

    /// The common part of `compress` and `compress_with_tags`: draws the key
    /// filler and repacks.
    fn compress_impl(self, psp_tag: Option<u32>, oe_tag: Option<u32>) -> (res: Result<
        CompPspExecutable,
        Error,
    >)
        ensures
            exists|filler: KeyFiller| #[trigger] packed_with(self@, psp_tag, oe_tag, filler, res),
            success_owed(self@, psp_tag, oe_tag) ==> res is Ok,
            self@.len() >= 4 && le_u32(self@, 0) == PSP_HEADER_MAGIC ==> res matches Err(
                Error::AlreadyPacked,
            ),
    {
        // Fill key data with random data
        let filler = KeyFiller::random();
        let res = self.compress_with_filler(psp_tag, oe_tag, &filler);
        assert(packed_with(self@, psp_tag, oe_tag, filler, res));
        res
    }

    /// Repacks the file with the key filler of the caller, so that nothing
    /// in the output is drawn at random.
    ///
    /// The file is read, its module information is written back with the
    /// attributes of the header, the image is compressed, and the output
    /// is put together; for a package, the offset of the image is then set
    /// in the header of the package.
    ///
    /// For a file that is no package the result is fixed by the file, the
    /// tags and the filler, and is the output wherever a plan exists and
    /// the compressor takes the image. For a package it depends also on the
    /// addresses of the file and of the output.
    pub fn compress_with_filler(
        self,
        psp_tag: Option<u32>,
        oe_tag: Option<u32>,
        filler: &KeyFiller,
    ) -> (res: Result<CompPspExecutable, Error>)
        ensures
            packed_with(self@, psp_tag, oe_tag, *filler, res),
            success_owed(self@, psp_tag, oe_tag) ==> res is Ok,
            self@.len() >= 4 && le_u32(self@, 0) == PSP_HEADER_MAGIC ==> res matches Err(
                Error::AlreadyPacked,
            ),
    {
        let mut content = self.content;
        let addr = address_of(content.as_slice());
        proof {
            if self@.len() >= 4 && le_u32(self@, 0) != PBP_HEADER_MAGIC {
                lemma_bare_image(self@, addr, psp_tag, oe_tag, *filler, 0);
            }
        }
        let ghost met = packed(self@, addr, psp_tag, oe_tag, *filler, 0);
        let plan = match plan(content.as_slice(), addr, psp_tag, oe_tag) {
            Err(e) => {
                assert(self@.len() >= 4 ==> shows(Err::<CompPspExecutable, Error>(e), met));
                return Err(e);
            },
            Ok(plan) => plan,
        };
        write_back(content.as_mut_slice(), &plan);
        let elf_slice = slice_subrange(content.as_slice(), plan.image_start, plan.image_end);
        let compressed = match gzip(elf_slice, GZIP_OS, GZIP_LEVEL) {
            Err(e) => {
                assert(shows(Err::<CompPspExecutable, Error>(Error::Io(e)), met));
                return Err(Error::Io(e));
            },
            Ok(compressed) => compressed,
        };
        let mut out = assemble(content.as_slice(), &plan, filler, compressed.as_slice());
        assert(out@ == assembled(self@, plan, *filler, compressed@)) by {
            reveal(assembled);
        }
        if plan.kind.is_pbp() {
            let out_addr = address_of(out.as_slice());
            match reposition(out.as_mut_slice(), out_addr, plan.image_start) {
                Err(e) => {
                    assert(shows(
                        Err::<CompPspExecutable, Error>(e),
                        packed(self@, addr, psp_tag, oe_tag, *filler, out_addr),
                    ));
                    return Err(e);
                },
                Ok(_) => {},
            }
            let res = Ok(CompPspExecutable::new(out, plan.kind));
            assert(shows(res, packed(self@, addr, psp_tag, oe_tag, *filler, out_addr)));
            res
        } else {
            let res = Ok(CompPspExecutable::new(out, plan.kind));
            assert(shows(res, met));
            res
        }
    }

    /// File size in bytes.
    pub fn size(&self) -> (n: usize)
        ensures
            n == self@.len(),
    {
        self.content.len()
    }

    pub fn as_bytes(&self) -> (bytes: &[u8])
        ensures
            bytes@ == self@,
    {
        self.content.as_slice()
    }

    pub fn as_mut_bytes(&mut self) -> (bytes: &mut [u8])
        ensures
            bytes@ == old(self)@,
            final(self)@ == final(bytes)@,
    {
        self.content.as_mut_slice()
    }
}

impl CompPspExecutable {
    pub fn new(buf: Vec<u8>, kind: ExecutableKind) -> (file: Self)
        ensures
            file@ == (buf@, kind),
    {
        CompPspExecutable { content: buf, kind }
    }

    /// Returns the file size in bytes.
    pub fn size(&self) -> (n: usize)
        ensures
            n == self@.0.len(),
    {
        self.content.len()
    }

    /// Returns the PSP executable kind.
    pub fn kind(&self) -> (kind: ExecutableKind)
        ensures
            kind == self@.1,
    {
        self.kind
    }

    pub fn as_bytes(&self) -> (bytes: &[u8])
        ensures
            bytes@ == self@.0,
    {
        self.content.as_slice()
    }

    pub fn as_mut_bytes(&mut self) -> (bytes: &mut [u8])
        ensures
            bytes@ == old(self)@.0,
            final(self)@ == (final(bytes)@, old(self)@.1),
    {
        self.content.as_mut_slice()
    }
}

} // verus!
