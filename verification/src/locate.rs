//! Finding things in an image: the segment or the section that locates the
//! module information, and the section that gives the size of the
//! zero-initialised data.
//!
//! Every offset in an image counts from its first byte, which lies
//! `elf_start` bytes into the file. A range that an offset asks for may run
//! to the end of the file, not only to the end of the image.
use vstd::prelude::*;
use vstd::slice::slice_subrange;
use crate::bytes::truncate_u16;
use crate::elf::{Elf32Ehdr, Elf32Phdr, Elf32Shdr, PT_LOAD};
use crate::error::Error;
use crate::psp::PspHeader;
use crate::utils::{owned_array, owned_copy, Record, TryFromBytes};

verus! {

/// The bytes of `exec` from `start` to its end.
pub open spec fn tail(exec: Seq<u8>, start: int) -> Seq<u8> {
    exec.subrange(start, exec.len() as int)
}

/// The file header of the image that starts `elf_start` bytes into `exec`.
pub open spec fn image_header(exec: Seq<u8>, elf_start: int) -> Result<Elf32Ehdr, Error> {
    if elf_start > exec.len() {
        Err(Error::FileTooSmall)
    } else {
        owned_copy::<Elf32Ehdr>(tail(exec, elf_start))
    }
}

/// The `count` records that start `start` bytes into `exec`.
pub open spec fn records_at<T: Record>(exec: Seq<u8>, start: int, count: nat) -> Result<
    Seq<T>,
    Error,
> {
    if start > exec.len() {
        Err(Error::FileTooSmall)
    } else {
        owned_array::<T>(tail(exec, start), count)
    }
}

/// The segment headers of the image, in the order of the file.
pub open spec fn segments(exec: Seq<u8>, elf_start: int) -> Result<Seq<Elf32Phdr>, Error> {
    match image_header(exec, elf_start) {
        Err(e) => Err(e),
        Ok(header) => records_at::<Elf32Phdr>(
            exec,
            elf_start + header.e_phoff,
            header.e_phnum as nat,
        ),
    }
}

/// The section headers of the image, in the order of the file.
pub open spec fn sections(exec: Seq<u8>, elf_start: int) -> Result<Seq<Elf32Shdr>, Error> {
    match image_header(exec, elf_start) {
        Err(e) => Err(e),
        Ok(header) => records_at::<Elf32Shdr>(
            exec,
            elf_start + header.e_shoff,
            header.e_shnum as nat,
        ),
    }
}

/// A loadable segment whose physical address differs from its virtual one
/// holds the module information: the physical address is its offset.
pub open spec fn locates_module_info(phdr: Elf32Phdr) -> bool {
    phdr.p_type == PT_LOAD && phdr.p_vaddr != phdr.p_paddr
}

/// The first segment from index `from` on that locates the module
/// information.
pub open spec fn first_module_info_segment(phdrs: Seq<Elf32Phdr>, from: int) -> Option<Elf32Phdr>
    decreases phdrs.len() - from,
{
    if from < 0 || from >= phdrs.len() {
        None
    } else if locates_module_info(phdrs[from]) {
        Some(phdrs[from])
    } else {
        first_module_info_segment(phdrs, from + 1)
    }
}

/// What the search by segment gives.
pub open spec fn module_info_phdr(exec: Seq<u8>, elf_start: int) -> Result<
    Option<Elf32Phdr>,
    Error,
> {
    match segments(exec, elf_start) {
        Err(e) => Err(e),
        Ok(phdrs) => Ok(first_module_info_segment(phdrs, 0)),
    }
}

/// Whether a zero byte lies at `start` or after it.
pub open spec fn terminated(exec: Seq<u8>, start: int) -> bool {
    exists|i: int| start <= i < exec.len() && exec[i] == 0
}

/// Whether the string at `start` is `name`: the bytes of `name`, none of
/// them zero, and a zero byte after them.
pub open spec fn name_at(exec: Seq<u8>, start: int, name: Seq<u8>) -> bool {
    &&& 0 <= start
    &&& start + name.len() < exec.len()
    &&& exec.subrange(start, start + name.len()) == name
    &&& exec[start + name.len()] == 0
    &&& forall|j: int| 0 <= j < name.len() ==> name[j] != 0
}

/// Where the names of the sections start in the file: at the offset of the
/// section that the file header names. An index past the last section is
/// refused.
pub open spec fn name_table(header: Elf32Ehdr, shdrs: Seq<Elf32Shdr>, elf_start: int) -> Result<
    int,
    Error,
> {
    if header.e_shstrndx >= shdrs.len() {
        Err(Error::FileTooSmall)
    } else {
        Ok(elf_start + shdrs[header.e_shstrndx as int].sh_offset)
    }
}

/// The first section from index `from` on that is named `name`, where the
/// names start at `strtab`. The search stops with an error at the first
/// section whose name starts past the end of the file or has no end.
pub open spec fn find_named_from(
    exec: Seq<u8>,
    strtab: int,
    shdrs: Seq<Elf32Shdr>,
    name: Seq<u8>,
    from: int,
) -> Result<Option<Elf32Shdr>, Error>
    decreases shdrs.len() - from,
{
    if from < 0 || from >= shdrs.len() {
        Ok(None)
    } else if strtab + shdrs[from].sh_name > exec.len() {
        Err(Error::FileTooSmall)
    } else if !terminated(exec, strtab + shdrs[from].sh_name) {
        Err(Error::CStr)
    } else if name_at(exec, strtab + shdrs[from].sh_name, name) {
        Ok(Some(shdrs[from]))
    } else {
        find_named_from(exec, strtab, shdrs, name, from + 1)
    }
}

/// What the search by section name gives. An image without sections has no
/// section of any name.
pub open spec fn named_section(exec: Seq<u8>, elf_start: int, name: Seq<u8>) -> Result<
    Option<Elf32Shdr>,
    Error,
> {
    match image_header(exec, elf_start) {
        Err(e) => Err(e),
        Ok(header) => match sections(exec, elf_start) {
            Err(e) => Err(e),
            Ok(shdrs) => if shdrs.len() == 0 {
                Ok(None)
            } else {
                match name_table(header, shdrs, elf_start) {
                    Err(e) => Err(e),
                    Ok(strtab) => find_named_from(exec, strtab, shdrs, name, 0),
                }
            },
        },
    }
}

/// The name of the section that holds the zero-initialised data: `.bss`.
pub open spec fn bss_name() -> Seq<u8> {
    seq![0x2Eu8, 0x62u8, 0x73u8, 0x73u8]
}

/// The size of the first section from index `from` on that is named `.bss`.
/// A section whose name is anything else, or is cut off by the end of the
/// file, is passed over: the search fails only where no section has the
/// name.
pub open spec fn bss_size_from(
    exec: Seq<u8>,
    strtab: int,
    shdrs: Seq<Elf32Shdr>,
    from: int,
) -> Result<u32, Error>
    decreases shdrs.len() - from,
{
    if from < 0 || from >= shdrs.len() {
        Err(Error::BssNotFound)
    } else if name_at(exec, strtab + shdrs[from].sh_name, bss_name()) {
        Ok(shdrs[from].sh_size)
    } else {
        bss_size_from(exec, strtab, shdrs, from + 1)
    }
}

/// The size of the zero-initialised data of the image: the size of its
/// `.bss` section. An image without one is refused.
pub open spec fn bss_size(exec: Seq<u8>, elf_start: int) -> Result<u32, Error> {
    match image_header(exec, elf_start) {
        Err(e) => Err(e),
        Ok(header) => match sections(exec, elf_start) {
            Err(e) => Err(e),
            Ok(shdrs) => if shdrs.len() == 0 {
                Err(Error::BssNotFound)
            } else {
                match name_table(header, shdrs, elf_start) {
                    Err(e) => Err(e),
                    Ok(strtab) => bss_size_from(exec, strtab, shdrs, 0),
                }
            },
        },
    }
}

/// The bytes of `exec` from `base + offset` on, if that lies within it.
fn tail_at(exec: &[u8], base: usize, offset: u32) -> (res: Option<&[u8]>)
    ensures
        base + offset > exec@.len() ==> res is None,
        base + offset <= exec@.len() ==> (res matches Some(t) && t@ == tail(exec@, base + offset)),
{
    let len = exec.len();
    match base.checked_add(offset as usize) {
        None => None,
        Some(start) => if start > len {
            None
        } else {
            Some(slice_subrange(exec, start, exec.len()))
        },
    }
}

/// Reads the file header of the image that starts at `elf_start`.
pub fn read_image_header(exec: &[u8], elf_start: usize) -> (res: Result<Elf32Ehdr, Error>)
    ensures
        res == image_header(exec@, elf_start as int),
{
    match tail_at(exec, elf_start, 0) {
        None => Err(Error::FileTooSmall),
        Some(elf_slice) => Elf32Ehdr::from_bytes(elf_slice),
    }
}

/// Reads `count` records that start at `base + offset`.
pub fn read_records<T: TryFromBytes>(exec: &[u8], base: usize, offset: u32, count: usize) -> (res:
    Result<Vec<T>, Error>)
    ensures
        match res {
            Ok(v) => records_at::<T>(exec@, base + offset, count as nat) == Ok::<Seq<T>, Error>(
                v@,
            ),
            Err(e) => records_at::<T>(exec@, base + offset, count as nat) == Err::<Seq<T>, Error>(
                e,
            ),
        },
{
    match tail_at(exec, base, offset) {
        None => Err(Error::FileTooSmall),
        Some(slice) => T::from_bytes_with_elems(slice, count),
    }
}

/// Looks for the segment that locates the module information: the first
/// loadable segment whose physical and virtual addresses differ.
pub fn find_module_info_phdr(exec: &[u8], elf_start: usize) -> (res: Result<
    Option<Elf32Phdr>,
    Error,
>)
    ensures
        res == module_info_phdr(exec@, elf_start as int),
{
    let elf_header = match read_image_header(exec, elf_start) {
        Err(e) => {
            return Err(e);
        },
        Ok(header) => header,
    };
    let phnum = elf_header.e_phnum as usize;
    let phdrs = match read_records::<Elf32Phdr>(exec, elf_start, elf_header.e_phoff, phnum) {
        Err(e) => {
            return Err(e);
        },
        Ok(phdrs) => phdrs,
    };
    let mut i: usize = 0;
    while i < phdrs.len()
        invariant
            i <= phdrs@.len(),
            module_info_phdr(exec@, elf_start as int) == Ok::<Option<Elf32Phdr>, Error>(
                first_module_info_segment(phdrs@, 0),
            ),
            first_module_info_segment(phdrs@, 0) == first_module_info_segment(phdrs@, i as int),
        decreases phdrs@.len() - i,
    {
        let phdr = phdrs[i];
        if phdr.p_type == PT_LOAD && phdr.p_vaddr != phdr.p_paddr {
            // Found module info
            return Ok(Some(phdr));
        }
        i += 1;
    }
    Ok(None)
}

/// Whether a zero byte lies at `start` or after it.
fn has_terminator(exec: &[u8], start: usize) -> (yes: bool)
    requires
        start <= exec@.len(),
    ensures
        yes == terminated(exec@, start as int),
{
    let mut i: usize = start;
    while i < exec.len()
        invariant
            start <= i <= exec@.len(),
            forall|j: int| start <= j < i ==> exec@[j] != 0,
        decreases exec@.len() - i,
    {
        if exec[i] == 0 {
            return true;
        }
        i += 1;
    }
    false
}

/// Whether the string at `start` is `name`.
fn is_name_at(exec: &[u8], start: usize, name: &[u8]) -> (yes: bool)
    requires
        start <= exec@.len(),
    ensures
        yes == name_at(exec@, start as int, name@),
{
    if name.len() >= exec.len() - start {
        return false;
    }
    let mut j: usize = 0;
    while j < name.len()
        invariant
            j <= name@.len(),
            start + name@.len() < exec.len(),
            forall|k: int| 0 <= k < j ==> name@[k] != 0 && exec@[start + k] == name@[k],
        decreases name@.len() - j,
    {
        if name[j] == 0 || exec[start + j] != name[j] {
            proof {
                if exec@[start + j] != name@[j as int] {
                    assert(exec@.subrange(start as int, start + name@.len())[j as int]
                        != name@[j as int]);
                }
            }
            return false;
        }
        j += 1;
    }
    assert(exec@.subrange(start as int, start + name@.len()) =~= name@);
    exec[start + name.len()] == 0
}

/// Looks for the section named `seg_name`. The names of the sections are
/// strings that end with a zero byte, in the section that the file header
/// names.
pub fn find_segment(exec: &[u8], elf_start: usize, seg_name: &[u8]) -> (res: Result<
    Option<Elf32Shdr>,
    Error,
>)
    ensures
        res == named_section(exec@, elf_start as int, seg_name@),
{
    let elf_header = match read_image_header(exec, elf_start) {
        Err(e) => {
            return Err(e);
        },
        Ok(header) => header,
    };
    let shnum = elf_header.e_shnum as usize;
    let shdrs = match read_records::<Elf32Shdr>(exec, elf_start, elf_header.e_shoff, shnum) {
        Err(e) => {
            return Err(e);
        },
        Ok(shdrs) => shdrs,
    };
    if shdrs.len() == 0 {
        return Ok(None);
    }
    let strndx = elf_header.e_shstrndx as usize;
    if strndx >= shdrs.len() {
        return Err(Error::FileTooSmall);
    }
    find_named(exec, elf_start, shdrs[strndx].sh_offset, &shdrs, seg_name)
}

/// Looks among `shdrs` for the section named `seg_name`, where the names
/// start at `elf_start + strtab_offset`.
fn find_named(
    exec: &[u8],
    elf_start: usize,
    strtab_offset: u32,
    shdrs: &Vec<Elf32Shdr>,
    seg_name: &[u8],
) -> (res: Result<Option<Elf32Shdr>, Error>)
    ensures
        res == find_named_from(exec@, elf_start + strtab_offset, shdrs@, seg_name@, 0),
{
    let ghost strtab: int = elf_start + strtab_offset;
    let mut i: usize = 0;
    while i < shdrs.len()
        invariant
            i <= shdrs@.len(),
            strtab == elf_start + strtab_offset,
            find_named_from(exec@, strtab, shdrs@, seg_name@, 0) == find_named_from(
                exec@,
                strtab,
                shdrs@,
                seg_name@,
                i as int,
            ),
        decreases shdrs@.len() - i,
    {
        let shdr = shdrs[i];
        let name_start = match name_start_of(exec, elf_start, strtab_offset, shdr.sh_name) {
            None => {
                return Err(Error::FileTooSmall);
            },
            Some(start) => start,
        };
        if !has_terminator(exec, name_start) {
            return Err(Error::CStr);
        }
        if is_name_at(exec, name_start, seg_name) {
            return Ok(Some(shdr));
        }
        i += 1;
    }
    Ok(None)
}

/// Where a name starts in the file, if that is not past its end.
fn name_start_of(exec: &[u8], elf_start: usize, strtab_offset: u32, name: u32) -> (res: Option<
    usize,
>)
    ensures
        elf_start + strtab_offset + name > exec@.len() ==> res is None,
        elf_start + strtab_offset + name <= exec@.len() ==> (res matches Some(start) && start
            == elf_start + strtab_offset + name),
{
    let relative: u64 = strtab_offset as u64 + name as u64;
    if elf_start as u64 > exec.len() as u64 || relative > exec.len() as u64 - elf_start as u64 {
        None
    } else {
        Some(elf_start + relative as usize)
    }
}

impl PspHeader {
    /// The header with segment `i` of the table set from `phdr`: the low 16
    /// bits of its alignment, its virtual address and its size in memory.
    pub open spec fn with_segment(self, i: int, phdr: Elf32Phdr) -> PspHeader {
        PspHeader {
            seg_align: vstd::array::spec_array_update(
                self.seg_align,
                i,
                (phdr.p_align % 0x1_0000) as u16,
            ),
            seg_addr: vstd::array::spec_array_update(self.seg_addr, i, phdr.p_vaddr),
            seg_size: vstd::array::spec_array_update(self.seg_size, i, phdr.p_memsz),
            ..self
        }
    }

    /// The header with the first `n` segments of the table set from the
    /// first `n` of `phdrs`, in their order.
    pub open spec fn with_segments(self, phdrs: Seq<Elf32Phdr>, n: nat) -> PspHeader
        decreases n,
    {
        if n == 0 {
            self
        } else {
            self.with_segments(phdrs, (n - 1) as nat).with_segment(n - 1, phdrs[n - 1])
        }
    }
}

/// What `read_segments_bss_info` makes of a header: the error and the
/// header as it is left, or the header with the segment table and the size
/// of the zero-initialised data.
pub open spec fn segments_bss_info(exec: Seq<u8>, elf_start: int, header: PspHeader) -> Result<
    PspHeader,
    (Error, PspHeader),
> {
    if header.num_segments > 4 {
        Err((Error::NoSegments, header))
    } else {
        match image_header(exec, elf_start) {
            Err(e) => Err((e, header)),
            Ok(elf_header) => match records_at::<Elf32Phdr>(
                exec,
                elf_start + elf_header.e_phoff,
                header.num_segments as nat,
            ) {
                Err(e) => Err((e, header)),
                Ok(phdrs) => match bss_size(exec, elf_start) {
                    Err(e) => Err((e, header.with_segments(phdrs, phdrs.len()))),
                    Ok(size) => Ok(
                        PspHeader { bss_size: size, ..header.with_segments(phdrs, phdrs.len()) },
                    ),
                },
            },
        }
    }
}

/// Fills the segment table of `psp_header` from the first
/// `psp_header.num_segments` segments of the image, in the order of the
/// file, and sets `bss_size` to the size of the section named `.bss`.
///
/// A header that counts more than four segments is refused, as the table
/// has four places.
pub fn read_segments_bss_info(exec: &[u8], elf_start: usize, psp_header: &mut PspHeader) -> (res:
    Result<(), Error>)
    ensures
        match segments_bss_info(exec@, elf_start as int, *old(psp_header)) {
            Ok(header) => res == Ok::<(), Error>(()) && *final(psp_header) == header,
            Err((e, header)) => res == Err::<(), Error>(e) && *final(psp_header) == header,
        },
{
    if psp_header.num_segments > 4 {
        return Err(Error::NoSegments);
    }
    let elf_header = match read_image_header(exec, elf_start) {
        Err(e) => {
            return Err(e);
        },
        Ok(header) => header,
    };
    let phnum = psp_header.num_segments as usize;
    let phdrs = match read_records::<Elf32Phdr>(exec, elf_start, elf_header.e_phoff, phnum) {
        Err(e) => {
            return Err(e);
        },
        Ok(phdrs) => phdrs,
    };
    let mut i: usize = 0;
    while i < phdrs.len()
        invariant
            i <= phdrs@.len() <= 4,
            *psp_header == old(psp_header).with_segments(phdrs@, i as nat),
        decreases phdrs@.len() - i,
    {
        let phdr = phdrs[i];
        psp_header.seg_align[i] = truncate_u16(phdr.p_align);
        psp_header.seg_addr[i] = phdr.p_vaddr;
        psp_header.seg_size[i] = phdr.p_memsz;
        i += 1;
    }
    let shnum = elf_header.e_shnum as usize;
    let shdrs = match read_records::<Elf32Shdr>(exec, elf_start, elf_header.e_shoff, shnum) {
        Err(e) => {
            return Err(e);
        },
        Ok(shdrs) => shdrs,
    };
    if shdrs.len() == 0 {
        return Err(Error::BssNotFound);
    }
    let strndx = elf_header.e_shstrndx as usize;
    if strndx >= shdrs.len() {
        return Err(Error::FileTooSmall);
    }
    match find_bss_size(exec, elf_start, shdrs[strndx].sh_offset, &shdrs) {
        Err(e) => Err(e),
        Ok(size) => {
            psp_header.bss_size = size;
            Ok(())
        },
    }
}

/// Looks among `shdrs` for the section named `.bss`, where the names start
/// at `elf_start + strtab_offset`, and gives its size.
fn find_bss_size(exec: &[u8], elf_start: usize, strtab_offset: u32, shdrs: &Vec<Elf32Shdr>) -> (res:
    Result<u32, Error>)
    ensures
        res == bss_size_from(exec@, elf_start + strtab_offset, shdrs@, 0),
{
    let ghost strtab: int = elf_start + strtab_offset;
    let bss: [u8; 4] = [0x2E, 0x62, 0x73, 0x73];
    let mut k: usize = 0;
    while k < shdrs.len()
        invariant
            k <= shdrs@.len(),
            strtab == elf_start + strtab_offset,
            bss@ == bss_name(),
            bss_size_from(exec@, strtab, shdrs@, 0) == bss_size_from(
                exec@,
                strtab,
                shdrs@,
                k as int,
            ),
        decreases shdrs@.len() - k,
    {
        let shdr = shdrs[k];
        match name_start_of(exec, elf_start, strtab_offset, shdr.sh_name) {
            None => {},
            Some(name_start) => {
                if is_name_at(exec, name_start, &bss) {
                    return Ok(shdr.sh_size);
                }
            },
        }
        k += 1;
    }
    Err(Error::BssNotFound)
}

} // verus!
