//! What holds of the library as a whole, stated over the specifications of
//! its functions and proved from them.
use vstd::prelude::*;
use crate::bytes::{le_u32, lemma_le_u32_at, low_u32, overwrite, u32_le};
use crate::elf::{Elf32Ehdr, Elf32Phdr, Elf32Shdr};
use crate::error::Error;
use crate::locate::{bss_name, bss_size, bss_size_from, find_named_from};
use crate::locate::{first_module_info_segment, locates_module_info, name_at, records_at, tail};
use crate::locate::{image_header, module_info_phdr, name_table, named_section, sections};
use crate::locate::terminated;
use crate::pack::{assembled, base_header, finished_header, image_range, located};
use crate::pack::{module_info_name, packed, padded_name};
use crate::pack::{gzip_result, patched, payload, plan_spec, Packed, GZIP_LEVEL, GZIP_OS};
use crate::pack::{repositioned, synthesized, ImageRange, KeyFiller, Located, Plan};
use crate::psp::{chosen_tags, default_oe_tag, default_psp_tag};
use crate::psp::{ModInfoAttribute, PbpHeader, PspHeader, SceModuleInfo, PSP_HEADER_MAGIC};
use crate::psp::PSP_HEADER_SIZE;
use crate::utils::{borrowed, borrowed_array, element, first_rejection, owned_array, owned_copy};
use crate::utils::{short_input, AsBytes};
use crate::utils::Record;

verus! {

/// A range that is shorter than the records asked of it is refused by every
/// way of laying records over it, owned or borrowed, one record or many,
/// with the size-mismatch error that carries the length of the range and
/// the length that was asked.
pub proof fn lemma_short_range_refused<T: Record>(src: Seq<u8>, count: nat, addr: usize)
    ensures
        src.len() < T::size_spec() ==> owned_copy::<T>(src) == Err::<T, Error>(
            short_input(src.len(), T::size_spec()),
        ) && borrowed::<T>(src, addr) == Err::<Seq<u8>, Error>(
            short_input(src.len(), T::size_spec()),
        ),
        src.len() < T::size_spec() * count ==> owned_array::<T>(src, count) == Err::<
            Seq<T>,
            Error,
        >(short_input(src.len(), T::size_spec() * count)) && borrowed_array::<T>(src, count, addr)
            == Err::<Seq<u8>, Error>(short_input(src.len(), T::size_spec() * count)),
        forall|input_len: nat, expected_len: nat|
            input_len <= usize::MAX && expected_len <= usize::MAX ==> #[trigger] short_input(
                input_len,
                expected_len,
            ) == (Error::FromBytes {
                input_len: input_len as usize,
                expected_len: Some(expected_len as usize),
            }),
{
}

/// A borrowed view at an address that is no multiple of the record's
/// alignment is refused with the alignment error, which carries that
/// alignment and that address.
pub proof fn lemma_misaligned_view_refused<T: Record>(src: Seq<u8>, count: nat, addr: usize)
    requires
        addr as int % T::align_spec() as int != 0,
    ensures
        src.len() >= T::size_spec() ==> borrowed::<T>(src, addr) == Err::<Seq<u8>, Error>(
            Error::Alignment { align: T::align_spec() as usize, addr },
        ),
        src.len() >= T::size_spec() * count ==> borrowed_array::<T>(src, count, addr) == Err::<
            Seq<u8>,
            Error,
        >(Error::Alignment { align: T::align_spec() as usize, addr }),
{
}

/// An owned copy does not depend on any address: where a borrowed view
/// succeeds, the owned copy is the record under the view.
pub proof fn lemma_owned_copy_of_viewed<T: Record>(src: Seq<u8>, addr: usize)
    requires
        borrowed::<T>(src, addr) is Ok,
    ensures
        owned_copy::<T>(src) == Ok::<T, Error>(T::decode_spec(borrowed::<T>(src, addr)->Ok_0)),
{
}

/// Where no element is refused, the array is not refused.
pub proof fn lemma_no_rejection<T: Record>(src: Seq<u8>, from: int, count: int)
    requires
        forall|i: int| from <= i < count ==> (#[trigger] element::<T>(src, i)).rejection() is None,
    ensures
        first_rejection::<T>(src, from, count) is None,
    decreases count - from,
{
    if from < count {
        lemma_no_rejection::<T>(src, from + 1, count);
    }
}

/// The name field of the header holds the name of the module and then a
/// zero.
pub proof fn lemma_padded_name(name: [u8; 27])
    ensures
        padded_name(name)@ == name@.push(0u8),
{
    broadcast use vstd::array::array_len_matches_n;

    assert(padded_name(name)@ =~= name@.push(0u8));
}

/// The segment table with its first `n` places set holds, in each of these
/// places, the low 16 bits of the alignment, the virtual address and the
/// size in memory of the segment of the same index; the other places are
/// as they were.
pub proof fn lemma_segment_table(header: PspHeader, phdrs: Seq<Elf32Phdr>, n: nat)
    requires
        n <= 4,
        n <= phdrs.len(),
    ensures
        forall|i: int|
            0 <= i < 4 ==> #[trigger] header.with_segments(phdrs, n).seg_align[i] == (if i < n {
                (phdrs[i].p_align % 0x1_0000) as u16
            } else {
                header.seg_align[i]
            }),
        forall|i: int|
            0 <= i < 4 ==> #[trigger] header.with_segments(phdrs, n).seg_addr[i] == (if i < n {
                phdrs[i].p_vaddr
            } else {
                header.seg_addr[i]
            }),
        forall|i: int|
            0 <= i < 4 ==> #[trigger] header.with_segments(phdrs, n).seg_size[i] == (if i < n {
                phdrs[i].p_memsz
            } else {
                header.seg_size[i]
            }),
    decreases n,
{
    broadcast use vstd::array::group_array_axioms;

    if n > 0 {
        lemma_segment_table(header, phdrs, (n - 1) as nat);
    }
}

/// A file that starts with the signature of the packer's own format is
/// refused as already packed, whatever follows the signature.
pub proof fn lemma_packed_input_refused(
    exec: Seq<u8>,
    addr: usize,
    psp_tag: Option<u32>,
    oe_tag: Option<u32>,
    filler: KeyFiller,
    out_addr: usize,
)
    requires
        le_u32(exec, 0) == PSP_HEADER_MAGIC,
    ensures
        plan_spec(exec, addr, psp_tag, oe_tag) == Err::<Plan, Error>(Error::AlreadyPacked),
        packed(exec, addr, psp_tag, oe_tag, filler, out_addr) == (Packed::Refused {
            error: Error::AlreadyPacked,
        }),
{
}

/// An image whose file header counts no segment, or more than four, gets no
/// header: the synthesis refuses it before it reads the segment table.
pub proof fn lemma_segment_count_out_of_range_refused(
    exec: Seq<u8>,
    range: ImageRange,
    elf_header: Elf32Ehdr,
    found: Located,
    psp_tag: Option<u32>,
    oe_tag: Option<u32>,
)
    requires
        elf_header.e_phnum == 0 || elf_header.e_phnum > 4,
    ensures
        synthesized(exec, range, elf_header, found, psp_tag, oe_tag) == Err::<PspHeader, Error>(
            Error::NoSegments,
        ),
{
}

/// The segment table of a header with its first `n` places set has the
/// count and the other fields of the header it was made from.
pub proof fn lemma_with_segments_keeps_the_rest(header: PspHeader, phdrs: Seq<Elf32Phdr>, n: nat)
    ensures
        header.with_segments(phdrs, n) == (PspHeader {
            seg_align: header.with_segments(phdrs, n).seg_align,
            seg_addr: header.with_segments(phdrs, n).seg_addr,
            seg_size: header.with_segments(phdrs, n).seg_size,
            ..header
        }),
    decreases n,
{
    if n > 0 {
        lemma_with_segments_keeps_the_rest(header, phdrs, (n - 1) as nat);
    }
}

/// A plan exists only for an image with one to four segments. Its header
/// is the blank header with the fields that the file header and the module
/// information give, the count of the segments, the segment table, the
/// size of the zero-initialised data, the mode and the tags: the synthesis
/// touches no other field.
pub proof fn lemma_plan_header(exec: Seq<u8>, addr: usize, psp_tag: Option<u32>, oe_tag: Option<u32>)
    requires
        plan_spec(exec, addr, psp_tag, oe_tag) is Ok,
    ensures
        ({
            let plan = plan_spec(exec, addr, psp_tag, oe_tag)->Ok_0;
            let header = plan.header;
            let elf_header = owned_copy::<Elf32Ehdr>(
                exec.subrange(plan.image_start as int, plan.image_end as int),
            );
            &&& elf_header is Ok
            &&& 1 <= elf_header->Ok_0.e_phnum <= 4
            &&& header == (PspHeader {
                attribute: header.attribute,
                comp_attribute: 1,
                module_version_low: plan.mod_info.mod_version_low,
                module_version_high: plan.mod_info.mod_version_high,
                module_name: padded_name(plan.mod_info.mod_name),
                num_segments: elf_header->Ok_0.e_phnum as u8,
                elf_size: low_u32((plan.image_end - plan.image_start) as nat),
                entry: elf_header->Ok_0.e_entry,
                module_info_offset: header.module_info_offset,
                bss_size: header.bss_size,
                seg_align: header.seg_align,
                seg_addr: header.seg_addr,
                seg_size: header.seg_size,
                devkit_version: header.devkit_version,
                decrypt_mode: header.decrypt_mode,
                tag: header.tag,
                oe_tag: header.oe_tag,
                ..PspHeader::blank()
            })
        }),
{
    let range = image_range(exec, addr)->Ok_0;
    let image = exec.subrange(range.start as int, range.end as int);
    let elf_header = owned_copy::<Elf32Ehdr>(image)->Ok_0;
    let phdr = module_info_phdr(exec, range.start as int)->Ok_0;
    let shdr = named_section(exec, range.start as int, module_info_name())->Ok_0;
    let found = located(exec, range, phdr, shdr)->Ok_0;
    let base = base_header(range, elf_header, found);
    let phdrs = records_at::<Elf32Phdr>(
        exec,
        range.start + image_header(exec, range.start as int)->Ok_0.e_phoff,
        base.num_segments as nat,
    )->Ok_0;
    lemma_with_segments_keeps_the_rest(base, phdrs, phdrs.len());
}

/// The segment that the search by segment gives is the first that locates
/// the module information; the search gives none only where no segment
/// does.
pub proof fn lemma_first_module_info_segment(phdrs: Seq<Elf32Phdr>, from: int)
    requires
        0 <= from,
    ensures
        match first_module_info_segment(phdrs, from) {
            Some(phdr) => exists|i: int|
                from <= i < phdrs.len() && #[trigger] phdrs[i] == phdr && locates_module_info(phdr)
                    && forall|j: int| from <= j < i ==> !locates_module_info(#[trigger] phdrs[j]),
            None => forall|i: int|
                from <= i < phdrs.len() ==> !locates_module_info(#[trigger] phdrs[i]),
        },
    decreases phdrs.len() - from,
{
    if from < phdrs.len() {
        if locates_module_info(phdrs[from]) {
            assert(phdrs[from] == phdrs[from]);
        } else {
            lemma_first_module_info_segment(phdrs, from + 1);
            match first_module_info_segment(phdrs, from + 1) {
                Some(phdr) => {
                    let i = choose|i: int|
                        from + 1 <= i < phdrs.len() && #[trigger] phdrs[i] == phdr
                            && locates_module_info(phdr) && forall|j: int|
                            from + 1 <= j < i ==> !locates_module_info(#[trigger] phdrs[j]);
                    assert(forall|j: int|
                        from <= j < i ==> !locates_module_info(#[trigger] phdrs[j]));
                },
                None => {},
            }
        }
    }
}

/// The section that the search by name gives has the name, and no section
/// before it has; the search gives none only where no section has the name.
pub proof fn lemma_named_section(
    exec: Seq<u8>,
    strtab: int,
    shdrs: Seq<Elf32Shdr>,
    name: Seq<u8>,
    from: int,
)
    requires
        0 <= from,
    ensures
        match find_named_from(exec, strtab, shdrs, name, from) {
            Ok(Some(shdr)) => exists|i: int|
                from <= i < shdrs.len() && #[trigger] shdrs[i] == shdr && name_at(
                    exec,
                    strtab + shdr.sh_name,
                    name,
                ) && forall|j: int|
                    from <= j < i ==> !name_at(exec, strtab + (#[trigger] shdrs[j]).sh_name, name),
            Ok(None) => forall|i: int|
                from <= i < shdrs.len() ==> !name_at(
                    exec,
                    strtab + (#[trigger] shdrs[i]).sh_name,
                    name,
                ),
            Err(_) => true,
        },
    decreases shdrs.len() - from,
{
    if from < shdrs.len() {
        let start = strtab + shdrs[from].sh_name;
        if start <= exec.len() && terminated(exec, start) {
            if name_at(exec, start, name) {
                assert(shdrs[from] == shdrs[from]);
            } else {
                lemma_named_section(exec, strtab, shdrs, name, from + 1);
                match find_named_from(exec, strtab, shdrs, name, from + 1) {
                    Ok(Some(shdr)) => {
                        let i = choose|i: int|
                            from + 1 <= i < shdrs.len() && #[trigger] shdrs[i] == shdr && name_at(
                                exec,
                                strtab + shdr.sh_name,
                                name,
                            ) && forall|j: int|
                                from + 1 <= j < i ==> !name_at(
                                    exec,
                                    strtab + (#[trigger] shdrs[j]).sh_name,
                                    name,
                                );
                        assert(forall|j: int|
                            from <= j < i ==> !name_at(
                                exec,
                                strtab + (#[trigger] shdrs[j]).sh_name,
                                name,
                            ));
                    },
                    _ => {},
                }
            }
        }
    }
}

/// The search for the size of the zero-initialised data fails in one way
/// only, and does so exactly where no section is named `.bss`.
pub proof fn lemma_no_bss_section(exec: Seq<u8>, strtab: int, shdrs: Seq<Elf32Shdr>, from: int)
    requires
        0 <= from,
    ensures
        bss_size_from(exec, strtab, shdrs, from) is Err ==> bss_size_from(
            exec,
            strtab,
            shdrs,
            from,
        ) == Err::<u32, Error>(Error::BssNotFound),
        bss_size_from(exec, strtab, shdrs, from) is Err <==> forall|i: int|
            from <= i < shdrs.len() ==> !name_at(
                exec,
                strtab + (#[trigger] shdrs[i]).sh_name,
                bss_name(),
            ),
    decreases shdrs.len() - from,
{
    if from < shdrs.len() {
        lemma_no_bss_section(exec, strtab, shdrs, from + 1);
        if name_at(exec, strtab + shdrs[from].sh_name, bss_name()) {
            assert(shdrs[from] == shdrs[from]);
        }
    }
}

/// A size of the zero-initialised data is the size of the first section
/// that is named `.bss`.
pub proof fn lemma_bss_size_is_of_a_bss_section(
    exec: Seq<u8>,
    strtab: int,
    shdrs: Seq<Elf32Shdr>,
    from: int,
)
    requires
        0 <= from,
        bss_size_from(exec, strtab, shdrs, from) is Ok,
    ensures
        exists|i: int|
            from <= i < shdrs.len() && name_at(
                exec,
                strtab + (#[trigger] shdrs[i]).sh_name,
                bss_name(),
            ) && bss_size_from(exec, strtab, shdrs, from) == Ok::<u32, Error>(shdrs[i].sh_size)
                && forall|j: int|
                from <= j < i ==> !name_at(exec, strtab + (#[trigger] shdrs[j]).sh_name, bss_name()),
    decreases shdrs.len() - from,
{
    if name_at(exec, strtab + shdrs[from].sh_name, bss_name()) {
        assert(bss_size_from(exec, strtab, shdrs, from) == Ok::<u32, Error>(shdrs[from].sh_size));
    } else {
        lemma_bss_size_is_of_a_bss_section(exec, strtab, shdrs, from + 1);
        let i = choose|i: int|
            from + 1 <= i < shdrs.len() && name_at(
                exec,
                strtab + (#[trigger] shdrs[i]).sh_name,
                bss_name(),
            ) && bss_size_from(exec, strtab, shdrs, from + 1) == Ok::<u32, Error>(shdrs[i].sh_size)
                && forall|j: int|
                from + 1 <= j < i ==> !name_at(
                    exec,
                    strtab + (#[trigger] shdrs[j]).sh_name,
                    bss_name(),
                );
        assert(forall|j: int|
            from <= j < i ==> !name_at(exec, strtab + (#[trigger] shdrs[j]).sh_name, bss_name()));
    }
}

/// An image without a `.bss` section gets no header, however valid the rest
/// of it is: where the segment count is in range and the file header and
/// the segments can be read, the synthesis fails with the error of the
/// search.
pub proof fn lemma_missing_bss_refused(
    exec: Seq<u8>,
    range: ImageRange,
    elf_header: Elf32Ehdr,
    found: Located,
    psp_tag: Option<u32>,
    oe_tag: Option<u32>,
)
    requires
        1 <= elf_header.e_phnum <= 4,
        bss_size(exec, range.start as int) == Err::<u32, Error>(Error::BssNotFound),
        crate::locate::image_header(exec, range.start as int) matches Ok(header) && records_at::<
            Elf32Phdr,
        >(exec, range.start + header.e_phoff, elf_header.e_phnum as nat) is Ok,
    ensures
        synthesized(exec, range, elf_header, found, psp_tag, oe_tag) == Err::<PspHeader, Error>(
            Error::BssNotFound,
        ),
{
}

/// For an image whose file header, section headers and name table can be
/// read, the size of the zero-initialised data is refused in one way only,
/// and exactly where no section is named `.bss`.
pub proof fn lemma_bss_size_of_readable_image(exec: Seq<u8>, elf_start: int)
    requires
        image_header(exec, elf_start) is Ok,
        sections(exec, elf_start) is Ok,
        sections(exec, elf_start)->Ok_0.len() == 0 || name_table(
            image_header(exec, elf_start)->Ok_0,
            sections(exec, elf_start)->Ok_0,
            elf_start,
        ) is Ok,
    ensures
        bss_size(exec, elf_start) is Err ==> bss_size(exec, elf_start) == Err::<u32, Error>(
            Error::BssNotFound,
        ),
        sections(exec, elf_start)->Ok_0.len() == 0 ==> bss_size(exec, elf_start) is Err,
        sections(exec, elf_start)->Ok_0.len() > 0 ==> (bss_size(exec, elf_start) is Err
            <==> forall|i: int|
            0 <= i < sections(exec, elf_start)->Ok_0.len() ==> !name_at(
                exec,
                name_table(
                    image_header(exec, elf_start)->Ok_0,
                    sections(exec, elf_start)->Ok_0,
                    elf_start,
                )->Ok_0 + (#[trigger] sections(exec, elf_start)->Ok_0[i]).sh_name,
                bss_name(),
            )),
{
    let shdrs = sections(exec, elf_start)->Ok_0;
    if shdrs.len() > 0 {
        let strtab = name_table(image_header(exec, elf_start)->Ok_0, shdrs, elf_start)->Ok_0;
        lemma_no_bss_section(exec, strtab, shdrs, 0);
    }
}

/// A file that is valid but for a section named `.bss` is refused for that:
/// where the image lies within the file, its file header is read and is of
/// the type that is asked, the two searches for the module information end
/// without an error, the module information is read and agrees on the
/// privilege level, the segments are one to four, and the search for the
/// size of the zero-initialised data fails, the plan is refused with the
/// error of that search, which says that no section is named `.bss`.
pub proof fn lemma_plan_without_bss(
    exec: Seq<u8>,
    addr: usize,
    psp_tag: Option<u32>,
    oe_tag: Option<u32>,
)
    requires
        exec.len() <= usize::MAX,
        le_u32(exec, 0) != PSP_HEADER_MAGIC,
        image_range(exec, addr) is Ok,
        ({
            let range = image_range(exec, addr)->Ok_0;
            let elf_header = owned_copy::<Elf32Ehdr>(
                exec.subrange(range.start as int, range.end as int),
            );
            let phdr = module_info_phdr(exec, range.start as int);
            let shdr = named_section(exec, range.start as int, module_info_name());
            &&& range.start <= range.end <= exec.len()
            &&& elf_header is Ok
            &&& range.is_pbp || elf_header->Ok_0.e_type == crate::elf::ELF_TYPE_PRX
            &&& 1 <= elf_header->Ok_0.e_phnum <= 4
            &&& phdr is Ok
            &&& shdr is Ok
            &&& located(exec, range, phdr->Ok_0, shdr->Ok_0) is Ok
            &&& bss_size(exec, range.start as int) is Err
        }),
    ensures
        plan_spec(exec, addr, psp_tag, oe_tag) == Err::<Plan, Error>(Error::BssNotFound),
{
    let range = image_range(exec, addr)->Ok_0;
    let start = range.start as int;
    let image = exec.subrange(start, range.end as int);
    let elf_header = owned_copy::<Elf32Ehdr>(image)->Ok_0;
    assert(image_header(exec, start) == Ok::<Elf32Ehdr, Error>(elf_header)) by {
        assert(tail(exec, start).subrange(0, 52) =~= image.subrange(0, 52));
    }
    lemma_bss_size_of_readable_image(exec, start);
}

/// The tags of a plan are those of the caller where the caller gave them,
/// and else those of the kind of the executable.
pub proof fn lemma_plan_tags(exec: Seq<u8>, addr: usize, psp_tag: Option<u32>, oe_tag: Option<u32>)
    requires
        plan_spec(exec, addr, psp_tag, oe_tag) is Ok,
    ensures
        ({
            let plan = plan_spec(exec, addr, psp_tag, oe_tag)->Ok_0;
            &&& plan.header.tag == chosen_tags(plan.kind, psp_tag, oe_tag).0
            &&& plan.header.oe_tag == chosen_tags(plan.kind, psp_tag, oe_tag).1
            &&& psp_tag matches Some(tag) ==> plan.header.tag == tag
            &&& oe_tag matches Some(tag) ==> plan.header.oe_tag == tag
            &&& psp_tag is None ==> plan.header.tag == default_psp_tag(plan.kind)
            &&& oe_tag is None ==> plan.header.oe_tag == default_oe_tag(plan.kind)
        }),
{
}

/// The header of the output gives the length of the image as its
/// `elf_size`, and the length of the compressed image and of the whole
/// `~PSP` file as `comp_size` and `psp_size`, each in its low 32 bits.
pub proof fn lemma_sizes_of_the_header(
    exec: Seq<u8>,
    addr: usize,
    psp_tag: Option<u32>,
    oe_tag: Option<u32>,
    filler: KeyFiller,
    compressed_len: nat,
)
    requires
        plan_spec(exec, addr, psp_tag, oe_tag) is Ok,
    ensures
        ({
            let plan = plan_spec(exec, addr, psp_tag, oe_tag)->Ok_0;
            let header = finished_header(plan, filler, compressed_len);
            &&& header.elf_size == low_u32((plan.image_end - plan.image_start) as nat)
            &&& header.comp_size == low_u32(compressed_len)
            &&& header.psp_size == low_u32(PSP_HEADER_SIZE as nat + compressed_len)
        }),
{
    lemma_plan_header(exec, addr, psp_tag, oe_tag);
}

/// The image of a plan for a package lies where the header of the package
/// says: between the offset of the image and the offset of what follows it.
pub proof fn lemma_plan_of_package(
    exec: Seq<u8>,
    addr: usize,
    psp_tag: Option<u32>,
    oe_tag: Option<u32>,
)
    requires
        exec.len() <= usize::MAX,
        plan_spec(exec, addr, psp_tag, oe_tag) is Ok,
        plan_spec(exec, addr, psp_tag, oe_tag)->Ok_0.kind is Pbp,
    ensures
        ({
            let plan = plan_spec(exec, addr, psp_tag, oe_tag)->Ok_0;
            let header = owned_copy::<PbpHeader>(exec);
            &&& header is Ok
            &&& plan.image_start == header->Ok_0.prx_offset
            &&& plan.image_end == header->Ok_0.psar_offset
            &&& plan.image_start <= plan.image_end <= exec.len()
        }),
{
}

/// The image and the module information of a plan lie within the file, and
/// the module information does not start before the image.
pub proof fn lemma_plan_fits(exec: Seq<u8>, addr: usize, psp_tag: Option<u32>, oe_tag: Option<u32>)
    requires
        exec.len() <= usize::MAX,
        plan_spec(exec, addr, psp_tag, oe_tag) is Ok,
    ensures
        plan_spec(exec, addr, psp_tag, oe_tag)->Ok_0.fits(exec.len()),
        plan_spec(exec, addr, psp_tag, oe_tag)->Ok_0.image_start <= plan_spec(
            exec,
            addr,
            psp_tag,
            oe_tag,
        )->Ok_0.mod_info_start,
{
    lemma_plan_module_info(exec, addr, psp_tag, oe_tag);
}

/// A package before the offset is set in its header: what came before the
/// image in the file, the header of 336 bytes, the compressed image, and
/// what came after the image in the file with the module information
/// written back.
pub proof fn lemma_assembled_package(
    exec: Seq<u8>,
    plan: Plan,
    filler: KeyFiller,
    compressed: Seq<u8>,
)
    requires
        plan.kind is Pbp,
        plan.fits(exec.len()),
        plan.image_start <= plan.mod_info_start,
    ensures
        assembled(exec, plan, filler, compressed) == exec.subrange(0, plan.image_start as int)
            + finished_header(plan, filler, compressed.len()).bytes_spec() + compressed + patched(
            exec,
            plan,
        ).subrange(plan.image_end as int, exec.len() as int),
        finished_header(plan, filler, compressed.len()).bytes_spec().len() == PSP_HEADER_SIZE,
        plan.mod_info_start + SceModuleInfo::size_spec() <= plan.image_end ==> patched(
            exec,
            plan,
        ).subrange(plan.image_end as int, exec.len() as int) == exec.subrange(
            plan.image_end as int,
            exec.len() as int,
        ),
{
    let start = plan.image_start as int;
    let end = plan.image_end as int;
    let len = exec.len() as int;
    let at = plan.mod_info_start as int;
    let info = plan.mod_info.bytes_spec();
    let header = finished_header(plan, filler, compressed.len()).bytes_spec();
    let tail = patched(exec, plan).subrange(end, len);
    assert(info.len() == SceModuleInfo::size_spec()) by {
        plan.mod_info.lemma_round_trip();
    }
    assert(header.len() == PSP_HEADER_SIZE) by {
        finished_header(plan, filler, compressed.len()).lemma_layout();
    }
    crate::bytes::lemma_overwrite_outside(exec, at, info, 0, start);
    if at + info.len() <= end {
        crate::bytes::lemma_overwrite_outside(exec, at, info, end, len);
    }
    assert(assembled(exec, plan, filler, compressed) == exec.subrange(0, start) + (header
        + compressed) + tail) by {
        reveal(assembled);
    }
    assert(exec.subrange(0, start) + (header + compressed) + tail =~= exec.subrange(0, start)
        + header + compressed + tail);
}

/// The parts of four sequences put one after the other, with four bytes
/// in the first of them overwritten.
proof fn lemma_parts_of_patched(
    before: Seq<u8>,
    header: Seq<u8>,
    compressed: Seq<u8>,
    after: Seq<u8>,
    patch: Seq<u8>,
)
    requires
        before.len() >= 36,
        header.len() >= 4,
        patch.len() == 4,
    ensures
        ({
            let out = overwrite(before + header + compressed + after, 32, patch);
            let p = before.len() as int;
            let h = header.len() as int;
            let c = compressed.len() as int;
            &&& out.len() == p + h + c + after.len()
            &&& out.subrange(0, 32) == before.subrange(0, 32)
            &&& out.subrange(32, 36) == patch
            &&& out.subrange(36, p) == before.subrange(36, p)
            &&& out.subrange(p, p + h) == header
            &&& out.subrange(p, p + 4) == header.subrange(0, 4)
            &&& out.subrange(p + h, p + h + c) == compressed
            &&& out.subrange(p + h + c, out.len() as int) == after
            &&& out.subrange(p, out.len() as int) == header + (compressed + after)
        }),
{
    let out = overwrite(before + header + compressed + after, 32, patch);
    let p = before.len() as int;
    let h = header.len() as int;
    let c = compressed.len() as int;
    assert(out.subrange(0, 32) =~= before.subrange(0, 32));
    assert(out.subrange(32, 36) =~= patch);
    assert(out.subrange(36, p) =~= before.subrange(36, p));
    assert(out.subrange(p, p + h) =~= header);
    assert(out.subrange(p, p + 4) =~= header.subrange(0, 4));
    assert(out.subrange(p + h, p + h + c) =~= compressed);
    assert(out.subrange(p + h + c, out.len() as int) =~= after);
    assert(out.subrange(p, out.len() as int) =~= header + (compressed + after));
}

/// A package that is put together again, where its header could be reached
/// and holds the whole of the package header before the image: it is as
/// long as what came before the image, the header, the compressed image and
/// what came after the image; the offset of the image in it is the length
/// of what came before the image; its other bytes before the image are
/// those of the file; then come the header, which is read back from there,
/// the compressed image, and what came after the image.
pub proof fn lemma_package_shape(
    exec: Seq<u8>,
    plan: Plan,
    filler: KeyFiller,
    compressed: Seq<u8>,
    out_addr: usize,
)
    requires
        plan.kind is Pbp,
        plan.fits(exec.len()),
        36 <= plan.image_start <= plan.mod_info_start,
        repositioned(assembled(exec, plan, filler, compressed), out_addr, plan.image_start) is Ok,
    ensures
        ({
            let out = repositioned(
                assembled(exec, plan, filler, compressed),
                out_addr,
                plan.image_start,
            )->Ok_0;
            let header = finished_header(plan, filler, compressed.len());
            let p = plan.image_start as int;
            let c = compressed.len() as int;
            &&& out.len() == p + (PSP_HEADER_SIZE + c) + (exec.len() - plan.image_end)
            &&& le_u32(out, 32) == low_u32(plan.image_start as nat)
            &&& out.subrange(0, 32) == exec.subrange(0, 32)
            &&& out.subrange(36, p) == exec.subrange(36, p)
            &&& out.subrange(p, p + PSP_HEADER_SIZE) == header.bytes_spec()
            &&& owned_copy::<PspHeader>(out.subrange(p, out.len() as int)) == Ok::<
                PspHeader,
                Error,
            >(header)
            &&& out.subrange(p + PSP_HEADER_SIZE, p + PSP_HEADER_SIZE + c) == compressed
            &&& out.subrange(p + PSP_HEADER_SIZE + c, out.len() as int) == patched(
                exec,
                plan,
            ).subrange(plan.image_end as int, exec.len() as int)
        }),
{
    let raw = assembled(exec, plan, filler, compressed);
    let out = repositioned(raw, out_addr, plan.image_start)->Ok_0;
    let header = finished_header(plan, filler, compressed.len());
    let image = header.bytes_spec();
    let p = plan.image_start as int;
    let before = exec.subrange(0, p);
    let after = patched(exec, plan).subrange(plan.image_end as int, exec.len() as int);
    let offset = low_u32(plan.image_start as nat);
    let patch = u32_le(offset);
    assert(raw == before + image + compressed + after && image.len() == 336) by {
        lemma_assembled_package(exec, plan, filler, compressed);
    }
    assert(out == overwrite(raw, 32, patch)) by {
        lemma_reposition_touches_the_offset_only(raw, out_addr, plan.image_start);
    }
    assert(patch.len() == 4) by {
        crate::bytes::lemma_u32_round_trip(offset);
    }
    lemma_parts_of_patched(before, image, compressed, after, patch);
    assert(le_u32(out, 32) == offset) by {
        lemma_le_u32_at(out, 32, offset);
    }
    let rest = out.subrange(p, out.len() as int);
    assert(owned_copy::<PspHeader>(rest) == Ok::<PspHeader, Error>(header)) by {
        lemma_header_then_payload(header, compressed + after);
    }
    assert(before.subrange(0, 32) =~= exec.subrange(0, 32));
    assert(before.subrange(36, p) =~= exec.subrange(36, p));
}

/// The output for a package is the package that is put together from the
/// plan and from what the compressor made of its image, with the offset of
/// the image set in its header. The plan meets what `lemma_package_shape`
/// asks of it but for the length of what comes before the image.
pub proof fn lemma_packed_package(
    exec: Seq<u8>,
    addr: usize,
    psp_tag: Option<u32>,
    oe_tag: Option<u32>,
    filler: KeyFiller,
    out_addr: usize,
)
    requires
        exec.len() <= usize::MAX,
        packed(exec, addr, psp_tag, oe_tag, filler, out_addr) is Output,
        packed(exec, addr, psp_tag, oe_tag, filler, out_addr)->kind is Pbp,
    ensures
        ({
            let plan = plan_spec(exec, addr, psp_tag, oe_tag)->Ok_0;
            let compressed = gzip_result(payload(exec, plan), GZIP_OS, GZIP_LEVEL)->Some_0;
            let raw = assembled(exec, plan, filler, compressed);
            &&& plan.kind is Pbp
            &&& plan.fits(exec.len())
            &&& plan.image_start <= plan.mod_info_start
            &&& plan.image_start <= u32::MAX
            &&& repositioned(raw, out_addr, plan.image_start) == Ok::<Seq<u8>, Error>(
                packed(exec, addr, psp_tag, oe_tag, filler, out_addr)->bytes,
            )
        }),
{
    lemma_plan_of_package(exec, addr, psp_tag, oe_tag);
    lemma_plan_fits(exec, addr, psp_tag, oe_tag);
}

/// Setting the offset of the image in a package changes the four bytes
/// that hold the offset and no other byte.
pub proof fn lemma_reposition_touches_the_offset_only(out: Seq<u8>, addr: usize, image_start: usize)
    requires
        repositioned(out, addr, image_start) is Ok,
    ensures
        repositioned(out, addr, image_start) == Ok::<Seq<u8>, Error>(
            overwrite(out, 32, u32_le(low_u32(image_start as nat))),
        ),
{
    reveal(repositioned);
    let head = out.subrange(0, 40);
    let before = PbpHeader::decode_spec(head);
    let offset = low_u32(image_start as nat);
    assert(before.bytes_spec() == head) by {
        PbpHeader::lemma_bytes_round_trip(head);
        assert(head.subrange(0, 40) =~= head);
    }
    before.lemma_offset_bytes(offset);
    crate::bytes::lemma_u32_round_trip(offset);
    crate::bytes::lemma_overwrite_within(out, 0, 40, 32, u32_le(offset));
}

/// Writing a module information record back over the bytes it was read
/// from, with other attributes, changes the two bytes that hold the
/// attributes and no other byte.
pub proof fn lemma_patch_attributes(exec: Seq<u8>, start: int, attribute: ModInfoAttribute)
    requires
        0 <= start <= exec.len(),
        owned_copy::<SceModuleInfo>(tail(exec, start)) is Ok,
    ensures
        start + SceModuleInfo::size_spec() <= exec.len(),
        overwrite(
            exec,
            start,
            (SceModuleInfo {
                mod_attr: attribute,
                ..owned_copy::<SceModuleInfo>(tail(exec, start))->Ok_0
            }).bytes_spec(),
        ) == overwrite(exec, start, crate::bytes::u16_le(attribute.bits)),
{
    let size = SceModuleInfo::size_spec() as int;
    let source = exec.subrange(start, start + size);
    let info = SceModuleInfo::decode_spec(source);
    let patch = crate::bytes::u16_le(attribute.bits);
    crate::bytes::lemma_word_size();
    assert(tail(exec, start).subrange(0, size) =~= source);
    assert(info.bytes_spec() == source) by {
        SceModuleInfo::lemma_bytes_round_trip(source);
        assert(source.subrange(0, size) =~= source);
    }
    info.lemma_attribute_bytes(attribute);
    crate::bytes::lemma_overwrite_within(exec, start, size, 0, patch);
}

/// The module information of a plan is the record that the file holds at
/// its place, with the attributes of the plan's header.
pub proof fn lemma_plan_module_info(
    exec: Seq<u8>,
    addr: usize,
    psp_tag: Option<u32>,
    oe_tag: Option<u32>,
)
    requires
        exec.len() <= usize::MAX,
        plan_spec(exec, addr, psp_tag, oe_tag) is Ok,
    ensures
        ({
            let plan = plan_spec(exec, addr, psp_tag, oe_tag)->Ok_0;
            let info = owned_copy::<SceModuleInfo>(tail(exec, plan.mod_info_start as int));
            &&& plan.image_start <= plan.image_end <= exec.len()
            &&& plan.mod_info_start <= exec.len()
            &&& info is Ok
            &&& plan.mod_info == (SceModuleInfo { mod_attr: plan.header.attribute, ..info->Ok_0 })
        }),
{
}

/// Writing the module information of a plan back changes the two bytes
/// that hold the attributes and no other byte of the file.
pub proof fn lemma_write_back_touches_the_attributes_only(
    exec: Seq<u8>,
    addr: usize,
    psp_tag: Option<u32>,
    oe_tag: Option<u32>,
)
    requires
        exec.len() <= usize::MAX,
        plan_spec(exec, addr, psp_tag, oe_tag) is Ok,
    ensures
        patched(exec, plan_spec(exec, addr, psp_tag, oe_tag)->Ok_0) == overwrite(
            exec,
            plan_spec(exec, addr, psp_tag, oe_tag)->Ok_0.mod_info_start as int,
            crate::bytes::u16_le(plan_spec(exec, addr, psp_tag, oe_tag)->Ok_0.header.attribute.bits),
        ),
{
    let plan = plan_spec(exec, addr, psp_tag, oe_tag)->Ok_0;
    lemma_plan_module_info(exec, addr, psp_tag, oe_tag);
    lemma_patch_attributes(exec, plan.mod_info_start as int, plan.header.attribute);
}

/// The plan of a package does not depend on the address at which the file
/// starts, as long as that is a multiple of four.
pub proof fn lemma_plan_of_aligned_package(
    exec: Seq<u8>,
    addr: usize,
    other: usize,
    psp_tag: Option<u32>,
    oe_tag: Option<u32>,
)
    requires
        addr % 4 == 0,
        other % 4 == 0,
    ensures
        plan_spec(exec, addr, psp_tag, oe_tag) == plan_spec(exec, other, psp_tag, oe_tag),
{
}

/// The image of a plan for anything but a package is the whole file.
pub proof fn lemma_plan_of_bare_image(
    exec: Seq<u8>,
    addr: usize,
    psp_tag: Option<u32>,
    oe_tag: Option<u32>,
)
    requires
        exec.len() <= usize::MAX,
        plan_spec(exec, addr, psp_tag, oe_tag) is Ok,
        !(plan_spec(exec, addr, psp_tag, oe_tag)->Ok_0.kind is Pbp),
    ensures
        plan_spec(exec, addr, psp_tag, oe_tag)->Ok_0.image_start == 0,
        plan_spec(exec, addr, psp_tag, oe_tag)->Ok_0.image_end == exec.len(),
{
}

/// What starts with the bytes of an accepted record is read as that record.
pub proof fn lemma_owned_copy_at_head<T: Record>(bytes: Seq<u8>, rest: Seq<u8>)
    requires
        bytes.len() == T::size_spec(),
        T::decode_spec(bytes).rejection() is None,
    ensures
        owned_copy::<T>(bytes + rest) == Ok::<T, Error>(T::decode_spec(bytes)),
{
    assert((bytes + rest).subrange(0, T::size_spec() as int) =~= bytes);
}

/// What starts with the bytes of a header is read as that header.
pub proof fn lemma_header_then_payload(header: PspHeader, compressed: Seq<u8>)
    ensures
        (header.bytes_spec() + compressed).len() == PSP_HEADER_SIZE + compressed.len(),
        owned_copy::<PspHeader>(header.bytes_spec() + compressed) == Ok::<PspHeader, Error>(
            header,
        ),
{
    header.lemma_round_trip();
    lemma_owned_copy_at_head::<PspHeader>(header.bytes_spec(), compressed);
}

/// The output for a bare image is the header and then the compressed
/// image, and its first 336 bytes are read as that header: the header of
/// the plan with the sizes and the filler. It gives the length of the file
/// as the size of the image.
pub proof fn lemma_packed_module_shape(
    exec: Seq<u8>,
    addr: usize,
    psp_tag: Option<u32>,
    oe_tag: Option<u32>,
    filler: KeyFiller,
    out_addr: usize,
)
    requires
        exec.len() <= usize::MAX,
        packed(exec, addr, psp_tag, oe_tag, filler, out_addr) is Output,
        !(packed(exec, addr, psp_tag, oe_tag, filler, out_addr)->kind is Pbp),
    ensures
        ({
            let plan = plan_spec(exec, addr, psp_tag, oe_tag)->Ok_0;
            let compressed = gzip_result(payload(exec, plan), GZIP_OS, GZIP_LEVEL)->Some_0;
            let header = finished_header(plan, filler, compressed.len());
            let bytes = packed(exec, addr, psp_tag, oe_tag, filler, out_addr)->bytes;
            &&& packed(exec, addr, psp_tag, oe_tag, filler, out_addr)->kind == plan.kind
            &&& plan.image_start == 0 && plan.image_end == exec.len()
            &&& bytes == header.bytes_spec() + compressed
            &&& bytes.len() == PSP_HEADER_SIZE + compressed.len()
            &&& owned_copy::<PspHeader>(bytes) == Ok::<PspHeader, Error>(header)
            &&& header.elf_size == low_u32(exec.len())
        }),
{
    let plan = plan_spec(exec, addr, psp_tag, oe_tag)->Ok_0;
    let compressed = gzip_result(payload(exec, plan), GZIP_OS, GZIP_LEVEL)->Some_0;
    let header = finished_header(plan, filler, compressed.len());
    assert(packed(exec, addr, psp_tag, oe_tag, filler, out_addr)->bytes == header.bytes_spec()
        + compressed) by {
        reveal(assembled);
    }
    lemma_plan_of_bare_image(exec, addr, psp_tag, oe_tag);
    lemma_sizes_of_the_header(exec, addr, psp_tag, oe_tag, filler, compressed.len());
    lemma_header_then_payload(header, compressed);
}

} // verus!
