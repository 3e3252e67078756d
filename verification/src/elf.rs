//! The three records of a 32-bit little-endian ELF image that the packer
//! reads: the file header, the program (segment) header and the section
//! header.
use vstd::prelude::*;
use crate::bytes::{le_u16, le_u32, put_bytes, put_u16, put_u32, read_u16, read_u32, u16_le, u32_le};
use crate::bytes::{lemma_le_u16_at, lemma_le_u32_at, lemma_u16_bytes_round_trip};
use crate::bytes::lemma_u32_bytes_round_trip;
use crate::error::Error;
use crate::utils::{AsBytes, Record, TryFromBytes};

verus! {

/// `\x7fELF`, read as a little-endian word.
pub const ELF_MAGIC: u32 = 0x464C457F;

/// The ELF type of a relocatable PSP module.
pub const ELF_TYPE_PRX: u16 = 0xFFA0;

/// The segment type of a loadable segment.
pub const PT_LOAD: u32 = 1;

/// The ELF file header, 52 bytes.
#[derive(Clone, Copy, Debug, PartialEq, Eq)]
pub struct Elf32Ehdr {
    pub e_magic: u32,
    pub e_class: u8,
    pub e_data: u8,
    pub e_idver: u8,
    pub pad: [u8; 9],
    pub e_type: u16,
    pub e_machine: u16,
    pub e_version: u32,
    pub e_entry: u32,
    pub e_phoff: u32,
    pub e_shoff: u32,
    pub e_flags: u32,
    pub e_ehsize: u16,
    pub e_phentsize: u16,
    pub e_phnum: u16,
    pub e_shentsize: u16,
    pub e_shnum: u16,
    pub e_shstrndx: u16,
}

impl Record for Elf32Ehdr {
    open spec fn size_spec() -> nat {
        52
    }

    open spec fn align_spec() -> nat {
        4
    }

    open spec fn decode_spec(bytes: Seq<u8>) -> Self {
        Elf32Ehdr {
            e_magic: le_u32(bytes, 0),
            e_class: bytes[4],
            e_data: bytes[5],
            e_idver: bytes[6],
            pad: [
                bytes[7],
                bytes[8],
                bytes[9],
                bytes[10],
                bytes[11],
                bytes[12],
                bytes[13],
                bytes[14],
                bytes[15],
            ],
            e_type: le_u16(bytes, 16),
            e_machine: le_u16(bytes, 18),
            e_version: le_u32(bytes, 20),
            e_entry: le_u32(bytes, 24),
            e_phoff: le_u32(bytes, 28),
            e_shoff: le_u32(bytes, 32),
            e_flags: le_u32(bytes, 36),
            e_ehsize: le_u16(bytes, 40),
            e_phentsize: le_u16(bytes, 42),
            e_phnum: le_u16(bytes, 44),
            e_shentsize: le_u16(bytes, 46),
            e_shnum: le_u16(bytes, 48),
            e_shstrndx: le_u16(bytes, 50),
        }
    }

    /// A file header is refused unless it starts with the ELF magic.
    open spec fn rejection(&self) -> Option<Error> {
        if self.e_magic != ELF_MAGIC {
            Some(Error::NotElf)
        } else {
            None
        }
    }

    fn size() -> (n: usize) {
        52
    }

    fn align() -> (n: usize) {
        4
    }

    fn decode(src: &[u8]) -> (rec: Self) {
        Elf32Ehdr {
            e_magic: read_u32(src, 0),
            e_class: src[4],
            e_data: src[5],
            e_idver: src[6],
            pad: [src[7], src[8], src[9], src[10], src[11], src[12], src[13], src[14], src[15]],
            e_type: read_u16(src, 16),
            e_machine: read_u16(src, 18),
            e_version: read_u32(src, 20),
            e_entry: read_u32(src, 24),
            e_phoff: read_u32(src, 28),
            e_shoff: read_u32(src, 32),
            e_flags: read_u32(src, 36),
            e_ehsize: read_u16(src, 40),
            e_phentsize: read_u16(src, 42),
            e_phnum: read_u16(src, 44),
            e_shentsize: read_u16(src, 46),
            e_shnum: read_u16(src, 48),
            e_shstrndx: read_u16(src, 50),
        }
    }
}

impl TryFromBytes for Elf32Ehdr {
    fn validate(src: &Self) -> (res: Result<&Self, Error>) {
        if src.e_magic != ELF_MAGIC {
            return Err(Error::NotElf);
        }
        Ok(src)
    }
}

impl AsBytes for Elf32Ehdr {
    open spec fn bytes_spec(&self) -> Seq<u8> {
        u32_le(self.e_magic) + seq![self.e_class, self.e_data, self.e_idver] + self.pad@ + u16_le(
            self.e_type,
        ) + u16_le(self.e_machine) + u32_le(self.e_version) + u32_le(self.e_entry) + u32_le(
            self.e_phoff,
        ) + u32_le(self.e_shoff) + u32_le(self.e_flags) + u16_le(self.e_ehsize) + u16_le(
            self.e_phentsize,
        ) + u16_le(self.e_phnum) + u16_le(self.e_shentsize) + u16_le(self.e_shnum) + u16_le(
            self.e_shstrndx,
        )
    }

    fn as_bytes(&self) -> (out: Vec<u8>) {
        let mut out: Vec<u8> = Vec::with_capacity(52);
        put_u32(&mut out, self.e_magic);
        out.push(self.e_class);
        out.push(self.e_data);
        out.push(self.e_idver);
        assert(out@ =~= u32_le(self.e_magic) + seq![self.e_class, self.e_data, self.e_idver]);
        put_bytes(&mut out, &self.pad);
        put_u16(&mut out, self.e_type);
        put_u16(&mut out, self.e_machine);
        put_u32(&mut out, self.e_version);
        put_u32(&mut out, self.e_entry);
        put_u32(&mut out, self.e_phoff);
        put_u32(&mut out, self.e_shoff);
        put_u32(&mut out, self.e_flags);
        put_u16(&mut out, self.e_ehsize);
        put_u16(&mut out, self.e_phentsize);
        put_u16(&mut out, self.e_phnum);
        put_u16(&mut out, self.e_shentsize);
        put_u16(&mut out, self.e_shnum);
        put_u16(&mut out, self.e_shstrndx);
        out
    }
}

impl Elf32Ehdr {
    /// Whether the image is marked as a relocatable PSP module.
    #[inline]
    pub fn is_prx(&self) -> (yes: bool)
        ensures
            yes == (self.e_type == ELF_TYPE_PRX),
    {
        self.e_type == ELF_TYPE_PRX
    }
}

/// A program header, which describes one segment, 32 bytes.
#[derive(Clone, Copy, Debug, PartialEq, Eq)]
pub struct Elf32Phdr {
    pub p_type: u32,
    pub p_offset: u32,
    pub p_vaddr: u32,
    pub p_paddr: u32,
    pub p_filesz: u32,
    pub p_memsz: u32,
    pub p_flags: u32,
    pub p_align: u32,
}

impl Record for Elf32Phdr {
    open spec fn size_spec() -> nat {
        32
    }

    open spec fn align_spec() -> nat {
        4
    }

    open spec fn decode_spec(bytes: Seq<u8>) -> Self {
        Elf32Phdr {
            p_type: le_u32(bytes, 0),
            p_offset: le_u32(bytes, 4),
            p_vaddr: le_u32(bytes, 8),
            p_paddr: le_u32(bytes, 12),
            p_filesz: le_u32(bytes, 16),
            p_memsz: le_u32(bytes, 20),
            p_flags: le_u32(bytes, 24),
            p_align: le_u32(bytes, 28),
        }
    }

    /// Every program header is accepted.
    open spec fn rejection(&self) -> Option<Error> {
        None
    }

    fn size() -> (n: usize) {
        32
    }

    fn align() -> (n: usize) {
        4
    }

    fn decode(src: &[u8]) -> (rec: Self) {
        Elf32Phdr {
            p_type: read_u32(src, 0),
            p_offset: read_u32(src, 4),
            p_vaddr: read_u32(src, 8),
            p_paddr: read_u32(src, 12),
            p_filesz: read_u32(src, 16),
            p_memsz: read_u32(src, 20),
            p_flags: read_u32(src, 24),
            p_align: read_u32(src, 28),
        }
    }
}

impl TryFromBytes for Elf32Phdr {
    fn validate(src: &Self) -> (res: Result<&Self, Error>) {
        Ok(src)
    }
}

impl AsBytes for Elf32Phdr {
    open spec fn bytes_spec(&self) -> Seq<u8> {
        u32_le(self.p_type) + u32_le(self.p_offset) + u32_le(self.p_vaddr) + u32_le(self.p_paddr)
            + u32_le(self.p_filesz) + u32_le(self.p_memsz) + u32_le(self.p_flags) + u32_le(
            self.p_align,
        )
    }

    fn as_bytes(&self) -> (out: Vec<u8>) {
        let mut out: Vec<u8> = Vec::with_capacity(32);
        put_u32(&mut out, self.p_type);
        put_u32(&mut out, self.p_offset);
        put_u32(&mut out, self.p_vaddr);
        put_u32(&mut out, self.p_paddr);
        put_u32(&mut out, self.p_filesz);
        put_u32(&mut out, self.p_memsz);
        put_u32(&mut out, self.p_flags);
        put_u32(&mut out, self.p_align);
        assert(out@ =~= self.bytes_spec());
        out
    }
}

/// A section header, 40 bytes. `sh_name` is an offset into the section that
/// holds the names.
#[derive(Clone, Copy, Debug, PartialEq, Eq)]
pub struct Elf32Shdr {
    pub sh_name: u32,
    pub sh_type: u32,
    pub sh_flags: u32,
    pub sh_addr: u32,
    pub sh_offset: u32,
    pub sh_size: u32,
    pub sh_link: u32,
    pub sh_info: u32,
    pub sh_addralign: u32,
    pub sh_entsize: u32,
}

impl Record for Elf32Shdr {
    open spec fn size_spec() -> nat {
        40
    }

    open spec fn align_spec() -> nat {
        4
    }

    open spec fn decode_spec(bytes: Seq<u8>) -> Self {
        Elf32Shdr {
            sh_name: le_u32(bytes, 0),
            sh_type: le_u32(bytes, 4),
            sh_flags: le_u32(bytes, 8),
            sh_addr: le_u32(bytes, 12),
            sh_offset: le_u32(bytes, 16),
            sh_size: le_u32(bytes, 20),
            sh_link: le_u32(bytes, 24),
            sh_info: le_u32(bytes, 28),
            sh_addralign: le_u32(bytes, 32),
            sh_entsize: le_u32(bytes, 36),
        }
    }

    /// Every section header is accepted.
    open spec fn rejection(&self) -> Option<Error> {
        None
    }

    fn size() -> (n: usize) {
        40
    }

    fn align() -> (n: usize) {
        4
    }

    fn decode(src: &[u8]) -> (rec: Self) {
        Elf32Shdr {
            sh_name: read_u32(src, 0),
            sh_type: read_u32(src, 4),
            sh_flags: read_u32(src, 8),
            sh_addr: read_u32(src, 12),
            sh_offset: read_u32(src, 16),
            sh_size: read_u32(src, 20),
            sh_link: read_u32(src, 24),
            sh_info: read_u32(src, 28),
            sh_addralign: read_u32(src, 32),
            sh_entsize: read_u32(src, 36),
        }
    }
}

impl TryFromBytes for Elf32Shdr {
    fn validate(src: &Self) -> (res: Result<&Self, Error>) {
        Ok(src)
    }
}

impl AsBytes for Elf32Shdr {
    open spec fn bytes_spec(&self) -> Seq<u8> {
        u32_le(self.sh_name) + u32_le(self.sh_type) + u32_le(self.sh_flags) + u32_le(self.sh_addr)
            + u32_le(self.sh_offset) + u32_le(self.sh_size) + u32_le(self.sh_link) + u32_le(
            self.sh_info,
        ) + u32_le(self.sh_addralign) + u32_le(self.sh_entsize)
    }

    fn as_bytes(&self) -> (out: Vec<u8>) {
        let mut out: Vec<u8> = Vec::with_capacity(40);
        put_u32(&mut out, self.sh_name);
        put_u32(&mut out, self.sh_type);
        put_u32(&mut out, self.sh_flags);
        put_u32(&mut out, self.sh_addr);
        put_u32(&mut out, self.sh_offset);
        put_u32(&mut out, self.sh_size);
        put_u32(&mut out, self.sh_link);
        put_u32(&mut out, self.sh_info);
        put_u32(&mut out, self.sh_addralign);
        put_u32(&mut out, self.sh_entsize);
        assert(out@ =~= self.bytes_spec());
        out
    }
}

impl Elf32Ehdr {
    /// The bytes of a record are as many as its size, and they are read
    /// back as the record.
    #[verifier::rlimit(40)]
    pub proof fn lemma_round_trip(self)
        ensures
            self.bytes_spec().len() == Self::size_spec(),
            Self::decode_spec(self.bytes_spec()) == self,
    {
        let bytes = self.bytes_spec();
        assert(bytes.subrange(0, 4) =~= u32_le(self.e_magic));
        lemma_le_u32_at(bytes, 0, self.e_magic);
        assert(Self::decode_spec(bytes).pad =~= self.pad);
        assert(bytes.subrange(16, 18) =~= u16_le(self.e_type));
        lemma_le_u16_at(bytes, 16, self.e_type);
        assert(bytes.subrange(18, 20) =~= u16_le(self.e_machine));
        lemma_le_u16_at(bytes, 18, self.e_machine);
        assert(bytes.subrange(20, 24) =~= u32_le(self.e_version));
        lemma_le_u32_at(bytes, 20, self.e_version);
        assert(bytes.subrange(24, 28) =~= u32_le(self.e_entry));
        lemma_le_u32_at(bytes, 24, self.e_entry);
        assert(bytes.subrange(28, 32) =~= u32_le(self.e_phoff));
        lemma_le_u32_at(bytes, 28, self.e_phoff);
        assert(bytes.subrange(32, 36) =~= u32_le(self.e_shoff));
        lemma_le_u32_at(bytes, 32, self.e_shoff);
        assert(bytes.subrange(36, 40) =~= u32_le(self.e_flags));
        lemma_le_u32_at(bytes, 36, self.e_flags);
        assert(bytes.subrange(40, 42) =~= u16_le(self.e_ehsize));
        lemma_le_u16_at(bytes, 40, self.e_ehsize);
        assert(bytes.subrange(42, 44) =~= u16_le(self.e_phentsize));
        lemma_le_u16_at(bytes, 42, self.e_phentsize);
        assert(bytes.subrange(44, 46) =~= u16_le(self.e_phnum));
        lemma_le_u16_at(bytes, 44, self.e_phnum);
        assert(bytes.subrange(46, 48) =~= u16_le(self.e_shentsize));
        lemma_le_u16_at(bytes, 46, self.e_shentsize);
        assert(bytes.subrange(48, 50) =~= u16_le(self.e_shnum));
        lemma_le_u16_at(bytes, 48, self.e_shnum);
        assert(bytes.subrange(50, 52) =~= u16_le(self.e_shstrndx));
        lemma_le_u16_at(bytes, 50, self.e_shstrndx);
    }

    /// The record that is read from bytes is written as those bytes.
    pub proof fn lemma_bytes_round_trip(bytes: Seq<u8>)
        requires
            bytes.len() >= Self::size_spec(),
        ensures
            Self::decode_spec(bytes).bytes_spec() == bytes.subrange(0, Self::size_spec() as int),
    {
        lemma_u32_bytes_round_trip(bytes, 0);
        lemma_u16_bytes_round_trip(bytes, 16);
        lemma_u16_bytes_round_trip(bytes, 18);
        lemma_u32_bytes_round_trip(bytes, 20);
        lemma_u32_bytes_round_trip(bytes, 24);
        lemma_u32_bytes_round_trip(bytes, 28);
        lemma_u32_bytes_round_trip(bytes, 32);
        lemma_u32_bytes_round_trip(bytes, 36);
        lemma_u16_bytes_round_trip(bytes, 40);
        lemma_u16_bytes_round_trip(bytes, 42);
        lemma_u16_bytes_round_trip(bytes, 44);
        lemma_u16_bytes_round_trip(bytes, 46);
        lemma_u16_bytes_round_trip(bytes, 48);
        lemma_u16_bytes_round_trip(bytes, 50);
        assert(Self::decode_spec(bytes).bytes_spec() =~= bytes.subrange(0, 52));
    }
}

impl Elf32Phdr {
    /// The bytes of a record are as many as its size, and they are read
    /// back as the record.
    pub proof fn lemma_round_trip(self)
        ensures
            self.bytes_spec().len() == Self::size_spec(),
            Self::decode_spec(self.bytes_spec()) == self,
    {
        let bytes = self.bytes_spec();
        assert(bytes.subrange(0, 4) =~= u32_le(self.p_type));
        lemma_le_u32_at(bytes, 0, self.p_type);
        assert(bytes.subrange(4, 8) =~= u32_le(self.p_offset));
        lemma_le_u32_at(bytes, 4, self.p_offset);
        assert(bytes.subrange(8, 12) =~= u32_le(self.p_vaddr));
        lemma_le_u32_at(bytes, 8, self.p_vaddr);
        assert(bytes.subrange(12, 16) =~= u32_le(self.p_paddr));
        lemma_le_u32_at(bytes, 12, self.p_paddr);
        assert(bytes.subrange(16, 20) =~= u32_le(self.p_filesz));
        lemma_le_u32_at(bytes, 16, self.p_filesz);
        assert(bytes.subrange(20, 24) =~= u32_le(self.p_memsz));
        lemma_le_u32_at(bytes, 20, self.p_memsz);
        assert(bytes.subrange(24, 28) =~= u32_le(self.p_flags));
        lemma_le_u32_at(bytes, 24, self.p_flags);
        assert(bytes.subrange(28, 32) =~= u32_le(self.p_align));
        lemma_le_u32_at(bytes, 28, self.p_align);
    }

    /// The record that is read from bytes is written as those bytes.
    pub proof fn lemma_bytes_round_trip(bytes: Seq<u8>)
        requires
            bytes.len() >= Self::size_spec(),
        ensures
            Self::decode_spec(bytes).bytes_spec() == bytes.subrange(0, Self::size_spec() as int),
    {
        lemma_u32_bytes_round_trip(bytes, 0);
        lemma_u32_bytes_round_trip(bytes, 4);
        lemma_u32_bytes_round_trip(bytes, 8);
        lemma_u32_bytes_round_trip(bytes, 12);
        lemma_u32_bytes_round_trip(bytes, 16);
        lemma_u32_bytes_round_trip(bytes, 20);
        lemma_u32_bytes_round_trip(bytes, 24);
        lemma_u32_bytes_round_trip(bytes, 28);
        assert(Self::decode_spec(bytes).bytes_spec() =~= bytes.subrange(0, 32));
    }
}

impl Elf32Shdr {
    /// The bytes of a record are as many as its size, and they are read
    /// back as the record.
    pub proof fn lemma_round_trip(self)
        ensures
            self.bytes_spec().len() == Self::size_spec(),
            Self::decode_spec(self.bytes_spec()) == self,
    {
        let bytes = self.bytes_spec();
        assert(bytes.subrange(0, 4) =~= u32_le(self.sh_name));
        lemma_le_u32_at(bytes, 0, self.sh_name);
        assert(bytes.subrange(4, 8) =~= u32_le(self.sh_type));
        lemma_le_u32_at(bytes, 4, self.sh_type);
        assert(bytes.subrange(8, 12) =~= u32_le(self.sh_flags));
        lemma_le_u32_at(bytes, 8, self.sh_flags);
        assert(bytes.subrange(12, 16) =~= u32_le(self.sh_addr));
        lemma_le_u32_at(bytes, 12, self.sh_addr);
        assert(bytes.subrange(16, 20) =~= u32_le(self.sh_offset));
        lemma_le_u32_at(bytes, 16, self.sh_offset);
        assert(bytes.subrange(20, 24) =~= u32_le(self.sh_size));
        lemma_le_u32_at(bytes, 20, self.sh_size);
        assert(bytes.subrange(24, 28) =~= u32_le(self.sh_link));
        lemma_le_u32_at(bytes, 24, self.sh_link);
        assert(bytes.subrange(28, 32) =~= u32_le(self.sh_info));
        lemma_le_u32_at(bytes, 28, self.sh_info);
        assert(bytes.subrange(32, 36) =~= u32_le(self.sh_addralign));
        lemma_le_u32_at(bytes, 32, self.sh_addralign);
        assert(bytes.subrange(36, 40) =~= u32_le(self.sh_entsize));
        lemma_le_u32_at(bytes, 36, self.sh_entsize);
    }

    /// The record that is read from bytes is written as those bytes.
    pub proof fn lemma_bytes_round_trip(bytes: Seq<u8>)
        requires
            bytes.len() >= Self::size_spec(),
        ensures
            Self::decode_spec(bytes).bytes_spec() == bytes.subrange(0, Self::size_spec() as int),
    {
        lemma_u32_bytes_round_trip(bytes, 0);
        lemma_u32_bytes_round_trip(bytes, 4);
        lemma_u32_bytes_round_trip(bytes, 8);
        lemma_u32_bytes_round_trip(bytes, 12);
        lemma_u32_bytes_round_trip(bytes, 16);
        lemma_u32_bytes_round_trip(bytes, 20);
        lemma_u32_bytes_round_trip(bytes, 24);
        lemma_u32_bytes_round_trip(bytes, 28);
        lemma_u32_bytes_round_trip(bytes, 32);
        lemma_u32_bytes_round_trip(bytes, 36);
        assert(Self::decode_spec(bytes).bytes_spec() =~= bytes.subrange(0, 40));
    }
}

} // verus!
