//! The single, flat error type of the crate.
use vstd::prelude::*;
use vstd::std_specs::convert::FromSpecImpl;

verus! {

/// `std::io::Error`, carried as a value of which nothing is known.
#[verifier::external_type_specification]
#[verifier::external_body]
pub struct ExIoError(std::io::Error);

/// Why a repacking run stopped. Every failure is final for the run.
#[derive(Debug)]
pub enum Error {
    /// The input already starts with the `~PSP` signature.
    AlreadyPacked,
    /// A byte range is shorter than the record, or array of records, laid
    /// over it. `expected_len` is `None` when the requested length does not
    /// fit in `usize`.
    FromBytes { input_len: usize, expected_len: Option<usize> },
    /// An offset or a range points past the end of the file.
    FileTooSmall,
    /// The image does not start with the ELF magic.
    NotElf,
    /// A bare image is not of the PRX type.
    NotPrx,
    /// Neither a segment nor a section locates the module information.
    NoModuleInfo,
    /// A package whose image is placed in kernel memory.
    KernelPbp,
    /// The placement of the image and its declared attributes disagree on
    /// the privilege level.
    MixedPrivileges,
    /// The image has no segment, or more than four.
    NoSegments,
    /// No section is named `.bss`.
    BssNotFound,
    /// A package header does not start with the PBP magic.
    NotPbp,
    /// Failure reported by a reader or writer of the standard library.
    Io(std::io::Error),
    /// A borrowed view was requested at an address that is no multiple of
    /// the record's alignment.
    Alignment { align: usize, addr: usize },
    /// The file is as large as the platform's signed size limit, or larger.
    FileTooBig,
    /// A section name runs to the end of the file without a terminator.
    CStr,
}

impl Error {
    /// The process exit status that stands for each kind of failure.
    pub open spec fn code_spec(&self) -> i32 {
        match self {
            Error::Io(_) => 101,
            Error::AlreadyPacked => 102,
            Error::NotPrx => 103,
            Error::NotPbp => 104,
            Error::NotElf => 105,
            Error::NoModuleInfo => 106,
            Error::FileTooBig => 107,
            Error::FileTooSmall => 108,
            Error::KernelPbp => 109,
            Error::MixedPrivileges => 110,
            Error::NoSegments => 111,
            Error::BssNotFound => 112,
            Error::FromBytes { .. } => 113,
            Error::Alignment { .. } => 114,
            Error::CStr => 115,
        }
    }

    pub fn error_code(&self) -> (code: i32)
        ensures
            code == self.code_spec(),
            101 <= code <= 115,
    {
        match self {
            Error::Io(_) => 101,
            Error::AlreadyPacked => 102,
            Error::NotPrx => 103,
            Error::NotPbp => 104,
            Error::NotElf => 105,
            Error::NoModuleInfo => 106,
            Error::FileTooBig => 107,
            Error::FileTooSmall => 108,
            Error::KernelPbp => 109,
            Error::MixedPrivileges => 110,
            Error::NoSegments => 111,
            Error::BssNotFound => 112,
            Error::FromBytes { .. } => 113,
            Error::Alignment { .. } => 114,
            Error::CStr => 115,
        }
    }

    /// The fixed part of the message for each kind of failure.
    pub open spec fn description_spec(&self) -> Seq<char> {
        match self {
            Error::AlreadyPacked => "file already packed"@,
            Error::FileTooSmall => "the file is smaller than expected"@,
            Error::NotElf => "no elf found"@,
            Error::NotPrx => "the program was expecting a PRX file"@,
            Error::NotPbp => "the program was expecting a PBP file"@,
            Error::NoModuleInfo => "the elf part of the file do not have a module info section"@,
            Error::KernelPbp => "a kernel PBP is not a valid PSP format"@,
            Error::MixedPrivileges =>
                "the file has mixed privileges between the elf and module info data"@,
            Error::NoSegments => "the elf part of the file has no segments"@,
            Error::BssNotFound => "the elf part of the file do not have a `.bss` section"@,
            Error::Io(_) => "input or output failed"@,
            Error::FileTooBig => "the file is bigger than expected for a PSP file"@,
            Error::FromBytes { .. } | Error::Alignment { .. } | Error::CStr =>
                "the program had a internal type conversion error"@,
        }
    }

    /// A message for the user. For the variants that carry data, the caller
    /// appends the details.
    pub fn description(&self) -> (text: &'static str)
        ensures
            text@ == self.description_spec(),
    {
        match self {
            Error::AlreadyPacked => "file already packed",
            Error::FileTooSmall => "the file is smaller than expected",
            Error::NotElf => "no elf found",
            Error::NotPrx => "the program was expecting a PRX file",
            Error::NotPbp => "the program was expecting a PBP file",
            Error::NoModuleInfo => "the elf part of the file do not have a module info section",
            Error::KernelPbp => "a kernel PBP is not a valid PSP format",
            Error::MixedPrivileges =>
                "the file has mixed privileges between the elf and module info data",
            Error::NoSegments => "the elf part of the file has no segments",
            Error::BssNotFound => "the elf part of the file do not have a `.bss` section",
            Error::Io(_) => "input or output failed",
            Error::FileTooBig => "the file is bigger than expected for a PSP file",
            Error::FromBytes { .. } | Error::Alignment { .. } | Error::CStr =>
                "the program had a internal type conversion error",
        }
    }
}

impl From<std::io::Error> for Error {
    fn from(value: std::io::Error) -> (ret: Self) {
        Error::Io(value)
    }
}

impl FromSpecImpl<std::io::Error> for Error {
    open spec fn obeys_from_spec() -> bool {
        true
    }

    open spec fn from_spec(value: std::io::Error) -> Self {
        Error::Io(value)
    }
}

} // verus!
