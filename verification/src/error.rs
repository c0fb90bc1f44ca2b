//! Why a line, a permission string, a flag list or a mapping could not be read.

use vstd::prelude::*;
use vstd::string::StringExecFns;

verus! {

/// A positional field of a line of the dump.
#[derive(Clone, Copy, Debug, PartialEq, Eq, Structural)]
pub enum Field {
    Address,
    Permissions,
    Offset,
    Device,
    DeviceMajor,
    DeviceMinor,
    Inode,
    Size,
    KernelPageSize,
    MmuPageSize,
    ResidentSetSize,
    ProportionalShareSize,
    ProportionalShareSizeDirty,
    SharedClean,
    SharedDirty,
    PrivateClean,
    PrivateDirty,
    Referenced,
    Anonymous,
    LazyFree,
    AnonymousHugePages,
    SharedMemoryAssociatedWithHugePages,
    FilePmeMapped,
    SharedHugetlb,
    PrivateHugetlb,
    Swap,
    SwapPss,
    Locked,
    TransparentHugePageEligible,
}

impl Field {
    /// The field's name in a message.
    pub open spec fn name_text(self) -> Seq<char> {
        match self {
            Field::Address => "address"@,
            Field::Permissions => "permissions"@,
            Field::Offset => "offset"@,
            Field::Device => "device"@,
            Field::DeviceMajor => "device major"@,
            Field::DeviceMinor => "device minor"@,
            Field::Inode => "inode"@,
            Field::Size => "size"@,
            Field::KernelPageSize => "kernel page size"@,
            Field::MmuPageSize => "mmu page size"@,
            Field::ResidentSetSize => "resident set size"@,
            Field::ProportionalShareSize => "proportional share size"@,
            Field::ProportionalShareSizeDirty => "proportional share size dirty"@,
            Field::SharedClean => "shared clean"@,
            Field::SharedDirty => "shared dirty"@,
            Field::PrivateClean => "private clean"@,
            Field::PrivateDirty => "private dirty"@,
            Field::Referenced => "referenced"@,
            Field::Anonymous => "anonymous"@,
            Field::LazyFree => "lazy free"@,
            Field::AnonymousHugePages => "anonymous huge pages"@,
            Field::SharedMemoryAssociatedWithHugePages => "shared memory associated with huge pages"@,
            Field::FilePmeMapped => "file pme mapped"@,
            Field::SharedHugetlb => "shared hugetlb"@,
            Field::PrivateHugetlb => "private hugetlb"@,
            Field::Swap => "swap"@,
            Field::SwapPss => "swap pss"@,
            Field::Locked => "locked"@,
            Field::TransparentHugePageEligible => "transparent huge page eligible"@,
        }
    }

    /// The field's name in a message.
    pub fn name(self) -> (name: &'static str)
        ensures
            name@ == self.name_text(),
    {
        match self {
            Field::Address => "address",
            Field::Permissions => "permissions",
            Field::Offset => "offset",
            Field::Device => "device",
            Field::DeviceMajor => "device major",
            Field::DeviceMinor => "device minor",
            Field::Inode => "inode",
            Field::Size => "size",
            Field::KernelPageSize => "kernel page size",
            Field::MmuPageSize => "mmu page size",
            Field::ResidentSetSize => "resident set size",
            Field::ProportionalShareSize => "proportional share size",
            Field::ProportionalShareSizeDirty => "proportional share size dirty",
            Field::SharedClean => "shared clean",
            Field::SharedDirty => "shared dirty",
            Field::PrivateClean => "private clean",
            Field::PrivateDirty => "private dirty",
            Field::Referenced => "referenced",
            Field::Anonymous => "anonymous",
            Field::LazyFree => "lazy free",
            Field::AnonymousHugePages => "anonymous huge pages",
            Field::SharedMemoryAssociatedWithHugePages => "shared memory associated with huge pages",
            Field::FilePmeMapped => "file pme mapped",
            Field::SharedHugetlb => "shared hugetlb",
            Field::PrivateHugetlb => "private hugetlb",
            Field::Swap => "swap",
            Field::SwapPss => "swap pss",
            Field::Locked => "locked",
            Field::TransparentHugePageEligible => "transparent huge page eligible",
        }
    }
}

/// A failure to read a text.
#[derive(Debug, PartialEq, Eq)]
pub enum ParseError {
    /// The line ends before the field.
    MissingField(Field),
    /// The field's text is no number of the field's base and width.
    InvalidField(Field, String),
    /// The text is no permission string.
    InvalidPermissions(String),
    /// The text holds a word that is no flag.
    InvalidVirtualMemoryFlags(String),
    /// The text in brackets names no kind of mapping.
    InvalidMappingKind(String),
}

/// What a [`ParseError`] holds.
pub enum ParseFailure {
    MissingField(Field),
    InvalidField(Field, Seq<char>),
    InvalidPermissions(Seq<char>),
    InvalidVirtualMemoryFlags(Seq<char>),
    InvalidMappingKind(Seq<char>),
}

impl View for ParseError {
    type V = ParseFailure;

    open spec fn view(&self) -> ParseFailure {
        match self {
            ParseError::MissingField(field) => ParseFailure::MissingField(*field),
            ParseError::InvalidField(field, text) => ParseFailure::InvalidField(*field, text@),
            ParseError::InvalidPermissions(text) => ParseFailure::InvalidPermissions(text@),
            ParseError::InvalidVirtualMemoryFlags(text) => ParseFailure::InvalidVirtualMemoryFlags(
                text@,
            ),
            ParseError::InvalidMappingKind(text) => ParseFailure::InvalidMappingKind(text@),
        }
    }
}

impl ParseFailure {
    /// The failure in words.
    pub open spec fn message_text(self) -> Seq<char> {
        match self {
            ParseFailure::MissingField(field) => "Can't parse "@ + field.name_text(),
            ParseFailure::InvalidField(field, _) => "Can't parse "@ + field.name_text(),
            ParseFailure::InvalidPermissions(text) => "Can't parse permissions: "@ + text,
            ParseFailure::InvalidVirtualMemoryFlags(text) => "Can't parse virtual memory flags: "@
                + text,
            ParseFailure::InvalidMappingKind(_) => "Invalid mapping kind"@,
        }
    }
}

impl ParseError {
    /// The failure in words.
    pub fn message(&self) -> (message: String)
        ensures
            message@ == self@.message_text(),
    {
        match self {
            ParseError::MissingField(field) => {
                String::from_str("Can't parse ").concat(field.name())
            },
            ParseError::InvalidField(field, _) => {
                String::from_str("Can't parse ").concat(field.name())
            },
            ParseError::InvalidPermissions(text) => {
                String::from_str("Can't parse permissions: ").concat(text.as_str())
            },
            ParseError::InvalidVirtualMemoryFlags(text) => {
                String::from_str("Can't parse virtual memory flags: ").concat(text.as_str())
            },
            ParseError::InvalidMappingKind(_) => String::from_str("Invalid mapping kind"),
        }
    }
}

} // verus!
