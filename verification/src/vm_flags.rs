//! The flags that the kernel keeps for a mapping, and their two-letter
//! codes in the dump.

use crate::error::ParseError;
use crate::error::ParseFailure;
use crate::flags::lemma_toggled_holds_the_odd;
use crate::flags::lemma_toggled_of_distinct;
use crate::flags::occurrences;
use crate::flags::toggled;
use crate::flags::BitFlags;
use crate::flags::Flag;
use crate::format::MyDisplay;
use crate::format::MyFromStr;
use crate::text::chars_of;
use crate::text::joined;
use crate::text::next_word;
use crate::text::text_of;
use crate::text::trim;
use crate::text::trim_range;
use crate::text::word_text;
use crate::text::words;
use crate::text::words_from;
use vstd::prelude::*;
use vstd::string::StringExecFns;

verus! {

/// A flag of a mapping.
#[derive(Copy, Clone, Debug, PartialEq, Eq, Structural)]
pub enum VirtualMemoryFlags {
    /// `rd`: readable.
    Readable,
    /// `wr`: writeable.
    Writeable,
    /// `ex`: executable.
    Executable,
    /// `sh`: shared.
    Shared,
    /// `mr`: may read.
    MayRead,
    /// `mw`: may write.
    MayWrite,
    /// `me`: may execute.
    MayExecute,
    /// `ms`: may share.
    MayShare,
    /// `gd`: stack segment that grows down.
    GrowsDown,
    /// `pf`: pure PFN range.
    PurePFNRange,
    /// `dw`: disabled write to the mapped file.
    DisabledWriteToMappedFile,
    /// `lo`: pages are locked in memory.
    Locked,
    /// `io`: memory mapped I/O area.
    Io,
    /// `sr`: sequential read advise provided.
    SequentialReadAdviceProvided,
    /// `rr`: random read advise provided.
    RandomReadAdviceProvided,
    /// `dc`: do not copy area on fork.
    DoNotCopyOnFork,
    /// `de`: do not expand area on remapping.
    DoNotExpandOnRemapping,
    /// `ac`: area is accountable.
    AreaIsAccountable,
    /// `nr`: swap space is not reserved for the area.
    SwapSpaceIsNotReservedForTheArea,
    /// `ht`: area uses huge tlb pages.
    AreaUsesHugeTlbPages,
    /// `sf`: synchronous page fault.
    SynchronousPageFault,
    /// `ar`: architecture specific flag.
    ArchitectureSpecific,
    /// `wf`: wipe on fork.
    WipeOnFork,
    /// `dd`: do not include area into core dump.
    DoNotIncludeInCoreDump,
    /// `sd`: soft dirty flag.
    SoftDirty,
    /// `mm`: mixed map area.
    MixedMapArea,
    /// `hg`: huge page advise flag.
    HugePageAdvise,
    /// `nh`: no huge page advise flag.
    NoHugePageAdvise,
    /// `mg`: mergeable advise flag.
    MergeableAdvise,
    /// `bt`: arm64 BTI guarded page.
    Arm64BTIGuardedPage,
    /// `mt`: arm64 MTE allocation tags are enabled.
    Arm64MTEAllocationTagsAreEnabled,
    /// `um`: userfaultfd missing tracking.
    UserfaultfdMissingTracking,
    /// `uw`: userfaultfd wr-protect tracking.
    UserfaultfdWriteProtectTracking,
    /// `ss`: shadow stack page.
    ShadowStackPage,
}

/// How many flags there are.
pub const FLAG_COUNT: u64 = 34;

impl Flag for VirtualMemoryFlags {
    open spec fn position(self) -> nat {
        match self {
            VirtualMemoryFlags::Readable => 0,
            VirtualMemoryFlags::Writeable => 1,
            VirtualMemoryFlags::Executable => 2,
            VirtualMemoryFlags::Shared => 3,
            VirtualMemoryFlags::MayRead => 4,
            VirtualMemoryFlags::MayWrite => 5,
            VirtualMemoryFlags::MayExecute => 6,
            VirtualMemoryFlags::MayShare => 7,
            VirtualMemoryFlags::GrowsDown => 8,
            VirtualMemoryFlags::PurePFNRange => 9,
            VirtualMemoryFlags::DisabledWriteToMappedFile => 10,
            VirtualMemoryFlags::Locked => 11,
            VirtualMemoryFlags::Io => 12,
            VirtualMemoryFlags::SequentialReadAdviceProvided => 13,
            VirtualMemoryFlags::RandomReadAdviceProvided => 14,
            VirtualMemoryFlags::DoNotCopyOnFork => 15,
            VirtualMemoryFlags::DoNotExpandOnRemapping => 16,
            VirtualMemoryFlags::AreaIsAccountable => 17,
            VirtualMemoryFlags::SwapSpaceIsNotReservedForTheArea => 18,
            VirtualMemoryFlags::AreaUsesHugeTlbPages => 19,
            VirtualMemoryFlags::SynchronousPageFault => 20,
            VirtualMemoryFlags::ArchitectureSpecific => 21,
            VirtualMemoryFlags::WipeOnFork => 22,
            VirtualMemoryFlags::DoNotIncludeInCoreDump => 23,
            VirtualMemoryFlags::SoftDirty => 24,
            VirtualMemoryFlags::MixedMapArea => 25,
            VirtualMemoryFlags::HugePageAdvise => 26,
            VirtualMemoryFlags::NoHugePageAdvise => 27,
            VirtualMemoryFlags::MergeableAdvise => 28,
            VirtualMemoryFlags::Arm64BTIGuardedPage => 29,
            VirtualMemoryFlags::Arm64MTEAllocationTagsAreEnabled => 30,
            VirtualMemoryFlags::UserfaultfdMissingTracking => 31,
            VirtualMemoryFlags::UserfaultfdWriteProtectTracking => 32,
            VirtualMemoryFlags::ShadowStackPage => 33,
        }
    }

    fn bit(self) -> (b: u64) {
        match self {
            VirtualMemoryFlags::Readable => 0,
            VirtualMemoryFlags::Writeable => 1,
            VirtualMemoryFlags::Executable => 2,
            VirtualMemoryFlags::Shared => 3,
            VirtualMemoryFlags::MayRead => 4,
            VirtualMemoryFlags::MayWrite => 5,
            VirtualMemoryFlags::MayExecute => 6,
            VirtualMemoryFlags::MayShare => 7,
            VirtualMemoryFlags::GrowsDown => 8,
            VirtualMemoryFlags::PurePFNRange => 9,
            VirtualMemoryFlags::DisabledWriteToMappedFile => 10,
            VirtualMemoryFlags::Locked => 11,
            VirtualMemoryFlags::Io => 12,
            VirtualMemoryFlags::SequentialReadAdviceProvided => 13,
            VirtualMemoryFlags::RandomReadAdviceProvided => 14,
            VirtualMemoryFlags::DoNotCopyOnFork => 15,
            VirtualMemoryFlags::DoNotExpandOnRemapping => 16,
            VirtualMemoryFlags::AreaIsAccountable => 17,
            VirtualMemoryFlags::SwapSpaceIsNotReservedForTheArea => 18,
            VirtualMemoryFlags::AreaUsesHugeTlbPages => 19,
            VirtualMemoryFlags::SynchronousPageFault => 20,
            VirtualMemoryFlags::ArchitectureSpecific => 21,
            VirtualMemoryFlags::WipeOnFork => 22,
            VirtualMemoryFlags::DoNotIncludeInCoreDump => 23,
            VirtualMemoryFlags::SoftDirty => 24,
            VirtualMemoryFlags::MixedMapArea => 25,
            VirtualMemoryFlags::HugePageAdvise => 26,
            VirtualMemoryFlags::NoHugePageAdvise => 27,
            VirtualMemoryFlags::MergeableAdvise => 28,
            VirtualMemoryFlags::Arm64BTIGuardedPage => 29,
            VirtualMemoryFlags::Arm64MTEAllocationTagsAreEnabled => 30,
            VirtualMemoryFlags::UserfaultfdMissingTracking => 31,
            VirtualMemoryFlags::UserfaultfdWriteProtectTracking => 32,
            VirtualMemoryFlags::ShadowStackPage => 33,
        }
    }

    proof fn lemma_position_is_injective(self, other: Self) {
    }
}

impl VirtualMemoryFlags {
    /// The flag's two letters in the dump.
    pub open spec fn code(self) -> (char, char) {
        match self {
            VirtualMemoryFlags::Readable => ('r', 'd'),
            VirtualMemoryFlags::Writeable => ('w', 'r'),
            VirtualMemoryFlags::Executable => ('e', 'x'),
            VirtualMemoryFlags::Shared => ('s', 'h'),
            VirtualMemoryFlags::MayRead => ('m', 'r'),
            VirtualMemoryFlags::MayWrite => ('m', 'w'),
            VirtualMemoryFlags::MayExecute => ('m', 'e'),
            VirtualMemoryFlags::MayShare => ('m', 's'),
            VirtualMemoryFlags::GrowsDown => ('g', 'd'),
            VirtualMemoryFlags::PurePFNRange => ('p', 'f'),
            VirtualMemoryFlags::DisabledWriteToMappedFile => ('d', 'w'),
            VirtualMemoryFlags::Locked => ('l', 'o'),
            VirtualMemoryFlags::Io => ('i', 'o'),
            VirtualMemoryFlags::SequentialReadAdviceProvided => ('s', 'r'),
            VirtualMemoryFlags::RandomReadAdviceProvided => ('r', 'r'),
            VirtualMemoryFlags::DoNotCopyOnFork => ('d', 'c'),
            VirtualMemoryFlags::DoNotExpandOnRemapping => ('d', 'e'),
            VirtualMemoryFlags::AreaIsAccountable => ('a', 'c'),
            VirtualMemoryFlags::SwapSpaceIsNotReservedForTheArea => ('n', 'r'),
            VirtualMemoryFlags::AreaUsesHugeTlbPages => ('h', 't'),
            VirtualMemoryFlags::SynchronousPageFault => ('s', 'f'),
            VirtualMemoryFlags::ArchitectureSpecific => ('a', 'r'),
            VirtualMemoryFlags::WipeOnFork => ('w', 'f'),
            VirtualMemoryFlags::DoNotIncludeInCoreDump => ('d', 'd'),
            VirtualMemoryFlags::SoftDirty => ('s', 'd'),
            VirtualMemoryFlags::MixedMapArea => ('m', 'm'),
            VirtualMemoryFlags::HugePageAdvise => ('h', 'g'),
            VirtualMemoryFlags::NoHugePageAdvise => ('n', 'h'),
            VirtualMemoryFlags::MergeableAdvise => ('m', 'g'),
            VirtualMemoryFlags::Arm64BTIGuardedPage => ('b', 't'),
            VirtualMemoryFlags::Arm64MTEAllocationTagsAreEnabled => ('m', 't'),
            VirtualMemoryFlags::UserfaultfdMissingTracking => ('u', 'm'),
            VirtualMemoryFlags::UserfaultfdWriteProtectTracking => ('u', 'w'),
            VirtualMemoryFlags::ShadowStackPage => ('s', 's'),
        }
    }

    /// The flag's code as a word.
    pub open spec fn code_text(self) -> Seq<char> {
        seq![self.code().0, self.code().1]
    }

    /// The flag's name for a reader.
    pub open spec fn label_text(self) -> Seq<char> {
        match self {
            VirtualMemoryFlags::Readable => "Readable"@,
            VirtualMemoryFlags::Writeable => "Writeable"@,
            VirtualMemoryFlags::Executable => "Executable"@,
            VirtualMemoryFlags::Shared => "Shared"@,
            VirtualMemoryFlags::MayRead => "May Read"@,
            VirtualMemoryFlags::MayWrite => "May Write"@,
            VirtualMemoryFlags::MayExecute => "May Execute"@,
            VirtualMemoryFlags::MayShare => "May Share"@,
            VirtualMemoryFlags::GrowsDown => "Grows Down"@,
            VirtualMemoryFlags::PurePFNRange => "Pure PFN Range"@,
            VirtualMemoryFlags::DisabledWriteToMappedFile => "Disabled Write"@,
            VirtualMemoryFlags::Locked => "Locked"@,
            VirtualMemoryFlags::Io => "Io"@,
            VirtualMemoryFlags::SequentialReadAdviceProvided => "Sequential Read"@,
            VirtualMemoryFlags::RandomReadAdviceProvided => "Random Read"@,
            VirtualMemoryFlags::DoNotCopyOnFork => "Do Not Copy"@,
            VirtualMemoryFlags::DoNotExpandOnRemapping => "Do Not Expand"@,
            VirtualMemoryFlags::AreaIsAccountable => "Area Is Accountable"@,
            VirtualMemoryFlags::SwapSpaceIsNotReservedForTheArea => "Swap Space"@,
            VirtualMemoryFlags::AreaUsesHugeTlbPages => "Huge TLB Pages"@,
            VirtualMemoryFlags::SynchronousPageFault => "Synchronous Page Fault"@,
            VirtualMemoryFlags::ArchitectureSpecific => "Architecture Specific"@,
            VirtualMemoryFlags::WipeOnFork => "Wipe On Fork"@,
            VirtualMemoryFlags::DoNotIncludeInCoreDump => "Not Include In Core Dump"@,
            VirtualMemoryFlags::SoftDirty => "Soft Dirty"@,
            VirtualMemoryFlags::MixedMapArea => "Mixed Map Area"@,
            VirtualMemoryFlags::HugePageAdvise => "Huge Page"@,
            VirtualMemoryFlags::NoHugePageAdvise => "No Huge Page"@,
            VirtualMemoryFlags::MergeableAdvise => "Mergeable"@,
            VirtualMemoryFlags::Arm64BTIGuardedPage => "Arm64 BTI"@,
            VirtualMemoryFlags::Arm64MTEAllocationTagsAreEnabled => "Arm64 MTE"@,
            VirtualMemoryFlags::UserfaultfdMissingTracking => "Userfaultfd Missing"@,
            VirtualMemoryFlags::UserfaultfdWriteProtectTracking => "Userfaultfd Write Protect"@,
            VirtualMemoryFlags::ShadowStackPage => "Shadow Stack"@,
        }
    }

    /// The flag's name for a reader.
    pub fn label(self) -> (label: &'static str)
        ensures
            label@ == self.label_text(),
    {
        match self {
            VirtualMemoryFlags::Readable => "Readable",
            VirtualMemoryFlags::Writeable => "Writeable",
            VirtualMemoryFlags::Executable => "Executable",
            VirtualMemoryFlags::Shared => "Shared",
            VirtualMemoryFlags::MayRead => "May Read",
            VirtualMemoryFlags::MayWrite => "May Write",
            VirtualMemoryFlags::MayExecute => "May Execute",
            VirtualMemoryFlags::MayShare => "May Share",
            VirtualMemoryFlags::GrowsDown => "Grows Down",
            VirtualMemoryFlags::PurePFNRange => "Pure PFN Range",
            VirtualMemoryFlags::DisabledWriteToMappedFile => "Disabled Write",
            VirtualMemoryFlags::Locked => "Locked",
            VirtualMemoryFlags::Io => "Io",
            VirtualMemoryFlags::SequentialReadAdviceProvided => "Sequential Read",
            VirtualMemoryFlags::RandomReadAdviceProvided => "Random Read",
            VirtualMemoryFlags::DoNotCopyOnFork => "Do Not Copy",
            VirtualMemoryFlags::DoNotExpandOnRemapping => "Do Not Expand",
            VirtualMemoryFlags::AreaIsAccountable => "Area Is Accountable",
            VirtualMemoryFlags::SwapSpaceIsNotReservedForTheArea => "Swap Space",
            VirtualMemoryFlags::AreaUsesHugeTlbPages => "Huge TLB Pages",
            VirtualMemoryFlags::SynchronousPageFault => "Synchronous Page Fault",
            VirtualMemoryFlags::ArchitectureSpecific => "Architecture Specific",
            VirtualMemoryFlags::WipeOnFork => "Wipe On Fork",
            VirtualMemoryFlags::DoNotIncludeInCoreDump => "Not Include In Core Dump",
            VirtualMemoryFlags::SoftDirty => "Soft Dirty",
            VirtualMemoryFlags::MixedMapArea => "Mixed Map Area",
            VirtualMemoryFlags::HugePageAdvise => "Huge Page",
            VirtualMemoryFlags::NoHugePageAdvise => "No Huge Page",
            VirtualMemoryFlags::MergeableAdvise => "Mergeable",
            VirtualMemoryFlags::Arm64BTIGuardedPage => "Arm64 BTI",
            VirtualMemoryFlags::Arm64MTEAllocationTagsAreEnabled => "Arm64 MTE",
            VirtualMemoryFlags::UserfaultfdMissingTracking => "Userfaultfd Missing",
            VirtualMemoryFlags::UserfaultfdWriteProtectTracking => "Userfaultfd Write Protect",
            VirtualMemoryFlags::ShadowStackPage => "Shadow Stack",
        }
    }

    /// The flag at `position`, in the order of the declaration.
    pub open spec fn at(position: u64) -> VirtualMemoryFlags {
        match position {
            0 => VirtualMemoryFlags::Readable,
            1 => VirtualMemoryFlags::Writeable,
            2 => VirtualMemoryFlags::Executable,
            3 => VirtualMemoryFlags::Shared,
            4 => VirtualMemoryFlags::MayRead,
            5 => VirtualMemoryFlags::MayWrite,
            6 => VirtualMemoryFlags::MayExecute,
            7 => VirtualMemoryFlags::MayShare,
            8 => VirtualMemoryFlags::GrowsDown,
            9 => VirtualMemoryFlags::PurePFNRange,
            10 => VirtualMemoryFlags::DisabledWriteToMappedFile,
            11 => VirtualMemoryFlags::Locked,
            12 => VirtualMemoryFlags::Io,
            13 => VirtualMemoryFlags::SequentialReadAdviceProvided,
            14 => VirtualMemoryFlags::RandomReadAdviceProvided,
            15 => VirtualMemoryFlags::DoNotCopyOnFork,
            16 => VirtualMemoryFlags::DoNotExpandOnRemapping,
            17 => VirtualMemoryFlags::AreaIsAccountable,
            18 => VirtualMemoryFlags::SwapSpaceIsNotReservedForTheArea,
            19 => VirtualMemoryFlags::AreaUsesHugeTlbPages,
            20 => VirtualMemoryFlags::SynchronousPageFault,
            21 => VirtualMemoryFlags::ArchitectureSpecific,
            22 => VirtualMemoryFlags::WipeOnFork,
            23 => VirtualMemoryFlags::DoNotIncludeInCoreDump,
            24 => VirtualMemoryFlags::SoftDirty,
            25 => VirtualMemoryFlags::MixedMapArea,
            26 => VirtualMemoryFlags::HugePageAdvise,
            27 => VirtualMemoryFlags::NoHugePageAdvise,
            28 => VirtualMemoryFlags::MergeableAdvise,
            29 => VirtualMemoryFlags::Arm64BTIGuardedPage,
            30 => VirtualMemoryFlags::Arm64MTEAllocationTagsAreEnabled,
            31 => VirtualMemoryFlags::UserfaultfdMissingTracking,
            32 => VirtualMemoryFlags::UserfaultfdWriteProtectTracking,
            _ => VirtualMemoryFlags::ShadowStackPage,
        }
    }

    /// The flag at `position`, in the order of the declaration.
    pub fn from_position(position: u64) -> (flag: VirtualMemoryFlags)
        requires
            position < FLAG_COUNT,
        ensures
            flag == VirtualMemoryFlags::at(position),
            flag.position() == position,
    {
        match position {
            0 => VirtualMemoryFlags::Readable,
            1 => VirtualMemoryFlags::Writeable,
            2 => VirtualMemoryFlags::Executable,
            3 => VirtualMemoryFlags::Shared,
            4 => VirtualMemoryFlags::MayRead,
            5 => VirtualMemoryFlags::MayWrite,
            6 => VirtualMemoryFlags::MayExecute,
            7 => VirtualMemoryFlags::MayShare,
            8 => VirtualMemoryFlags::GrowsDown,
            9 => VirtualMemoryFlags::PurePFNRange,
            10 => VirtualMemoryFlags::DisabledWriteToMappedFile,
            11 => VirtualMemoryFlags::Locked,
            12 => VirtualMemoryFlags::Io,
            13 => VirtualMemoryFlags::SequentialReadAdviceProvided,
            14 => VirtualMemoryFlags::RandomReadAdviceProvided,
            15 => VirtualMemoryFlags::DoNotCopyOnFork,
            16 => VirtualMemoryFlags::DoNotExpandOnRemapping,
            17 => VirtualMemoryFlags::AreaIsAccountable,
            18 => VirtualMemoryFlags::SwapSpaceIsNotReservedForTheArea,
            19 => VirtualMemoryFlags::AreaUsesHugeTlbPages,
            20 => VirtualMemoryFlags::SynchronousPageFault,
            21 => VirtualMemoryFlags::ArchitectureSpecific,
            22 => VirtualMemoryFlags::WipeOnFork,
            23 => VirtualMemoryFlags::DoNotIncludeInCoreDump,
            24 => VirtualMemoryFlags::SoftDirty,
            25 => VirtualMemoryFlags::MixedMapArea,
            26 => VirtualMemoryFlags::HugePageAdvise,
            27 => VirtualMemoryFlags::NoHugePageAdvise,
            28 => VirtualMemoryFlags::MergeableAdvise,
            29 => VirtualMemoryFlags::Arm64BTIGuardedPage,
            30 => VirtualMemoryFlags::Arm64MTEAllocationTagsAreEnabled,
            31 => VirtualMemoryFlags::UserfaultfdMissingTracking,
            32 => VirtualMemoryFlags::UserfaultfdWriteProtectTracking,
            _ => VirtualMemoryFlags::ShadowStackPage,
        }
    }

    /// The flag with the two-letter code `first`, `second`.
    pub open spec fn with_code(first: char, second: char) -> Option<VirtualMemoryFlags> {
        match (first, second) {
            ('r', 'd') => Some(VirtualMemoryFlags::Readable),
            ('w', 'r') => Some(VirtualMemoryFlags::Writeable),
            ('e', 'x') => Some(VirtualMemoryFlags::Executable),
            ('s', 'h') => Some(VirtualMemoryFlags::Shared),
            ('m', 'r') => Some(VirtualMemoryFlags::MayRead),
            ('m', 'w') => Some(VirtualMemoryFlags::MayWrite),
            ('m', 'e') => Some(VirtualMemoryFlags::MayExecute),
            ('m', 's') => Some(VirtualMemoryFlags::MayShare),
            ('g', 'd') => Some(VirtualMemoryFlags::GrowsDown),
            ('p', 'f') => Some(VirtualMemoryFlags::PurePFNRange),
            ('d', 'w') => Some(VirtualMemoryFlags::DisabledWriteToMappedFile),
            ('l', 'o') => Some(VirtualMemoryFlags::Locked),
            ('i', 'o') => Some(VirtualMemoryFlags::Io),
            ('s', 'r') => Some(VirtualMemoryFlags::SequentialReadAdviceProvided),
            ('r', 'r') => Some(VirtualMemoryFlags::RandomReadAdviceProvided),
            ('d', 'c') => Some(VirtualMemoryFlags::DoNotCopyOnFork),
            ('d', 'e') => Some(VirtualMemoryFlags::DoNotExpandOnRemapping),
            ('a', 'c') => Some(VirtualMemoryFlags::AreaIsAccountable),
            ('n', 'r') => Some(VirtualMemoryFlags::SwapSpaceIsNotReservedForTheArea),
            ('h', 't') => Some(VirtualMemoryFlags::AreaUsesHugeTlbPages),
            ('s', 'f') => Some(VirtualMemoryFlags::SynchronousPageFault),
            ('a', 'r') => Some(VirtualMemoryFlags::ArchitectureSpecific),
            ('w', 'f') => Some(VirtualMemoryFlags::WipeOnFork),
            ('d', 'd') => Some(VirtualMemoryFlags::DoNotIncludeInCoreDump),
            ('s', 'd') => Some(VirtualMemoryFlags::SoftDirty),
            ('m', 'm') => Some(VirtualMemoryFlags::MixedMapArea),
            ('h', 'g') => Some(VirtualMemoryFlags::HugePageAdvise),
            ('n', 'h') => Some(VirtualMemoryFlags::NoHugePageAdvise),
            ('m', 'g') => Some(VirtualMemoryFlags::MergeableAdvise),
            ('b', 't') => Some(VirtualMemoryFlags::Arm64BTIGuardedPage),
            ('m', 't') => Some(VirtualMemoryFlags::Arm64MTEAllocationTagsAreEnabled),
            ('u', 'm') => Some(VirtualMemoryFlags::UserfaultfdMissingTracking),
            ('u', 'w') => Some(VirtualMemoryFlags::UserfaultfdWriteProtectTracking),
            ('s', 's') => Some(VirtualMemoryFlags::ShadowStackPage),
            _ => None,
        }
    }

    /// Finds the flag with the two-letter code `first`, `second`.
    pub fn from_code(first: char, second: char) -> (flag: Option<VirtualMemoryFlags>)
        ensures
            flag == VirtualMemoryFlags::with_code(first, second),
    {
        match (first, second) {
            ('r', 'd') => Some(VirtualMemoryFlags::Readable),
            ('w', 'r') => Some(VirtualMemoryFlags::Writeable),
            ('e', 'x') => Some(VirtualMemoryFlags::Executable),
            ('s', 'h') => Some(VirtualMemoryFlags::Shared),
            ('m', 'r') => Some(VirtualMemoryFlags::MayRead),
            ('m', 'w') => Some(VirtualMemoryFlags::MayWrite),
            ('m', 'e') => Some(VirtualMemoryFlags::MayExecute),
            ('m', 's') => Some(VirtualMemoryFlags::MayShare),
            ('g', 'd') => Some(VirtualMemoryFlags::GrowsDown),
            ('p', 'f') => Some(VirtualMemoryFlags::PurePFNRange),
            ('d', 'w') => Some(VirtualMemoryFlags::DisabledWriteToMappedFile),
            ('l', 'o') => Some(VirtualMemoryFlags::Locked),
            ('i', 'o') => Some(VirtualMemoryFlags::Io),
            ('s', 'r') => Some(VirtualMemoryFlags::SequentialReadAdviceProvided),
            ('r', 'r') => Some(VirtualMemoryFlags::RandomReadAdviceProvided),
            ('d', 'c') => Some(VirtualMemoryFlags::DoNotCopyOnFork),
            ('d', 'e') => Some(VirtualMemoryFlags::DoNotExpandOnRemapping),
            ('a', 'c') => Some(VirtualMemoryFlags::AreaIsAccountable),
            ('n', 'r') => Some(VirtualMemoryFlags::SwapSpaceIsNotReservedForTheArea),
            ('h', 't') => Some(VirtualMemoryFlags::AreaUsesHugeTlbPages),
            ('s', 'f') => Some(VirtualMemoryFlags::SynchronousPageFault),
            ('a', 'r') => Some(VirtualMemoryFlags::ArchitectureSpecific),
            ('w', 'f') => Some(VirtualMemoryFlags::WipeOnFork),
            ('d', 'd') => Some(VirtualMemoryFlags::DoNotIncludeInCoreDump),
            ('s', 'd') => Some(VirtualMemoryFlags::SoftDirty),
            ('m', 'm') => Some(VirtualMemoryFlags::MixedMapArea),
            ('h', 'g') => Some(VirtualMemoryFlags::HugePageAdvise),
            ('n', 'h') => Some(VirtualMemoryFlags::NoHugePageAdvise),
            ('m', 'g') => Some(VirtualMemoryFlags::MergeableAdvise),
            ('b', 't') => Some(VirtualMemoryFlags::Arm64BTIGuardedPage),
            ('m', 't') => Some(VirtualMemoryFlags::Arm64MTEAllocationTagsAreEnabled),
            ('u', 'm') => Some(VirtualMemoryFlags::UserfaultfdMissingTracking),
            ('u', 'w') => Some(VirtualMemoryFlags::UserfaultfdWriteProtectTracking),
            ('s', 's') => Some(VirtualMemoryFlags::ShadowStackPage),
            _ => None,
        }
    }
}

/// The flag that the word `word` stands for.
pub open spec fn flag_of_word(word: Seq<char>) -> Option<VirtualMemoryFlags> {
    if word.len() == 2 {
        VirtualMemoryFlags::with_code(word[0], word[1])
    } else {
        None
    }
}

/// A word stands for a flag just where it is the flag's code: every flag
/// has a code of its own, and no other word is a flag.
pub proof fn lemma_flag_of_word(word: Seq<char>, flag: VirtualMemoryFlags)
    ensures
        flag_of_word(word) == Some(flag) <==> word == flag.code_text(),
        flag_of_word(flag.code_text()) == Some(flag),
{
    if word == flag.code_text() {
    } else if flag_of_word(word) == Some(flag) {
        assert(word =~= flag.code_text());
    }
}

/// How many words at the head of `ws`, words of `s`, are flags.
pub open spec fn leading_flags(s: Seq<char>, ws: Seq<(int, int)>) -> nat
    decreases ws.len(),
{
    if ws.len() > 0 && flag_of_word(word_text(s, ws[0])) is Some {
        1 + leading_flags(s, ws.drop_first())
    } else {
        0
    }
}

/// The flags that the words `ws` of `s` stand for, in order.
pub open spec fn flags_of_words(s: Seq<char>, ws: Seq<(int, int)>) -> Seq<VirtualMemoryFlags> {
    ws.map_values(|w: (int, int)| flag_of_word(word_text(s, w))->0)
}

/// Reads the words of `chars` from `pos` on as flags, up to the first word
/// that is none. Each flag read is toggled in the set, which starts empty.
/// Returns the set and, where a word is no flag, where that word starts.
pub fn read_flags(chars: &[char], pos: usize) -> (r: (BitFlags<VirtualMemoryFlags>, Option<usize>))
    requires
        pos <= chars@.len(),
    ensures
        ({
            let ws = words_from(chars@, pos as int);
            let n = leading_flags(chars@, ws);
            &&& n <= ws.len()
            &&& r.0@ == toggled(flags_of_words(chars@, ws.take(n as int)))
            &&& match r.1 {
                Some(start) => n < ws.len() && start == ws[n as int].0 && pos <= start
                    < chars@.len(),
                None => n == ws.len(),
            }
        }),
{
    let ghost s = chars@;
    let ghost ws = words_from(s, pos as int);
    let mut set: BitFlags<VirtualMemoryFlags> = BitFlags::empty();
    let mut at: usize = pos;
    let ghost mut k: int = 0;
    proof {
        assert(ws.skip(0) == ws);
        assert(flags_of_words(s, ws.take(0)) == Seq::<VirtualMemoryFlags>::empty());
        lemma_leading_flags(s, ws);
    }
    loop
        invariant
            s == chars@,
            ws == words_from(s, pos as int),
            pos <= at <= s.len(),
            0 <= k <= ws.len(),
            ws.skip(k) == words_from(s, at as int),
            leading_flags(s, ws) == k + leading_flags(s, ws.skip(k)),
            leading_flags(s, ws) <= ws.len(),
            set@ == toggled(flags_of_words(s, ws.take(k))),
        decreases s.len() - at,
    {
        match next_word(chars, at) {
            None => {
                assert(ws.skip(k).len() == 0);
                return (set, None);
            },
            Some((a, b)) => {
                assert(ws.skip(k)[0] == (a as int, b as int));
                assert(ws[k] == (a as int, b as int));
                assert(ws.skip(k).drop_first() == ws.skip(k + 1));
                let flag = if b - a == 2 {
                    VirtualMemoryFlags::from_code(chars[a], chars[a + 1])
                } else {
                    None
                };
                assert(flag == flag_of_word(word_text(s, ws[k])));
                match flag {
                    None => {
                        return (set, Some(a));
                    },
                    Some(flag) => {
                        set.toggle(flag);
                        proof {
                            assert(ws.take(k + 1).drop_last() == ws.take(k));
                            assert(flags_of_words(s, ws.take(k + 1)).drop_last() == flags_of_words(
                                s,
                                ws.take(k),
                            ));
                            k = k + 1;
                        }
                        at = b;
                    },
                }
            },
        }
    }
}

/// Whether every word of `s` is a flag.
pub open spec fn is_flag_text(s: Seq<char>) -> bool {
    leading_flags(s, words(s)) == words(s).len()
}

/// The flags that `s` lists, each toggled in turn: a flag that `s` names
/// an even number of times is not in the set.
pub open spec fn flags_of(s: Seq<char>) -> Set<VirtualMemoryFlags> {
    toggled(flags_of_words(s, words(s)))
}

/// A text is a list of flags just where each of its words is a flag.
pub proof fn lemma_is_flag_text(s: Seq<char>)
    ensures
        is_flag_text(s) <==> forall|i: int|
            0 <= i < words(s).len() ==> flag_of_word(word_text(s, #[trigger] words(s)[i])) is Some,
{
    lemma_leading_flags(s, words(s));
}

/// The flags at the head of `ws` are just the words before the first that
/// is no flag.
pub proof fn lemma_leading_flags(s: Seq<char>, ws: Seq<(int, int)>)
    ensures
        leading_flags(s, ws) <= ws.len(),
        forall|i: int|
            0 <= i < leading_flags(s, ws) ==> flag_of_word(word_text(s, #[trigger] ws[i])) is Some,
        leading_flags(s, ws) < ws.len() ==> flag_of_word(
            word_text(s, ws[leading_flags(s, ws) as int]),
        ) is None,
    decreases ws.len(),
{
    if ws.len() > 0 && flag_of_word(word_text(s, ws[0])) is Some {
        let rest = ws.drop_first();
        lemma_leading_flags(s, rest);
        assert forall|i: int| 0 <= i < leading_flags(s, ws) implies flag_of_word(
            word_text(s, #[trigger] ws[i]),
        ) is Some by {
            if i > 0 {
                assert(rest[i - 1] == ws[i]);
            }
        }
        if leading_flags(s, ws) < ws.len() {
            assert(rest[leading_flags(s, rest) as int] == ws[leading_flags(s, ws) as int]);
        }
    }
}

/// A list of flags holds a flag just where the list names it an odd number
/// of times. Where the list names no flag twice, it holds just the flags
/// whose codes are words of the list.
pub proof fn lemma_flags_of(s: Seq<char>, flag: VirtualMemoryFlags)
    requires
        is_flag_text(s),
    ensures
        flags_of(s).contains(flag) <==> occurrences(flags_of_words(s, words(s)), flag) % 2 == 1,
        flags_of_words(s, words(s)).no_duplicates() ==> (flags_of(s).contains(flag) <==> exists|
            i: int,
        |
            0 <= i < words(s).len() && word_text(s, #[trigger] words(s)[i]) == flag.code_text()),
{
    let ws = words(s);
    let flags = flags_of_words(s, ws);
    lemma_toggled_holds_the_odd(flags, flag);
    lemma_is_flag_text(s);
    if flags.no_duplicates() {
        lemma_toggled_of_distinct(flags);
        if flags.contains(flag) {
            let i = choose|i: int| 0 <= i < flags.len() && flags[i] == flag;
            lemma_flag_of_word(word_text(s, ws[i]), flag);
        }
        if exists|i: int| 0 <= i < ws.len() && word_text(s, #[trigger] ws[i]) == flag.code_text() {
            let i = choose|i: int|
                0 <= i < ws.len() && word_text(s, #[trigger] ws[i]) == flag.code_text();
            lemma_flag_of_word(word_text(s, ws[i]), flag);
            assert(flags[i] == flag);
        }
    }
}

impl MyFromStr for BitFlags<VirtualMemoryFlags> {
    type Err = ParseError;

    /// Reads a list of flags, the words of `s`. A word that is no flag
    /// fails the whole text, which the error hands back trimmed.
    fn from_str(s: &str) -> (r: Result<Self, ParseError>)
        ensures
            match r {
                Ok(set) => is_flag_text(s@) && set@ == flags_of(s@),
                Err(e) => !is_flag_text(s@) && e@ == ParseFailure::InvalidVirtualMemoryFlags(
                    trim(s@),
                ),
            },
    {
        let chars = chars_of(s);
        let (set, rest) = read_flags(&chars, 0);
        match rest {
            None => {
                assert(words(s@).take(words(s@).len() as int) == words(s@));
                Ok(set)
            },
            Some(_) => {
                let (a, b) = trim_range(&chars, 0, chars.len());
                assert(chars@.subrange(0, chars@.len() as int) == s@);
                Err(ParseError::InvalidVirtualMemoryFlags(text_of(&chars, a, b)))
            },
        }
    }
}

/// The names of the flags of `set` that stand before position `n`, in the
/// order of the declaration.
pub open spec fn labels_below(set: Set<VirtualMemoryFlags>, n: nat) -> Seq<Seq<char>>
    decreases n,
{
    if n == 0 {
        Seq::empty()
    } else {
        let flag = VirtualMemoryFlags::at((n - 1) as u64);
        if set.contains(flag) {
            labels_below(set, (n - 1) as nat).push(flag.label_text())
        } else {
            labels_below(set, (n - 1) as nat)
        }
    }
}

impl MyDisplay for BitFlags<VirtualMemoryFlags> {
    /// The names of the set's flags, in the order of the declaration, with
    /// ` - ` between each two. The empty set has the empty text.
    open spec fn display_text(&self) -> Seq<char> {
        joined(labels_below(self@, FLAG_COUNT as nat), " - "@)
    }

    fn my_display(&self) -> (text: String) {
        let mut text = String::new();
        let mut first = true;
        let mut i: u64 = 0;
        while i < FLAG_COUNT
            invariant
                i <= FLAG_COUNT,
                text@ == joined(labels_below(self@, i as nat), " - "@),
                first == (labels_below(self@, i as nat).len() == 0),
            decreases FLAG_COUNT - i,
        {
            let flag = VirtualMemoryFlags::from_position(i);
            if self.contains(flag) {
                if !first {
                    text.append(" - ");
                }
                text.append(flag.label());
                first = false;
                proof {
                    let before = labels_below(self@, i as nat);
                    assert(before.push(flag.label_text()).drop_last() == before);
                }
            }
            i += 1;
        }
        text
    }
}

} // verus!
