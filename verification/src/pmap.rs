//! One line of the dump: a mapping of the process, with its sizes, flags
//! and backing.

use crate::error::Field;
use crate::error::ParseError;
use crate::error::ParseFailure;
use crate::flags::toggled;
use crate::flags::BitFlags;
use crate::mapping_kind::mapping_kind_of;
use crate::mapping_kind::read_mapping_kind;
use crate::mapping_kind::MappingKind;
use crate::mapping_kind::MappingKindView;
use crate::number::number_of;
use crate::number::parse_number;
use crate::order::largest_first;
use crate::order::sort_largest_first;
use crate::order::views;
use crate::order::Measured;
use crate::permissions::is_permission_text;
use crate::permissions::permissions_of;
use crate::permissions::read_permissions;
use crate::permissions::Permissions;
use crate::text::chars_of;
use crate::text::find_char;
use crate::text::index_of;
use crate::text::lines;
use crate::text::lines_from;
use crate::text::next_word;
use crate::text::text_of;
use crate::text::trim;
use crate::text::trim_range;
use crate::text::word_text;
use crate::text::words;
use crate::text::words_from;
use crate::vm_flags::flags_of_words;
use crate::vm_flags::leading_flags;
use crate::vm_flags::read_flags;
use crate::vm_flags::VirtualMemoryFlags;
use vstd::prelude::*;
use vstd::slice::slice_subrange;

verus! {

/// One line of the output of `pmap -XX -p <PID>`: a mapping of the process.
#[derive(Debug, PartialEq)]
pub struct PMap {
    /// The start of the mapping in the address space of the process.
    pub address: u64,
    /// What the process may do with the mapping.
    pub permissions: BitFlags<Permissions>,
    /// The offset into the file, where a file backs the mapping.
    pub offset: u64,
    /// The major number of the device that holds the file.
    pub device_major: u16,
    /// The minor number of the device that holds the file.
    pub device_minor: u16,
    /// The inode of the file on its device.
    pub inode: u64,
    /// The size of the mapping, in KiB.
    pub size_in_kibibyte: u64,
    /// The size of a page to the kernel, in KiB.
    pub kernel_page_size_in_kibibyte: u64,
    /// The size of a page to the memory management unit, in KiB.
    pub mmu_page_size_in_kibibyte: u64,
    /// What is in memory now, in KiB.
    pub resident_set_size_in_kibibyte: u64,
    /// The private pages and this process's share of the shared ones, in KiB.
    pub proportional_share_size_in_kibibyte: u64,
    /// The modified part of the proportional share, in KiB.
    pub proportional_share_size_dirty_in_kibibyte: u64,
    /// Shared with other processes and not modified, in KiB.
    pub shared_clean_in_kibibyte: u64,
    /// Shared with other processes and modified, in KiB.
    pub shared_dirty_in_kibibyte: u64,
    /// Private to the process and not modified, in KiB.
    pub private_clean_in_kibibyte: u64,
    /// Private to the process and modified, in KiB.
    pub private_dirty_in_kibibyte: u64,
    /// Marked as referenced or accessed, in KiB.
    pub referenced_in_kibibyte: u64,
    /// What belongs to no file, in KiB.
    pub anonymous_in_kibibyte: u64,
    /// Marked to be freed when memory runs short, in KiB.
    pub lazy_free_in_kibibyte: u64,
    /// Anonymous memory in huge pages, in KiB.
    pub anonymous_huge_pages_in_kibibyte: u64,
    /// Shared memory in huge pages, in KiB.
    pub shared_memory_associated_with_huge_pages_in_kibibyte: u64,
    /// Page cache in huge pages, in KiB.
    pub file_pme_mapped_in_kibibyte: u64,
    /// Shared hugetlb memory, in KiB.
    pub shared_hugetlb_in_kibibyte: u64,
    /// Private hugetlb memory, in KiB.
    pub private_hugetlb_in_kibibyte: u64,
    /// What is swapped out, in KiB.
    pub swap_in_kibibyte: u64,
    /// This process's share of what is swapped out, in KiB.
    pub swap_pss_in_kibibyte: u64,
    /// What is locked in memory, in KiB.
    pub locked_in_kibibyte: u64,
    /// Whether the mapping is eligible for transparent huge pages.
    pub transparent_huge_page_eligible: bool,
    /// The flags that the kernel keeps for the mapping.
    pub virtual_memory_flags: BitFlags<VirtualMemoryFlags>,
    /// What backs the mapping.
    pub mapping_kind: MappingKind,
}

/// What a [`PMap`] holds.
pub struct PMapView {
    pub address: u64,
    pub permissions: Set<Permissions>,
    pub offset: u64,
    pub device_major: u16,
    pub device_minor: u16,
    pub inode: u64,
    pub size_in_kibibyte: u64,
    pub kernel_page_size_in_kibibyte: u64,
    pub mmu_page_size_in_kibibyte: u64,
    pub resident_set_size_in_kibibyte: u64,
    pub proportional_share_size_in_kibibyte: u64,
    pub proportional_share_size_dirty_in_kibibyte: u64,
    pub shared_clean_in_kibibyte: u64,
    pub shared_dirty_in_kibibyte: u64,
    pub private_clean_in_kibibyte: u64,
    pub private_dirty_in_kibibyte: u64,
    pub referenced_in_kibibyte: u64,
    pub anonymous_in_kibibyte: u64,
    pub lazy_free_in_kibibyte: u64,
    pub anonymous_huge_pages_in_kibibyte: u64,
    pub shared_memory_associated_with_huge_pages_in_kibibyte: u64,
    pub file_pme_mapped_in_kibibyte: u64,
    pub shared_hugetlb_in_kibibyte: u64,
    pub private_hugetlb_in_kibibyte: u64,
    pub swap_in_kibibyte: u64,
    pub swap_pss_in_kibibyte: u64,
    pub locked_in_kibibyte: u64,
    pub transparent_huge_page_eligible: bool,
    pub virtual_memory_flags: Set<VirtualMemoryFlags>,
    pub mapping_kind: MappingKindView,
}

impl View for PMap {
    type V = PMapView;

    open spec fn view(&self) -> PMapView {
        PMapView {
            address: self.address,
            permissions: self.permissions@,
            offset: self.offset,
            device_major: self.device_major,
            device_minor: self.device_minor,
            inode: self.inode,
            size_in_kibibyte: self.size_in_kibibyte,
            kernel_page_size_in_kibibyte: self.kernel_page_size_in_kibibyte,
            mmu_page_size_in_kibibyte: self.mmu_page_size_in_kibibyte,
            resident_set_size_in_kibibyte: self.resident_set_size_in_kibibyte,
            proportional_share_size_in_kibibyte: self.proportional_share_size_in_kibibyte,
            proportional_share_size_dirty_in_kibibyte: self
                .proportional_share_size_dirty_in_kibibyte,
            shared_clean_in_kibibyte: self.shared_clean_in_kibibyte,
            shared_dirty_in_kibibyte: self.shared_dirty_in_kibibyte,
            private_clean_in_kibibyte: self.private_clean_in_kibibyte,
            private_dirty_in_kibibyte: self.private_dirty_in_kibibyte,
            referenced_in_kibibyte: self.referenced_in_kibibyte,
            anonymous_in_kibibyte: self.anonymous_in_kibibyte,
            lazy_free_in_kibibyte: self.lazy_free_in_kibibyte,
            anonymous_huge_pages_in_kibibyte: self.anonymous_huge_pages_in_kibibyte,
            shared_memory_associated_with_huge_pages_in_kibibyte: self
                .shared_memory_associated_with_huge_pages_in_kibibyte,
            file_pme_mapped_in_kibibyte: self.file_pme_mapped_in_kibibyte,
            shared_hugetlb_in_kibibyte: self.shared_hugetlb_in_kibibyte,
            private_hugetlb_in_kibibyte: self.private_hugetlb_in_kibibyte,
            swap_in_kibibyte: self.swap_in_kibibyte,
            swap_pss_in_kibibyte: self.swap_pss_in_kibibyte,
            locked_in_kibibyte: self.locked_in_kibibyte,
            transparent_huge_page_eligible: self.transparent_huge_page_eligible,
            virtual_memory_flags: self.virtual_memory_flags@,
            mapping_kind: self.mapping_kind@,
        }
    }
}

impl PMapView {
    /// An anonymous private mapping without a name, a permission or a flag,
    /// and with 0 in every number.
    pub open spec fn empty() -> PMapView {
        PMapView {
            address: 0,
            permissions: Set::empty(),
            offset: 0,
            device_major: 0,
            device_minor: 0,
            inode: 0,
            size_in_kibibyte: 0,
            kernel_page_size_in_kibibyte: 0,
            mmu_page_size_in_kibibyte: 0,
            resident_set_size_in_kibibyte: 0,
            proportional_share_size_in_kibibyte: 0,
            proportional_share_size_dirty_in_kibibyte: 0,
            shared_clean_in_kibibyte: 0,
            shared_dirty_in_kibibyte: 0,
            private_clean_in_kibibyte: 0,
            private_dirty_in_kibibyte: 0,
            referenced_in_kibibyte: 0,
            anonymous_in_kibibyte: 0,
            lazy_free_in_kibibyte: 0,
            anonymous_huge_pages_in_kibibyte: 0,
            shared_memory_associated_with_huge_pages_in_kibibyte: 0,
            file_pme_mapped_in_kibibyte: 0,
            shared_hugetlb_in_kibibyte: 0,
            private_hugetlb_in_kibibyte: 0,
            swap_in_kibibyte: 0,
            swap_pss_in_kibibyte: 0,
            locked_in_kibibyte: 0,
            transparent_huge_page_eligible: false,
            virtual_memory_flags: Set::empty(),
            mapping_kind: MappingKindView::AnonymousPrivate(None),
        }
    }
}

impl Default for PMap {
    fn default() -> (record: Self)
        ensures
            record@ == PMapView::empty(),
    {
        PMap {
            address: 0,
            permissions: BitFlags::empty(),
            offset: 0,
            device_major: 0,
            device_minor: 0,
            inode: 0,
            size_in_kibibyte: 0,
            kernel_page_size_in_kibibyte: 0,
            mmu_page_size_in_kibibyte: 0,
            resident_set_size_in_kibibyte: 0,
            proportional_share_size_in_kibibyte: 0,
            proportional_share_size_dirty_in_kibibyte: 0,
            shared_clean_in_kibibyte: 0,
            shared_dirty_in_kibibyte: 0,
            private_clean_in_kibibyte: 0,
            private_dirty_in_kibibyte: 0,
            referenced_in_kibibyte: 0,
            anonymous_in_kibibyte: 0,
            lazy_free_in_kibibyte: 0,
            anonymous_huge_pages_in_kibibyte: 0,
            shared_memory_associated_with_huge_pages_in_kibibyte: 0,
            file_pme_mapped_in_kibibyte: 0,
            shared_hugetlb_in_kibibyte: 0,
            private_hugetlb_in_kibibyte: 0,
            swap_in_kibibyte: 0,
            swap_pss_in_kibibyte: 0,
            locked_in_kibibyte: 0,
            transparent_huge_page_eligible: false,
            virtual_memory_flags: BitFlags::empty(),
            mapping_kind: MappingKind::AnonymousPrivate(None),
        }
    }
}

impl Clone for PMap {
    fn clone(&self) -> (copy: Self)
        ensures
            copy@ == self@,
    {
        PMap {
            address: self.address,
            permissions: self.permissions,
            offset: self.offset,
            device_major: self.device_major,
            device_minor: self.device_minor,
            inode: self.inode,
            size_in_kibibyte: self.size_in_kibibyte,
            kernel_page_size_in_kibibyte: self.kernel_page_size_in_kibibyte,
            mmu_page_size_in_kibibyte: self.mmu_page_size_in_kibibyte,
            resident_set_size_in_kibibyte: self.resident_set_size_in_kibibyte,
            proportional_share_size_in_kibibyte: self.proportional_share_size_in_kibibyte,
            proportional_share_size_dirty_in_kibibyte: self
                .proportional_share_size_dirty_in_kibibyte,
            shared_clean_in_kibibyte: self.shared_clean_in_kibibyte,
            shared_dirty_in_kibibyte: self.shared_dirty_in_kibibyte,
            private_clean_in_kibibyte: self.private_clean_in_kibibyte,
            private_dirty_in_kibibyte: self.private_dirty_in_kibibyte,
            referenced_in_kibibyte: self.referenced_in_kibibyte,
            anonymous_in_kibibyte: self.anonymous_in_kibibyte,
            lazy_free_in_kibibyte: self.lazy_free_in_kibibyte,
            anonymous_huge_pages_in_kibibyte: self.anonymous_huge_pages_in_kibibyte,
            shared_memory_associated_with_huge_pages_in_kibibyte: self
                .shared_memory_associated_with_huge_pages_in_kibibyte,
            file_pme_mapped_in_kibibyte: self.file_pme_mapped_in_kibibyte,
            shared_hugetlb_in_kibibyte: self.shared_hugetlb_in_kibibyte,
            private_hugetlb_in_kibibyte: self.private_hugetlb_in_kibibyte,
            swap_in_kibibyte: self.swap_in_kibibyte,
            swap_pss_in_kibibyte: self.swap_pss_in_kibibyte,
            locked_in_kibibyte: self.locked_in_kibibyte,
            transparent_huge_page_eligible: self.transparent_huge_page_eligible,
            virtual_memory_flags: self.virtual_memory_flags,
            mapping_kind: self.mapping_kind.clone(),
        }
    }
}

impl Measured for PMap {
    /// The size of a mapping.
    open spec fn measure(value: PMapView) -> nat {
        value.size_in_kibibyte as nat
    }

    fn size(&self) -> (size: u128) {
        self.size_in_kibibyte as u128
    }
}

/// What a column of the dump holds.
pub enum Column {
    /// A number of the field `field`, in base `radix` and at most `max`.
    Number { field: Field, radix: nat, max: nat },
    /// The permission string.
    Permissions,
    /// The device: two numbers in base 16 with `:` between them.
    Device,
    /// `-1` where the mapping is eligible for transparent huge pages.
    Eligible,
}

/// The columns that every line has, in order. The flags and the descriptor
/// of the mapping follow them.
pub open spec fn layout() -> Seq<Column> {
    seq![
        Column::Number { field: Field::Address, radix: 16, max: u64::MAX as nat },
        Column::Permissions,
        Column::Number { field: Field::Offset, radix: 16, max: u64::MAX as nat },
        Column::Device,
        Column::Number { field: Field::Inode, radix: 10, max: u64::MAX as nat },
        Column::Number { field: Field::Size, radix: 10, max: u64::MAX as nat },
        Column::Number { field: Field::KernelPageSize, radix: 10, max: u64::MAX as nat },
        Column::Number { field: Field::MmuPageSize, radix: 10, max: u64::MAX as nat },
        Column::Number { field: Field::ResidentSetSize, radix: 10, max: u64::MAX as nat },
        Column::Number { field: Field::ProportionalShareSize, radix: 10, max: u64::MAX as nat },
        Column::Number {
            field: Field::ProportionalShareSizeDirty,
            radix: 10,
            max: u64::MAX as nat,
        },
        Column::Number { field: Field::SharedClean, radix: 10, max: u64::MAX as nat },
        Column::Number { field: Field::SharedDirty, radix: 10, max: u64::MAX as nat },
        Column::Number { field: Field::PrivateClean, radix: 10, max: u64::MAX as nat },
        Column::Number { field: Field::PrivateDirty, radix: 10, max: u64::MAX as nat },
        Column::Number { field: Field::Referenced, radix: 10, max: u64::MAX as nat },
        Column::Number { field: Field::Anonymous, radix: 10, max: u64::MAX as nat },
        Column::Number { field: Field::LazyFree, radix: 10, max: u64::MAX as nat },
        Column::Number { field: Field::AnonymousHugePages, radix: 10, max: u64::MAX as nat },
        Column::Number {
            field: Field::SharedMemoryAssociatedWithHugePages,
            radix: 10,
            max: u64::MAX as nat,
        },
        Column::Number { field: Field::FilePmeMapped, radix: 10, max: u64::MAX as nat },
        Column::Number { field: Field::SharedHugetlb, radix: 10, max: u64::MAX as nat },
        Column::Number { field: Field::PrivateHugetlb, radix: 10, max: u64::MAX as nat },
        Column::Number { field: Field::Swap, radix: 10, max: u64::MAX as nat },
        Column::Number { field: Field::SwapPss, radix: 10, max: u64::MAX as nat },
        Column::Number { field: Field::Locked, radix: 10, max: u64::MAX as nat },
        Column::Eligible,
    ]
}

/// How many columns stand before the flags.
pub const COLUMNS: usize = 27;

/// The text of the major number in the device column `w`: what stands
/// before the first `:`.
pub open spec fn device_major_text(w: Seq<char>) -> Seq<char> {
    w.subrange(0, index_of(w, ':', 0))
}

/// The text of the minor number in the device column `w`: what stands
/// between the first `:` and the next; none where `w` has no `:`.
pub open spec fn device_minor_text(w: Seq<char>) -> Option<Seq<char>> {
    let colon = index_of(w, ':', 0);
    if colon < w.len() {
        Some(w.subrange(colon + 1, index_of(w, ':', colon + 1)))
    } else {
        None
    }
}

/// Why the device column `w` cannot be read, if it cannot.
pub open spec fn device_failure(w: Seq<char>) -> Option<ParseFailure> {
    if number_of(device_major_text(w), 16, u16::MAX as nat) is None {
        Some(ParseFailure::InvalidField(Field::DeviceMajor, device_major_text(w)))
    } else {
        match device_minor_text(w) {
            None => Some(ParseFailure::MissingField(Field::DeviceMinor)),
            Some(minor) => if number_of(minor, 16, u16::MAX as nat) is None {
                Some(ParseFailure::InvalidField(Field::DeviceMinor, minor))
            } else {
                None
            },
        }
    }
}

/// Why column `i` of the line `s` with the words `ws` cannot be read, if
/// it cannot: the line ends before it, or its word is not what the column
/// holds.
pub open spec fn column_failure(s: Seq<char>, ws: Seq<(int, int)>, i: int) -> Option<ParseFailure> {
    let word = word_text(s, ws[i]);
    match layout()[i] {
        Column::Number { field, radix, max } => if i >= ws.len() {
            Some(ParseFailure::MissingField(field))
        } else if number_of(word, radix, max) is None {
            Some(ParseFailure::InvalidField(field, word))
        } else {
            None
        },
        Column::Permissions => if i >= ws.len() {
            Some(ParseFailure::MissingField(Field::Permissions))
        } else if !is_permission_text(word) {
            Some(ParseFailure::InvalidPermissions(word))
        } else {
            None
        },
        Column::Device => if i >= ws.len() {
            Some(ParseFailure::MissingField(Field::Device))
        } else {
            device_failure(word)
        },
        Column::Eligible => if i >= ws.len() {
            Some(ParseFailure::MissingField(Field::TransparentHugePageEligible))
        } else {
            None
        },
    }
}

/// The failure of the first column before column `n` that cannot be read.
pub open spec fn first_failure(s: Seq<char>, ws: Seq<(int, int)>, n: int) -> Option<ParseFailure>
    decreases n,
{
    if n <= 0 {
        None
    } else {
        match first_failure(s, ws, n - 1) {
            Some(failure) => Some(failure),
            None => column_failure(s, ws, n - 1),
        }
    }
}

/// The number in column `i` of the line `s` with the words `ws`.
pub open spec fn column_number(s: Seq<char>, ws: Seq<(int, int)>, i: int) -> nat {
    match layout()[i] {
        Column::Number { field, radix, max } => number_of(word_text(s, ws[i]), radix, max)->0,
        _ => 0,
    }
}

/// The descriptor of the mapping in the line `s`, whose words behind the
/// columns are `tail`: the rest of the line from its first word that is no
/// flag, with the white space inside as it stands; empty where every word
/// is a flag.
pub open spec fn descriptor_of(s: Seq<char>, tail: Seq<(int, int)>) -> Seq<char> {
    let n = leading_flags(s, tail) as int;
    if n < tail.len() {
        s.skip(tail[n].0)
    } else {
        Seq::empty()
    }
}

/// The mapping of the kind `mapping_kind` that the columns and the flags
/// of the line `s` describe, where all of them can be read.
pub open spec fn record_with(s: Seq<char>, mapping_kind: MappingKindView) -> PMapView {
    let ws = words(s);
    let tail = ws.skip(COLUMNS as int);
    PMapView {
        address: column_number(s, ws, 0) as u64,
        permissions: permissions_of(word_text(s, ws[1])),
        offset: column_number(s, ws, 2) as u64,
        device_major: number_of(
            device_major_text(word_text(s, ws[3])),
            16,
            u16::MAX as nat,
        )->0 as u16,
        device_minor: number_of(
            device_minor_text(word_text(s, ws[3]))->0,
            16,
            u16::MAX as nat,
        )->0 as u16,
        inode: column_number(s, ws, 4) as u64,
        size_in_kibibyte: column_number(s, ws, 5) as u64,
        kernel_page_size_in_kibibyte: column_number(s, ws, 6) as u64,
        mmu_page_size_in_kibibyte: column_number(s, ws, 7) as u64,
        resident_set_size_in_kibibyte: column_number(s, ws, 8) as u64,
        proportional_share_size_in_kibibyte: column_number(s, ws, 9) as u64,
        proportional_share_size_dirty_in_kibibyte: column_number(s, ws, 10) as u64,
        shared_clean_in_kibibyte: column_number(s, ws, 11) as u64,
        shared_dirty_in_kibibyte: column_number(s, ws, 12) as u64,
        private_clean_in_kibibyte: column_number(s, ws, 13) as u64,
        private_dirty_in_kibibyte: column_number(s, ws, 14) as u64,
        referenced_in_kibibyte: column_number(s, ws, 15) as u64,
        anonymous_in_kibibyte: column_number(s, ws, 16) as u64,
        lazy_free_in_kibibyte: column_number(s, ws, 17) as u64,
        anonymous_huge_pages_in_kibibyte: column_number(s, ws, 18) as u64,
        shared_memory_associated_with_huge_pages_in_kibibyte: column_number(s, ws, 19) as u64,
        file_pme_mapped_in_kibibyte: column_number(s, ws, 20) as u64,
        shared_hugetlb_in_kibibyte: column_number(s, ws, 21) as u64,
        private_hugetlb_in_kibibyte: column_number(s, ws, 22) as u64,
        swap_in_kibibyte: column_number(s, ws, 23) as u64,
        swap_pss_in_kibibyte: column_number(s, ws, 24) as u64,
        locked_in_kibibyte: column_number(s, ws, 25) as u64,
        transparent_huge_page_eligible: word_text(s, ws[26]) == seq!['-', '1'],
        virtual_memory_flags: toggled(flags_of_words(s, tail.take(leading_flags(s, tail) as int))),
        mapping_kind,
    }
}

/// The mapping that the line `line` describes, or why it describes none.
///
/// The line is trimmed and split into words at white space. The first
/// words are the columns of [`layout`]; the first of them that is missing
/// or cannot be read fails the line. The words behind them are flags, each
/// toggled in turn, up to the first word that is none: there the
/// descriptor starts, which [`mapping_kind_of`] reads.
#[verifier::opaque]
pub open spec fn record_of(line: Seq<char>) -> Result<PMapView, ParseFailure> {
    let s = trim(line);
    let ws = words(s);
    let tail = ws.skip(COLUMNS as int);
    match first_failure(s, ws, COLUMNS as int) {
        Some(failure) => Err(failure),
        None => match mapping_kind_of(descriptor_of(s, tail)) {
            Err(failure) => Err(failure),
            Ok(mapping_kind) => Ok(record_with(s, mapping_kind)),
        },
    }
}

/// Whether a reader that stands at `pos` in the line `s` has read the
/// first `i` words of the line.
pub open spec fn at_word(s: Seq<char>, pos: int, i: int) -> bool {
    &&& 0 <= pos <= s.len()
    &&& 0 <= i <= words(s).len()
    &&& words(s).skip(i) == words_from(s, pos)
}

/// A column that cannot be read fails the line, whatever follows it.
proof fn lemma_failure_stays(s: Seq<char>, ws: Seq<(int, int)>, i: int, n: int)
    requires
        0 <= i < n,
        first_failure(s, ws, i) is None,
        column_failure(s, ws, i) is Some,
    ensures
        first_failure(s, ws, n) == column_failure(s, ws, i),
    decreases n,
{
    if n > i + 1 {
        lemma_failure_stays(s, ws, i, n - 1);
    }
}

/// The bounds of the next word of `line`, which is word `i`.
fn next_column(line: &[char], pos: usize, Ghost(i): Ghost<int>) -> (r: Option<(usize, usize)>)
    requires
        at_word(line@, pos as int, i),
    ensures
        match r {
            Some((a, b)) => {
                &&& i < words(line@).len()
                &&& words(line@)[i] == (a as int, b as int)
                &&& pos <= a < b <= line@.len()
                &&& at_word(line@, b as int, i + 1)
            },
            None => i == words(line@).len(),
        },
{
    let r = next_word(line, pos);
    proof {
        let ws = words(line@);
        match r {
            Some((a, b)) => {
                let rest = words_from(line@, b as int);
                assert(ws.skip(i) == seq![(a as int, b as int)] + rest);
                assert(ws.skip(i)[0] == (a as int, b as int));
                assert(ws.skip(i).drop_first() == ws.skip(i + 1));
                assert((seq![(a as int, b as int)] + rest).drop_first() == rest);
            },
            None => {
                assert(ws.skip(i).len() == 0);
            },
        }
    }
    r
}

/// Reads column `i`, a number.
fn read_number(
    line: &[char],
    pos: usize,
    Ghost(i): Ghost<int>,
    field: Field,
    radix: u32,
    max: u64,
) -> (r: Result<(u64, usize), ParseError>)
    requires
        at_word(line@, pos as int, i),
        first_failure(line@, words(line@), i) is None,
        0 <= i < COLUMNS,
        2 <= radix <= 36,
        layout()[i] == (Column::Number { field, radix: radix as nat, max: max as nat }),
    ensures
        match r {
            Ok((value, next)) => {
                &&& at_word(line@, next as int, i + 1)
                &&& first_failure(line@, words(line@), i + 1) is None
                &&& value == column_number(line@, words(line@), i)
                &&& value <= max
            },
            Err(e) => first_failure(line@, words(line@), COLUMNS as int) == Some(e@),
        },
{
    match next_column(line, pos, Ghost(i)) {
        None => {
            proof {
                lemma_failure_stays(line@, words(line@), i, COLUMNS as int);
            }
            Err(ParseError::MissingField(field))
        },
        Some((a, b)) => match parse_number(line, a, b, radix, max) {
            Some(value) => Ok((value, b)),
            None => {
                proof {
                    lemma_failure_stays(line@, words(line@), i, COLUMNS as int);
                }
                Err(ParseError::InvalidField(field, text_of(line, a, b)))
            },
        },
    }
}

/// Reads column `i`, the permission string.
fn read_permission_column(line: &[char], pos: usize, Ghost(i): Ghost<int>) -> (r: Result<
    (BitFlags<Permissions>, usize),
    ParseError,
>)
    requires
        at_word(line@, pos as int, i),
        first_failure(line@, words(line@), i) is None,
        0 <= i < COLUMNS,
        layout()[i] == Column::Permissions,
    ensures
        match r {
            Ok((set, next)) => {
                &&& at_word(line@, next as int, i + 1)
                &&& first_failure(line@, words(line@), i + 1) is None
                &&& set@ == permissions_of(word_text(line@, words(line@)[i]))
            },
            Err(e) => first_failure(line@, words(line@), COLUMNS as int) == Some(e@),
        },
{
    match next_column(line, pos, Ghost(i)) {
        None => {
            proof {
                lemma_failure_stays(line@, words(line@), i, COLUMNS as int);
            }
            Err(ParseError::MissingField(Field::Permissions))
        },
        Some((a, b)) => match read_permissions(line, a, b) {
            Some(set) => Ok((set, b)),
            None => {
                proof {
                    lemma_failure_stays(line@, words(line@), i, COLUMNS as int);
                }
                Err(ParseError::InvalidPermissions(text_of(line, a, b)))
            },
        },
    }
}

/// Reads column `i`, the device.
fn read_device(line: &[char], pos: usize, Ghost(i): Ghost<int>) -> (r: Result<
    (u16, u16, usize),
    ParseError,
>)
    requires
        at_word(line@, pos as int, i),
        first_failure(line@, words(line@), i) is None,
        0 <= i < COLUMNS,
        layout()[i] == Column::Device,
    ensures
        match r {
            Ok((major, minor, next)) => {
                let w = word_text(line@, words(line@)[i]);
                &&& at_word(line@, next as int, i + 1)
                &&& first_failure(line@, words(line@), i + 1) is None
                &&& number_of(device_major_text(w), 16, u16::MAX as nat) == Some(major as nat)
                &&& device_minor_text(w) is Some
                &&& number_of(device_minor_text(w)->0, 16, u16::MAX as nat) == Some(minor as nat)
            },
            Err(e) => first_failure(line@, words(line@), COLUMNS as int) == Some(e@),
        },
{
    let (a, b) = match next_column(line, pos, Ghost(i)) {
        None => {
            proof {
                lemma_failure_stays(line@, words(line@), i, COLUMNS as int);
            }
            return Err(ParseError::MissingField(Field::Device));
        },
        Some(word) => word,
    };
    let ghost w = line@.subrange(a as int, b as int);
    let colon = find_char(line, a, b, a, ':');
    assert(device_major_text(w) == line@.subrange(a as int, colon as int));
    let major = match parse_number(line, a, colon, 16, 0xffff) {
        Some(major) => major,
        None => {
            proof {
                lemma_failure_stays(line@, words(line@), i, COLUMNS as int);
            }
            return Err(ParseError::InvalidField(Field::DeviceMajor, text_of(line, a, colon)));
        },
    };
    if colon == b {
        proof {
            lemma_failure_stays(line@, words(line@), i, COLUMNS as int);
        }
        return Err(ParseError::MissingField(Field::DeviceMinor));
    }
    let end = find_char(line, a, b, colon + 1, ':');
    assert(device_minor_text(w) == Some(line@.subrange(colon + 1, end as int)));
    let minor = match parse_number(line, colon + 1, end, 16, 0xffff) {
        Some(minor) => minor,
        None => {
            proof {
                lemma_failure_stays(line@, words(line@), i, COLUMNS as int);
            }
            return Err(ParseError::InvalidField(Field::DeviceMinor, text_of(line, colon + 1, end)));
        },
    };
    Ok((major as u16, minor as u16, b))
}

/// Reads column `i`, which says whether the mapping is eligible for
/// transparent huge pages.
fn read_eligible(line: &[char], pos: usize, Ghost(i): Ghost<int>) -> (r: Result<
    (bool, usize),
    ParseError,
>)
    requires
        at_word(line@, pos as int, i),
        first_failure(line@, words(line@), i) is None,
        0 <= i < COLUMNS,
        layout()[i] == Column::Eligible,
    ensures
        match r {
            Ok((eligible, next)) => {
                &&& at_word(line@, next as int, i + 1)
                &&& first_failure(line@, words(line@), i + 1) is None
                &&& eligible == (word_text(line@, words(line@)[i]) == seq!['-', '1'])
            },
            Err(e) => first_failure(line@, words(line@), COLUMNS as int) == Some(e@),
        },
{
    match next_column(line, pos, Ghost(i)) {
        None => {
            proof {
                lemma_failure_stays(line@, words(line@), i, COLUMNS as int);
            }
            Err(ParseError::MissingField(Field::TransparentHugePageEligible))
        },
        Some((a, b)) => {
            let eligible = b - a == 2 && line[a] == '-' && line[a + 1] == '1';
            proof {
                let w = line@.subrange(a as int, b as int);
                if eligible {
                    assert(w == seq!['-', '1']);
                } else if w == seq!['-', '1'] {
                    assert(w.len() == 2 && w[0] == '-' && w[1] == '1');
                }
            }
            Ok((eligible, b))
        },
    }
}

impl core::str::FromStr for PMap {
    type Err = ParseError;

    /// Reads one line of the dump.
    fn from_str(s: &str) -> (r: Result<Self, ParseError>)
        ensures
            match r {
                Ok(record) => record_of(s@) == Ok::<PMapView, ParseFailure>(record@),
                Err(e) => record_of(s@) == Err::<PMapView, ParseFailure>(e@),
            },
    {
        let chars = chars_of(s);
        assert(chars@.subrange(0, chars@.len() as int) == s@);
        read_line(chars.as_slice(), 0, chars.len())
    }
}

/// Reads `chars[from..to]` as one line of the dump.
pub fn read_line(chars: &[char], from: usize, to: usize) -> (r: Result<PMap, ParseError>)
    requires
        from <= to <= chars@.len(),
    ensures
        match r {
            Ok(record) => record_of(chars@.subrange(from as int, to as int)) == Ok::<
                PMapView,
                ParseFailure,
            >(record@),
            Err(e) => record_of(chars@.subrange(from as int, to as int)) == Err::<
                PMapView,
                ParseFailure,
            >(e@),
        },
{
    let (a, b) = trim_range(chars, from, to);
    let line = slice_subrange(chars, a, b);
    proof {
        reveal(record_of);
    }
    read_record(line)
}

/// Reads the trimmed line `line`.
fn read_record(line: &[char]) -> (r: Result<PMap, ParseError>)
    ensures
        ({
            let ws = words(line@);
            let tail = ws.skip(COLUMNS as int);
            match r {
                Ok(record) => {
                    &&& first_failure(line@, ws, COLUMNS as int) is None
                    &&& mapping_kind_of(descriptor_of(line@, tail)) == Ok::<
                        MappingKindView,
                        ParseFailure,
                    >(record.mapping_kind@)
                    &&& record@ == record_with(line@, record.mapping_kind@)
                },
                Err(e) => {
                    ||| first_failure(line@, ws, COLUMNS as int) == Some(e@)
                    ||| first_failure(line@, ws, COLUMNS as int) is None && mapping_kind_of(
                        descriptor_of(line@, tail),
                    ) == Err::<MappingKindView, ParseFailure>(e@)
                },
            }
        }),
{
    assert(words(line@).skip(0) == words(line@));
    let pos: usize = 0;
    let (address, pos) = read_number(line, pos, Ghost(0), Field::Address, 16, u64::MAX)?;
    let (permissions, pos) = read_permission_column(line, pos, Ghost(1))?;
    let (offset, pos) = read_number(line, pos, Ghost(2), Field::Offset, 16, u64::MAX)?;
    let (device_major, device_minor, pos) = read_device(line, pos, Ghost(3))?;
    let (inode, pos) = read_number(line, pos, Ghost(4), Field::Inode, 10, u64::MAX)?;
    let (size_in_kibibyte, pos) = read_number(line, pos, Ghost(5), Field::Size, 10, u64::MAX)?;
    let (kernel_page_size_in_kibibyte, pos) =
        read_number(line, pos, Ghost(6), Field::KernelPageSize, 10, u64::MAX)?;
    let (mmu_page_size_in_kibibyte, pos) =
        read_number(line, pos, Ghost(7), Field::MmuPageSize, 10, u64::MAX)?;
    let (resident_set_size_in_kibibyte, pos) =
        read_number(line, pos, Ghost(8), Field::ResidentSetSize, 10, u64::MAX)?;
    let (proportional_share_size_in_kibibyte, pos) =
        read_number(line, pos, Ghost(9), Field::ProportionalShareSize, 10, u64::MAX)?;
    let (proportional_share_size_dirty_in_kibibyte, pos) =
        read_number(line, pos, Ghost(10), Field::ProportionalShareSizeDirty, 10, u64::MAX)?;
    let (shared_clean_in_kibibyte, pos) =
        read_number(line, pos, Ghost(11), Field::SharedClean, 10, u64::MAX)?;
    let (shared_dirty_in_kibibyte, pos) =
        read_number(line, pos, Ghost(12), Field::SharedDirty, 10, u64::MAX)?;
    let (private_clean_in_kibibyte, pos) =
        read_number(line, pos, Ghost(13), Field::PrivateClean, 10, u64::MAX)?;
    let (private_dirty_in_kibibyte, pos) =
        read_number(line, pos, Ghost(14), Field::PrivateDirty, 10, u64::MAX)?;
    let (referenced_in_kibibyte, pos) =
        read_number(line, pos, Ghost(15), Field::Referenced, 10, u64::MAX)?;
    let (anonymous_in_kibibyte, pos) =
        read_number(line, pos, Ghost(16), Field::Anonymous, 10, u64::MAX)?;
    let (lazy_free_in_kibibyte, pos) =
        read_number(line, pos, Ghost(17), Field::LazyFree, 10, u64::MAX)?;
    let (anonymous_huge_pages_in_kibibyte, pos) =
        read_number(line, pos, Ghost(18), Field::AnonymousHugePages, 10, u64::MAX)?;
    let (shared_memory_associated_with_huge_pages_in_kibibyte, pos) = read_number(
        line,
        pos,
        Ghost(19),
        Field::SharedMemoryAssociatedWithHugePages,
        10,
        u64::MAX,
    )?;
    let (file_pme_mapped_in_kibibyte, pos) =
        read_number(line, pos, Ghost(20), Field::FilePmeMapped, 10, u64::MAX)?;
    let (shared_hugetlb_in_kibibyte, pos) =
        read_number(line, pos, Ghost(21), Field::SharedHugetlb, 10, u64::MAX)?;
    let (private_hugetlb_in_kibibyte, pos) =
        read_number(line, pos, Ghost(22), Field::PrivateHugetlb, 10, u64::MAX)?;
    let (swap_in_kibibyte, pos) = read_number(line, pos, Ghost(23), Field::Swap, 10, u64::MAX)?;
    let (swap_pss_in_kibibyte, pos) =
        read_number(line, pos, Ghost(24), Field::SwapPss, 10, u64::MAX)?;
    let (locked_in_kibibyte, pos) = read_number(line, pos, Ghost(25), Field::Locked, 10, u64::MAX)?;
    let (transparent_huge_page_eligible, pos) = read_eligible(line, pos, Ghost(26))?;
    let (virtual_memory_flags, rest) = read_flags(line, pos);
    let start = match rest {
        Some(start) => start,
        None => line.len(),
    };
    proof {
        let tail = words(line@).skip(COLUMNS as int);
        assert(line@.subrange(start as int, line@.len() as int) == descriptor_of(line@, tail));
    }
    let mapping_kind = read_mapping_kind(line, start, line.len())?;
    Ok(
        PMap {
            address,
            permissions,
            offset,
            device_major,
            device_minor,
            inode,
            size_in_kibibyte,
            kernel_page_size_in_kibibyte,
            mmu_page_size_in_kibibyte,
            resident_set_size_in_kibibyte,
            proportional_share_size_in_kibibyte,
            proportional_share_size_dirty_in_kibibyte,
            shared_clean_in_kibibyte,
            shared_dirty_in_kibibyte,
            private_clean_in_kibibyte,
            private_dirty_in_kibibyte,
            referenced_in_kibibyte,
            anonymous_in_kibibyte,
            lazy_free_in_kibibyte,
            anonymous_huge_pages_in_kibibyte,
            shared_memory_associated_with_huge_pages_in_kibibyte,
            file_pme_mapped_in_kibibyte,
            shared_hugetlb_in_kibibyte,
            private_hugetlb_in_kibibyte,
            swap_in_kibibyte,
            swap_pss_in_kibibyte,
            locked_in_kibibyte,
            transparent_huge_page_eligible,
            virtual_memory_flags,
            mapping_kind,
        },
    )
}

/// The mappings of a process, in the order of the dump.
#[derive(Debug, PartialEq)]
pub struct PMapVec(pub Vec<PMap>);

impl View for PMapVec {
    type V = Seq<PMapView>;

    open spec fn view(&self) -> Seq<PMapView> {
        views(self.0@)
    }
}

impl Clone for PMapVec {
    fn clone(&self) -> (copy: Self)
        ensures
            copy@ == self@,
    {
        let mut records: Vec<PMap> = Vec::new();
        let mut i: usize = 0;
        while i < self.0.len()
            invariant
                i <= self.0@.len(),
                views(records@) == self@.take(i as int),
            decreases self.0@.len() - i,
        {
            let ghost before = views(records@);
            let record = self.0[i].clone();
            records.push(record);
            assert(self@.take(i + 1) == self@.take(i as int).push(self@[i as int]));
            assert(views(records@) == before.push(record@));
            i += 1;
        }
        assert(self@.take(i as int) == self@);
        PMapVec(records)
    }
}

/// The size that a mapping must exceed to be shown on its own, in KiB.
pub const MIN_SIZE_TO_DISPLAY: u64 = 10240;

/// Those of `pages` that are larger than [`MIN_SIZE_TO_DISPLAY`], in their
/// order.
pub open spec fn large_pages(pages: Seq<PMapView>) -> Seq<PMapView> {
    pages.filter(|page: PMapView| page.size_in_kibibyte > MIN_SIZE_TO_DISPLAY)
}

impl PMapVec {
    /// The mappings to show one by one: those larger than
    /// [`MIN_SIZE_TO_DISPLAY`], the largest first; those of one size in
    /// the order of the dump.
    pub fn pages_to_display(&self) -> (shown: PMapVec)
        ensures
            shown@ == largest_first::<PMap>(large_pages(self@)),
    {
        let mut shown: Vec<PMap> = Vec::new();
        let mut i: usize = 0;
        proof {
            reveal(Seq::filter);
            assert(self@.take(0) == Seq::<PMapView>::empty());
            assert(views(shown@) == Seq::<PMapView>::empty());
        }
        while i < self.0.len()
            invariant
                i <= self.0@.len(),
                views(shown@) == large_pages(self@.take(i as int)),
            decreases self.0@.len() - i,
        {
            proof {
                reveal(Seq::filter);
                assert(self@.take(i + 1).drop_last() == self@.take(i as int));
                assert(self@.take(i + 1).last() == self.0@[i as int]@);
            }
            if self.0[i].size_in_kibibyte > MIN_SIZE_TO_DISPLAY {
                let ghost before = views(shown@);
                let page = self.0[i].clone();
                shown.push(page);
                assert(views(shown@) == before.push(page@));
            }
            i += 1;
        }
        assert(self@.take(i as int) == self@);
        sort_largest_first(&mut shown);
        PMapVec(shown)
    }
}

/// The records of the lines `lines`. A line that is blank once trimmed is
/// passed over; the first line that cannot be read fails them all.
pub open spec fn records_of(lines: Seq<Seq<char>>) -> Result<Seq<PMapView>, ParseFailure>
    decreases lines.len(),
{
    if lines.len() == 0 {
        Ok(Seq::empty())
    } else {
        match records_of(lines.drop_last()) {
            Err(failure) => Err(failure),
            Ok(records) => if trim(lines.last()).len() == 0 {
                Ok(records)
            } else {
                match record_of(lines.last()) {
                    Ok(record) => Ok(records.push(record)),
                    Err(failure) => Err(failure),
                }
            },
        }
    }
}

/// The records of the dump `text`: those of its lines but the first, which
/// holds the names of the columns.
pub open spec fn dump_of(text: Seq<char>) -> Result<Seq<PMapView>, ParseFailure> {
    records_of(lines(text).skip(1))
}

impl PMap {
    /// Reads a whole dump: every line but the first, which holds the names
    /// of the columns, and but the blank ones. A line that cannot be read
    /// fails the dump.
    pub fn parse_pmap_output(pmap_output: &str) -> (r: Result<PMapVec, ParseError>)
        ensures
            match r {
                Ok(records) => dump_of(pmap_output@) == Ok::<Seq<PMapView>, ParseFailure>(
                    records@,
                ),
                Err(e) => dump_of(pmap_output@) == Err::<Seq<PMapView>, ParseFailure>(e@),
            },
    {
        let chars = chars_of(pmap_output);
        let ghost s = chars@;
        let mut records: Vec<PMap> = Vec::new();
        assert(chars@.subrange(0, chars@.len() as int) == chars@);
        let header_end = find_char(chars.as_slice(), 0, chars.len(), 0, '\n');
        if header_end == chars.len() {
            assert(lines(s).skip(1) == Seq::<Seq<char>>::empty());
            assert(views(records@) == Seq::<PMapView>::empty());
            return Ok(PMapVec(records));
        }
        let mut pos: usize = header_end + 1;
        let ghost mut done: Seq<Seq<char>> = Seq::empty();
        assert(lines(s).skip(1) == done + lines_from(s, pos as int));
        assert(views(records@) == Seq::<PMapView>::empty());
        loop
            invariant
                s == chars@,
                s == pmap_output@,
                s == chars@.subrange(0, chars@.len() as int),
                pos <= s.len(),
                lines(s).skip(1) == done + lines_from(s, pos as int),
                records_of(done) == Ok::<Seq<PMapView>, ParseFailure>(
                    views(records@),
                ),
            decreases s.len() - pos,
        {
            let end = find_char(chars.as_slice(), 0, chars.len(), pos, '\n');
            let ghost line = s.subrange(pos as int, end as int);
            let ghost before = views(records@);
            let (a, b) = trim_range(chars.as_slice(), pos, end);
            proof {
                assert(done.push(line).drop_last() == done);
            }
            if a < b {
                match read_line(chars.as_slice(), pos, end) {
                    Ok(record) => {
                        records.push(record);
                        assert(views(records@) == before.push(
                            record@,
                        ));
                    },
                    Err(e) => {
                        proof {
                            lemma_failure_stays_in_dump(done.push(line), lines(s).skip(1));
                        }
                        return Err(e);
                    },
                }
            }
            proof {
                done = done.push(line);
            }
            if end == chars.len() {
                assert(lines(s).skip(1) == done);
                return Ok(PMapVec(records));
            }
            pos = end + 1;
            assert(lines(s).skip(1) == done + lines_from(s, pos as int));
        }
    }
}

/// Lines that cannot be read cannot be read with more lines behind them.
proof fn lemma_failure_stays_in_dump(head: Seq<Seq<char>>, lines: Seq<Seq<char>>)
    requires
        head.is_prefix_of(lines),
        records_of(head) is Err,
    ensures
        records_of(lines) == records_of(head),
    decreases lines.len(),
{
    if head.len() < lines.len() {
        assert(head.is_prefix_of(lines.drop_last()));
        lemma_failure_stays_in_dump(head, lines.drop_last());
    } else {
        assert(head == lines);
    }
}

} // verus!
