//! Questions to the mappings of a process: which lie in a range of
//! addresses, and which look like the stack of a thread.

use crate::mapping_kind::MappingKind;
use crate::mapping_kind::MappingKindView;
use crate::number::hex_text;
use crate::number::number_of;
use crate::number::parse_number;
use crate::number::push_hex;
use crate::order::views;
use crate::permissions::Permissions;
use crate::pmap::PMap;
use crate::pmap::PMapVec;
use crate::pmap::PMapView;
use crate::text::chars_of;
use crate::text::find_char;
use crate::text::index_of;
use crate::text::lines;
use crate::text::lines_from;
use crate::text::text_of;
use crate::text::trim;
use crate::text::trim_range;
use crate::vm_flags::VirtualMemoryFlags;
use vstd::prelude::*;
use vstd::string::StringExecFns;

verus! {

/// The size of the stack of a thread where nothing else is said, in KiB.
pub const DEFAULT_THREAD_STACK_SIZE: u64 = 8192;

/// Whether `page` looks like the stack of a thread: it has just the size
/// `stack_size`, is anonymous, private and without a name, may be read and
/// written, and could be made readable, writable and executable.
pub open spec fn is_thread_stack(page: PMapView, stack_size: u64) -> bool {
    &&& page.size_in_kibibyte == stack_size
    &&& page.mapping_kind == MappingKindView::AnonymousPrivate(None)
    &&& page.permissions.contains(Permissions::Read)
    &&& page.permissions.contains(Permissions::Write)
    &&& page.permissions.contains(Permissions::Private)
    &&& page.virtual_memory_flags.contains(VirtualMemoryFlags::MayRead)
    &&& page.virtual_memory_flags.contains(VirtualMemoryFlags::MayWrite)
    &&& page.virtual_memory_flags.contains(VirtualMemoryFlags::MayExecute)
}

/// Those of `pages` that look like the stack of a thread.
pub open spec fn thread_stacks_of(pages: Seq<PMapView>, stack_size: u64) -> Seq<PMapView> {
    pages.filter(|page: PMapView| is_thread_stack(page, stack_size))
}

/// How many mappings look like the stack of a thread, and their size.
#[derive(Clone, Copy, Debug, PartialEq, Eq)]
pub struct ThreadStacks {
    /// How many there are.
    pub count: usize,
    /// Their sizes together, in KiB.
    pub total_size_in_kibibyte: u128,
}

/// Whether `page` lies within the addresses from `start` up to, not
/// including, `end`, and belongs in a core dump.
pub open spec fn is_in_region(page: PMapView, start: u64, end: u64) -> bool {
    &&& start <= page.address
    &&& page.address + page.size_in_kibibyte * 1024 <= end
    &&& !page.virtual_memory_flags.contains(VirtualMemoryFlags::DoNotIncludeInCoreDump)
}

/// Those of `pages` that lie within the addresses from `start` up to
/// `end` and belong in a core dump, in their order.
pub open spec fn in_region(pages: Seq<PMapView>, start: u64, end: u64) -> Seq<PMapView> {
    pages.filter(|page: PMapView| is_in_region(page, start, end))
}

/// The addresses at which `pages` start, in order.
pub open spec fn addresses_of(pages: Seq<PMapView>) -> Seq<u64> {
    pages.map_values(|page: PMapView| page.address)
}

impl PMap {
    /// Decides [`is_thread_stack`].
    pub fn is_thread_stack(&self, stack_size: u64) -> (b: bool)
        ensures
            b == is_thread_stack(self@, stack_size),
    {
        let unnamed = match &self.mapping_kind {
            MappingKind::AnonymousPrivate(None) => true,
            _ => false,
        };
        self.size_in_kibibyte == stack_size && unnamed && self.permissions.contains(
            Permissions::Read,
        ) && self.permissions.contains(Permissions::Write) && self.permissions.contains(
            Permissions::Private,
        ) && self.virtual_memory_flags.contains(VirtualMemoryFlags::MayRead)
            && self.virtual_memory_flags.contains(VirtualMemoryFlags::MayWrite)
            && self.virtual_memory_flags.contains(VirtualMemoryFlags::MayExecute)
    }

    /// Decides [`is_in_region`].
    pub fn is_in_region(&self, start: u64, end: u64) -> (b: bool)
        ensures
            b == is_in_region(self@, start, end),
    {
        let last: u128 = self.address as u128 + self.size_in_kibibyte as u128 * 1024;
        start <= self.address && last <= end as u128 && !self.virtual_memory_flags.contains(
            VirtualMemoryFlags::DoNotIncludeInCoreDump,
        )
    }
}

impl PMapVec {
    /// Counts the mappings that look like the stack of a thread.
    pub fn thread_stacks(&self, stack_size: u64) -> (found: ThreadStacks)
        ensures
            found.count == thread_stacks_of(self@, stack_size).len(),
            found.total_size_in_kibibyte == found.count * stack_size,
    {
        let mut count: usize = 0;
        let mut i: usize = 0;
        proof {
            reveal(Seq::filter);
            assert(self@.take(0) == Seq::<PMapView>::empty());
        }
        while i < self.0.len()
            invariant
                i <= self.0@.len(),
                count <= i,
                count == thread_stacks_of(self@.take(i as int), stack_size).len(),
            decreases self.0@.len() - i,
        {
            proof {
                reveal(Seq::filter);
                assert(self@.take(i + 1).drop_last() == self@.take(i as int));
                assert(self@.take(i + 1).last() == self.0@[i as int]@);
            }
            if self.0[i].is_thread_stack(stack_size) {
                count += 1;
            }
            i += 1;
        }
        assert(self@.take(i as int) == self@);
        assert((count as u128) * (stack_size as u128) <= 0xffff_ffff_ffff_ffff
            * 0xffff_ffff_ffff_ffff) by (nonlinear_arith)
            requires
                count <= 0xffff_ffff_ffff_ffff,
                stack_size <= 0xffff_ffff_ffff_ffff,
        ;
        ThreadStacks { count, total_size_in_kibibyte: (count as u128) * (stack_size as u128) }
    }

    /// The mappings that lie within the addresses from `start` up to, not
    /// including, `end`, but for those that a core dump leaves out.
    pub fn pages_in_region(&self, start: u64, end: u64) -> (found: PMapVec)
        ensures
            found@ == in_region(self@, start, end),
    {
        let mut found: Vec<PMap> = Vec::new();
        let mut i: usize = 0;
        proof {
            reveal(Seq::filter);
            assert(self@.take(0) == Seq::<PMapView>::empty());
            assert(views(found@) == Seq::<PMapView>::empty());
        }
        while i < self.0.len()
            invariant
                i <= self.0@.len(),
                views(found@) == in_region(self@.take(i as int), start, end),
            decreases self.0@.len() - i,
        {
            proof {
                reveal(Seq::filter);
                assert(self@.take(i + 1).drop_last() == self@.take(i as int));
                assert(self@.take(i + 1).last() == self.0@[i as int]@);
            }
            if self.0[i].is_in_region(start, end) {
                let ghost before = views(found@);
                let page = self.0[i].clone();
                found.push(page);
                assert(views(found@) == before.push(page@));
            }
            i += 1;
        }
        assert(self@.take(i as int) == self@);
        PMapVec(found)
    }

    /// The addresses at which the mappings start, in order.
    pub fn addresses(&self) -> (addresses: Vec<u64>)
        ensures
            addresses@ == addresses_of(self@),
    {
        let mut addresses: Vec<u64> = Vec::new();
        let mut i: usize = 0;
        while i < self.0.len()
            invariant
                i <= self.0@.len(),
                addresses@ == addresses_of(self@.take(i as int)),
            decreases self.0@.len() - i,
        {
            let ghost before = addresses@;
            addresses.push(self.0[i].address);
            assert(addresses@ == addresses_of(self@.take(i + 1))) by {
                assert(self@.take(i + 1) == self@.take(i as int).push(self@[i as int]));
            }
            i += 1;
        }
        assert(self@.take(i as int) == self@);
        addresses
    }
}

/// A range never yields a mapping that a core dump leaves out, even where
/// the mapping lies within it; it yields every other mapping that lies
/// within it, and nothing else.
pub proof fn lemma_region_holds_what_is_within(pages: Seq<PMapView>, start: u64, end: u64)
    ensures
        forall|i: int|
            0 <= i < in_region(pages, start, end).len() ==> is_in_region(
                #[trigger] in_region(pages, start, end)[i],
                start,
                end,
            ),
        forall|i: int|
            0 <= i < in_region(pages, start, end).len() ==> !(#[trigger] in_region(
                pages,
                start,
                end,
            )[i]).virtual_memory_flags.contains(VirtualMemoryFlags::DoNotIncludeInCoreDump),
        forall|i: int|
            0 <= i < in_region(pages, start, end).len() ==> pages.contains(
                #[trigger] in_region(pages, start, end)[i],
            ),
        forall|i: int|
            0 <= i < pages.len() && is_in_region(#[trigger] pages[i], start, end) ==> in_region(
                pages,
                start,
                end,
            ).contains(pages[i]),
{
    let keep = |page: PMapView| is_in_region(page, start, end);
    let found = pages.filter(keep);
    assert forall|i: int| 0 <= i < found.len() implies is_in_region(
        #[trigger] found[i],
        start,
        end,
    ) && pages.contains(found[i]) by {
        pages.lemma_filter_pred(keep, i);
        pages.lemma_filter_contains_rev(keep, found[i]);
    }
    assert forall|i: int| 0 <= i < pages.len() && is_in_region(
        #[trigger] pages[i],
        start,
        end,
    ) implies found.contains(pages[i]) by {
        pages.lemma_filter_contains(keep, i);
    }
}

/// `s` without the marks that part the digits of an address into groups.
pub open spec fn without_group_marks(s: Seq<char>) -> Seq<char> {
    s.filter(|c: char| c != '`')
}

/// The address that `s` writes in base 16, once the marks between its
/// groups of digits are taken out; 0 where that is no number.
pub open spec fn address_of(s: Seq<char>) -> u64 {
    match number_of(without_group_marks(s), 16, u64::MAX as nat) {
        Some(address) => address as u64,
        None => 0,
    }
}

/// Reads `chars[from..to]` as an address.
fn read_address(chars: &[char], from: usize, to: usize) -> (address: u64)
    requires
        from <= to <= chars@.len(),
    ensures
        address == address_of(chars@.subrange(from as int, to as int)),
{
    let ghost s = chars@.subrange(from as int, to as int);
    let mut digits: Vec<char> = Vec::new();
    let mut i: usize = from;
    proof {
        reveal(Seq::filter);
        assert(s.take(0) == Seq::<char>::empty());
    }
    while i < to
        invariant
            from <= i <= to <= chars@.len(),
            s == chars@.subrange(from as int, to as int),
            digits@ == without_group_marks(s.take(i - from)),
        decreases to - i,
    {
        proof {
            reveal(Seq::filter);
            assert(s.take(i - from + 1).drop_last() == s.take(i - from));
        }
        if chars[i] != '`' {
            digits.push(chars[i]);
        }
        i += 1;
    }
    assert(s.take(to - from) == s);
    assert(digits@.subrange(0, digits@.len() as int) == digits@);
    match parse_number(digits.as_slice(), 0, digits.len(), 16, u64::MAX) {
        Some(address) => address,
        None => 0,
    }
}

/// Reads `hex_str` as an address in base 16, with or without marks between
/// its groups of digits. What is no number reads as 0.
pub fn parse_hex(hex_str: &str) -> (address: u64)
    ensures
        address == address_of(hex_str@),
{
    let chars = chars_of(hex_str);
    assert(chars@.subrange(0, chars@.len() as int) == hex_str@);
    read_address(chars.as_slice(), 0, chars.len())
}

/// The range of addresses that `line` names: two addresses with one comma
/// between them, each trimmed, the start first. A line with no comma or
/// with more than one names none.
pub open spec fn region_of(line: Seq<char>) -> Option<(u64, u64)> {
    let comma = index_of(line, ',', 0);
    if comma < line.len() && index_of(line, ',', comma + 1) == line.len() {
        Some((address_of(trim(line.take(comma))), address_of(trim(line.skip(comma + 1)))))
    } else {
        None
    }
}

/// Reads `chars[from..to]` as a range of addresses.
fn read_region(chars: &[char], from: usize, to: usize) -> (region: Option<(u64, u64)>)
    requires
        from <= to <= chars@.len(),
    ensures
        region == region_of(chars@.subrange(from as int, to as int)),
{
    let ghost line = chars@.subrange(from as int, to as int);
    let comma = find_char(chars, from, to, from, ',');
    if comma == to {
        return None;
    }
    let next = find_char(chars, from, to, comma + 1, ',');
    if next != to {
        return None;
    }
    let (a, b) = trim_range(chars, from, comma);
    let (c, d) = trim_range(chars, comma + 1, to);
    proof {
        assert(line.take(comma - from) == chars@.subrange(from as int, comma as int));
        assert(line.skip(comma - from + 1) == chars@.subrange(comma + 1, to as int));
    }
    Some((read_address(chars, a, b), read_address(chars, c, d)))
}

/// Reads `line` as a range of addresses.
pub fn parse_memory_region(line: &str) -> (region: Option<(u64, u64)>)
    ensures
        region == region_of(line@),
{
    let chars = chars_of(line);
    assert(chars@.subrange(0, chars@.len() as int) == line@);
    read_region(chars.as_slice(), 0, chars.len())
}

/// What a line of a list of ranges says.
#[derive(Debug, PartialEq, Eq)]
pub enum RegionLine {
    /// The range from the first address up to, not including, the second.
    Region(u64, u64),
    /// The line, trimmed, which names no range.
    Invalid(String),
}

/// What a [`RegionLine`] holds.
pub enum RegionLineView {
    Region(u64, u64),
    Invalid(Seq<char>),
}

impl View for RegionLine {
    type V = RegionLineView;

    open spec fn view(&self) -> RegionLineView {
        match self {
            RegionLine::Region(start, end) => RegionLineView::Region(*start, *end),
            RegionLine::Invalid(line) => RegionLineView::Invalid(line@),
        }
    }
}

/// What the line `line` says, once trimmed.
pub open spec fn region_line_of(line: Seq<char>) -> RegionLineView {
    match region_of(trim(line)) {
        Some((start, end)) => RegionLineView::Region(start, end),
        None => RegionLineView::Invalid(trim(line)),
    }
}

/// What the lines `lines` say, but for the blank ones, in order.
pub open spec fn region_lines_of(lines: Seq<Seq<char>>) -> Seq<RegionLineView>
    decreases lines.len(),
{
    if lines.len() == 0 {
        Seq::empty()
    } else if trim(lines.last()).len() == 0 {
        region_lines_of(lines.drop_last())
    } else {
        region_lines_of(lines.drop_last()).push(region_line_of(lines.last()))
    }
}

/// Reads a list of ranges of addresses, one in each line that is not
/// blank. A line that names no range is handed back as it stands, and the
/// lines behind it are read all the same.
pub fn parse_memory_regions(text: &str) -> (regions: Vec<RegionLine>)
    ensures
        views(regions@) == region_lines_of(lines(text@)),
{
    let chars = chars_of(text);
    let ghost s = chars@;
    let mut regions: Vec<RegionLine> = Vec::new();
    let mut pos: usize = 0;
    let ghost mut done: Seq<Seq<char>> = Seq::empty();
    assert(lines(s) == done + lines_from(s, 0));
    assert(views(regions@) == Seq::<RegionLineView>::empty());
    loop
        invariant
            s == chars@,
            s == text@,
            s == chars@.subrange(0, chars@.len() as int),
            pos <= s.len(),
            lines(s) == done + lines_from(s, pos as int),
            views(regions@) == region_lines_of(done),
        decreases s.len() - pos,
    {
        let end = find_char(chars.as_slice(), 0, chars.len(), pos, '\n');
        let ghost line = s.subrange(pos as int, end as int);
        let ghost before = views(regions@);
        let (a, b) = trim_range(chars.as_slice(), pos, end);
        proof {
            assert(done.push(line).drop_last() == done);
        }
        if a < b {
            let region = match read_region(chars.as_slice(), a, b) {
                Some((start, end)) => RegionLine::Region(start, end),
                None => RegionLine::Invalid(text_of(chars.as_slice(), a, b)),
            };
            regions.push(region);
            assert(views(regions@) == before.push(region@));
        }
        proof {
            done = done.push(line);
        }
        if end == chars.len() {
            assert(lines(s) == done);
            return regions;
        }
        pos = end + 1;
        assert(lines(s) == done + lines_from(s, pos as int));
    }
}

/// The addresses `addresses` as they stand between the braces of a set:
/// each in base 16 behind ` 0x` and before a comma.
pub open spec fn set_items(addresses: Seq<u64>) -> Seq<char>
    decreases addresses.len(),
{
    if addresses.len() == 0 {
        Seq::empty()
    } else {
        set_items(addresses.drop_last()) + " 0x"@ + hex_text(addresses.last()) + ","@
    }
}

/// The addresses `addresses` written as a set, in their order, each as
/// often as it occurs.
pub open spec fn set_text(addresses: Seq<u64>) -> Seq<char> {
    "{"@ + set_items(addresses) + " }"@
}

/// Writes `addresses` as a set.
pub fn set_literal(addresses: &Vec<u64>) -> (text: String)
    ensures
        text@ == set_text(addresses@),
{
    let mut text = String::from_str("{");
    let mut i: usize = 0;
    assert(addresses@.take(0) == Seq::<u64>::empty());
    while i < addresses.len()
        invariant
            i <= addresses@.len(),
            text@ == "{"@ + set_items(addresses@.take(i as int)),
        decreases addresses@.len() - i,
    {
        assert(addresses@.take(i + 1).drop_last() == addresses@.take(i as int));
        text.append(" 0x");
        push_hex(&mut text, addresses[i]);
        text.append(",");
        i += 1;
    }
    assert(addresses@.take(i as int) == addresses@);
    text.append(" }");
    text
}

} // verus!
