//! What backs a mapping, as the last column of the dump tells it.

use crate::error::ParseError;
use crate::error::ParseFailure;
use crate::file_info::file_name_of;
use crate::file_info::FileInfo;
use crate::format::MyDisplay;
use crate::text::chars_of;
use crate::text::range_is;
use crate::text::strip_text;
use crate::text::text_of;
use crate::text::trim;
use crate::text::trim_range;
use vstd::prelude::*;
use vstd::string::StringExecFns;

verus! {

/// What backs a mapping.
#[derive(Debug, PartialEq, Eq)]
pub enum MappingKind {
    /// `[heap]`
    Heap,
    /// `[stack]`
    Stack,
    /// `[vdso]`
    VirtualDynamicSharedObject,
    /// `[vvar]`
    VirtualVariables,
    /// `[vsyscall]`
    VirtualSystemCall,
    /// `[anon:<name>]`, or nothing at all
    AnonymousPrivate(Option<String>),
    /// `[anon_shmem:<name>]`
    AnonymousShared(Option<String>),
    /// The path of a file, or what stands in its place
    File(FileInfo),
}

/// What a [`MappingKind`] holds.
pub enum MappingKindView {
    Heap,
    Stack,
    VirtualDynamicSharedObject,
    VirtualVariables,
    VirtualSystemCall,
    AnonymousPrivate(Option<Seq<char>>),
    AnonymousShared(Option<Seq<char>>),
    File(Seq<char>),
}

/// The name of an anonymous mapping: none where the text is empty.
pub open spec fn name_of(text: Seq<char>) -> Option<Seq<char>> {
    if text.len() == 0 {
        None
    } else {
        Some(text)
    }
}

/// The kind of mapping that the descriptor `text` tells, once trimmed:
/// nothing is an anonymous private mapping without a name; a text in square
/// brackets is one of the five fixed kinds or an anonymous mapping, private
/// after `anon:` and shared after `anon_shmem:`, with what follows as its
/// name, and anything else in brackets fails; any other text is a file.
pub open spec fn mapping_kind_of(text: Seq<char>) -> Result<MappingKindView, ParseFailure> {
    let s = trim(text);
    if s.len() > 0 && s.first() == '[' && s.last() == ']' {
        let inner = s.subrange(1, s.len() - 1);
        if inner == "heap"@ {
            Ok(MappingKindView::Heap)
        } else if inner == "stack"@ {
            Ok(MappingKindView::Stack)
        } else if inner == "vdso"@ {
            Ok(MappingKindView::VirtualDynamicSharedObject)
        } else if inner == "vvar"@ {
            Ok(MappingKindView::VirtualVariables)
        } else if inner == "vsyscall"@ {
            Ok(MappingKindView::VirtualSystemCall)
        } else if "anon_shmem:"@.is_prefix_of(inner) {
            Ok(MappingKindView::AnonymousShared(name_of(inner.skip("anon_shmem:"@.len() as int))))
        } else if "anon:"@.is_prefix_of(inner) {
            Ok(MappingKindView::AnonymousPrivate(name_of(inner.skip("anon:"@.len() as int))))
        } else {
            Err(ParseFailure::InvalidMappingKind(s))
        }
    } else if s.len() == 0 {
        Ok(MappingKindView::AnonymousPrivate(None))
    } else {
        Ok(MappingKindView::File(s))
    }
}

impl View for MappingKind {
    type V = MappingKindView;

    open spec fn view(&self) -> MappingKindView {
        match self {
            MappingKind::Heap => MappingKindView::Heap,
            MappingKind::Stack => MappingKindView::Stack,
            MappingKind::VirtualDynamicSharedObject => MappingKindView::VirtualDynamicSharedObject,
            MappingKind::VirtualVariables => MappingKindView::VirtualVariables,
            MappingKind::VirtualSystemCall => MappingKindView::VirtualSystemCall,
            MappingKind::AnonymousPrivate(None) => MappingKindView::AnonymousPrivate(None),
            MappingKind::AnonymousPrivate(Some(name)) => MappingKindView::AnonymousPrivate(
                Some(name@),
            ),
            MappingKind::AnonymousShared(None) => MappingKindView::AnonymousShared(None),
            MappingKind::AnonymousShared(Some(name)) => MappingKindView::AnonymousShared(
                Some(name@),
            ),
            MappingKind::File(file) => MappingKindView::File(file@),
        }
    }
}

impl Clone for MappingKind {
    fn clone(&self) -> (copy: Self)
        ensures
            copy@ == self@,
    {
        match self {
            MappingKind::Heap => MappingKind::Heap,
            MappingKind::Stack => MappingKind::Stack,
            MappingKind::VirtualDynamicSharedObject => MappingKind::VirtualDynamicSharedObject,
            MappingKind::VirtualVariables => MappingKind::VirtualVariables,
            MappingKind::VirtualSystemCall => MappingKind::VirtualSystemCall,
            MappingKind::AnonymousPrivate(None) => MappingKind::AnonymousPrivate(None),
            MappingKind::AnonymousPrivate(Some(name)) => MappingKind::AnonymousPrivate(
                Some(name.clone()),
            ),
            MappingKind::AnonymousShared(None) => MappingKind::AnonymousShared(None),
            MappingKind::AnonymousShared(Some(name)) => MappingKind::AnonymousShared(
                Some(name.clone()),
            ),
            MappingKind::File(file) => MappingKind::File(FileInfo::new(file.full_name().as_str())),
        }
    }
}

/// The name of an anonymous mapping in `chars[from..to]`.
fn read_name(chars: &[char], from: usize, to: usize) -> (name: Option<String>)
    requires
        from <= to <= chars@.len(),
    ensures
        match name {
            Some(text) => name_of(chars@.subrange(from as int, to as int)) == Some(text@),
            None => name_of(chars@.subrange(from as int, to as int)) is None,
        },
{
    if from == to {
        None
    } else {
        Some(text_of(chars, from, to))
    }
}

/// Reads `chars[from..to]` as the descriptor of a mapping.
pub fn read_mapping_kind(chars: &[char], from: usize, to: usize) -> (r: Result<
    MappingKind,
    ParseError,
>)
    requires
        from <= to <= chars@.len(),
    ensures
        match r {
            Ok(kind) => mapping_kind_of(chars@.subrange(from as int, to as int)) == Ok::<
                MappingKindView,
                ParseFailure,
            >(kind@),
            Err(e) => mapping_kind_of(chars@.subrange(from as int, to as int)) == Err::<
                MappingKindView,
                ParseFailure,
            >(e@),
        },
{
    let (a, b) = trim_range(chars, from, to);
    let ghost s = chars@.subrange(a as int, b as int);
    if a < b && chars[a] == '[' && chars[b - 1] == ']' {
        let ghost inner = s.subrange(1, s.len() - 1);
        assert(inner == chars@.subrange(a + 1, b - 1));
        if range_is(chars, a + 1, b - 1, "heap") {
            Ok(MappingKind::Heap)
        } else if range_is(chars, a + 1, b - 1, "stack") {
            Ok(MappingKind::Stack)
        } else if range_is(chars, a + 1, b - 1, "vdso") {
            Ok(MappingKind::VirtualDynamicSharedObject)
        } else if range_is(chars, a + 1, b - 1, "vvar") {
            Ok(MappingKind::VirtualVariables)
        } else if range_is(chars, a + 1, b - 1, "vsyscall") {
            Ok(MappingKind::VirtualSystemCall)
        } else if let Some(start) = strip_text(chars, a + 1, b - 1, "anon_shmem:") {
            assert(inner.skip("anon_shmem:"@.len() as int) == chars@.subrange(
                start as int,
                b - 1,
            ));
            Ok(MappingKind::AnonymousShared(read_name(chars, start, b - 1)))
        } else if let Some(start) = strip_text(chars, a + 1, b - 1, "anon:") {
            assert(inner.skip("anon:"@.len() as int) == chars@.subrange(start as int, b - 1));
            Ok(MappingKind::AnonymousPrivate(read_name(chars, start, b - 1)))
        } else {
            Err(ParseError::InvalidMappingKind(text_of(chars, a, b)))
        }
    } else if a == b {
        Ok(MappingKind::AnonymousPrivate(None))
    } else {
        Ok(MappingKind::File(FileInfo::new(text_of(chars, a, b).as_str())))
    }
}

impl core::str::FromStr for MappingKind {
    type Err = ParseError;

    /// Reads the descriptor of a mapping.
    fn from_str(s: &str) -> (r: Result<Self, ParseError>)
        ensures
            match r {
                Ok(kind) => mapping_kind_of(s@) == Ok::<MappingKindView, ParseFailure>(kind@),
                Err(e) => mapping_kind_of(s@) == Err::<MappingKindView, ParseFailure>(e@),
            },
    {
        let chars = chars_of(s);
        assert(chars@.subrange(0, chars@.len() as int) == s@);
        read_mapping_kind(chars.as_slice(), 0, chars.len())
    }
}

impl MappingKindView {
    /// The kind of mapping for a reader.
    pub open spec fn display_text(self) -> Seq<char> {
        match self {
            MappingKindView::Heap => "Heap"@,
            MappingKindView::Stack => "Stack"@,
            MappingKindView::VirtualDynamicSharedObject => "Virtual Dynamic Shared Object"@,
            MappingKindView::VirtualVariables => "Virtual Variables"@,
            MappingKindView::VirtualSystemCall => "Virtual System Call"@,
            MappingKindView::AnonymousPrivate(None) => "Anonymous Private"@,
            MappingKindView::AnonymousPrivate(Some(name)) => "Anonymous Private ("@ + name + ")"@,
            MappingKindView::AnonymousShared(None) => "Anonymous Shared"@,
            MappingKindView::AnonymousShared(Some(name)) => "Anonymous Shared ("@ + name + ")"@,
            MappingKindView::File(path) => file_name_of(path),
        }
    }
}

impl MyDisplay for MappingKind {
    /// The name of a fixed kind, an anonymous kind with the mapping's name
    /// in brackets where it has one, and of a file its name without the
    /// directories.
    open spec fn display_text(&self) -> Seq<char> {
        self@.display_text()
    }

    fn my_display(&self) -> (text: String) {
        match self {
            MappingKind::Heap => String::from_str("Heap"),
            MappingKind::Stack => String::from_str("Stack"),
            MappingKind::VirtualDynamicSharedObject => String::from_str(
                "Virtual Dynamic Shared Object",
            ),
            MappingKind::VirtualVariables => String::from_str("Virtual Variables"),
            MappingKind::VirtualSystemCall => String::from_str("Virtual System Call"),
            MappingKind::AnonymousPrivate(None) => String::from_str("Anonymous Private"),
            MappingKind::AnonymousPrivate(Some(name)) => String::from_str(
                "Anonymous Private (",
            ).concat(name.as_str()).concat(")"),
            MappingKind::AnonymousShared(None) => String::from_str("Anonymous Shared"),
            MappingKind::AnonymousShared(Some(name)) => String::from_str(
                "Anonymous Shared (",
            ).concat(name.as_str()).concat(")"),
            MappingKind::File(file) => file.name(),
        }
    }
}

} // verus!
