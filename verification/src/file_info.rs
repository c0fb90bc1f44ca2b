//! A file, known by its path.

use crate::text::chars_of;
use crate::text::text_of;
use vstd::prelude::*;
use vstd::string::StringExecFns;

verus! {

/// The index at which the last component of `path` starts: behind its last
/// `/`, or at 0.
pub open spec fn component_start(path: Seq<char>) -> int
    decreases path.len(),
{
    if path.len() == 0 || path.last() == '/' {
        path.len() as int
    } else {
        component_start(path.drop_last())
    }
}

/// The name of the file at `path`: the last component of the path that is
/// not `.`, where `/` parts the components and empty ones do not count.
/// Empty where there is none or where it is `..`.
pub open spec fn file_name_of(path: Seq<char>) -> Seq<char>
    decreases path.len(),
{
    if path.len() == 0 {
        Seq::empty()
    } else if path.last() == '/' {
        file_name_of(path.drop_last())
    } else {
        let start = component_start(path);
        let component = path.skip(start);
        if component == seq!['.'] {
            if 0 <= start < path.len() {
                file_name_of(path.take(start))
            } else {
                Seq::empty()
            }
        } else if component == seq!['.', '.'] {
            Seq::empty()
        } else {
            component
        }
    }
}

pub proof fn lemma_component_start_bounds(path: Seq<char>)
    ensures
        0 <= component_start(path) <= path.len(),
        path.len() > 0 && path.last() != '/' ==> component_start(path) < path.len(),
    decreases path.len(),
{
    if path.len() > 0 && path.last() != '/' {
        lemma_component_start_bounds(path.drop_last());
    }
}

/// A file, known by its path.
#[derive(Debug, PartialEq, Eq)]
pub struct FileInfo {
    path: String,
}

impl View for FileInfo {
    type V = Seq<char>;

    /// The file's path.
    closed spec fn view(&self) -> Seq<char> {
        self.path@
    }
}

impl FileInfo {
    /// The file at `path`.
    pub fn new(path: &str) -> (file: Self)
        ensures
            file@ == path@,
    {
        FileInfo { path: String::from_str(path) }
    }

    /// The file's path.
    pub fn full_name(&self) -> (path: String)
        ensures
            path@ == self@,
    {
        self.path.clone()
    }

    /// The file's name: the last component of its path.
    pub fn name(&self) -> (name: String)
        ensures
            name@ == file_name_of(self@),
    {
        let chars = chars_of(self.path.as_str());
        let mut end: usize = chars.len();
        assert(chars@.take(end as int) == chars@);
        loop
            invariant
                end <= chars@.len(),
                chars@ == self@,
                file_name_of(chars@) == file_name_of(chars@.take(end as int)),
            decreases end,
        {
            let ghost path = chars@.take(end as int);
            if end == 0 {
                return String::new();
            }
            if chars[end - 1] == '/' {
                assert(path.drop_last() == chars@.take(end - 1));
                end -= 1;
                continue ;
            }
            let mut start: usize = end - 1;
            assert(path.drop_last() == chars@.take(end - 1));
            while start > 0 && chars[start - 1] != '/'
                invariant
                    start < end <= chars@.len(),
                    path == chars@.take(end as int),
                    component_start(path) == component_start(chars@.take(start as int)),
                decreases start,
            {
                assert(chars@.take(start as int).drop_last() == chars@.take(start - 1));
                start -= 1;
            }
            proof {
                lemma_component_start_bounds(path);
                assert(path.skip(start as int) == chars@.subrange(start as int, end as int));
                assert(path.take(start as int) == chars@.take(start as int));
            }
            if end - start == 1 && chars[start] == '.' {
                assert(path.skip(start as int) == seq!['.']);
                end = start;
                continue ;
            }
            if end - start == 2 && chars[start] == '.' && chars[start + 1] == '.' {
                assert(path.skip(start as int) == seq!['.', '.']);
                return String::new();
            }
            proof {
                let component = path.skip(start as int);
                if component == seq!['.'] {
                    assert(component.len() == 1 && component[0] == '.');
                }
                if component == seq!['.', '.'] {
                    assert(component.len() == 2 && component[0] == '.' && component[1] == '.');
                }
            }
            return text_of(chars.as_slice(), start, end);
        }
    }
}

} // verus!
