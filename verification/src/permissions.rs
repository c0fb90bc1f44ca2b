//! The permissions of a mapping, and their four characters in the dump.

use crate::error::ParseError;
use crate::error::ParseFailure;
use crate::flags::BitFlags;
use crate::flags::Flag;
use crate::format::MyDisplay;
use crate::format::MyFromStr;
use crate::text::chars_of;
use vstd::prelude::*;
use vstd::string::StringExecFns;

verus! {

/// What a process may do with a mapping.
#[derive(Copy, Clone, Debug, PartialEq, Eq, Structural)]
pub enum Permissions {
    /// `r`: the mapping may be read.
    Read,
    /// `w`: the mapping may be written.
    Write,
    /// `x`: the mapping may be executed.
    Execute,
    /// `p`: the mapping is private (copy on write).
    Private,
    /// `s`: the mapping is shared.
    Shared,
}

impl Flag for Permissions {
    open spec fn position(self) -> nat {
        match self {
            Permissions::Read => 0,
            Permissions::Write => 1,
            Permissions::Execute => 2,
            Permissions::Private => 3,
            Permissions::Shared => 4,
        }
    }

    fn bit(self) -> (b: u64) {
        match self {
            Permissions::Read => 0,
            Permissions::Write => 1,
            Permissions::Execute => 2,
            Permissions::Private => 3,
            Permissions::Shared => 4,
        }
    }

    proof fn lemma_position_is_injective(self, other: Self) {
    }
}

/// Whether `s` is a permission string: `r` or `-`, `w` or `-`, `x` or
/// `-`, then `p`, `s` or `-`.
pub open spec fn is_permission_text(s: Seq<char>) -> bool {
    &&& s.len() == 4
    &&& (s[0] == 'r' || s[0] == '-')
    &&& (s[1] == 'w' || s[1] == '-')
    &&& (s[2] == 'x' || s[2] == '-')
    &&& (s[3] == 'p' || s[3] == 's' || s[3] == '-')
}

/// The permissions that the permission string `s` grants.
pub open spec fn permissions_of(s: Seq<char>) -> Set<Permissions> {
    Set::new(
        |p: Permissions|
            match p {
                Permissions::Read => s[0] == 'r',
                Permissions::Write => s[1] == 'w',
                Permissions::Execute => s[2] == 'x',
                Permissions::Private => s[3] == 'p',
                Permissions::Shared => s[3] == 's',
            },
    )
}

/// The permission string of `set`. Of `Private` and `Shared` it can show
/// one: `Private` where the set holds both.
pub open spec fn permission_text(set: Set<Permissions>) -> Seq<char> {
    seq![
        if set.contains(Permissions::Read) {
            'r'
        } else {
            '-'
        },
        if set.contains(Permissions::Write) {
            'w'
        } else {
            '-'
        },
        if set.contains(Permissions::Execute) {
            'x'
        } else {
            '-'
        },
        if set.contains(Permissions::Private) {
            'p'
        } else if set.contains(Permissions::Shared) {
            's'
        } else {
            '-'
        },
    ]
}

impl MyFromStr for BitFlags<Permissions> {
    type Err = ParseError;

    /// Reads a permission string. Any other text is refused, and handed
    /// back in the error.
    fn from_str(s: &str) -> (r: Result<Self, ParseError>)
        ensures
            match r {
                Ok(set) => is_permission_text(s@) && set@ == permissions_of(s@),
                Err(e) => !is_permission_text(s@) && e@ == ParseFailure::InvalidPermissions(s@),
            },
    {
        let chars = chars_of(s);
        match read_permissions(&chars, 0, chars.len()) {
            Some(set) => {
                assert(chars@.subrange(0, chars@.len() as int) == s@);
                Ok(set)
            },
            None => {
                assert(chars@.subrange(0, chars@.len() as int) == s@);
                Err(ParseError::InvalidPermissions(String::from_str(s)))
            },
        }
    }
}

/// Reads `chars[from..to]` as a permission string.
pub fn read_permissions(chars: &[char], from: usize, to: usize) -> (r: Option<
    BitFlags<Permissions>,
>)
    requires
        from <= to <= chars@.len(),
    ensures
        match r {
            Some(set) => is_permission_text(chars@.subrange(from as int, to as int)) && set@
                == permissions_of(chars@.subrange(from as int, to as int)),
            None => !is_permission_text(chars@.subrange(from as int, to as int)),
        },
{
    let ghost s = chars@.subrange(from as int, to as int);
    if to - from != 4 {
        return None;
    }
    let mut set: BitFlags<Permissions> = BitFlags::empty();
    let read = chars[from];
    if read == 'r' {
        set.toggle(Permissions::Read);
    } else if read != '-' {
        return None;
    }
    let write = chars[from + 1];
    if write == 'w' {
        set.toggle(Permissions::Write);
    } else if write != '-' {
        return None;
    }
    let execute = chars[from + 2];
    if execute == 'x' {
        set.toggle(Permissions::Execute);
    } else if execute != '-' {
        return None;
    }
    let private_or_shared = chars[from + 3];
    if private_or_shared == 'p' {
        set.toggle(Permissions::Private);
    } else if private_or_shared == 's' {
        set.toggle(Permissions::Shared);
    } else if private_or_shared != '-' {
        return None;
    }
    assert(set@ =~= permissions_of(s));
    Some(set)
}

impl BitFlags<Permissions> {
    /// The permission string of the set.
    pub fn encode(&self) -> (text: String)
        ensures
            text@ == permission_text(self@),
    {
        let mut text = String::new();
        text.push(
            if self.contains(Permissions::Read) {
                'r'
            } else {
                '-'
            },
        );
        text.push(
            if self.contains(Permissions::Write) {
                'w'
            } else {
                '-'
            },
        );
        text.push(
            if self.contains(Permissions::Execute) {
                'x'
            } else {
                '-'
            },
        );
        text.push(
            if self.contains(Permissions::Private) {
                'p'
            } else if self.contains(Permissions::Shared) {
                's'
            } else {
                '-'
            },
        );
        assert(text@ =~= permission_text(self@));
        text
    }
}

/// A permission string, read and written down again, is the same string.
pub proof fn lemma_permission_text_round_trip(s: Seq<char>)
    requires
        is_permission_text(s),
    ensures
        permission_text(permissions_of(s)) == s,
        !(permissions_of(s).contains(Permissions::Private) && permissions_of(s).contains(
            Permissions::Shared,
        )),
{
    assert(permission_text(permissions_of(s)) =~= s);
}

/// A set of permissions that does not hold both `Private` and `Shared`,
/// written down and read again, is the same set.
pub proof fn lemma_permissions_round_trip(set: Set<Permissions>)
    requires
        !(set.contains(Permissions::Private) && set.contains(Permissions::Shared)),
    ensures
        is_permission_text(permission_text(set)),
        permissions_of(permission_text(set)) == set,
{
    assert(permissions_of(permission_text(set)) =~= set);
}

impl MyDisplay for BitFlags<Permissions> {
    /// `Read - `, `Write - ` and `Execute - ` for those of the three that
    /// the set holds, then `Private`, or else `Share` for `Shared`.
    open spec fn display_text(&self) -> Seq<char> {
        (if self@.contains(Permissions::Read) {
            "Read - "@
        } else {
            Seq::empty()
        }) + (if self@.contains(Permissions::Write) {
            "Write - "@
        } else {
            Seq::empty()
        }) + (if self@.contains(Permissions::Execute) {
            "Execute - "@
        } else {
            Seq::empty()
        }) + (if self@.contains(Permissions::Private) {
            "Private"@
        } else if self@.contains(Permissions::Shared) {
            "Share"@
        } else {
            Seq::empty()
        })
    }

    fn my_display(&self) -> (text: String) {
        let mut text = String::new();
        if self.contains(Permissions::Read) {
            text.append("Read - ");
        }
        if self.contains(Permissions::Write) {
            text.append("Write - ");
        }
        if self.contains(Permissions::Execute) {
            text.append("Execute - ");
        }
        if self.contains(Permissions::Private) {
            text.append("Private");
        } else if self.contains(Permissions::Shared) {
            text.append("Share");
        }
        assert(text@ =~= self.display_text());
        text
    }
}

} // verus!
