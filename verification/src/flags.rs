//! Sets of flags, held as one bit for each flag.

use core::marker::PhantomData;
use vstd::prelude::*;

verus! {

/// A flag that has a bit of its own among 64.
pub trait Flag: Copy + Sized {
    /// The position of the flag's bit.
    spec fn position(self) -> nat;

    /// Computes [`Flag::position`].
    fn bit(self) -> (b: u64)
        ensures
            b < 64,
            b == self.position(),
    ;

    /// No two flags share a bit.
    proof fn lemma_position_is_injective(self, other: Self)
        ensures
            self.position() == other.position() ==> self == other,
    ;
}

/// Whether bit `i` of `bits` is set.
pub open spec fn bit_is_set(bits: u64, i: nat) -> bool {
    i < 64 && (bits >> (i as u64)) & 1 == 1
}

/// `set` with `flag` taken out where `set` holds it, and put in where not.
pub open spec fn toggle<T>(set: Set<T>, flag: T) -> Set<T> {
    if set.contains(flag) {
        set.remove(flag)
    } else {
        set.insert(flag)
    }
}

/// The set that is left when each flag of `flags` in turn is toggled in
/// the empty set.
pub open spec fn toggled<T>(flags: Seq<T>) -> Set<T>
    decreases flags.len(),
{
    if flags.len() == 0 {
        Set::empty()
    } else {
        toggle(toggled(flags.drop_last()), flags.last())
    }
}

/// How often `flag` occurs in `flags`.
pub open spec fn occurrences<T>(flags: Seq<T>, flag: T) -> nat
    decreases flags.len(),
{
    if flags.len() == 0 {
        0
    } else if flags.last() == flag {
        occurrences(flags.drop_last(), flag) + 1
    } else {
        occurrences(flags.drop_last(), flag)
    }
}

/// Toggling leaves just the flags that occur an odd number of times: a
/// flag that is named twice is out again.
pub proof fn lemma_toggled_holds_the_odd<T>(flags: Seq<T>, flag: T)
    ensures
        toggled(flags).contains(flag) <==> occurrences(flags, flag) % 2 == 1,
    decreases flags.len(),
{
    if flags.len() > 0 {
        lemma_toggled_holds_the_odd(flags.drop_last(), flag);
    }
}

/// Where no flag is named twice, toggling leaves just the flags that are
/// named.
pub proof fn lemma_toggled_of_distinct<T>(flags: Seq<T>)
    requires
        flags.no_duplicates(),
    ensures
        toggled(flags) == flags.to_set(),
    decreases flags.len(),
{
    if flags.len() > 0 {
        let head = flags.drop_last();
        assert(head.no_duplicates());
        lemma_toggled_of_distinct(head);
        assert(!head.contains(flags.last())) by {
            if head.contains(flags.last()) {
                let i = choose|i: int| 0 <= i < head.len() && head[i] == flags.last();
                assert(flags[i] == flags[flags.len() - 1]);
            }
        }
        assert forall|flag: T| toggled(flags).contains(flag) == flags.contains(flag) by {
            if flags.contains(flag) {
                let i = choose|i: int| 0 <= i < flags.len() && flags[i] == flag;
                if i < head.len() {
                    assert(head[i] == flag);
                }
            }
            if head.contains(flag) {
                let i = choose|i: int| 0 <= i < head.len() && head[i] == flag;
                assert(flags[i] == flag);
            }
            if flag == flags.last() {
                assert(flags[flags.len() - 1] == flag);
            }
        }
        assert(toggled(flags) =~= flags.to_set());
    } else {
        assert(toggled(flags) =~= flags.to_set());
    }
}

/// A set of flags of the type `T`.
#[derive(Copy, Debug, PartialEq, Eq)]
pub struct BitFlags<T> {
    bits: u64,
    kind: PhantomData<T>,
}

impl<T: Copy> Clone for BitFlags<T> {
    fn clone(&self) -> (copy: Self)
        ensures
            copy == *self,
    {
        BitFlags { bits: self.bits, kind: PhantomData }
    }
}

impl<T: Flag> View for BitFlags<T> {
    type V = Set<T>;

    /// The flags that the set contains.
    closed spec fn view(&self) -> Set<T> {
        Set::new(|flag: T| bit_is_set(self.bits, flag.position()))
    }
}

impl<T: Flag> Default for BitFlags<T> {
    /// The set without any flag.
    fn default() -> (set: Self)
        ensures
            set@ == Set::<T>::empty(),
    {
        BitFlags::empty()
    }
}

impl<T: Flag> BitFlags<T> {
    /// The set without any flag.
    pub fn empty() -> (set: Self)
        ensures
            set@ == Set::<T>::empty(),
    {
        assert(forall|j: u64| j < 64 ==> (0u64 >> j) & 1 != 1) by (bit_vector);
        let set = BitFlags { bits: 0, kind: PhantomData };
        assert(set@ =~= Set::<T>::empty());
        set
    }

    /// The set of `flag` alone.
    pub fn from_flag(flag: T) -> (set: Self)
        ensures
            set@ == Set::<T>::empty().insert(flag),
    {
        let mut set = BitFlags::empty();
        set.toggle(flag);
        set
    }

    /// Whether the set contains `flag`.
    pub fn contains(&self, flag: T) -> (b: bool)
        ensures
            b == self@.contains(flag),
    {
        (self.bits >> flag.bit()) & 1 == 1
    }

    /// Takes `flag` out of the set where the set contains it, and puts it
    /// in where not.
    pub fn toggle(&mut self, flag: T)
        ensures
            final(self)@ == toggle(old(self)@, flag),
    {
        let i = flag.bit();
        let ghost before = self.bits;
        self.bits = self.bits ^ (1u64 << i);
        proof {
            let after = self.bits;
            assert(forall|j: u64|
                j < 64 ==> (((before ^ (1u64 << i)) >> j) & 1 == 1) == (((before >> j) & 1 == 1)
                    != (i == j))) by (bit_vector)
                requires
                    i < 64,
            ;
            assert forall|other: T|
                bit_is_set(after, other.position()) == (bit_is_set(before, other.position()) != (
                other == flag)) by {
                flag.lemma_position_is_injective(other);
            }
            assert(self@ =~= toggle(old(self)@, flag));
        }
    }

    /// Puts `flag` into the set.
    pub fn insert(&mut self, flag: T)
        ensures
            final(self)@ == old(self)@.insert(flag),
    {
        if !self.contains(flag) {
            self.toggle(flag);
        }
        assert(self@ =~= old(self)@.insert(flag));
    }
}

} // verus!
