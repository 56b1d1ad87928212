//! A sequence of at most `C` elements with no spillover.
use crate::drain::{drain_live, range_end, range_start, range_valid, Drain, DrainRange, Drainable};
use crate::elements::{elements_eq, same_elements, vec_from_array};
use crate::errors::BankFullError;
use vstd::prelude::*;
use vstd::std_specs::cmp::{PartialEqSpec, PartialEqSpecImpl};
use vstd::std_specs::convert::FromSpecImpl;

verus! {

/// A sequence that holds at most `C` elements, with `push` / `pop`
/// semantics and no growth beyond `C`.
#[derive(Debug)]
pub struct BankArr<T, const C: usize> {
    data: Vec<T>,
}

impl<T, const C: usize> View for BankArr<T, C> {
    type V = Seq<T>;

    closed spec fn view(&self) -> Seq<T> {
        self.data@
    }
}

impl<T, const C: usize> BankArr<T, C> {
    /// The invariant: at most `C` elements.
    pub closed spec fn well_formed(&self) -> bool {
        self.data@.len() <= C
    }

    /// An empty bank.
    pub fn new() -> (r: Self)
        ensures
            r.well_formed(),
            r@ == Seq::<T>::empty(),
    {
        BankArr { data: Vec::with_capacity(C) }
    }

    /// A bank that holds the elements of `vec`, which must fit.
    pub fn from_vec(vec: Vec<T>) -> (r: Self)
        requires
            vec@.len() <= C,
        ensures
            r.well_formed(),
            r@ == vec@,
    {
        let mut data = Vec::with_capacity(C);
        let mut vec = vec;
        data.append(&mut vec);
        BankArr { data }
    }

    /// A bank that holds the elements of `arr`, which must fit.
    pub fn from_array<const N: usize>(arr: [T; N]) -> (r: Self)
        requires
            N <= C,
        ensures
            r.well_formed(),
            r@ == arr@,
    {
        Self::from_vec(vec_from_array(arr))
    }

    /// The elements, in order, as a vector.
    pub fn into_vec(self) -> (r: Vec<T>)
        ensures
            r@ == self@,
    {
        self.data
    }

    /// The number of elements.
    pub fn len(&self) -> (r: usize)
        ensures
            r == self@.len(),
    {
        self.data.len()
    }

    /// How many more elements fit.
    pub fn remaining_capacity(&self) -> (r: usize)
        requires
            self.well_formed(),
        ensures
            r == C - self@.len(),
    {
        C - self.data.len()
    }

    /// Appends `value`; the bank must not be full.
    pub fn push(&mut self, value: T)
        requires
            old(self).well_formed(),
            old(self)@.len() < C,
        ensures
            final(self).well_formed(),
            final(self)@ == old(self)@.push(value),
    {
        self.push_unchecked(value)
    }

    /// Appends `value` where there is room; a full bank is left as it is.
    pub fn try_push(&mut self, value: T) -> (r: Result<(), BankFullError>)
        requires
            old(self).well_formed(),
        ensures
            final(self).well_formed(),
            r is Err <==> old(self)@.len() == C,
            r is Ok ==> final(self)@ == old(self)@.push(value),
            r is Err ==> final(self)@ == old(self)@,
    {
        if self.data.len() == C {
            return Err(BankFullError {  });
        }
        self.push_unchecked(value);
        Ok(())
    }

    /// Appends `value`; the caller has made sure the bank is not full.
    pub fn push_unchecked(&mut self, value: T)
        requires
            old(self).well_formed(),
            old(self)@.len() < C,
        ensures
            final(self).well_formed(),
            final(self)@ == old(self)@.push(value),
    {
        self.data.push(value);
    }

    /// Removes and returns the last element, or `None` when empty.
    pub fn pop(&mut self) -> (r: Option<T>)
        requires
            old(self).well_formed(),
        ensures
            final(self).well_formed(),
            old(self)@.len() == 0 ==> r is None && final(self)@ == old(self)@,
            old(self)@.len() > 0 ==> r == Some(old(self)@.last()) && final(self)@ == old(
                self,
            )@.drop_last(),
    {
        self.data.pop()
    }

    /// Puts `element` at `index`, shifting the elements from there one place
    /// to the right. A full bank is left as it is and `false` comes back.
    pub fn insert(&mut self, index: usize, element: T) -> (r: bool)
        requires
            old(self).well_formed(),
            index <= old(self)@.len(),
        ensures
            final(self).well_formed(),
            r == (old(self)@.len() < C),
            r ==> final(self)@ == old(self)@.insert(index as int, element),
            !r ==> final(self)@ == old(self)@,
    {
        if self.data.len() == C {
            return false;
        }
        self.data.insert(index, element);
        true
    }

    /// Removes and returns the element at `index`, shifting the rest one
    /// place to the left.
    pub fn remove(&mut self, index: usize) -> (r: T)
        requires
            old(self).well_formed(),
            index < old(self)@.len(),
        ensures
            final(self).well_formed(),
            r == old(self)@[index as int],
            final(self)@ == old(self)@.remove(index as int),
    {
        self.data.remove(index)
    }

    /// Removes and returns the element at `index`; the last element takes
    /// its place.
    pub fn swap_remove(&mut self, index: usize) -> (r: T)
        requires
            old(self).well_formed(),
            index < old(self)@.len(),
        ensures
            final(self).well_formed(),
            r == old(self)@[index as int],
            final(self)@ == old(self)@.update(index as int, old(self)@.last()).drop_last(),
    {
        self.data.swap_remove(index)
    }

    /// Takes the elements at the positions of `range` out, closes the gap,
    /// and hands the taken elements out in order.
    pub fn drain(&mut self, range: DrainRange) -> (r: Drain<T>)
        requires
            old(self).well_formed(),
            range_valid(range, old(self)@.len() as int),
        ensures
            final(self).well_formed(),
            final(self)@ == old(self)@.subrange(0, range_start(range)) + old(self)@.subrange(
                range_end(range, old(self)@.len() as int),
                old(self)@.len() as int,
            ),
            r@ == old(self)@.subrange(range_start(range), range_end(range, old(self)@.len() as int)),
    {
        drain_live(self, &range)
    }

    /// The elements, in order.
    pub fn as_slice(&self) -> (r: &[T])
        ensures
            r@ == self@,
    {
        self.data.as_slice()
    }

    /// The elements, in order, for writing in place.
    pub fn as_mut_slice(&mut self) -> (r: &mut [T])
        ensures
            r@ == old(self)@,
            final(self)@ == final(r)@,
    {
        self.data.as_mut_slice()
    }

    /// Keeps the first `len` elements and drops the rest; a longer `len`
    /// leaves the bank as it is.
    pub fn truncate(&mut self, len: usize)
        requires
            old(self).well_formed(),
        ensures
            final(self).well_formed(),
            len <= old(self)@.len() ==> final(self)@ == old(self)@.subrange(0, len as int),
            len > old(self)@.len() ==> final(self)@ == old(self)@,
    {
        self.data.truncate(len)
    }

    /// Drops every element.
    pub fn clear(&mut self)
        requires
            old(self).well_formed(),
        ensures
            final(self).well_formed(),
            final(self)@ == Seq::<T>::empty(),
    {
        self.truncate(0);
        proof {
            assert(self@ =~= Seq::<T>::empty());
        }
    }

    /// Appends the elements of `items` in order; they must fit.
    pub fn extend(&mut self, items: Vec<T>)
        requires
            old(self).well_formed(),
            old(self)@.len() + items@.len() <= C,
        ensures
            final(self).well_formed(),
            final(self)@ == old(self)@ + items@,
    {
        let mut items = items;
        self.data.append(&mut items);
    }
}

/// The first position at which `s` holds an element equal to `value`, or
/// the length of `s` where there is none.
pub open spec fn first_match<T: PartialEq>(s: Seq<T>, value: T) -> int
    decreases s.len(),
{
    if s.len() == 0 {
        0
    } else if s[0].eq_spec(&value) {
        0
    } else {
        1 + first_match(s.subrange(1, s.len() as int), value)
    }
}

proof fn lemma_first_match<T: PartialEq>(s: Seq<T>, value: T)
    ensures
        0 <= first_match(s, value) <= s.len(),
        first_match(s, value) < s.len() ==> s[first_match(s, value)].eq_spec(&value),
        forall|j: int| 0 <= j < first_match(s, value) ==> !(#[trigger] s[j]).eq_spec(&value),
    decreases s.len(),
{
    if s.len() > 0 && !s[0].eq_spec(&value) {
        let t = s.subrange(1, s.len() as int);
        lemma_first_match(t, value);
        assert forall|j: int| 0 <= j < first_match(s, value) implies !(#[trigger] s[j]).eq_spec(
            &value,
        ) by {
            if j > 0 {
                assert(s[j] == t[j - 1]);
            }
        }
    }
}

impl<T: PartialEq, const C: usize> BankArr<T, C> {
    /// Removes the first element equal to `value`, putting the last element
    /// in its place; `false` when no element is equal to it.
    pub fn remove_item(&mut self, value: &T) -> (r: bool)
        requires
            old(self).well_formed(),
        ensures
            final(self).well_formed(),
            <T as PartialEqSpec>::obeys_eq_spec() ==> ({
                let i = first_match(old(self)@, *value);
                &&& r == (i < old(self)@.len())
                &&& r ==> final(self)@ == old(self)@.update(i, old(self)@.last()).drop_last()
                &&& !r ==> final(self)@ == old(self)@
            }),
    {
        proof {
            lemma_first_match(self@, *value);
        }
        let mut index: usize = 0;
        while index < self.data.len()
            invariant
                self.well_formed(),
                self@ == old(self)@,
                index <= self@.len(),
                <T as PartialEqSpec>::obeys_eq_spec() ==> index <= first_match(self@, *value),
            decreases self@.len() - index,
        {
            proof {
                lemma_first_match(self@, *value);
            }
            if self.data[index] == *value {
                self.data.swap_remove(index);
                return true;
            }
            index = index + 1;
        }
        proof {
            lemma_first_match(self@, *value);
        }
        false
    }
}

impl<T, const C: usize> From<BankArr<T, C>> for Vec<T> {
    /// The elements of `bank`, in order.
    fn from(bank: BankArr<T, C>) -> (r: Vec<T>)
        ensures
            r@ == bank@,
    {
        bank.into_vec()
    }
}

impl<T, const C: usize> FromSpecImpl<BankArr<T, C>> for Vec<T> {
    open spec fn obeys_from_spec() -> bool {
        false
    }

    open spec fn from_spec(v: BankArr<T, C>) -> Vec<T> {
        arbitrary()
    }
}

impl<T: Clone, const C: usize> Clone for BankArr<T, C> {
    /// An independent copy: each element cloned.
    fn clone(&self) -> (r: Self)
        ensures
            r@.len() == self@.len(),
            forall|i: int| 0 <= i < self@.len() ==> cloned::<T>(self@[i], #[trigger] r@[i]),
            self.well_formed() ==> r.well_formed(),
    {
        BankArr { data: self.data.clone() }
    }
}

impl<T, const C: usize> core::ops::Deref for BankArr<T, C> {
    type Target = [T];

    fn deref(&self) -> (r: &[T])
        ensures
            r@ == self@,
    {
        self.data.as_slice()
    }
}

impl<T, const C: usize> core::ops::DerefMut for BankArr<T, C> {
    fn deref_mut(&mut self) -> (r: &mut [T])
        ensures
            r@ == old(self)@,
            final(self)@ == final(r)@,
    {
        self.data.as_mut_slice()
    }
}

impl<T, const C: usize> Drainable<T> for BankArr<T, C> {
    closed spec fn live(&self) -> Seq<T> {
        self.data@
    }

    closed spec fn room(&self) -> nat {
        C as nat
    }

    closed spec fn drain_ready(&self) -> bool {
        self.well_formed()
    }

    fn live_len(&self) -> (n: usize) {
        self.data.len()
    }

    fn detach_from(&mut self, at: usize) -> (tail: Vec<T>) {
        self.data.split_off(at)
    }

    fn reattach(&mut self, tail: Vec<T>) {
        let mut tail = tail;
        self.data.append(&mut tail);
    }
}

impl<T: PartialEq, const C: usize> PartialEq for BankArr<T, C> {
    fn eq(&self, other: &Self) -> (r: bool) {
        elements_eq(self.data.as_slice(), other.as_slice())
    }
}

impl<T: PartialEq, const C: usize> PartialEqSpecImpl for BankArr<T, C> {
    open spec fn obeys_eq_spec() -> bool {
        <T as PartialEqSpec>::obeys_eq_spec()
    }

    open spec fn eq_spec(&self, other: &Self) -> bool {
        same_elements(self@, other@)
    }
}

impl<T: PartialEq, const C: usize, const N: usize> PartialEq<[T; N]> for BankArr<T, C> {
    fn eq(&self, other: &[T; N]) -> (r: bool) {
        elements_eq(self.data.as_slice(), other.as_slice())
    }
}

impl<T: PartialEq, const C: usize, const N: usize> PartialEqSpecImpl<[T; N]> for BankArr<T, C> {
    open spec fn obeys_eq_spec() -> bool {
        <T as PartialEqSpec>::obeys_eq_spec()
    }

    open spec fn eq_spec(&self, other: &[T; N]) -> bool {
        same_elements(self@, other@)
    }
}

impl<T: PartialEq, const C: usize, const N: usize> PartialEq<&[T; N]> for BankArr<T, C> {
    fn eq(&self, other: &&[T; N]) -> (r: bool) {
        elements_eq(self.data.as_slice(), other.as_slice())
    }
}

impl<T: PartialEq, const C: usize, const N: usize> PartialEqSpecImpl<&[T; N]> for BankArr<T, C> {
    open spec fn obeys_eq_spec() -> bool {
        <T as PartialEqSpec>::obeys_eq_spec()
    }

    open spec fn eq_spec(&self, other: &&[T; N]) -> bool {
        same_elements(self@, (*other)@)
    }
}

impl<T: PartialEq, const C: usize> PartialEq<Vec<T>> for BankArr<T, C> {
    fn eq(&self, other: &Vec<T>) -> (r: bool) {
        elements_eq(self.data.as_slice(), other.as_slice())
    }
}

impl<T: PartialEq, const C: usize> PartialEqSpecImpl<Vec<T>> for BankArr<T, C> {
    open spec fn obeys_eq_spec() -> bool {
        <T as PartialEqSpec>::obeys_eq_spec()
    }

    open spec fn eq_spec(&self, other: &Vec<T>) -> bool {
        same_elements(self@, other@)
    }
}

impl<T: PartialEq, const C: usize> PartialEq<[T]> for BankArr<T, C> {
    fn eq(&self, other: &[T]) -> (r: bool) {
        elements_eq(self.data.as_slice(), other)
    }
}

impl<T: PartialEq, const C: usize> PartialEqSpecImpl<[T]> for BankArr<T, C> {
    open spec fn obeys_eq_spec() -> bool {
        <T as PartialEqSpec>::obeys_eq_spec()
    }

    open spec fn eq_spec(&self, other: &[T]) -> bool {
        same_elements(self@, other@)
    }
}

impl<T: PartialEq, const C: usize> PartialEq<&[T]> for BankArr<T, C> {
    fn eq(&self, other: &&[T]) -> (r: bool) {
        elements_eq(self.data.as_slice(), *other)
    }
}

impl<T: PartialEq, const C: usize> PartialEqSpecImpl<&[T]> for BankArr<T, C> {
    open spec fn obeys_eq_spec() -> bool {
        <T as PartialEqSpec>::obeys_eq_spec()
    }

    open spec fn eq_spec(&self, other: &&[T]) -> bool {
        same_elements(self@, (*other)@)
    }
}

} // verus!
