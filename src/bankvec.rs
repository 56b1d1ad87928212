//! A sequence with room for `C` elements that spills onto a larger heap
//! buffer past them.
use crate::allocation::{
    allocate, allocated_capacity, can_allocate, infallible, layout_array, lemma_can_allocate_monotone,
    refused_as, shrink_to,
};
use crate::capacity::{
    checked_next_power_of_two, is_power_of_two, lemma_next_power_of_two_bounds,
    lemma_next_power_of_two_least, lemma_next_power_of_two_monotone, next_power_of_two,
};
use crate::drain::{drain_live, range_end, range_start, range_valid, Drain, DrainRange, Drainable};
use crate::elements::{elements_eq, same_elements, vec_from_array};
use crate::errors::AllocErr;
use vstd::std_specs::cmp::{PartialEqSpec, PartialEqSpecImpl};
use vstd::std_specs::convert::FromSpecImpl;
use vstd::prelude::*;

verus! {

/// The mode of a [`BankVec`].
#[derive(Debug, Clone, Copy)]
enum Storage {
    /// Room for exactly `C` elements, in a buffer reserved once for `C`
    /// slots.
    Inline,
    /// A heap buffer asked for with `capacity` slots, always more than `C`.
    /// The `Vec` that holds the elements may have more room than that, for
    /// instance after a shrink or a clone.
    Heap { capacity: usize },
}

/// A growable sequence with room for `C` elements in its inline mode, that
/// moves to a larger heap buffer once it needs more room.
///
/// Both modes keep the elements in a `Vec`; the inline mode is a buffer
/// reserved for `C` slots, so a small bank still allocates once. The
/// capacity that [`BankVec::capacity`] reports is `C` inline and the size
/// last asked for on the heap.
///
/// Shrinking never moves the elements back: only [`BankVec::try_grow`]
/// with a target of at most `C` returns to the inline mode.
#[derive(Debug)]
pub struct BankVec<T, const C: usize> {
    items: Vec<T>,
    storage: Storage,
}

impl<T, const C: usize> View for BankVec<T, C> {
    type V = Seq<T>;

    closed spec fn view(&self) -> Seq<T> {
        self.items@
    }
}

impl<T, const C: usize> BankVec<T, C> {
    /// The invariant: inline, at most `C` elements; on the heap, a capacity
    /// above `C` that holds all elements.
    pub closed spec fn well_formed(&self) -> bool {
        match self.storage {
            Storage::Inline => self.items@.len() <= C,
            Storage::Heap { capacity } => C < capacity && self.items@.len() <= capacity,
        }
    }

    pub closed spec fn spec_on_heap(&self) -> bool {
        self.storage is Heap
    }

    pub closed spec fn spec_capacity(&self) -> usize {
        match self.storage {
            Storage::Inline => C,
            Storage::Heap { capacity } => capacity,
        }
    }

    /// One more element can arrive: there is room, or a heap buffer of the
    /// next power of two has a layout.
    pub open spec fn can_grow_by_one(&self) -> bool {
        self@.len() < self.capacity() || can_allocate::<T>(next_power_of_two(self@.len() as int + 1))
    }

    /// The capacity and the place of the elements are the same in `a` and `b`.
    pub open spec fn same_storage(a: Self, b: Self) -> bool {
        a.capacity() == b.capacity() && a.on_heap() == b.on_heap()
    }

    /// What one more element does to the storage of `old`: where there was
    /// room nothing changes, and a full bank moves to a heap buffer whose
    /// capacity is the next power of two.
    pub open spec fn grown_by_one(old: Self, new: Self) -> bool {
        if old@.len() < old.capacity() {
            Self::same_storage(old, new)
        } else {
            new.on_heap() && new.capacity() == next_power_of_two(old@.len() as int + 1)
        }
    }

    /// `new` is `old` after a push of `value`.
    pub open spec fn pushed(old: Self, new: Self, value: T) -> bool {
        &&& new.well_formed()
        &&& new@ == old@.push(value)
        &&& Self::grown_by_one(old, new)
    }

    /// `new` is `old` after an insert of `value` at `index`.
    pub open spec fn inserted(old: Self, new: Self, index: int, value: T) -> bool {
        &&& new.well_formed()
        &&& new@ == old@.insert(index, value)
        &&& Self::grown_by_one(old, new)
    }

    /// `new` is `old` after a pop that returned `r`.
    pub open spec fn popped(old: Self, new: Self, r: Option<T>) -> bool {
        &&& new.well_formed()
        &&& Self::same_storage(old, new)
        &&& if old@.len() == 0 {
            r is None && new@ == old@
        } else {
            r == Some(old@.last()) && new@ == old@.drop_last()
        }
    }

    /// `new` is `old` after a removal at `index` that returned `r`.
    pub open spec fn removed(old: Self, new: Self, index: int, r: T) -> bool {
        &&& new.well_formed()
        &&& Self::same_storage(old, new)
        &&& r == old@[index]
        &&& new@ == old@.remove(index)
    }

    /// `new` is `old` after a successful reserve of `additional` slots: the
    /// same elements, and where `old` lacked room, a heap buffer whose
    /// capacity is the next power of two of the length needed.
    pub open spec fn reserved(old: Self, new: Self, additional: int) -> bool {
        &&& new.well_formed()
        &&& new@ == old@
        &&& if old.capacity() - old@.len() >= additional {
            Self::same_storage(old, new)
        } else {
            new.on_heap() && new.capacity() == next_power_of_two(old@.len() + additional)
        }
    }

    /// `new` is `old` after a successful exact reserve of `additional`
    /// slots: where `old` lacked room, a heap buffer of exactly the length
    /// needed.
    pub open spec fn reserved_exact(old: Self, new: Self, additional: int) -> bool {
        &&& new.well_formed()
        &&& new@ == old@
        &&& if old.capacity() - old@.len() >= additional {
            Self::same_storage(old, new)
        } else {
            new.on_heap() && new.capacity() == old@.len() + additional
        }
    }

    /// An empty bank in the inline mode, with a buffer reserved for `C`
    /// elements.
    pub fn new() -> (r: Self)
        ensures
            r.well_formed(),
            r@ == Seq::<T>::empty(),
            !r.on_heap(),
            r.capacity() == C,
    {
        BankVec { items: Vec::with_capacity(C), storage: Storage::Inline }
    }

    /// A bank that holds the elements of `vec`: inline where they fit,
    /// otherwise in the buffer of `vec` itself.
    pub fn from_vec(vec: Vec<T>) -> (r: Self)
        ensures
            r.well_formed(),
            r@ == vec@,
            r.on_heap() == (vec@.len() > C),
    {
        if vec.len() <= C {
            let mut items = Vec::with_capacity(C);
            let mut vec = vec;
            items.append(&mut vec);
            BankVec { items, storage: Storage::Inline }
        } else {
            let capacity = allocated_capacity(&vec);
            BankVec { items: vec, storage: Storage::Heap { capacity } }
        }
    }

    /// A bank that holds the elements of `arr`: inline where they fit,
    /// otherwise in a heap buffer whose capacity is the next power of two
    /// of `N`, as a reserve of `N` slots on an empty bank gives. Where no
    /// buffer of that size has a layout, the bank keeps the buffer that the
    /// array's elements were moved into.
    pub fn from_array<const N: usize>(arr: [T; N]) -> (r: Self)
        ensures
            r.well_formed(),
            r@ == arr@,
            r.on_heap() == (N > C),
            N > C && can_allocate::<T>(next_power_of_two(N as int)) ==> r.capacity()
                == next_power_of_two(N as int),
    {
        let mut items = vec_from_array(arr);
        if N > C {
            let mut bank = Self::new();
            match bank.reserve_with(N, true) {
                Ok(()) => {
                    proof {
                        lemma_next_power_of_two_bounds(N as int);
                    }
                    bank.items.append(&mut items);
                    return bank;
                },
                Err(_) => {},
            }
        }
        Self::from_vec(items)
    }

    /// The number of elements.
    pub fn len(&self) -> (r: usize)
        ensures
            r == self@.len(),
    {
        self.items.len()
    }

    /// Whether the elements have moved to a heap buffer.
    #[verifier::when_used_as_spec(spec_on_heap)]
    pub fn on_heap(&self) -> (r: bool)
        ensures
            r == self.spec_on_heap(),
    {
        match self.storage {
            Storage::Inline => false,
            Storage::Heap { .. } => true,
        }
    }

    /// The number of elements the bank holds without growing: `C` inline,
    /// the size last asked for on the heap otherwise (the `Vec` underneath
    /// may have more room).
    #[verifier::when_used_as_spec(spec_capacity)]
    pub fn capacity(&self) -> (r: usize)
        ensures
            r == self.spec_capacity(),
            self.well_formed() ==> {
                &&& !self.on_heap() ==> r == C
                &&& self.on_heap() ==> r > C
                &&& r >= self@.len()
            },
    {
        match self.storage {
            Storage::Inline => C,
            Storage::Heap { capacity } => capacity,
        }
    }

    /// Moves the elements into a buffer of `new_cap` slots: one reserved
    /// for `C` in the inline mode where `new_cap` is at most `C`, otherwise a heap buffer of exactly
    /// `new_cap`. On failure nothing changes. When `abort_on_failure`
    /// holds, a failing allocator ends the process instead.
    fn grow_to(&mut self, new_cap: usize, abort_on_failure: bool) -> (r: Result<(), AllocErr>)
        requires
            old(self).well_formed(),
            new_cap >= old(self)@.len(),
        ensures
            final(self).well_formed(),
            final(self)@ == old(self)@,
            r is Ok ==> final(self).on_heap() == (new_cap > C),
            r is Ok && new_cap > C ==> final(self).capacity() == new_cap,
            r is Err ==> Self::same_storage(*old(self), *final(self)),
            r is Err ==> new_cap > C && refused_as::<T>(new_cap as int, r->Err_0),
            new_cap > C && !can_allocate::<T>(new_cap as int) && !(old(self).on_heap()
                && new_cap <= old(self).capacity()) ==> r is Err,
            old(self).on_heap() && C < new_cap <= old(self).capacity() ==> r is Ok,
            abort_on_failure && can_allocate::<T>(new_cap as int) ==> r is Ok,
    {
        if new_cap <= C {
            if self.on_heap() {
                let mut arena = Vec::with_capacity(C);
                arena.append(&mut self.items);
                self.items = arena;
                self.storage = Storage::Inline;
            }
            return Ok(());
        }
        let current = self.capacity();
        if self.on_heap() && new_cap <= current {
            // a buffer of this size or a smaller one needs no new allocation
            if new_cap < current {
                shrink_to(&mut self.items, new_cap);
                self.storage = Storage::Heap { capacity: new_cap };
            }
            return Ok(());
        }
        let layout = match layout_array::<T>(new_cap) {
            Ok(layout) => layout,
            Err(e) => return Err(e),
        };
        let len = self.items.len();
        if self.on_heap() {
            match allocate(&mut self.items, new_cap - len, layout, abort_on_failure) {
                Ok(()) => {},
                Err(e) => return Err(e),
            }
        } else {
            let mut buffer: Vec<T> = Vec::new();
            match allocate(&mut buffer, new_cap, layout, abort_on_failure) {
                Ok(()) => {},
                Err(e) => return Err(e),
            }
            buffer.append(&mut self.items);
            self.items = buffer;
        }
        self.storage = Storage::Heap { capacity: new_cap };
        Ok(())
    }

    /// Moves the elements into a buffer of `new_cap` slots: back to the
    /// inline mode where `new_cap` is at most `C`, otherwise to a heap
    /// buffer of exactly `new_cap`. On failure nothing changes.
    pub fn try_grow(&mut self, new_cap: usize) -> (r: Result<(), AllocErr>)
        requires
            old(self).well_formed(),
            new_cap >= old(self)@.len(),
        ensures
            final(self).well_formed(),
            final(self)@ == old(self)@,
            r is Ok ==> final(self).on_heap() == (new_cap > C),
            r is Ok && new_cap > C ==> final(self).capacity() == new_cap,
            r is Err ==> Self::same_storage(*old(self), *final(self)),
            r is Err ==> new_cap > C && refused_as::<T>(new_cap as int, r->Err_0),
            new_cap > C && !can_allocate::<T>(new_cap as int) && !(old(self).on_heap()
                && new_cap <= old(self).capacity()) ==> r is Err,
            old(self).on_heap() && C < new_cap <= old(self).capacity() ==> r is Ok,
    {
        self.grow_to(new_cap, false)
    }

    /// Grows a full bank to the next power of two above its length.
    fn reserve_one_unchecked(&mut self)
        requires
            old(self).well_formed(),
            old(self)@.len() == old(self).capacity(),
            can_allocate::<T>(next_power_of_two(old(self)@.len() as int + 1)),
        ensures
            final(self).well_formed(),
            final(self)@ == old(self)@,
            final(self).on_heap(),
            final(self).capacity() == next_power_of_two(old(self)@.len() as int + 1),
            final(self).capacity() > old(self)@.len(),
    {
        let len = self.items.len();
        proof {
            lemma_next_power_of_two_bounds((len + 1) as int);
        }
        let new_cap = match checked_next_power_of_two(len + 1) {
            Some(n) => n,
            None => unreached(),
        };
        infallible(self.grow_to(new_cap, true));
    }

    /// Makes room for `additional` more elements, growing to the next power
    /// of two of the length needed; see [`BankVec::reserved`].
    fn reserve_with(&mut self, additional: usize, abort_on_failure: bool) -> (r: Result<(), AllocErr>)
        requires
            old(self).well_formed(),
        ensures
            final(self).well_formed(),
            r is Ok ==> Self::reserved(*old(self), *final(self), additional as int),
            r is Err ==> final(self)@ == old(self)@ && Self::same_storage(*old(self), *final(self)),
            old(self).capacity() - old(self)@.len() >= additional ==> r is Ok,
            old(self).capacity() - old(self)@.len() < additional ==> ({
                let target = next_power_of_two(old(self)@.len() + additional);
                &&& r is Err ==> refused_as::<T>(target, r->Err_0)
                &&& !can_allocate::<T>(target) ==> r is Err
                &&& abort_on_failure && can_allocate::<T>(target) ==> r is Ok
            }),
    {
        let len = self.items.len();
        let cap = self.capacity();
        if cap - len >= additional {
            return Ok(());
        }
        proof {
            lemma_next_power_of_two_bounds((len + additional) as int);
        }
        let needed = match len.checked_add(additional) {
            Some(n) => n,
            None => return Err(AllocErr::Overflow),
        };
        let new_cap = match checked_next_power_of_two(needed) {
            Some(n) => n,
            None => return Err(AllocErr::Overflow),
        };
        self.grow_to(new_cap, abort_on_failure)
    }

    /// Makes room for `additional` more elements, growing to exactly the
    /// length needed; see [`BankVec::reserved_exact`].
    fn reserve_exact_with(&mut self, additional: usize, abort_on_failure: bool) -> (r: Result<
        (),
        AllocErr,
    >)
        requires
            old(self).well_formed(),
        ensures
            final(self).well_formed(),
            r is Ok ==> Self::reserved_exact(*old(self), *final(self), additional as int),
            r is Err ==> final(self)@ == old(self)@ && Self::same_storage(*old(self), *final(self)),
            old(self).capacity() - old(self)@.len() >= additional ==> r is Ok,
            old(self).capacity() - old(self)@.len() < additional ==> ({
                let target = old(self)@.len() + additional;
                &&& r is Err ==> refused_as::<T>(target as int, r->Err_0)
                &&& !can_allocate::<T>(target as int) ==> r is Err
                &&& abort_on_failure && can_allocate::<T>(target as int) ==> r is Ok
            }),
    {
        let len = self.items.len();
        let cap = self.capacity();
        if cap - len >= additional {
            return Ok(());
        }
        let new_cap = match len.checked_add(additional) {
            Some(n) => n,
            None => return Err(AllocErr::Overflow),
        };
        self.grow_to(new_cap, abort_on_failure)
    }

    /// Makes room for at least `additional` more elements. Where the room
    /// lacks, the bank moves to a heap buffer whose capacity is the next
    /// power of two of `len + additional`. On failure nothing changes.
    pub fn try_reserve(&mut self, additional: usize) -> (r: Result<(), AllocErr>)
        requires
            old(self).well_formed(),
        ensures
            final(self).well_formed(),
            r is Ok ==> Self::reserved(*old(self), *final(self), additional as int),
            r is Err ==> final(self)@ == old(self)@ && Self::same_storage(*old(self), *final(self)),
            old(self).capacity() - old(self)@.len() >= additional ==> r is Ok,
            old(self).capacity() - old(self)@.len() < additional ==> ({
                let target = next_power_of_two(old(self)@.len() + additional);
                &&& r is Err ==> refused_as::<T>(target, r->Err_0)
                &&& !can_allocate::<T>(target) ==> r is Err
            }),
    {
        self.reserve_with(additional, false)
    }

    /// Makes room for exactly `additional` more elements. Where the room
    /// lacks, the bank moves to a heap buffer of capacity `len + additional`.
    /// On failure nothing changes.
    pub fn try_reserve_exact(&mut self, additional: usize) -> (r: Result<(), AllocErr>)
        requires
            old(self).well_formed(),
        ensures
            final(self).well_formed(),
            r is Ok ==> Self::reserved_exact(*old(self), *final(self), additional as int),
            r is Err ==> final(self)@ == old(self)@ && Self::same_storage(*old(self), *final(self)),
            old(self).capacity() - old(self)@.len() >= additional ==> r is Ok,
            old(self).capacity() - old(self)@.len() < additional ==> ({
                let target = old(self)@.len() + additional;
                &&& r is Err ==> refused_as::<T>(target as int, r->Err_0)
                &&& !can_allocate::<T>(target as int) ==> r is Err
            }),
    {
        self.reserve_exact_with(additional, false)
    }

    /// Makes room for at least `additional` more elements, as
    /// [`BankVec::try_reserve`] does; a failing allocator ends the process.
    pub fn reserve(&mut self, additional: usize)
        requires
            old(self).well_formed(),
            old(self).capacity() - old(self)@.len() >= additional || can_allocate::<T>(
                next_power_of_two(old(self)@.len() + additional),
            ),
        ensures
            Self::reserved(*old(self), *final(self), additional as int),
    {
        infallible(self.reserve_with(additional, true))
    }

    /// Makes room for exactly `additional` more elements, as
    /// [`BankVec::try_reserve_exact`] does; a failing allocator ends the
    /// process.
    pub fn reserve_exact(&mut self, additional: usize)
        requires
            old(self).well_formed(),
            old(self).capacity() - old(self)@.len() >= additional || can_allocate::<T>(
                (old(self)@.len() + additional) as int,
            ),
        ensures
            Self::reserved_exact(*old(self), *final(self), additional as int),
    {
        infallible(self.reserve_exact_with(additional, true))
    }

    /// Appends `value`, growing a full bank first.
    pub fn push(&mut self, value: T)
        requires
            old(self).well_formed(),
            old(self).can_grow_by_one(),
        ensures
            Self::pushed(*old(self), *final(self), value),
    {
        if self.items.len() == self.capacity() {
            self.reserve_one_unchecked();
        }
        self.items.push(value);
    }

    /// Puts `element` at `index`, shifting the elements from there one place
    /// to the right, growing a full bank first.
    pub fn insert(&mut self, index: usize, element: T)
        requires
            old(self).well_formed(),
            old(self).can_grow_by_one(),
            index <= old(self)@.len(),
        ensures
            Self::inserted(*old(self), *final(self), index as int, element),
    {
        if self.items.len() == self.capacity() {
            self.reserve_one_unchecked();
        }
        self.items.insert(index, element);
    }

    /// Removes and returns the last element, or `None` when empty.
    pub fn pop(&mut self) -> (r: Option<T>)
        requires
            old(self).well_formed(),
        ensures
            Self::popped(*old(self), *final(self), r),
    {
        self.items.pop()
    }

    /// Removes and returns the element at `index`, shifting the rest one
    /// place to the left.
    pub fn remove(&mut self, index: usize) -> (r: T)
        requires
            old(self).well_formed(),
            index < old(self)@.len(),
        ensures
            Self::removed(*old(self), *final(self), index as int, r),
    {
        self.items.remove(index)
    }

    /// Removes and returns the element at `index`; the last element takes
    /// its place.
    pub fn swap_remove(&mut self, index: usize) -> (r: T)
        requires
            old(self).well_formed(),
            index < old(self)@.len(),
        ensures
            final(self).well_formed(),
            Self::same_storage(*old(self), *final(self)),
            r == old(self)@[index as int],
            final(self)@ == old(self)@.update(index as int, old(self)@.last()).drop_last(),
    {
        self.items.swap_remove(index)
    }

    /// Keeps the first `length` elements and drops the rest.
    pub fn set_len(&mut self, length: usize)
        requires
            old(self).well_formed(),
            length <= old(self)@.len(),
        ensures
            final(self).well_formed(),
            Self::same_storage(*old(self), *final(self)),
            final(self)@ == old(self)@.subrange(0, length as int),
    {
        self.items.truncate(length)
    }

    /// The elements, in order.
    pub fn as_slice(&self) -> (r: &[T])
        ensures
            r@ == self@,
    {
        self.items.as_slice()
    }

    /// The elements, in order, for writing in place.
    pub fn as_mut_slice(&mut self) -> (r: &mut [T])
        requires
            old(self).well_formed(),
        ensures
            r@ == old(self)@,
            final(self)@ == final(r)@,
            Self::same_storage(*old(self), *final(self)),
    {
        self.items.as_mut_slice()
    }

    /// Appends the elements of `items` in order: first into the room the
    /// bank already has, then one push at a time.
    pub fn extend(&mut self, items: Vec<T>)
        requires
            old(self).well_formed(),
            old(self)@.len() + items@.len() <= old(self).capacity() || can_allocate::<T>(
                next_power_of_two(old(self)@.len() as int + items@.len()),
            ),
        ensures
            final(self).well_formed(),
            final(self)@ == old(self)@ + items@,
            old(self)@.len() + items@.len() <= old(self).capacity() ==> Self::same_storage(
                *old(self),
                *final(self),
            ),
            old(self)@.len() + items@.len() > old(self).capacity() ==> final(self).on_heap()
                && final(self).capacity() == next_power_of_two(old(self)@.len() as int + items@.len()),
    {
        let ghost start = *self;
        let ghost total: int = self@.len() as int + items@.len();
        let mut rest = items;
        let room = self.capacity() - self.items.len();
        if rest.len() > room {
            let mut overflow = rest.split_off(room);
            self.items.append(&mut rest);
            // the remaining items, last first
            let mut reversed: Vec<T> = Vec::new();
            while overflow.len() > 0
                invariant
                    overflow@ + reversed@.reverse() == items@.subrange(room as int, items@.len() as int),
                decreases overflow@.len(),
            {
                let ghost before = overflow@;
                match overflow.pop() {
                    Some(x) => {
                        reversed.push(x);
                        proof {
                            assert(reversed@.reverse() =~= seq![x] + reversed@.drop_last().reverse());
                            assert(before =~= overflow@.push(x));
                            assert(overflow@ + reversed@.reverse() =~= before + reversed@.drop_last().reverse());
                        }
                    },
                    None => {},
                }
            }
            proof {
                assert(overflow@ + reversed@.reverse() =~= reversed@.reverse());
                assert(self@ =~= start@ + items@.subrange(0, room as int));
                lemma_next_power_of_two_bounds(total);
            }
            while reversed.len() > 0
                invariant
                    self.well_formed(),
                    self@ + reversed@.reverse() == start@ + items@,
                    self@.len() + reversed@.len() == total,
                    self@.len() >= start.capacity(),
                    self@.len() == start.capacity() ==> Self::same_storage(start, *self),
                    self@.len() > start.capacity() ==> self.on_heap() && self.capacity()
                        == next_power_of_two(self@.len() as int),
                    can_allocate::<T>(next_power_of_two(total)),
                decreases reversed@.len(),
            {
                let ghost before = *self;
                let ghost queue = reversed@;
                match reversed.pop() {
                    Some(x) => {
                        proof {
                            let n: int = self@.len() as int;
                            lemma_next_power_of_two_bounds(n + 1);
                            lemma_next_power_of_two_monotone(n + 1, total);
                            lemma_can_allocate_monotone::<T>(
                                next_power_of_two(n + 1),
                                next_power_of_two(total),
                            );
                        }
                        self.push(x);
                        proof {
                            let n: int = before@.len() as int;
                            assert(queue.reverse() =~= seq![x] + reversed@.reverse());
                            assert(self@ + reversed@.reverse() =~= before@ + queue.reverse());
                            if n < before.capacity() {
                                // no growth: the capacity was already the next power of two
                                assert(n > start.capacity());
                                lemma_next_power_of_two_bounds(n);
                                lemma_next_power_of_two_least(n + 1, next_power_of_two(n));
                                lemma_next_power_of_two_monotone(n, n + 1);
                            }
                        }
                    },
                    None => {},
                }
            }
            proof {
                assert(self@ + reversed@.reverse() =~= self@);
            }
        } else {
            self.items.append(&mut rest);
        }
    }

    /// Takes the elements at the positions of `range` out, closes the gap,
    /// and hands the taken elements out in order. The storage stays as it is.
    pub fn drain(&mut self, range: DrainRange) -> (r: Drain<T>)
        requires
            old(self).well_formed(),
            range_valid(range, old(self)@.len() as int),
        ensures
            final(self).well_formed(),
            Self::same_storage(*old(self), *final(self)),
            final(self)@ == old(self)@.subrange(0, range_start(range)) + old(self)@.subrange(
                range_end(range, old(self)@.len() as int),
                old(self)@.len() as int,
            ),
            r@ == old(self)@.subrange(range_start(range), range_end(range, old(self)@.len() as int)),
    {
        drain_live(self, &range)
    }
}

impl<T, const C: usize> From<Vec<T>> for BankVec<T, C> {
    /// A bank that holds the elements of `vec`; see [`BankVec::from_vec`].
    fn from(vec: Vec<T>) -> (r: Self)
        ensures
            r.well_formed(),
            r@ == vec@,
            r.on_heap() == (vec@.len() > C),
    {
        Self::from_vec(vec)
    }
}

impl<T, const C: usize> FromSpecImpl<Vec<T>> for BankVec<T, C> {
    open spec fn obeys_from_spec() -> bool {
        false
    }

    open spec fn from_spec(v: Vec<T>) -> Self {
        arbitrary()
    }
}

impl<T, const C: usize, const N: usize> From<[T; N]> for BankVec<T, C> {
    /// A bank that holds the elements of `arr`; see [`BankVec::from_array`].
    fn from(arr: [T; N]) -> (r: Self)
        ensures
            r.well_formed(),
            r@ == arr@,
            r.on_heap() == (N > C),
            N > C && can_allocate::<T>(next_power_of_two(N as int)) ==> r.capacity()
                == next_power_of_two(N as int),
    {
        Self::from_array(arr)
    }
}

impl<T, const C: usize, const N: usize> FromSpecImpl<[T; N]> for BankVec<T, C> {
    open spec fn obeys_from_spec() -> bool {
        false
    }

    open spec fn from_spec(v: [T; N]) -> Self {
        arbitrary()
    }
}

impl<T: Clone, const C: usize> BankVec<T, C> {
    /// `copy` holds a clone of each element of `original`, in order, in
    /// storage of the same kind and capacity.
    pub open spec fn is_clone_of(original: Self, copy: Self) -> bool {
        &&& copy@.len() == original@.len()
        &&& forall|i: int| 0 <= i < original@.len() ==> cloned::<T>(original@[i], #[trigger] copy@[i])
        &&& Self::same_storage(original, copy)
        &&& original.well_formed() ==> copy.well_formed()
    }
}

impl<T: Clone, const C: usize> Clone for BankVec<T, C> {
    /// An independent copy: each element cloned, in the same storage.
    fn clone(&self) -> (r: Self)
        ensures
            Self::is_clone_of(*self, r),
    {
        BankVec { items: self.items.clone(), storage: self.storage }
    }
}

impl<T: PartialEq, const C: usize> PartialEq for BankVec<T, C> {
    fn eq(&self, other: &Self) -> (r: bool) {
        elements_eq(self.items.as_slice(), other.as_slice())
    }
}

impl<T: PartialEq, const C: usize> PartialEqSpecImpl for BankVec<T, C> {
    open spec fn obeys_eq_spec() -> bool {
        <T as PartialEqSpec>::obeys_eq_spec()
    }

    open spec fn eq_spec(&self, other: &Self) -> bool {
        same_elements(self@, other@)
    }
}

impl<T: PartialEq, const C: usize, const N: usize> PartialEq<[T; N]> for BankVec<T, C> {
    fn eq(&self, other: &[T; N]) -> (r: bool) {
        elements_eq(self.items.as_slice(), other.as_slice())
    }
}

impl<T: PartialEq, const C: usize, const N: usize> PartialEqSpecImpl<[T; N]> for BankVec<T, C> {
    open spec fn obeys_eq_spec() -> bool {
        <T as PartialEqSpec>::obeys_eq_spec()
    }

    open spec fn eq_spec(&self, other: &[T; N]) -> bool {
        same_elements(self@, other@)
    }
}

impl<T: PartialEq, const C: usize, const N: usize> PartialEq<&[T; N]> for BankVec<T, C> {
    fn eq(&self, other: &&[T; N]) -> (r: bool) {
        elements_eq(self.items.as_slice(), other.as_slice())
    }
}

impl<T: PartialEq, const C: usize, const N: usize> PartialEqSpecImpl<&[T; N]> for BankVec<T, C> {
    open spec fn obeys_eq_spec() -> bool {
        <T as PartialEqSpec>::obeys_eq_spec()
    }

    open spec fn eq_spec(&self, other: &&[T; N]) -> bool {
        same_elements(self@, (*other)@)
    }
}

impl<T: PartialEq, const C: usize> PartialEq<Vec<T>> for BankVec<T, C> {
    fn eq(&self, other: &Vec<T>) -> (r: bool) {
        elements_eq(self.items.as_slice(), other.as_slice())
    }
}

impl<T: PartialEq, const C: usize> PartialEqSpecImpl<Vec<T>> for BankVec<T, C> {
    open spec fn obeys_eq_spec() -> bool {
        <T as PartialEqSpec>::obeys_eq_spec()
    }

    open spec fn eq_spec(&self, other: &Vec<T>) -> bool {
        same_elements(self@, other@)
    }
}

impl<T: PartialEq, const C: usize> PartialEq<[T]> for BankVec<T, C> {
    fn eq(&self, other: &[T]) -> (r: bool) {
        elements_eq(self.items.as_slice(), other)
    }
}

impl<T: PartialEq, const C: usize> PartialEqSpecImpl<[T]> for BankVec<T, C> {
    open spec fn obeys_eq_spec() -> bool {
        <T as PartialEqSpec>::obeys_eq_spec()
    }

    open spec fn eq_spec(&self, other: &[T]) -> bool {
        same_elements(self@, other@)
    }
}

impl<T: PartialEq, const C: usize> PartialEq<&[T]> for BankVec<T, C> {
    fn eq(&self, other: &&[T]) -> (r: bool) {
        elements_eq(self.items.as_slice(), *other)
    }
}

impl<T: PartialEq, const C: usize> PartialEqSpecImpl<&[T]> for BankVec<T, C> {
    open spec fn obeys_eq_spec() -> bool {
        <T as PartialEqSpec>::obeys_eq_spec()
    }

    open spec fn eq_spec(&self, other: &&[T]) -> bool {
        same_elements(self@, (*other)@)
    }
}

impl<T, const C: usize> core::ops::Deref for BankVec<T, C> {
    type Target = [T];

    fn deref(&self) -> (r: &[T])
        ensures
            r@ == self@,
    {
        self.items.as_slice()
    }
}

impl<T, const C: usize> core::ops::DerefMut for BankVec<T, C> {
    fn deref_mut(&mut self) -> (r: &mut [T])
        ensures
            r@ == old(self)@,
            final(self)@ == final(r)@,
            Self::same_storage(*old(self), *final(self)),
    {
        self.items.as_mut_slice()
    }
}

impl<T, const C: usize> Drainable<T> for BankVec<T, C> {
    closed spec fn live(&self) -> Seq<T> {
        self.items@
    }

    closed spec fn room(&self) -> nat {
        self.spec_capacity() as nat
    }

    closed spec fn drain_ready(&self) -> bool {
        self.well_formed()
    }

    fn live_len(&self) -> (n: usize) {
        self.items.len()
    }

    fn detach_from(&mut self, at: usize) -> (tail: Vec<T>) {
        self.items.split_off(at)
    }

    fn reattach(&mut self, tail: Vec<T>) {
        let mut tail = tail;
        self.items.append(&mut tail);
    }
}


/// Pushes onto an inline bank that keep its length within `C` leave it
/// inline with capacity `C` after each push.
pub proof fn lemma_pushes_within_capacity_stay_inline<T, const C: usize>(
    states: Seq<BankVec<T, C>>,
    values: Seq<T>,
)
    requires
        states.len() == values.len() + 1,
        states[0].well_formed(),
        !states[0].on_heap(),
        states[0]@.len() + values.len() <= C,
        forall|i: int|
            0 <= i < values.len() ==> BankVec::pushed(states[i], #[trigger] states[i + 1], values[i]),
    ensures
        forall|i: int|
            0 <= i < states.len() ==> {
                &&& !(#[trigger] states[i]).on_heap()
                &&& states[i].capacity() == C
                &&& states[i]@.len() == states[0]@.len() + i
            },
    decreases values.len(),
{
    if values.len() > 0 {
        let k = values.len() - 1;
        lemma_pushes_within_capacity_stay_inline(states.drop_last(), values.drop_last());
        assert(states.drop_last()[k] == states[k]);
        assert(BankVec::pushed(states[k], states[k + 1], values[k]));
        assert forall|i: int| 0 <= i < states.len() implies {
            &&& !(#[trigger] states[i]).on_heap()
            &&& states[i].capacity() == C
            &&& states[i]@.len() == states[0]@.len() + i
        } by {
            if i < states.len() - 1 {
                assert(states.drop_last()[i] == states[i]);
            }
        }
    }
}

/// The storage of a bank: inline it has capacity `C`, on the heap more
/// than `C`, and always at least its length.
pub proof fn lemma_capacity_bounds<T, const C: usize>(bank: BankVec<T, C>)
    requires
        bank.well_formed(),
    ensures
        !bank.on_heap() ==> bank.capacity() == C,
        bank.on_heap() ==> bank.capacity() > C,
        bank.capacity() >= bank@.len(),
{
}

/// Pushing onto an inline bank that holds `C` elements moves it to the heap:
/// afterwards it holds `C + 1` elements and has room for at least that many.
pub proof fn lemma_push_past_capacity_spills<T, const C: usize>(
    old: BankVec<T, C>,
    new: BankVec<T, C>,
    value: T,
)
    requires
        old.well_formed(),
        !old.on_heap(),
        old@.len() == C,
        BankVec::pushed(old, new, value),
    ensures
        new.on_heap(),
        new@ == old@.push(value),
        new@.len() == C + 1,
        new.capacity() == next_power_of_two(C as int + 1),
        new.capacity() >= C + 1,
{
    lemma_next_power_of_two_bounds(C as int + 1);
}

/// `pop` on an empty bank returns nothing and changes nothing, and each pop
/// on a non-empty bank takes the last element: pops in a row hand out the
/// elements from the last to the first, leave the bank empty after as many
/// pops as it had elements, and return nothing from then on.
pub proof fn lemma_pops_drain_to_empty<T, const C: usize>(
    states: Seq<BankVec<T, C>>,
    results: Seq<Option<T>>,
)
    requires
        states.len() == results.len() + 1,
        forall|i: int|
            0 <= i < results.len() ==> BankVec::popped(states[i], #[trigger] states[i + 1], results[i]),
    ensures
        forall|i: int|
            0 <= i < states.len() ==> (#[trigger] states[i])@ == states[0]@.subrange(
                0,
                if i <= states[0]@.len() {
                    states[0]@.len() - i
                } else {
                    0
                },
            ),
        forall|i: int|
            0 <= i < results.len() ==> (#[trigger] results[i]) == if i < states[0]@.len() {
                Some(states[0]@[states[0]@.len() - 1 - i])
            } else {
                None
            },
    decreases results.len(),
{
    let n = states[0]@.len() as int;
    if results.len() > 0 {
        let k = results.len() - 1;
        lemma_pops_drain_to_empty(states.drop_last(), results.drop_last());
        assert(states.drop_last()[k] == states[k]);
        assert(BankVec::popped(states[k], states[k + 1], results[k]));
        assert(states[k]@ == states[0]@.subrange(0, if k <= n { n - k } else { 0 }));
        if k < n {
            assert(states[k + 1]@ =~= states[0]@.subrange(0, n - k - 1));
        } else {
            assert(states[k + 1]@ =~= states[0]@.subrange(0, 0));
        }
        assert forall|i: int| 0 <= i < states.len() implies (#[trigger] states[i])@ == states[0]@.subrange(
            0,
            if i <= states[0]@.len() {
                states[0]@.len() - i
            } else {
                0
            },
        ) by {
            if i < states.len() - 1 {
                assert(states.drop_last()[i] == states[i]);
            }
        }
        assert forall|i: int| 0 <= i < results.len() implies (#[trigger] results[i]) == if i
            < states[0]@.len() {
            Some(states[0]@[states[0]@.len() - 1 - i])
        } else {
            None
        } by {
            if i < results.len() - 1 {
                assert(results.drop_last()[i] == results[i]);
            }
        }
    }
}

/// An insert at `index` followed by a removal at `index` gives back the
/// inserted value and the elements from before.
pub proof fn lemma_insert_then_remove<T, const C: usize>(
    s0: BankVec<T, C>,
    s1: BankVec<T, C>,
    s2: BankVec<T, C>,
    index: int,
    value: T,
    r: T,
)
    requires
        0 <= index <= s0@.len(),
        BankVec::inserted(s0, s1, index, value),
        BankVec::removed(s1, s2, index, r),
    ensures
        s2@ == s0@,
        s2@.len() == s0@.len(),
        r == value,
{
    assert(s2@ =~= s0@);
}

/// Where the room lacks, an exact reserve of `additional` slots leaves a
/// capacity of exactly `len + additional`.
pub proof fn lemma_reserve_exact_is_exact<T, const C: usize>(
    old: BankVec<T, C>,
    new: BankVec<T, C>,
    additional: int,
)
    requires
        BankVec::reserved_exact(old, new, additional),
        old.capacity() - old@.len() < additional,
    ensures
        new.capacity() == old@.len() + additional,
{
}

/// Where the room lacks, a reserve of `additional` slots leaves a capacity
/// that is a power of two and at least `len + additional`.
pub proof fn lemma_reserve_is_power_of_two<T, const C: usize>(
    old: BankVec<T, C>,
    new: BankVec<T, C>,
    additional: int,
)
    requires
        BankVec::reserved(old, new, additional),
        old.capacity() - old@.len() < additional,
    ensures
        is_power_of_two(new.capacity() as int),
        new.capacity() >= old@.len() + additional,
{
    lemma_next_power_of_two_bounds(old@.len() + additional);
}

/// A copy goes its own way: after a push onto the copy of a bank, the copy
/// holds the clones of the original's elements followed by the value, in
/// storage that grew as the original's would have, while the original
/// still holds its own elements.
pub proof fn lemma_push_onto_clone<T: Clone, const C: usize>(
    original: BankVec<T, C>,
    copy: BankVec<T, C>,
    pushed_copy: BankVec<T, C>,
    value: T,
)
    requires
        original.well_formed(),
        BankVec::is_clone_of(original, copy),
        BankVec::pushed(copy, pushed_copy, value),
    ensures
        pushed_copy@.len() == original@.len() + 1,
        forall|i: int|
            0 <= i < original@.len() ==> cloned::<T>(original@[i], #[trigger] pushed_copy@[i]),
        pushed_copy@.last() == value,
        BankVec::grown_by_one(original, pushed_copy),
        copy@.len() == original@.len(),
{
    assert forall|i: int| 0 <= i < original@.len() implies cloned::<T>(
        original@[i],
        #[trigger] pushed_copy@[i],
    ) by {
        assert(pushed_copy@[i] == copy@[i]);
    }
}

/// Equality with an array depends on the elements alone: banks with the
/// same elements compare alike with any array, inline or on the heap.
pub proof fn lemma_eq_array_ignores_storage<T: PartialEq, const C: usize, const N: usize>(
    a: BankVec<T, C>,
    b: BankVec<T, C>,
    other: [T; N],
)
    requires
        a@ == b@,
    ensures
        <BankVec<T, C> as PartialEqSpec<[T; N]>>::eq_spec(&a, &other)
            == <BankVec<T, C> as PartialEqSpec<[T; N]>>::eq_spec(&b, &other),
        <BankVec<T, C> as PartialEqSpec<[T; N]>>::eq_spec(&a, &other) == same_elements(a@, other@),
{
}

/// Equality with a vector depends on the elements alone: banks with the
/// same elements compare alike with any vector, inline or on the heap.
pub proof fn lemma_eq_vec_ignores_storage<T: PartialEq, const C: usize>(
    a: BankVec<T, C>,
    b: BankVec<T, C>,
    other: Vec<T>,
)
    requires
        a@ == b@,
    ensures
        <BankVec<T, C> as PartialEqSpec<Vec<T>>>::eq_spec(&a, &other)
            == <BankVec<T, C> as PartialEqSpec<Vec<T>>>::eq_spec(&b, &other),
        <BankVec<T, C> as PartialEqSpec<Vec<T>>>::eq_spec(&a, &other) == same_elements(a@, other@),
{
}

} // verus!
