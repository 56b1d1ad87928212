//! Removing a run of elements from a container, shared by both bank types.
use std::collections::VecDeque;
use vstd::prelude::*;

verus! {

/// One end of a range of positions.
#[derive(Debug, Clone, Copy, PartialEq, Eq, Structural)]
pub enum RangeBound {
    /// The position itself belongs to the range.
    Included(usize),
    /// The range stops just short of the position.
    Excluded(usize),
    /// No limit on this side.
    Unbounded,
}

/// The positions that a drain takes out of a container.
#[derive(Debug, Clone, Copy, PartialEq, Eq, Structural)]
pub struct DrainRange {
    pub start: RangeBound,
    pub end: RangeBound,
}

/// The first position of `r`.
pub open spec fn range_start(r: DrainRange) -> int {
    match r.start {
        RangeBound::Included(s) => s as int,
        RangeBound::Excluded(s) => s + 1,
        RangeBound::Unbounded => 0,
    }
}

/// The position just past the last one of `r`, in a sequence of length `len`.
pub open spec fn range_end(r: DrainRange, len: int) -> int {
    match r.end {
        RangeBound::Included(e) => e + 1,
        RangeBound::Excluded(e) => e as int,
        RangeBound::Unbounded => len,
    }
}

/// `r` picks a run out of a sequence of length `len`: it starts no later
/// than it ends, and ends within the sequence.
pub open spec fn range_valid(r: DrainRange, len: int) -> bool {
    range_start(r) <= range_end(r, len) <= len
}

impl DrainRange {
    /// Every position: `..`.
    pub fn full() -> (r: Self)
        ensures
            r.start == RangeBound::Unbounded,
            r.end == RangeBound::Unbounded,
    {
        DrainRange { start: RangeBound::Unbounded, end: RangeBound::Unbounded }
    }

    /// The positions from `start` up to, not including, `end`: `start..end`.
    pub fn between(start: usize, end: usize) -> (r: Self)
        ensures
            r.start == RangeBound::Included(start),
            r.end == RangeBound::Excluded(end),
    {
        DrainRange { start: RangeBound::Included(start), end: RangeBound::Excluded(end) }
    }

    /// The positions from `start` through `end`: `start..=end`.
    pub fn through(start: usize, end: usize) -> (r: Self)
        ensures
            r.start == RangeBound::Included(start),
            r.end == RangeBound::Included(end),
    {
        DrainRange { start: RangeBound::Included(start), end: RangeBound::Included(end) }
    }

    /// The positions from `start` on: `start..`.
    pub fn starting_at(start: usize) -> (r: Self)
        ensures
            r.start == RangeBound::Included(start),
            r.end == RangeBound::Unbounded,
    {
        DrainRange { start: RangeBound::Included(start), end: RangeBound::Unbounded }
    }

    /// The positions before `end`: `..end`.
    pub fn up_to(end: usize) -> (r: Self)
        ensures
            r.start == RangeBound::Unbounded,
            r.end == RangeBound::Excluded(end),
    {
        DrainRange { start: RangeBound::Unbounded, end: RangeBound::Excluded(end) }
    }
}

/// Resolves `range` against a sequence of length `len` into the first
/// position and the position just past the last.
pub fn slice_range(range: &DrainRange, len: usize) -> (r: (usize, usize))
    requires
        range_valid(*range, len as int),
    ensures
        r.0 == range_start(*range),
        r.1 == range_end(*range, len as int),
{
    let start: usize = match range.start {
        RangeBound::Included(s) => s,
        RangeBound::Excluded(s) => s + 1,
        RangeBound::Unbounded => 0,
    };
    let end: usize = match range.end {
        RangeBound::Included(e) => e + 1,
        RangeBound::Excluded(e) => e,
        RangeBound::Unbounded => len,
    };
    (start, end)
}

/// A container whose live elements a drain can split off and put back.
pub trait Drainable<T>: Sized {
    /// The live elements, in order.
    spec fn live(&self) -> Seq<T>;

    /// How many elements the container holds without growing.
    spec fn room(&self) -> nat;

    /// The container's own invariant.
    spec fn drain_ready(&self) -> bool;

    /// The number of live elements.
    fn live_len(&self) -> (n: usize)
        requires
            self.drain_ready(),
        ensures
            n == self.live().len(),
            n <= self.room(),
    ;

    /// Cuts the live elements at `at`, keeps the head and returns the rest.
    fn detach_from(&mut self, at: usize) -> (tail: Vec<T>)
        requires
            old(self).drain_ready(),
            at <= old(self).live().len(),
        ensures
            final(self).drain_ready(),
            final(self).room() == old(self).room(),
            final(self).live() == old(self).live().subrange(0, at as int),
            tail@ == old(self).live().subrange(at as int, old(self).live().len() as int),
    ;

    /// Appends `tail` to the live elements, where it fits without growing.
    fn reattach(&mut self, tail: Vec<T>)
        requires
            old(self).drain_ready(),
            old(self).live().len() + tail@.len() <= old(self).room(),
        ensures
            final(self).drain_ready(),
            final(self).room() == old(self).room(),
            final(self).live() == old(self).live() + tail@,
    ;
}

/// Takes the elements at the positions of `range` out of `bank`, closes the
/// gap, and hands the taken elements out in order.
///
/// `bank` is cut at the start of the range before anything else happens,
/// and its tail is put back before the drain is returned: the drain owns
/// the elements it took and borrows nothing from `bank`, so while it lives
/// `bank` already holds its head followed by its tail. A drain dropped
/// early drops the elements it still holds, each once.
pub fn drain_live<T, B: Drainable<T>>(bank: &mut B, range: &DrainRange) -> (r: Drain<T>)
    requires
        old(bank).drain_ready(),
        range_valid(*range, old(bank).live().len() as int),
    ensures
        final(bank).drain_ready(),
        final(bank).room() == old(bank).room(),
        final(bank).live() == old(bank).live().subrange(0, range_start(*range)) + old(
            bank,
        ).live().subrange(range_end(*range, old(bank).live().len() as int), old(bank).live().len() as int),
        r@ == old(bank).live().subrange(range_start(*range), range_end(*range, old(bank).live().len() as int)),
{
    let ghost live = bank.live();
    let len = bank.live_len();
    let (start, end) = slice_range(range, len);
    let tail = bank.detach_from(end);
    let taken = bank.detach_from(start);
    bank.reattach(tail);
    proof {
        assert(live.subrange(0, end as int).subrange(start as int, end as int) =~= live.subrange(
            start as int,
            end as int,
        ));
        assert(live.subrange(0, end as int).subrange(0, start as int) =~= live.subrange(
            0,
            start as int,
        ));
    }
    Drain::new(taken)
}

/// The elements that a drain took out of a container, owned by the drain
/// and handed out from either end; those never handed out are dropped with
/// it.
#[derive(Debug)]
pub struct Drain<T> {
    items: VecDeque<T>,
}

impl<T> View for Drain<T> {
    type V = Seq<T>;

    closed spec fn view(&self) -> Seq<T> {
        self.items@
    }
}

impl<T> Drain<T> {
    /// A drain over `taken`, in order.
    pub fn new(taken: Vec<T>) -> (r: Self)
        ensures
            r@ == taken@,
    {
        let mut rest = taken;
        let mut items: VecDeque<T> = VecDeque::new();
        while rest.len() > 0
            invariant
                rest@ + items@ == taken@,
            decreases rest@.len(),
        {
            let ghost before = rest@;
            match rest.pop() {
                Some(x) => {
                    items.push_front(x);
                    proof {
                        assert(before =~= rest@.push(x));
                        assert(rest@ + items@ =~= before + items@.drop_first());
                    }
                },
                None => {},
            }
        }
        proof {
            assert(rest@ + items@ =~= items@);
        }
        Drain { items }
    }

    /// Hands out the first element left, if any.
    pub fn next(&mut self) -> (r: Option<T>)
        ensures
            old(self)@.len() == 0 ==> r is None && final(self)@ == old(self)@,
            old(self)@.len() > 0 ==> r == Some(old(self)@[0]) && final(self)@ == old(
                self,
            )@.subrange(1, old(self)@.len() as int),
    {
        self.items.pop_front()
    }

    /// Hands out the last element left, if any.
    pub fn next_back(&mut self) -> (r: Option<T>)
        ensures
            old(self)@.len() == 0 ==> r is None && final(self)@ == old(self)@,
            old(self)@.len() > 0 ==> r == Some(old(self)@.last()) && final(self)@ == old(
                self,
            )@.drop_last(),
    {
        self.items.pop_back()
    }

    /// The number of elements left.
    pub fn len(&self) -> (r: usize)
        ensures
            r == self@.len(),
    {
        self.items.len()
    }

    /// The number of elements left, as a lower and an upper bound.
    pub fn size_hint(&self) -> (r: (usize, Option<usize>))
        ensures
            r.0 == self@.len(),
            r.1 == Some(self@.len() as usize),
    {
        let n = self.items.len();
        (n, Some(n))
    }

    /// The elements left, in order.
    pub fn into_vec(self) -> (r: Vec<T>)
        ensures
            r@ == self@,
    {
        let ghost all = self@;
        let mut items = self.items;
        let mut out: Vec<T> = Vec::new();
        while items.len() > 0
            invariant
                out@ + items@ == all,
            decreases items@.len(),
        {
            match items.pop_front() {
                Some(x) => {
                    out.push(x);
                    proof {
                        assert(out@ + items@ =~= all);
                    }
                },
                None => {},
            }
        }
        proof {
            assert(out@ + items@ =~= out@);
        }
        out
    }
}

} // verus!
