//! The video handoff: at most one pending, owned value.
//!
//! Anything that can hold two frames accumulates staleness by design, so [`Slot::put`] never
//! blocks and never queues: it replaces. The producer gets the displaced value back, which lets
//! it count a drop and reuse the allocation.

use vstd::prelude::*;

use crate::clock::Nanos;

verus! {

/// A one-deep replace-on-full handoff.
///
/// Two threads share it behind one lock; a thread that [`Slot::wait_take`] tells to wait sleeps
/// on a condition that [`Slot::put`] and [`Slot::close`] signal.
pub struct Slot<T> {
    value: Option<T>,
    closed: bool,
    dropped: u64,
}

/// What a slot holds.
pub ghost struct SlotView<T> {
    pub pending: Option<T>,
    pub closed: bool,
    pub dropped: nat,
}

impl<T> SlotView<T> {
    /// A closed slot holds nothing.
    pub open spec fn sound(self) -> bool {
        self.closed ==> self.pending is None
    }

    /// The slot after `v` was put in, and the value that comes back.
    pub open spec fn put(self, v: T) -> (SlotView<T>, Option<T>) {
        if self.closed {
            (self, Some(v))
        } else {
            let dropped = if self.pending is Some {
                self.dropped + 1
            } else {
                self.dropped
            };
            (SlotView { pending: Some(v), dropped, ..self }, self.pending)
        }
    }

    /// The slot after its value was taken, and that value.
    pub open spec fn take(self) -> (SlotView<T>, Option<T>) {
        (SlotView { pending: None, ..self }, self.pending)
    }

    /// The slot after it was closed.
    pub open spec fn close(self) -> SlotView<T> {
        SlotView { pending: None, closed: true, ..self }
    }
}

impl<T> View for Slot<T> {
    type V = SlotView<T>;

    closed spec fn view(&self) -> SlotView<T> {
        SlotView { pending: self.value, closed: self.closed, dropped: self.dropped as nat }
    }
}

/// What a thread that wants a value does next.
#[derive(Debug, PartialEq, Eq)]
pub enum TakeStep<T> {
    /// The wait is over, with the value or with none.
    Done(Option<T>),
    /// Sleep for at most this long, then ask again.
    Wait(Nanos),
}

impl<T> Slot<T> {
    /// A closed slot holds nothing.
    #[verifier::type_invariant]
    spec fn inv(&self) -> bool {
        self@.sound()
    }

    /// An empty, open slot.
    pub fn new() -> (s: Slot<T>)
        ensures
            s@.pending is None,
            !s@.closed,
            s@.dropped == 0,
    {
        Slot { value: None, closed: false, dropped: 0 }
    }

    /// Puts `v` in the slot and hands back the value it displaced.
    ///
    /// A closed slot hands `v` itself back. That is no drop, since nothing was displaced.
    pub fn put(&mut self, v: T) -> (r: Option<T>)
        requires
            old(self)@.dropped < u64::MAX,
        ensures
            (final(self)@, r) == old(self)@.put(v),
            old(self)@.sound() && final(self)@.sound(),
    {
        proof {
            use_type_invariant(&*self);
        }
        if self.closed {
            return Some(v);
        }
        let mut displaced = Some(v);
        core::mem::swap(&mut displaced, &mut self.value);
        if displaced.is_some() {
            self.dropped = self.dropped + 1;
        }
        displaced
    }

    /// Takes the pending value, if there is one.
    pub fn take(&mut self) -> (r: Option<T>)
        ensures
            (final(self)@, r) == old(self)@.take(),
            old(self)@.sound() && final(self)@.sound(),
    {
        proof {
            use_type_invariant(&*self);
        }
        let mut taken = None;
        core::mem::swap(&mut taken, &mut self.value);
        taken
    }

    /// How much longer a thread waits for a value until `deadline`, if it goes on waiting.
    pub open spec fn still_waits(
        slot: SlotView<T>,
        timeout: Nanos,
        deadline: Option<Nanos>,
        now: Nanos,
    ) -> Option<Nanos> {
        if slot.pending is Some || slot.closed {
            None
        } else {
            match deadline {
                None => Some(timeout),
                Some(d) => if now < d {
                    Some((d - now) as Nanos)
                } else {
                    None
                },
            }
        }
    }

    /// One look at the slot by a thread that waits for a value until `deadline`.
    ///
    /// A pending value is taken whatever the clock says. Without one, the wait ends with `None`
    /// on a closed slot and at the deadline. No deadline means that `timeout` was too long to
    /// reach: then it is slept out whole.
    pub fn wait_take(&mut self, timeout: Nanos, deadline: Option<Nanos>, now: Nanos) -> (r: TakeStep<
        T,
    >)
        ensures
            final(self)@ == old(self)@.take().0,
            old(self)@.sound() && final(self)@.sound(),
            r == (if old(self)@.pending is Some || old(self)@.closed {
                TakeStep::Done(old(self)@.pending)
            } else {
                match deadline {
                    None => TakeStep::Wait(timeout),
                    Some(d) => if now < d {
                        TakeStep::Wait((d - now) as Nanos)
                    } else {
                        TakeStep::Done(None)
                    },
                }
            }),
            r is Wait <==> Slot::still_waits(old(self)@, timeout, deadline, now) is Some,
            r matches TakeStep::Wait(t) ==> t == Slot::still_waits(
                old(self)@,
                timeout,
                deadline,
                now,
            )->0,
    {
        proof {
            use_type_invariant(&*self);
        }
        let taken = self.take();
        if taken.is_some() || self.closed {
            return TakeStep::Done(taken);
        }
        match deadline {
            None => TakeStep::Wait(timeout),
            Some(d) => {
                if now < d {
                    TakeStep::Wait(d - now)
                } else {
                    TakeStep::Done(None)
                }
            },
        }
    }

    /// Closes the slot and drops what was pending. Closing it again changes nothing.
    pub fn close(&mut self)
        ensures
            final(self)@ == old(self)@.close(),
            old(self)@.sound() && final(self)@.sound(),
    {
        proof {
            use_type_invariant(&*self);
        }
        self.value = None;
        self.closed = true;
    }

    /// Whether the slot was closed.
    pub fn is_closed(&self) -> (r: bool)
        ensures
            r == self@.closed,
            self@.sound(),
    {
        proof {
            use_type_invariant(self);
        }
        self.closed
    }

    /// How many values were displaced by [`Slot::put`].
    pub fn dropped(&self) -> (r: u64)
        ensures
            r == self@.dropped,
    {
        self.dropped
    }

    /// Whether a value is pending.
    pub fn is_pending(&self) -> (r: bool)
        ensures
            r == (self@.pending is Some),
            self@.sound(),
    {
        proof {
            use_type_invariant(self);
        }
        self.value.is_some()
    }
}

impl<T> Default for Slot<T> {
    fn default() -> (s: Slot<T>)
        ensures
            s@.pending is None,
            !s@.closed,
            s@.dropped == 0,
    {
        Slot::new()
    }
}

/// One use of a slot.
pub ghost enum SlotUse<T> {
    Put(T),
    Take,
    Close,
}

/// What a run of uses did with the values.
pub ghost struct SlotRun<T> {
    pub slot: SlotView<T>,
    /// What the consumer got, in order.
    pub taken: Seq<T>,
    /// What the producer got back in exchange for a newer value.
    pub displaced: Seq<T>,
    /// What a closed slot handed straight back.
    pub refused: Seq<T>,
    /// What was pending when the slot was closed.
    pub discarded: Seq<T>,
}

/// `s` with the value of `v` behind it, if there is one.
pub open spec fn with<T>(s: Seq<T>, v: Option<T>) -> Seq<T> {
    match v {
        Some(x) => s.push(x),
        None => s,
    }
}

/// A run of uses of a new slot.
pub open spec fn slot_run<T>(uses: Seq<SlotUse<T>>) -> SlotRun<T>
    decreases uses.len(),
{
    if uses.len() == 0 {
        SlotRun {
            slot: SlotView { pending: None, closed: false, dropped: 0 },
            taken: seq![],
            displaced: seq![],
            refused: seq![],
            discarded: seq![],
        }
    } else {
        let run = slot_run(uses.drop_last());
        match uses.last() {
            SlotUse::Put(v) => {
                let (slot, back) = run.slot.put(v);
                if run.slot.closed {
                    SlotRun { slot, refused: with(run.refused, back), ..run }
                } else {
                    SlotRun { slot, displaced: with(run.displaced, back), ..run }
                }
            },
            SlotUse::Take => {
                let (slot, got) = run.slot.take();
                SlotRun { slot, taken: with(run.taken, got), ..run }
            },
            SlotUse::Close => SlotRun {
                slot: run.slot.close(),
                discarded: with(run.discarded, run.slot.pending),
                ..run
            },
        }
    }
}

/// The values that a run put in, in order.
pub open spec fn values_put<T>(uses: Seq<SlotUse<T>>) -> Seq<T>
    decreases uses.len(),
{
    if uses.len() == 0 {
        seq![]
    } else {
        match uses.last() {
            SlotUse::Put(v) => values_put(uses.drop_last()).push(v),
            _ => values_put(uses.drop_last()),
        }
    }
}

/// No value is ever duplicated or lost: each one that was put in was taken once, displaced once,
/// refused once, discarded by the closing, or is the one still pending. The slot's own counter is
/// the number of displaced values.
pub proof fn every_value_is_delivered_once_or_dropped_once<T>(uses: Seq<SlotUse<T>>)
    ensures
        ({
            let run = slot_run(uses);
            &&& values_put(uses).to_multiset() =~= with(run.taken, run.slot.pending).to_multiset().add(
                run.displaced.to_multiset(),
            ).add(run.refused.to_multiset()).add(run.discarded.to_multiset())
            &&& run.slot.dropped == run.displaced.len()
            &&& run.slot.closed ==> run.slot.pending is None
        }),
    decreases uses.len(),
{
    broadcast use vstd::seq_lib::group_to_multiset_ensures;

    if uses.len() > 0 {
        every_value_is_delivered_once_or_dropped_once(uses.drop_last());
    }
}

/// A consumer never sees an older value after a newer one: where values go in in ascending
/// order they come out in ascending order, the one still pending last.
pub proof fn values_come_out_in_the_order_they_went_in(uses: Seq<SlotUse<int>>)
    requires
        ascending(values_put(uses)),
    ensures
        ascending(with(slot_run(uses).taken, slot_run(uses).slot.pending)),
{
    lemma_run_order(uses);
}

/// Each value is greater than the ones before it.
pub open spec fn ascending(s: Seq<int>) -> bool {
    forall|i: int, j: int| 0 <= i < j < s.len() ==> s[i] < s[j]
}

proof fn lemma_run_order(uses: Seq<SlotUse<int>>)
    requires
        ascending(values_put(uses)),
    ensures
        ({
            let run = slot_run(uses);
            let out = with(run.taken, run.slot.pending);
            &&& ascending(out)
            &&& forall|i: int|
                0 <= i < out.len() ==> values_put(uses).len() > 0 && out[i] <= values_put(
                    uses,
                ).last()
        }),
    decreases uses.len(),
{
    if uses.len() > 0 {
        let before = uses.drop_last();
        let all = values_put(uses);
        let earlier = values_put(before);
        assert forall|i: int, j: int| 0 <= i < j < earlier.len() implies earlier[i] < earlier[j] by {
            assert(all[i] == earlier[i]);
            assert(all[j] == earlier[j]);
        }
        lemma_run_order(before);
        let run = slot_run(before);
        let out = with(run.taken, run.slot.pending);
        let next = slot_run(uses);
        let next_out = with(next.taken, next.slot.pending);
        if let SlotUse::Put(v) = uses.last() {
            assert(all.last() == v);
            if earlier.len() > 0 {
                assert(all[earlier.len() - 1] == earlier.last());
                assert(all[all.len() - 1] == v);
            }
            if !run.slot.closed {
                assert(next_out =~= out.take(run.taken.len() as int).push(v));
            } else {
                assert(next_out =~= out);
            }
        } else if let SlotUse::Take = uses.last() {
            assert(next_out =~= out);
            assert(all =~= earlier);
        } else {
            assert(all =~= earlier);
            assert(next_out =~= out.take(run.taken.len() as int));
        }
    }
}

} // verus!
