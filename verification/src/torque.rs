//! Switching the torque of every servo.
//!
//! Every servo is written, whatever the others answered. One dropped acknowledgement used to
//! end the sweep there, which on the way to a power-off left a robot sitting down with half
//! its legs still locked. Failures are collected instead, and the sweep fails at the end
//! naming every servo that did not answer, so the caller can decide whether to ask again.

use vstd::prelude::*;
use crate::action::{BusAction, Next};

verus! {

/// The state of a torque sweep, as a mathematical value.
pub struct TorqueView {
    pub ids: Seq<u8>,
    pub on: bool,
    /// Index of the servo whose write is outstanding; `ids.len()` once all are done.
    pub next: nat,
    /// The servos whose write failed, with what the bus said, in the order written.
    pub failed: Seq<(u8, String)>,
}

/// The write of servo `k`.
pub open spec fn torque_write(v: TorqueView, k: nat) -> BusAction {
    BusAction::WriteTorque { id: v.ids[k as int], on: v.on }
}

/// The sweep before anything was written.
pub open spec fn torque_start(ids: Seq<u8>, on: bool) -> (TorqueView, Next) {
    let v = TorqueView { ids, on, next: 0, failed: Seq::empty() };
    if ids.len() == 0 { (v, Next::Finish) } else { (v, Next::Perform(torque_write(v, 0))) }
}

/// One step of the sweep on the outcome of the outstanding write: a failure is recorded, and
/// the next servo is written either way.
pub open spec fn torque_next(v: TorqueView, outcome: Result<(), String>) -> (TorqueView, Next) {
    if v.next >= v.ids.len() {
        (v, Next::Finish)
    } else {
        let failed = match outcome {
            Ok(()) => v.failed,
            Err(msg) => v.failed.push((v.ids[v.next as int], msg)),
        };
        let w = TorqueView { next: v.next + 1, failed, ..v };
        if w.next < v.ids.len() { (w, Next::Perform(torque_write(w, w.next))) } else { (w, Next::Finish) }
    }
}

/// The actions a sweep hands out in answer to a sequence of outcomes.
pub open spec fn torque_actions(v: TorqueView, outcomes: Seq<Result<(), String>>) -> Seq<BusAction>
    decreases outcomes.len(),
{
    if outcomes.len() == 0 {
        Seq::empty()
    } else {
        let (w, n) = torque_next(v, outcomes[0]);
        let rest = torque_actions(w, outcomes.drop_first());
        match n {
            Next::Perform(a) => seq![a] + rest,
            Next::Finish => rest,
        }
    }
}

/// The state a sweep reaches after a sequence of outcomes.
pub open spec fn torque_after(v: TorqueView, outcomes: Seq<Result<(), String>>) -> TorqueView
    decreases outcomes.len(),
{
    if outcomes.len() == 0 { v } else { torque_after(torque_next(v, outcomes[0]).0, outcomes.drop_first()) }
}

/// The failures a sequence of outcomes records for the servos `ids`.
pub open spec fn failures_of(ids: Seq<u8>, outcomes: Seq<Result<(), String>>) -> Seq<(u8, String)>
    decreases outcomes.len(),
{
    if outcomes.len() == 0 || ids.len() == 0 {
        Seq::empty()
    } else {
        let rest = failures_of(ids.drop_first(), outcomes.drop_first());
        match outcomes[0] {
            Ok(()) => rest,
            Err(msg) => seq![(ids[0], msg)] + rest,
        }
    }
}

/// Every servo is written, whatever the others answered: from any point of a sweep, the
/// writes still to come are those of every remaining servo, in order, and the failures
/// recorded are exactly those of the outcomes reported.
pub proof fn every_servo_is_written(v: TorqueView, outcomes: Seq<Result<(), String>>)
    requires
        v.next < v.ids.len(),
        outcomes.len() == v.ids.len() - v.next,
    ensures
        torque_actions(v, outcomes)
            == v.ids.subrange(v.next + 1 as int, v.ids.len() as int).map_values(|id: u8| BusAction::WriteTorque { id, on: v.on }),
        torque_after(v, outcomes).next == v.ids.len(),
        torque_after(v, outcomes).failed == v.failed + failures_of(v.ids.subrange(v.next as int, v.ids.len() as int), outcomes),
    decreases outcomes.len(),
{
    let (w, n) = torque_next(v, outcomes[0]);
    let rest_ids = v.ids.subrange(v.next as int, v.ids.len() as int);
    assert(rest_ids.drop_first() =~= v.ids.subrange(v.next + 1 as int, v.ids.len() as int));
    if w.next < v.ids.len() {
        every_servo_is_written(w, outcomes.drop_first());
        assert(torque_actions(v, outcomes) =~= v.ids.subrange(v.next + 1 as int, v.ids.len() as int).map_values(|id: u8| BusAction::WriteTorque { id, on: v.on }));
        match outcomes[0] {
            Ok(()) => {},
            Err(msg) => {
                assert(w.failed + failures_of(rest_ids.drop_first(), outcomes.drop_first())
                    =~= v.failed + failures_of(rest_ids, outcomes));
            },
        }
    } else {
        assert(outcomes.drop_first().len() == 0);
        assert(torque_actions(w, outcomes.drop_first()) =~= Seq::<BusAction>::empty());
        assert(torque_after(w, outcomes.drop_first()) == w);
        assert(v.ids.subrange(v.next + 1 as int, v.ids.len() as int).len() == 0);
        assert(torque_actions(v, outcomes) =~= v.ids.subrange(v.next + 1 as int, v.ids.len() as int).map_values(|id: u8| BusAction::WriteTorque { id, on: v.on }));
        assert(failures_of(rest_ids.drop_first(), outcomes.drop_first()) =~= Seq::<(u8, String)>::empty());
        match outcomes[0] {
            Ok(()) => {
                assert(failures_of(rest_ids, outcomes) =~= Seq::<(u8, String)>::empty());
                assert(w.failed =~= v.failed + failures_of(rest_ids, outcomes));
            },
            Err(msg) => {
                assert(failures_of(rest_ids, outcomes) =~= seq![(rest_ids[0], msg)]);
                assert(w.failed =~= v.failed + failures_of(rest_ids, outcomes));
            },
        }
    }
}

/// A sweep writes what was asked of it: the first write of a sweep started with `on` is to the
/// first servo, and, whatever the servos answer, the writes that follow are to every other
/// servo in order, each with that same `on`.
pub proof fn a_sweep_writes_what_was_asked(ids: Seq<u8>, on: bool, outcomes: Seq<Result<(), String>>)
    requires
        ids.len() > 0,
        outcomes.len() == ids.len(),
    ensures
        torque_start(ids, on).1 == Next::Perform(BusAction::WriteTorque { id: ids[0], on }),
        torque_actions(torque_start(ids, on).0, outcomes).len() == ids.len() - 1,
        forall|i: int| 0 <= i < ids.len() - 1 ==> #[trigger] torque_actions(torque_start(ids, on).0, outcomes)[i]
            == (BusAction::WriteTorque { id: ids[i + 1], on }),
{
    let v = torque_start(ids, on).0;
    every_servo_is_written(v, outcomes);
    assert(v.on == on);
}

/// The sweep never changes what it was asked to write.
pub proof fn a_sweep_keeps_its_setting(v: TorqueView, outcome: Result<(), String>)
    ensures
        torque_next(v, outcome).0.on == v.on,
        torque_next(v, outcome).0.ids == v.ids,
        (torque_next(v, outcome).1 matches Next::Perform(BusAction::WriteTorque { id, on }) ==> on == v.on),
{
}

/// Switches the torque of a list of servos, one write each.
pub struct TorqueSweep {
    ids: Vec<u8>,
    on: bool,
    next: usize,
    failed: Vec<(u8, String)>,
}

impl View for TorqueSweep {
    type V = TorqueView;

    closed spec fn view(&self) -> TorqueView {
        TorqueView { ids: self.ids@, on: self.on, next: self.next as nat, failed: self.failed@ }
    }
}

impl TorqueSweep {
    /// Starts switching the torque of `ids` to `on`, in that order.
    pub fn start(ids: Vec<u8>, on: bool) -> (r: (TorqueSweep, Next))
        ensures
            (r.0@, r.1) == torque_start(ids@, on),
            r.0@.on == on,
            ids@.len() > 0 ==> r.1 == Next::Perform(BusAction::WriteTorque { id: ids@[0], on }),
    {
        let sweep = TorqueSweep { ids, on, next: 0, failed: Vec::new() };
        if sweep.ids.len() == 0 {
            (sweep, Next::Finish)
        } else {
            let first = BusAction::WriteTorque { id: sweep.ids[0], on };
            (sweep, Next::Perform(first))
        }
    }

    /// Takes the outcome of the outstanding write, with the bus's complaint if it failed, and
    /// returns the next write.
    pub fn step(&mut self, outcome: Result<(), String>) -> (n: Next)
        ensures
            (final(self)@, n) == torque_next(old(self)@, outcome),
    {
        if self.next >= self.ids.len() {
            return Next::Finish;
        }
        let id = self.ids[self.next];
        match outcome {
            Ok(()) => {},
            Err(msg) => {
                self.failed.push((id, msg));
            },
        }
        self.next = self.next + 1;
        if self.next < self.ids.len() {
            Next::Perform(BusAction::WriteTorque { id: self.ids[self.next], on: self.on })
        } else {
            Next::Finish
        }
    }

    /// How the sweep went: success when no write failed, else every failure in order.
    pub fn outcome(self) -> (r: Result<(), Vec<(u8, String)>>)
        ensures
            self@.failed.len() == 0 ==> r is Ok,
            self@.failed.len() > 0 ==> (r matches Err(f) && f@ == self@.failed),
    {
        if self.failed.len() == 0 {
            Ok(())
        } else {
            Err(self.failed)
        }
    }
}

} // verus!
