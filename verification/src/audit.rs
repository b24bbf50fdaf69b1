//! The EEPROM check every servo gets: each expected register is read, and rewritten when it
//! does not hold its value. A factory-reset or swapped-in servo arrives with a return delay
//! that alone would eat much of the tick budget; this is what puts it right.

use vstd::prelude::*;
use crate::action::{BusAction, BusEvent, Next, EEPROM_SETTLE_MS};
use crate::model::{expected_registers_spec, Register};
use crate::short_read::{ReadSite, ShortRead};

verus! {

/// Where an audit stands.
#[derive(Clone, Copy, Debug, PartialEq, Eq, Structural)]
pub enum AuditPhase {
    /// The current register has been asked for.
    Reading,
    /// The current register is being rewritten.
    Writing,
    /// Waiting for the rewrite to settle.
    Settling,
    /// Every register was checked, or a read came back empty.
    Finished,
}

/// The state of an audit, as a mathematical value.
pub struct AuditView {
    pub ids: Seq<u8>,
    pub expected: Seq<(Register, u8)>,
    /// Index of the servo being checked.
    pub joint: nat,
    /// Index of the register being checked.
    pub reg: nat,
    /// Registers rewritten so far.
    pub fixed: nat,
    pub phase: AuditPhase,
    /// A read came back empty: the servo did not answer.
    pub short: bool,
}

/// The read of the current register.
pub open spec fn audit_read(v: AuditView) -> BusAction {
    BusAction::ReadRegister { id: v.ids[v.joint as int], register: v.expected[v.reg as int].0 }
}

/// Moves past the current register: to the next register of the same servo, else to the
/// first register of the next servo, else to the end.
pub open spec fn audit_advance(v: AuditView) -> (AuditView, Next) {
    if v.reg + 1 < v.expected.len() {
        let w = AuditView { reg: v.reg + 1, phase: AuditPhase::Reading, ..v };
        (w, Next::Perform(audit_read(w)))
    } else if v.joint + 1 < v.ids.len() {
        let w = AuditView { joint: v.joint + 1, reg: 0, phase: AuditPhase::Reading, ..v };
        (w, Next::Perform(audit_read(w)))
    } else {
        (AuditView { phase: AuditPhase::Finished, ..v }, Next::Finish)
    }
}

/// The audit of `expected` on every servo of `ids`, before anything was asked.
pub open spec fn audit_start(ids: Seq<u8>, expected: Seq<(Register, u8)>) -> (AuditView, Next) {
    let v = AuditView { ids, expected, joint: 0, reg: 0, fixed: 0, phase: AuditPhase::Reading, short: false };
    if ids.len() == 0 || expected.len() == 0 {
        (AuditView { phase: AuditPhase::Finished, ..v }, Next::Finish)
    } else {
        (v, Next::Perform(audit_read(v)))
    }
}

/// One step of the audit on the outcome of the last action.
///
/// A read that gives a value equal to the expected one moves on; a different value is
/// rewritten, and after the write has settled the register counts as fixed. A read that gives
/// nothing ends the audit: a servo that does not answer must not pass as one whose registers
/// are fine.
pub open spec fn audit_next(v: AuditView, e: BusEvent) -> (AuditView, Next) {
    match v.phase {
        AuditPhase::Reading => match e {
            BusEvent::Value(Some(got)) => if got == v.expected[v.reg as int].1 {
                audit_advance(v)
            } else {
                (AuditView { phase: AuditPhase::Writing, ..v }, Next::Perform(BusAction::WriteRegister {
                    id: v.ids[v.joint as int],
                    register: v.expected[v.reg as int].0,
                    value: v.expected[v.reg as int].1,
                }))
            },
            _ => (AuditView { phase: AuditPhase::Finished, short: true, ..v }, Next::Finish),
        },
        AuditPhase::Writing => (AuditView { phase: AuditPhase::Settling, ..v }, Next::Perform(BusAction::Pause { millis: EEPROM_SETTLE_MS })),
        AuditPhase::Settling => audit_advance(AuditView { fixed: v.fixed + 1, ..v }),
        AuditPhase::Finished => (v, Next::Finish),
    }
}

/// Registers whose check has been completed before the current one.
pub open spec fn audited_before(v: AuditView) -> nat {
    v.joint * v.expected.len() + v.reg
}

/// The shape every reachable audit state has.
pub open spec fn audit_wf(v: AuditView) -> bool {
    &&& v.phase != AuditPhase::Finished ==> v.joint < v.ids.len() && v.reg < v.expected.len()
    &&& v.phase != AuditPhase::Finished ==> v.fixed <= audited_before(v)
    &&& v.phase != AuditPhase::Finished ==> !v.short
    &&& v.phase == AuditPhase::Finished ==> v.fixed <= v.ids.len() * v.expected.len()
}

/// What the finished audit reports: how many registers were rewritten, or that a read came
/// back empty.
pub open spec fn audit_result(v: AuditView) -> Result<usize, ShortRead> {
    if v.short {
        Err(ShortRead { what: ReadSite::RegisterRead, expected: 1, got: 0 })
    } else {
        Ok(v.fixed as usize)
    }
}

proof fn lemma_next_register_in_range(j: nat, r: nat, n: nat, m: nat)
    by (nonlinear_arith)
    requires
        j < n,
        r < m,
    ensures
        j * m + r + 1 <= n * m,
        r + 1 == m ==> j * m + r + 1 == (j + 1) * m,
        r + 1 == m && j + 1 == n ==> j * m + r + 1 == n * m,
{
}

/// Every step keeps the audit in shape; in particular the count of rewritten registers never
/// exceeds the number of registers checked.
pub proof fn audit_keeps_shape(v: AuditView, e: BusEvent)
    requires
        audit_wf(v),
    ensures
        audit_wf(audit_next(v, e).0),
        audit_next(v, e).0.ids == v.ids,
        audit_next(v, e).0.expected == v.expected,
        audit_next(v, e).0.fixed <= v.fixed + 1,
        audit_next(v, e).0.fixed >= v.fixed,
{
    if v.phase != AuditPhase::Finished {
        lemma_next_register_in_range(v.joint, v.reg, v.ids.len(), v.expected.len());
    }
}

/// An audit starts in shape.
pub proof fn audit_starts_in_shape(ids: Seq<u8>, expected: Seq<(Register, u8)>)
    ensures
        audit_wf(audit_start(ids, expected).0),
{
}

/// A register is rewritten only after its read returned a value other than the expected one,
/// and it is rewritten with the expected value.
pub proof fn only_wrong_registers_are_written(v: AuditView, e: BusEvent, id: u8, register: Register, value: u8)
    requires
        audit_next(v, e).1 == Next::Perform(BusAction::WriteRegister { id, register, value }),
    ensures
        v.phase == AuditPhase::Reading,
        e matches BusEvent::Value(Some(got)) && got != value,
        (register, value) == v.expected[v.reg as int],
        id == v.ids[v.joint as int],
{
}

/// The answer of a servo whose current register holds its expected value.
pub open spec fn clean_read(v: AuditView) -> BusEvent {
    BusEvent::Value(Some(v.expected[v.reg as int].1))
}

/// The audit after `k` reads that all find the expected value.
pub open spec fn audit_after_clean_reads(v: AuditView, k: nat) -> AuditView
    decreases k,
{
    if k == 0 { v } else { audit_after_clean_reads(audit_next(v, clean_read(v)).0, (k - 1) as nat) }
}

/// The actions an audit hands out over `k` reads that all find the expected value.
pub open spec fn actions_after_clean_reads(v: AuditView, k: nat) -> Seq<Next>
    decreases k,
{
    if k == 0 {
        Seq::empty()
    } else {
        seq![audit_next(v, clean_read(v)).1] + actions_after_clean_reads(audit_next(v, clean_read(v)).0, (k - 1) as nat)
    }
}

/// Whether an action rewrites a register.
pub open spec fn is_write(n: Next) -> bool {
    n matches Next::Perform(BusAction::WriteRegister { .. })
}

/// From any register on, servos whose registers all hold their values are only read: the
/// audit hands out one read per remaining register, writes nothing, and finishes with its count
/// unchanged.
pub proof fn registers_set_right_are_only_read(v: AuditView, k: nat)
    requires
        audit_wf(v),
        v.phase == AuditPhase::Reading,
        audited_before(v) + k == v.ids.len() * v.expected.len(),
    ensures
        audit_after_clean_reads(v, k).phase == AuditPhase::Finished,
        audit_after_clean_reads(v, k).fixed == v.fixed,
        !audit_after_clean_reads(v, k).short,
        actions_after_clean_reads(v, k).len() == k,
        forall|i: int| 0 <= i < k ==> !is_write(#[trigger] actions_after_clean_reads(v, k)[i]),
    decreases k,
{
    lemma_next_register_in_range(v.joint, v.reg, v.ids.len(), v.expected.len());
    let w = audit_next(v, clean_read(v)).0;
    audit_keeps_shape(v, clean_read(v));
    if w.phase == AuditPhase::Reading {
        assert(audited_before(w) == audited_before(v) + 1);
        registers_set_right_are_only_read(w, (k - 1) as nat);
    } else {
        assert(k == 1);
        assert(actions_after_clean_reads(w, 0) =~= Seq::<Next>::empty());
    }
    let acts = actions_after_clean_reads(v, k);
    assert forall|i: int| 0 <= i < k implies !is_write(#[trigger] acts[i]) by {
        if i > 0 {
            assert(acts[i] == actions_after_clean_reads(w, (k - 1) as nat)[i - 1]);
        }
    }
}

/// An audit of servos whose registers all hold their values reads every register of every
/// servo, writes nothing, and reports no register fixed.
pub proof fn a_servo_set_right_is_only_read(ids: Seq<u8>, expected: Seq<(Register, u8)>)
    requires
        ids.len() > 0,
        expected.len() > 0,
    ensures
        audit_after_clean_reads(audit_start(ids, expected).0, ids.len() * expected.len()).phase == AuditPhase::Finished,
        audit_result(audit_after_clean_reads(audit_start(ids, expected).0, ids.len() * expected.len())) == Ok::<usize, ShortRead>(0),
        forall|i: int| 0 <= i < ids.len() * expected.len() ==>
            !is_write(#[trigger] actions_after_clean_reads(audit_start(ids, expected).0, ids.len() * expected.len())[i]),
{
    let v = audit_start(ids, expected).0;
    assert(audited_before(v) == 0);
    registers_set_right_are_only_read(v, ids.len() * expected.len());
}

/// The audit after a sequence of outcomes.
pub open spec fn audit_after_events(v: AuditView, events: Seq<BusEvent>) -> AuditView
    decreases events.len(),
{
    if events.len() == 0 { v } else { audit_after_events(audit_next(v, events[0]).0, events.drop_first()) }
}

/// The actions an audit hands out in answer to a sequence of outcomes.
pub open spec fn audit_handed_out(v: AuditView, events: Seq<BusEvent>) -> Seq<Next>
    decreases events.len(),
{
    if events.len() == 0 {
        Seq::empty()
    } else {
        seq![audit_next(v, events[0]).1] + audit_handed_out(audit_next(v, events[0]).0, events.drop_first())
    }
}

/// Number of register writes among some actions.
pub open spec fn count_writes(actions: Seq<Next>) -> nat
    decreases actions.len(),
{
    if actions.len() == 0 {
        0
    } else {
        (if is_write(actions[0]) { 1nat } else { 0nat }) + count_writes(actions.drop_first())
    }
}

/// A write handed out whose settling is not over yet.
pub open spec fn write_in_flight(v: AuditView) -> nat {
    if v.phase == AuditPhase::Writing || v.phase == AuditPhase::Settling { 1 } else { 0 }
}

proof fn count_writes_append(a: Seq<Next>, b: Seq<Next>)
    ensures
        count_writes(a + b) == count_writes(a) + count_writes(b),
    decreases a.len(),
{
    if a.len() > 0 {
        assert((a + b).drop_first() =~= a.drop_first() + b);
        count_writes_append(a.drop_first(), b);
    } else {
        assert(a + b =~= b);
    }
}

/// Every register write an audit hands out is counted once its settling is over, whichever
/// register it was: the count grows by exactly the writes handed out, less the one still in
/// flight.
pub proof fn every_write_is_counted(v: AuditView, events: Seq<BusEvent>)
    ensures
        audit_after_events(v, events).fixed + write_in_flight(audit_after_events(v, events))
            == v.fixed + write_in_flight(v) + count_writes(audit_handed_out(v, events)),
    decreases events.len(),
{
    if events.len() > 0 {
        let (w, n) = audit_next(v, events[0]);
        every_write_is_counted(w, events.drop_first());
        count_writes_append(seq![n], audit_handed_out(w, events.drop_first()));
        count_writes_single(n);
    }
}

proof fn count_writes_single(n: Next)
    ensures
        count_writes(seq![n]) == (if is_write(n) { 1nat } else { 0nat }),
{
    assert(seq![n].drop_first() =~= Seq::<Next>::empty());
    assert(seq![n][0] == n);
    assert(count_writes(Seq::<Next>::empty()) == 0);
}

/// A finished audit reports exactly the number of register writes it handed out, counting
/// from its start, whatever the servos answered.
pub proof fn the_count_is_the_writes_handed_out(ids: Seq<u8>, expected: Seq<(Register, u8)>, events: Seq<BusEvent>)
    ensures
        audit_after_events(audit_start(ids, expected).0, events).phase == AuditPhase::Finished ==>
            audit_after_events(audit_start(ids, expected).0, events).fixed
                == count_writes(seq![audit_start(ids, expected).1] + audit_handed_out(audit_start(ids, expected).0, events)),
        audit_after_events(audit_start(ids, expected).0, events).phase == AuditPhase::Finished
            && !audit_after_events(audit_start(ids, expected).0, events).short ==>
            audit_result(audit_after_events(audit_start(ids, expected).0, events))
                == Ok::<usize, ShortRead>(count_writes(seq![audit_start(ids, expected).1]
                    + audit_handed_out(audit_start(ids, expected).0, events)) as usize),
{
    let (v, n) = audit_start(ids, expected);
    every_write_is_counted(v, events);
    count_writes_append(seq![n], audit_handed_out(v, events));
    count_writes_single(n);
    assert(!is_write(n));
    assert(write_in_flight(v) == 0);
}

/// The action an audit in this state is waiting on.
pub open spec fn audit_pending(v: AuditView) -> Next {
    match v.phase {
        AuditPhase::Reading => Next::Perform(audit_read(v)),
        AuditPhase::Writing => Next::Perform(BusAction::WriteRegister {
            id: v.ids[v.joint as int],
            register: v.expected[v.reg as int].0,
            value: v.expected[v.reg as int].1,
        }),
        AuditPhase::Settling => Next::Perform(BusAction::Pause { millis: EEPROM_SETTLE_MS }),
        AuditPhase::Finished => Next::Finish,
    }
}

/// The action an audit hands out is always the one its new state waits on, so running an audit
/// by its pending actions is running it by what `start` and `step` return.
pub proof fn the_pending_action_is_the_one_handed_out(ids: Seq<u8>, expected: Seq<(Register, u8)>, v: AuditView, e: BusEvent)
    requires
        audit_wf(v),
    ensures
        audit_start(ids, expected).1 == audit_pending(audit_start(ids, expected).0),
        audit_next(v, e).1 == audit_pending(audit_next(v, e).0),
{
}

/// What servos that keep what is written answer an action, given what their registers hold: a
/// read of a register they hold gives its value, of one they do not gives nothing.
pub open spec fn store_reply(store: Map<(u8, Register), u8>, n: Next) -> BusEvent {
    match n {
        Next::Perform(BusAction::ReadRegister { id, register }) => if store.contains_key((id, register)) {
            BusEvent::Value(Some(store[(id, register)]))
        } else {
            BusEvent::Value(None)
        },
        _ => BusEvent::Done,
    }
}

/// What the servos' registers hold after an action: a write is kept.
pub open spec fn store_apply(store: Map<(u8, Register), u8>, n: Next) -> Map<(u8, Register), u8> {
    match n {
        Next::Perform(BusAction::WriteRegister { id, register, value }) => store.insert((id, register), value),
        _ => store,
    }
}

/// The audit, and the servos' registers, after `k` actions performed on servos that keep what
/// is written.
pub open spec fn audit_on(v: AuditView, store: Map<(u8, Register), u8>, k: nat) -> (AuditView, Map<(u8, Register), u8>)
    decreases k,
{
    if k == 0 {
        (v, store)
    } else {
        let n = audit_pending(v);
        audit_on(audit_next(v, store_reply(store, n)).0, store_apply(store, n), (k - 1) as nat)
    }
}

/// The `k` actions performed, in order.
pub open spec fn audit_on_actions(v: AuditView, store: Map<(u8, Register), u8>, k: nat) -> Seq<Next>
    decreases k,
{
    if k == 0 {
        Seq::empty()
    } else {
        let n = audit_pending(v);
        seq![n] + audit_on_actions(audit_next(v, store_reply(store, n)).0, store_apply(store, n), (k - 1) as nat)
    }
}

/// No register is expected to hold two different values.
pub open spec fn values_agree(expected: Seq<(Register, u8)>) -> bool {
    forall|a: int, b: int|
        0 <= a < expected.len() && 0 <= b < expected.len() && #[trigger] expected[a].0 == #[trigger] expected[b].0
            ==> expected[a].1 == expected[b].1
}

/// Servo `ids[j]` holds the value expected of register `expected[r]`.
pub open spec fn holds_expected(ids: Seq<u8>, expected: Seq<(Register, u8)>, store: Map<(u8, Register), u8>, j: int, r: int) -> bool {
    &&& store.contains_key((ids[j], expected[r].0))
    &&& store[(ids[j], expected[r].0)] == expected[r].1
}

/// Every expected register of every servo holds its value.
pub open spec fn all_hold_expected(ids: Seq<u8>, expected: Seq<(Register, u8)>, store: Map<(u8, Register), u8>) -> bool {
    forall|j: int, r: int| 0 <= j < ids.len() && 0 <= r < expected.len() ==> #[trigger] holds_expected(ids, expected, store, j, r)
}

/// Register `r` of servo `j` was checked before the current one.
pub open spec fn checked_before(v: AuditView, j: int, r: int) -> bool {
    j < v.joint || (j == v.joint && r < v.reg)
}

/// Every register the audit has got past holds its value; a finished audit that got an answer
/// to every read has got past all of them.
pub open spec fn store_matches_audit(v: AuditView, store: Map<(u8, Register), u8>) -> bool {
    match v.phase {
        AuditPhase::Finished => !v.short ==> all_hold_expected(v.ids, v.expected, store),
        AuditPhase::Settling => {
            &&& holds_expected(v.ids, v.expected, store, v.joint as int, v.reg as int)
            &&& forall|j: int, r: int| 0 <= j < v.ids.len() && 0 <= r < v.expected.len() && checked_before(v, j, r)
                ==> #[trigger] holds_expected(v.ids, v.expected, store, j, r)
        },
        _ => forall|j: int, r: int| 0 <= j < v.ids.len() && 0 <= r < v.expected.len() && checked_before(v, j, r)
            ==> #[trigger] holds_expected(v.ids, v.expected, store, j, r),
    }
}

proof fn advance_keeps_store(v: AuditView, store: Map<(u8, Register), u8>)
    requires
        v.joint < v.ids.len(),
        v.reg < v.expected.len(),
        v.phase != AuditPhase::Finished,
        !v.short,
        holds_expected(v.ids, v.expected, store, v.joint as int, v.reg as int),
        forall|j: int, r: int| 0 <= j < v.ids.len() && 0 <= r < v.expected.len() && checked_before(v, j, r)
            ==> #[trigger] holds_expected(v.ids, v.expected, store, j, r),
    ensures
        store_matches_audit(audit_advance(v).0, store),
{
    let w = audit_advance(v).0;
    if w.phase == AuditPhase::Finished {
        assert forall|j: int, r: int| 0 <= j < v.ids.len() && 0 <= r < v.expected.len()
            implies #[trigger] holds_expected(v.ids, v.expected, store, j, r) by {
            if !(j == v.joint && r == v.reg) {
                assert(checked_before(v, j, r));
            }
        }
    } else {
        assert forall|j: int, r: int| 0 <= j < w.ids.len() && 0 <= r < w.expected.len() && checked_before(w, j, r)
            implies #[trigger] holds_expected(w.ids, w.expected, store, j, r) by {
            if !(j == v.joint && r == v.reg) {
                assert(checked_before(v, j, r));
            }
        }
    }
}

/// One action on servos that keep what is written keeps every register the audit got past at
/// its value, provided no register is expected to hold two values.
pub proof fn an_audit_step_keeps_registers_right(v: AuditView, store: Map<(u8, Register), u8>)
    requires
        audit_wf(v),
        values_agree(v.expected),
        store_matches_audit(v, store),
    ensures
        audit_wf(audit_next(v, store_reply(store, audit_pending(v))).0),
        audit_next(v, store_reply(store, audit_pending(v))).0.ids == v.ids,
        audit_next(v, store_reply(store, audit_pending(v))).0.expected == v.expected,
        store_matches_audit(audit_next(v, store_reply(store, audit_pending(v))).0, store_apply(store, audit_pending(v))),
{
    let n = audit_pending(v);
    let e = store_reply(store, n);
    audit_keeps_shape(v, e);
    match v.phase {
        AuditPhase::Reading => {
            if e == BusEvent::Value(Some(v.expected[v.reg as int].1)) {
                advance_keeps_store(v, store);
            }
        },
        AuditPhase::Writing => {
            let key = (v.ids[v.joint as int], v.expected[v.reg as int].0);
            let s2 = store.insert(key, v.expected[v.reg as int].1);
            let w = audit_next(v, e).0;
            assert forall|j: int, r: int| 0 <= j < w.ids.len() && 0 <= r < w.expected.len() && checked_before(w, j, r)
                implies #[trigger] holds_expected(w.ids, w.expected, s2, j, r) by {
                assert(holds_expected(v.ids, v.expected, store, j, r));
                if (v.ids[j], v.expected[r].0) == key {
                    assert(v.expected[r].0 == v.expected[v.reg as int].0);
                }
            }
        },
        AuditPhase::Settling => {
            advance_keeps_store(AuditView { fixed: v.fixed + 1, ..v }, store);
        },
        AuditPhase::Finished => {},
    }
}

proof fn audit_run_keeps_registers_right(v: AuditView, store: Map<(u8, Register), u8>, k: nat)
    requires
        audit_wf(v),
        values_agree(v.expected),
        store_matches_audit(v, store),
    ensures
        store_matches_audit(audit_on(v, store, k).0, audit_on(v, store, k).1),
        audit_on(v, store, k).0.ids == v.ids,
        audit_on(v, store, k).0.expected == v.expected,
    decreases k,
{
    if k > 0 {
        let n = audit_pending(v);
        an_audit_step_keeps_registers_right(v, store);
        audit_run_keeps_registers_right(audit_next(v, store_reply(store, n)).0, store_apply(store, n), (k - 1) as nat);
    }
}

proof fn a_right_bus_is_only_read(v: AuditView, store: Map<(u8, Register), u8>, k: nat)
    requires
        audit_wf(v),
        v.phase == AuditPhase::Reading,
        audited_before(v) + k == v.ids.len() * v.expected.len(),
        all_hold_expected(v.ids, v.expected, store),
    ensures
        audit_on(v, store, k).0.phase == AuditPhase::Finished,
        audit_on(v, store, k).0.fixed == v.fixed,
        !audit_on(v, store, k).0.short,
        audit_on(v, store, k).1 == store,
        audit_on_actions(v, store, k).len() == k,
        forall|i: int| 0 <= i < k ==> !is_write(#[trigger] audit_on_actions(v, store, k)[i]),
    decreases k,
{
    lemma_next_register_in_range(v.joint, v.reg, v.ids.len(), v.expected.len());
    assert(holds_expected(v.ids, v.expected, store, v.joint as int, v.reg as int));
    let n = audit_pending(v);
    assert(store_reply(store, n) == clean_read(v));
    assert(store_apply(store, n) == store);
    let w = audit_next(v, clean_read(v)).0;
    audit_keeps_shape(v, clean_read(v));
    if w.phase == AuditPhase::Reading {
        assert(audited_before(w) == audited_before(v) + 1);
        a_right_bus_is_only_read(w, store, (k - 1) as nat);
    } else {
        assert(k == 1);
        assert(audit_on_actions(w, store, 0) =~= Seq::<Next>::empty());
    }
    let acts = audit_on_actions(v, store, k);
    assert forall|i: int| 0 <= i < k implies !is_write(#[trigger] acts[i]) by {
        if i > 0 {
            assert(acts[i] == audit_on_actions(w, store, (k - 1) as nat)[i - 1]);
        }
    }
}

/// A second register check, run right after one that got an answer to every read, on servos
/// that keep what is written, reads every register, writes nothing and reports 0, provided no
/// register is expected to hold two values.
pub proof fn a_second_check_finds_nothing(ids: Seq<u8>, expected: Seq<(Register, u8)>, store: Map<(u8, Register), u8>, k: nat)
    requires
        values_agree(expected),
        audit_on(audit_start(ids, expected).0, store, k).0.phase == AuditPhase::Finished,
        audit_result(audit_on(audit_start(ids, expected).0, store, k).0) is Ok,
    ensures
        audit_on(audit_start(ids, expected).0, audit_on(audit_start(ids, expected).0, store, k).1, ids.len() * expected.len()).0.phase
            == AuditPhase::Finished,
        audit_result(audit_on(audit_start(ids, expected).0, audit_on(audit_start(ids, expected).0, store, k).1, ids.len() * expected.len()).0)
            == Ok::<usize, ShortRead>(0),
        audit_on(audit_start(ids, expected).0, audit_on(audit_start(ids, expected).0, store, k).1, ids.len() * expected.len()).1
            == audit_on(audit_start(ids, expected).0, store, k).1,
        forall|i: int| 0 <= i < ids.len() * expected.len() ==> !is_write(
            #[trigger] audit_on_actions(audit_start(ids, expected).0, audit_on(audit_start(ids, expected).0, store, k).1, ids.len() * expected.len())[i]),
{
    let v0 = audit_start(ids, expected).0;
    let s1 = audit_on(v0, store, k).1;
    if ids.len() == 0 || expected.len() == 0 {
        assert(ids.len() * expected.len() == 0) by (nonlinear_arith)
            requires ids.len() == 0 || expected.len() == 0;
    } else {
        audit_run_keeps_registers_right(v0, store, k);
        assert(audited_before(v0) == 0);
        a_right_bus_is_only_read(v0, s1, ids.len() * expected.len());
    }
}

/// The registers asserted on every servo name each register once.
pub proof fn the_expected_registers_agree()
    ensures
        values_agree(expected_registers_spec()),
{
    let e = expected_registers_spec();
    assert forall|a: int, b: int| 0 <= a < e.len() && 0 <= b < e.len() && #[trigger] e[a].0 == #[trigger] e[b].0
        implies e[a].1 == e[b].1 by {
        assert(a == b);
    }
}

/// Checks the expected EEPROM registers of a list of servos.
pub struct RegisterAudit {
    ids: Vec<u8>,
    expected: Vec<(Register, u8)>,
    joint: usize,
    reg: usize,
    fixed: usize,
    phase: AuditPhase,
    short: bool,
}

impl View for RegisterAudit {
    type V = AuditView;

    closed spec fn view(&self) -> AuditView {
        AuditView {
            ids: self.ids@,
            expected: self.expected@,
            joint: self.joint as nat,
            reg: self.reg as nat,
            fixed: self.fixed as nat,
            phase: self.phase,
            short: self.short,
        }
    }
}

impl RegisterAudit {
    /// The audit is in the shape its steps keep, and its count of registers fits a `usize`.
    pub closed spec fn inv(&self) -> bool {
        &&& audit_wf(self@)
        &&& self.ids@.len() * self.expected@.len() <= usize::MAX
    }

    /// Starts the audit of `expected` on every servo of `ids`, in that order.
    pub fn start(ids: Vec<u8>, expected: Vec<(Register, u8)>) -> (r: (RegisterAudit, Next))
        requires
            ids@.len() * expected@.len() <= usize::MAX,
        ensures
            r.0.inv(),
            (r.0@, r.1) == audit_start(ids@, expected@),
    {
        let empty = ids.len() == 0 || expected.len() == 0;
        let audit = RegisterAudit {
            ids,
            expected,
            joint: 0,
            reg: 0,
            fixed: 0,
            phase: if empty { AuditPhase::Finished } else { AuditPhase::Reading },
            short: false,
        };
        if empty {
            (audit, Next::Finish)
        } else {
            let first = audit.read_action();
            (audit, Next::Perform(first))
        }
    }

    fn read_action(&self) -> (a: BusAction)
        requires
            self.joint < self.ids@.len(),
            self.reg < self.expected@.len(),
        ensures
            a == audit_read(self@),
    {
        BusAction::ReadRegister { id: self.ids[self.joint], register: self.expected[self.reg].0 }
    }

    fn advance(&mut self) -> (n: Next)
        requires
            old(self).joint < old(self).ids@.len(),
            old(self).reg < old(self).expected@.len(),
            old(self).fixed <= audited_before(old(self)@) + 1,
            !old(self).short,
            old(self).ids@.len() * old(self).expected@.len() <= usize::MAX,
        ensures
            (final(self)@, n) == audit_advance(old(self)@),
            final(self).inv(),
    {
        proof {
            lemma_next_register_in_range(self.joint as nat, self.reg as nat, self.ids@.len(), self.expected@.len());
        }
        if self.reg < self.expected.len() - 1 {
            self.reg = self.reg + 1;
            self.phase = AuditPhase::Reading;
            Next::Perform(self.read_action())
        } else if self.joint < self.ids.len() - 1 {
            self.joint = self.joint + 1;
            self.reg = 0;
            self.phase = AuditPhase::Reading;
            Next::Perform(self.read_action())
        } else {
            self.phase = AuditPhase::Finished;
            Next::Finish
        }
    }

    /// Takes the outcome of the last action and returns the next one.
    pub fn step(&mut self, e: BusEvent) -> (n: Next)
        requires
            old(self).inv(),
        ensures
            final(self).inv(),
            (final(self)@, n) == audit_next(old(self)@, e),
    {
        match self.phase {
            AuditPhase::Reading => {
                let (register, want) = self.expected[self.reg];
                match e {
                    BusEvent::Value(Some(got)) => {
                        if got == want {
                            self.advance()
                        } else {
                            self.phase = AuditPhase::Writing;
                            Next::Perform(BusAction::WriteRegister { id: self.ids[self.joint], register, value: want })
                        }
                    },
                    _ => {
                        proof { lemma_next_register_in_range(self.joint as nat, self.reg as nat, self.ids@.len(), self.expected@.len()); }
                        self.phase = AuditPhase::Finished;
                        self.short = true;
                        Next::Finish
                    },
                }
            },
            AuditPhase::Writing => {
                self.phase = AuditPhase::Settling;
                Next::Perform(BusAction::Pause { millis: EEPROM_SETTLE_MS })
            },
            AuditPhase::Settling => {
                proof { lemma_next_register_in_range(self.joint as nat, self.reg as nat, self.ids@.len(), self.expected@.len()); }
                self.fixed = self.fixed + 1;
                self.advance()
            },
            AuditPhase::Finished => Next::Finish,
        }
    }

    /// What the audit found: the number of registers rewritten, or that a servo did not
    /// answer a read.
    pub fn outcome(&self) -> (r: Result<usize, ShortRead>)
        ensures
            r == audit_result(self@),
    {
        if self.short {
            Err(ShortRead { what: ReadSite::RegisterRead, expected: 1, got: 0 })
        } else {
            Ok(self.fixed)
        }
    }
}

} // verus!
