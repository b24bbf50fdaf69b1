//! Adopting a factory-fresh servo in place of a missing one.
//!
//! A new servo answers as the factory ID, at the factory speed. Neither is used on this bus,
//! so when exactly one expected servo is silent the new one can be found, given the missing
//! ID, switched to the bus's speed, handed the same EEPROM check every servo gets, and
//! rebooted so that the hardware-error alert the flashing leaves behind is cleared. The
//! procedure ends with the port back at the bus's speed, whether or not a servo was adopted.

use vstd::prelude::*;
use crate::action::{BusAction, BusEvent, Next, EEPROM_SETTLE_MS, REBOOT_SETTLE_MS};
use crate::audit::{audit_next, audit_result, audit_start, AuditPhase, AuditView, RegisterAudit};
use crate::model::{joint_index, Register, BAUD_RATE, FACTORY_BAUD_RATE, FACTORY_ID};
use crate::short_read::ShortRead;

verus! {

/// Where an adoption stands: the action handed out last is the one this phase waits on.
#[derive(Clone, Copy, Debug, PartialEq, Eq, Structural)]
pub enum AdoptPhase {
    /// Pinging the factory ID at the bus's speed.
    PingHere,
    /// Reopening the port at the factory speed.
    ReopenFactory,
    /// Pinging the factory ID at the factory speed.
    PingFactory,
    /// Nothing answered: reopening the port at the bus's speed.
    GiveUp,
    /// Giving the fresh servo the missing ID.
    IdWritten,
    /// Waiting for the ID to settle.
    IdSettle,
    /// Writing the bus's speed into the servo.
    BaudWritten,
    /// Waiting for the speed to settle.
    BaudSettle,
    /// Reopening the port at the bus's speed.
    BackAtSpeed,
    /// Checking the servo's EEPROM registers.
    Auditing,
    /// Rebooting the servo.
    Rebooted,
    /// Waiting for the servo to come back.
    RebootSettle,
    /// Pinging the servo after its reboot.
    PingBack,
    /// Reading the servo's hardware error status.
    HardwareCheck,
    /// Done; the result is final.
    Finished,
}

/// Why an adoption failed.
#[derive(Clone, Copy, Debug, PartialEq, Eq, Structural)]
pub enum AdoptError {
    /// The ID is not one of the joints.
    NotAJoint { id: u8 },
    /// A register read of the new servo came back empty.
    Unanswered(ShortRead),
    /// The servo was flashed but did not answer after its reboot.
    LostAfterReboot { id: u8 },
}

/// The state of an adoption, as a mathematical value.
pub struct AdoptView {
    /// The missing servo's ID, which the fresh one takes.
    pub id: u8,
    pub expected: Seq<(Register, u8)>,
    /// The baud-rate register's expected value.
    pub want_baud: u8,
    pub phase: AdoptPhase,
    /// Speed the port is at once the action handed out last has been performed.
    pub port_baud: u32,
    /// Speed the fresh servo was found at.
    pub found_baud: u32,
    pub audit: Option<AuditView>,
    pub fixed: nat,
    pub hardware_error: u8,
    pub result: Result<bool, AdoptError>,
}

/// The value of the first entry for `reg`.
pub open spec fn first_value(expected: Seq<(Register, u8)>, reg: Register) -> Option<u8>
    decreases expected.len(),
{
    if expected.len() == 0 {
        None
    } else if expected[0].0 == reg {
        Some(expected[0].1)
    } else {
        first_value(expected.drop_first(), reg)
    }
}

/// The value found for a register is that of its first entry: an entry for it holds that
/// value, and no entry before it is for the same register; no value is found only when no entry
/// is for the register.
pub proof fn first_value_is_the_first_entry(expected: Seq<(Register, u8)>, reg: Register)
    ensures
        first_value(expected, reg) matches Some(x) ==> exists|i: int| 0 <= i < expected.len()
            && expected[i] == (reg, x) && forall|j: int| 0 <= j < i ==> #[trigger] expected[j].0 != reg,
        first_value(expected, reg) is None ==> forall|j: int| 0 <= j < expected.len() ==> #[trigger] expected[j].0 != reg,
    decreases expected.len(),
{
    if expected.len() > 0 {
        let rest = expected.drop_first();
        first_value_is_the_first_entry(rest, reg);
        if expected[0].0 == reg {
            assert(expected[0] == (reg, expected[0].1));
        } else {
            if first_value(rest, reg) is Some {
                let x = first_value(rest, reg)->0;
                let i = choose|i: int| 0 <= i < rest.len() && rest[i] == (reg, x)
                    && forall|j: int| 0 <= j < i ==> #[trigger] rest[j].0 != reg;
                assert(expected[i + 1] == (reg, x));
                assert forall|j: int| 0 <= j < i + 1 implies #[trigger] expected[j].0 != reg by {
                    if j > 0 {
                        assert(expected[j] == rest[j - 1]);
                    }
                }
            } else {
                assert forall|j: int| 0 <= j < expected.len() implies #[trigger] expected[j].0 != reg by {
                    if j > 0 {
                        assert(expected[j] == rest[j - 1]);
                    }
                }
            }
        }
    }
}

/// The adoption of a fresh servo as `id`, before anything was asked.
pub open spec fn adopt_start(id: u8, joints: Seq<u8>, expected: Seq<(Register, u8)>) -> (AdoptView, Next) {
    let v = AdoptView {
        id,
        expected,
        want_baud: first_value(expected, Register::BaudRate).unwrap(),
        phase: AdoptPhase::PingHere,
        port_baud: BAUD_RATE,
        found_baud: BAUD_RATE,
        audit: None,
        fixed: 0,
        hardware_error: 0,
        result: Ok(false),
    };
    if !joints.contains(id) {
        (AdoptView { phase: AdoptPhase::Finished, result: Err(AdoptError::NotAJoint { id }), ..v }, Next::Finish)
    } else {
        (v, Next::Perform(BusAction::Ping { id: FACTORY_ID }))
    }
}

/// After the register check: a servo that did not answer a read fails the adoption;
/// otherwise it is rebooted.
pub open spec fn adopt_after_audit(v: AdoptView, a: AuditView) -> (AdoptView, Next) {
    match audit_result(a) {
        Err(e) => (AdoptView { phase: AdoptPhase::Finished, audit: Some(a), result: Err(AdoptError::Unanswered(e)), ..v }, Next::Finish),
        Ok(n) => (AdoptView { phase: AdoptPhase::Rebooted, audit: Some(a), fixed: n as nat, ..v }, Next::Perform(BusAction::Reboot { id: v.id })),
    }
}

/// Starts the register check of the servo now at its ID.
pub open spec fn adopt_begin_audit(v: AdoptView) -> (AdoptView, Next) {
    let (a, n) = audit_start(seq![v.id], v.expected);
    match n {
        Next::Perform(act) => (AdoptView { phase: AdoptPhase::Auditing, audit: Some(a), ..v }, Next::Perform(act)),
        Next::Finish => adopt_after_audit(v, a),
    }
}

/// The write that gives the fresh servo its ID.
pub open spec fn adopt_write_id(v: AdoptView) -> BusAction {
    BusAction::WriteId { current: FACTORY_ID, new: v.id }
}

/// One step of the adoption on the outcome of the last action.
pub open spec fn adopt_next(v: AdoptView, e: BusEvent) -> (AdoptView, Next) {
    match v.phase {
        AdoptPhase::PingHere => if e == BusEvent::Answered(true) {
            (AdoptView { phase: AdoptPhase::IdWritten, found_baud: BAUD_RATE, ..v }, Next::Perform(adopt_write_id(v)))
        } else {
            (AdoptView { phase: AdoptPhase::ReopenFactory, port_baud: FACTORY_BAUD_RATE, ..v },
                Next::Perform(BusAction::Reopen { baud: FACTORY_BAUD_RATE }))
        },
        AdoptPhase::ReopenFactory => (AdoptView { phase: AdoptPhase::PingFactory, ..v }, Next::Perform(BusAction::Ping { id: FACTORY_ID })),
        AdoptPhase::PingFactory => if e == BusEvent::Answered(true) {
            (AdoptView { phase: AdoptPhase::IdWritten, found_baud: FACTORY_BAUD_RATE, ..v }, Next::Perform(adopt_write_id(v)))
        } else {
            (AdoptView { phase: AdoptPhase::GiveUp, port_baud: BAUD_RATE, ..v }, Next::Perform(BusAction::Reopen { baud: BAUD_RATE }))
        },
        AdoptPhase::GiveUp => (AdoptView { phase: AdoptPhase::Finished, result: Ok(false), ..v }, Next::Finish),
        AdoptPhase::IdWritten => (AdoptView { phase: AdoptPhase::IdSettle, ..v }, Next::Perform(BusAction::Pause { millis: EEPROM_SETTLE_MS })),
        AdoptPhase::IdSettle => if v.found_baud != BAUD_RATE {
            (AdoptView { phase: AdoptPhase::BaudWritten, ..v },
                Next::Perform(BusAction::WriteRegister { id: v.id, register: Register::BaudRate, value: v.want_baud }))
        } else {
            adopt_begin_audit(v)
        },
        AdoptPhase::BaudWritten => (AdoptView { phase: AdoptPhase::BaudSettle, ..v }, Next::Perform(BusAction::Pause { millis: EEPROM_SETTLE_MS })),
        AdoptPhase::BaudSettle => (AdoptView { phase: AdoptPhase::BackAtSpeed, port_baud: BAUD_RATE, ..v }, Next::Perform(BusAction::Reopen { baud: BAUD_RATE })),
        AdoptPhase::BackAtSpeed => adopt_begin_audit(v),
        AdoptPhase::Auditing => match v.audit {
            Some(a) => {
                let (a2, n) = audit_next(a, e);
                match n {
                    Next::Perform(act) => (AdoptView { audit: Some(a2), ..v }, Next::Perform(act)),
                    Next::Finish => adopt_after_audit(v, a2),
                }
            },
            None => (v, Next::Finish),
        },
        AdoptPhase::Rebooted => (AdoptView { phase: AdoptPhase::RebootSettle, ..v }, Next::Perform(BusAction::Pause { millis: REBOOT_SETTLE_MS })),
        AdoptPhase::RebootSettle => (AdoptView { phase: AdoptPhase::PingBack, ..v }, Next::Perform(BusAction::Ping { id: v.id })),
        AdoptPhase::PingBack => if e == BusEvent::Answered(true) {
            (AdoptView { phase: AdoptPhase::HardwareCheck, ..v }, Next::Perform(BusAction::ReadHardwareError { id: v.id }))
        } else {
            (AdoptView { phase: AdoptPhase::Finished, result: Err(AdoptError::LostAfterReboot { id: v.id }), ..v }, Next::Finish)
        },
        AdoptPhase::HardwareCheck => {
            let hardware_error = match e {
                BusEvent::Value(Some(x)) => x,
                _ => 0u8,
            };
            (AdoptView { phase: AdoptPhase::Finished, hardware_error, result: Ok(true), ..v }, Next::Finish)
        },
        AdoptPhase::Finished => (v, Next::Finish),
    }
}

/// Where the port stands in each phase: at the factory speed only from the reopen at that
/// speed until the fresh servo has been switched and the port reopened, else at the bus's.
pub open spec fn adopt_port_consistent(v: AdoptView) -> bool {
    match v.phase {
        AdoptPhase::ReopenFactory | AdoptPhase::PingFactory => v.port_baud == FACTORY_BAUD_RATE,
        AdoptPhase::IdWritten | AdoptPhase::IdSettle | AdoptPhase::BaudWritten | AdoptPhase::BaudSettle =>
            v.port_baud == v.found_baud && (v.found_baud == BAUD_RATE || v.found_baud == FACTORY_BAUD_RATE),
        _ => v.port_baud == BAUD_RATE,
    }
}

/// An adoption starts with the port at the bus's speed.
pub proof fn adoption_starts_at_bus_speed(id: u8, joints: Seq<u8>, expected: Seq<(Register, u8)>)
    ensures
        adopt_port_consistent(adopt_start(id, joints, expected).0),
{
}

/// Whichever way an adoption ends, adopted, not found, or failed after the servo was found,
/// the port is back at the bus's speed: every step keeps the port where its phase says, and a
/// finished adoption is at the bus's speed.
pub proof fn adoption_ends_at_bus_speed(v: AdoptView, e: BusEvent)
    requires
        adopt_port_consistent(v),
    ensures
        adopt_port_consistent(adopt_next(v, e).0),
        adopt_next(v, e).1 == Next::Finish ==> adopt_next(v, e).0.port_baud == BAUD_RATE,
        adopt_next(v, e).0.phase == AdoptPhase::Finished ==> adopt_next(v, e).0.port_baud == BAUD_RATE,
{
}

/// The adoption after a sequence of outcomes.
pub open spec fn adopt_after(v: AdoptView, events: Seq<BusEvent>) -> AdoptView
    decreases events.len(),
{
    if events.len() == 0 { v } else { adopt_after(adopt_next(v, events[0]).0, events.drop_first()) }
}

/// Whatever the bus answers along the way, an adoption that has finished leaves the port at
/// the bus's speed: it was adopted, nothing answered, or the servo was lost after its reboot.
pub proof fn every_finished_adoption_is_at_bus_speed(id: u8, joints: Seq<u8>, expected: Seq<(Register, u8)>, events: Seq<BusEvent>)
    ensures
        adopt_after(adopt_start(id, joints, expected).0, events).phase == AdoptPhase::Finished
            ==> adopt_after(adopt_start(id, joints, expected).0, events).port_baud == BAUD_RATE,
{
    port_stays_consistent(adopt_start(id, joints, expected).0, events);
}

proof fn port_stays_consistent(v: AdoptView, events: Seq<BusEvent>)
    requires
        adopt_port_consistent(v),
    ensures
        adopt_port_consistent(adopt_after(v, events)),
    decreases events.len(),
{
    if events.len() > 0 {
        adoption_ends_at_bus_speed(v, events[0]);
        port_stays_consistent(adopt_next(v, events[0]).0, events.drop_first());
    }
}

/// The actions an adoption hands out in answer to a sequence of outcomes.
pub open spec fn adopt_handed_out(v: AdoptView, events: Seq<BusEvent>) -> Seq<Next>
    decreases events.len(),
{
    if events.len() == 0 {
        Seq::empty()
    } else {
        seq![adopt_next(v, events[0]).1] + adopt_handed_out(adopt_next(v, events[0]).0, events.drop_first())
    }
}

/// Past its register check, an adoption has handed out the reboot of the servo; past the
/// reboot, the wait for the servo to come back too.
pub open spec fn rebooted_by(v: AdoptView, handed: Seq<Next>) -> bool {
    &&& v.phase == AdoptPhase::Rebooted ==> handed.contains(Next::Perform(BusAction::Reboot { id: v.id }))
    &&& (v.phase == AdoptPhase::RebootSettle || v.phase == AdoptPhase::PingBack || v.phase == AdoptPhase::HardwareCheck
        || (v.phase == AdoptPhase::Finished && v.result == Ok::<bool, AdoptError>(true))) ==> {
        &&& handed.contains(Next::Perform(BusAction::Reboot { id: v.id }))
        &&& handed.contains(Next::Perform(BusAction::Pause { millis: REBOOT_SETTLE_MS }))
    }
}

proof fn contains_after_push(h: Seq<Next>, x: Next, y: Next)
    requires
        h.contains(x),
    ensures
        h.push(y).contains(x),
{
    let i = choose|i: int| 0 <= i < h.len() && h[i] == x;
    assert(h.push(y)[i] == x);
}

proof fn pushed_is_contained(h: Seq<Next>, y: Next)
    ensures
        h.push(y).contains(y),
{
    assert(h.push(y)[h.len() as int] == y);
}

proof fn reboot_step(v: AdoptView, e: BusEvent, h: Seq<Next>)
    requires
        rebooted_by(v, h),
    ensures
        rebooted_by(adopt_next(v, e).0, h.push(adopt_next(v, e).1)),
        adopt_next(v, e).0.id == v.id,
{
    let (w, n) = adopt_next(v, e);
    let r = Next::Perform(BusAction::Reboot { id: v.id });
    let p = Next::Perform(BusAction::Pause { millis: REBOOT_SETTLE_MS });
    pushed_is_contained(h, n);
    if h.contains(r) {
        contains_after_push(h, r, n);
    }
    if h.contains(p) {
        contains_after_push(h, p, n);
    }
    if v.phase == AdoptPhase::Auditing && v.audit is Some {
        let (a2, n2) = audit_next(v.audit->0, e);
    }
}

proof fn reboot_run(v: AdoptView, events: Seq<BusEvent>, h: Seq<Next>)
    requires
        rebooted_by(v, h),
    ensures
        rebooted_by(adopt_after(v, events), h + adopt_handed_out(v, events)),
        adopt_after(v, events).id == v.id,
    decreases events.len(),
{
    if events.len() == 0 {
        assert(h + adopt_handed_out(v, events) =~= h);
    } else {
        let (w, n) = adopt_next(v, events[0]);
        reboot_step(v, events[0], h);
        reboot_run(w, events.drop_first(), h.push(n));
        assert(h.push(n) + adopt_handed_out(w, events.drop_first()) =~= h + adopt_handed_out(v, events));
    }
}

/// The servo is rebooted at the end, whatever its register check found: every adoption that
/// succeeds, or gets as far as pinging the servo back, has handed out the reboot of the new ID
/// and the wait for it to come back, whatever the bus answered along the way.
pub proof fn an_adopted_servo_was_rebooted(id: u8, joints: Seq<u8>, expected: Seq<(Register, u8)>, events: Seq<BusEvent>)
    ensures
        ({
            let v = adopt_after(adopt_start(id, joints, expected).0, events);
            let h = seq![adopt_start(id, joints, expected).1] + adopt_handed_out(adopt_start(id, joints, expected).0, events);
            (v.phase == AdoptPhase::PingBack || v.phase == AdoptPhase::HardwareCheck
                || (v.phase == AdoptPhase::Finished && v.result == Ok::<bool, AdoptError>(true)))
                ==> h.contains(Next::Perform(BusAction::Reboot { id })) && h.contains(Next::Perform(BusAction::Pause { millis: REBOOT_SETTLE_MS }))
        }),
{
    let (v0, n0) = adopt_start(id, joints, expected);
    reboot_run(v0, events, seq![n0]);
}

/// The servo is pinged back only after the wait that follows its reboot, and that wait only
/// follows the reboot.
pub proof fn ping_back_follows_the_reboot(v: AdoptView, e: BusEvent)
    ensures
        adopt_next(v, e).0.phase == AdoptPhase::PingBack && v.phase != AdoptPhase::PingBack ==> v.phase == AdoptPhase::RebootSettle,
        adopt_next(v, e).0.phase == AdoptPhase::RebootSettle && v.phase != AdoptPhase::RebootSettle ==> v.phase == AdoptPhase::Rebooted
            && adopt_next(v, e).1 == Next::Perform(BusAction::Pause { millis: REBOOT_SETTLE_MS }),
        adopt_next(v, e).0.phase == AdoptPhase::Rebooted && v.phase != AdoptPhase::Rebooted
            ==> adopt_next(v, e).1 == Next::Perform(BusAction::Reboot { id: v.id }),
{
    if v.phase == AdoptPhase::Auditing && v.audit is Some {
        let (a2, n2) = audit_next(v.audit->0, e);
    }
}

/// The ID is written only right after something answered as the factory ID.
pub proof fn id_written_only_after_a_fresh_answer(v: AdoptView, e: BusEvent, current: u8, new: u8)
    requires
        adopt_next(v, e).1 == Next::Perform(BusAction::WriteId { current, new }),
    ensures
        v.phase == AdoptPhase::PingHere || v.phase == AdoptPhase::PingFactory,
        e == BusEvent::Answered(true),
        current == FACTORY_ID,
        new == v.id,
{
    if v.phase == AdoptPhase::Auditing && v.audit is Some {
        let (a2, n) = audit_next(v.audit->0, e);
        assert(n != Next::Perform(BusAction::WriteId { current, new }));
    }
}

/// The servo's speed is written only when it was found at the factory speed, once its ID is
/// in place, and the port follows it to the bus's speed right after.
pub proof fn speed_written_only_when_found_slow(v: AdoptView, e: BusEvent, value: u8)
    requires
        v.phase != AdoptPhase::Auditing,
        adopt_next(v, e).1 == Next::Perform(BusAction::WriteRegister { id: v.id, register: Register::BaudRate, value }),
    ensures
        v.phase == AdoptPhase::IdSettle,
        v.found_baud != BAUD_RATE,
        value == v.want_baud,
        adopt_next(adopt_next(adopt_next(v, e).0, BusEvent::Done).0, BusEvent::Done).1
            == Next::Perform(BusAction::Reopen { baud: BAUD_RATE }),
{
}

/// An adoption succeeds only from the hardware check, which follows only an answer from the
/// rebooted servo.
pub proof fn success_only_after_the_servo_came_back(v: AdoptView, e: BusEvent)
    requires
        v.phase != AdoptPhase::Finished,
        adopt_next(v, e).0.phase == AdoptPhase::Finished,
        adopt_next(v, e).0.result == Ok::<bool, AdoptError>(true),
    ensures
        v.phase == AdoptPhase::HardwareCheck,
{
    if v.phase == AdoptPhase::Auditing && v.audit is Some {
        let (a2, n) = audit_next(v.audit->0, e);
        if n == Next::Finish {
            assert(adopt_after_audit(v, a2).0.result != Ok::<bool, AdoptError>(true));
        }
    }
}

/// The hardware check is entered only when the rebooted servo answered its ping.
pub proof fn hardware_check_follows_an_answer(v: AdoptView, e: BusEvent)
    requires
        v.phase != AdoptPhase::HardwareCheck,
        adopt_next(v, e).0.phase == AdoptPhase::HardwareCheck,
    ensures
        v.phase == AdoptPhase::PingBack,
        e == BusEvent::Answered(true),
{
    if v.phase == AdoptPhase::Auditing && v.audit is Some {
        let (a2, n) = audit_next(v.audit->0, e);
    }
}

/// Finds the value of the first entry for `reg`.
pub fn expected_value(expected: &[(Register, u8)], reg: Register) -> (r: Option<u8>)
    ensures
        r == first_value(expected@, reg),
{
    let mut i: usize = 0;
    assert(expected@.subrange(0, expected@.len() as int) =~= expected@);
    while i < expected.len()
        invariant
            i <= expected@.len(),
            first_value(expected@, reg) == first_value(expected@.subrange(i as int, expected@.len() as int), reg),
        decreases expected@.len() - i,
    {
        assert(expected@.subrange(i as int, expected@.len() as int).drop_first()
            =~= expected@.subrange(i + 1, expected@.len() as int));
        if expected[i].0 == reg {
            return Some(expected[i].1);
        }
        i = i + 1;
    }
    None
}

fn copy_registers(expected: &Vec<(Register, u8)>) -> (r: Vec<(Register, u8)>)
    ensures
        r@ == expected@,
{
    let mut r: Vec<(Register, u8)> = Vec::new();
    let mut i: usize = 0;
    while i < expected.len()
        invariant
            i <= expected@.len(),
            r@ == expected@.subrange(0, i as int),
        decreases expected@.len() - i,
    {
        r.push(expected[i]);
        i = i + 1;
        assert(r@ =~= expected@.subrange(0, i as int));
    }
    assert(expected@.subrange(0, expected@.len() as int) =~= expected@);
    r
}

/// Flashes a factory-fresh servo so that it takes the place of a missing one.
pub struct Adoption {
    id: u8,
    expected: Vec<(Register, u8)>,
    want_baud: u8,
    phase: AdoptPhase,
    port_baud: u32,
    found_baud: u32,
    audit: Option<RegisterAudit>,
    fixed: usize,
    hardware_error: u8,
    result: Result<bool, AdoptError>,
}

impl View for Adoption {
    type V = AdoptView;

    closed spec fn view(&self) -> AdoptView {
        AdoptView {
            id: self.id,
            expected: self.expected@,
            want_baud: self.want_baud,
            phase: self.phase,
            port_baud: self.port_baud,
            found_baud: self.found_baud,
            audit: match self.audit {
                Some(a) => Some(a@),
                None => None,
            },
            fixed: self.fixed as nat,
            hardware_error: self.hardware_error,
            result: self.result,
        }
    }
}

impl Adoption {
    /// The adoption is in the shape its steps keep.
    pub closed spec fn inv(&self) -> bool {
        &&& self.phase == AdoptPhase::Auditing ==> (self.audit matches Some(a) && a.inv()
            && a@.ids == seq![self.id] && a@.phase != AuditPhase::Finished)
    }

    /// Starts adopting a fresh servo as the missing joint `id`. Fails at once when `id` is not
    /// among `joints`.
    pub fn start(id: u8, joints: &[u8], expected: Vec<(Register, u8)>) -> (r: (Adoption, Next))
        requires
            first_value(expected@, Register::BaudRate) is Some,
        ensures
            r.0.inv(),
            (r.0@, r.1) == adopt_start(id, joints@, expected@),
    {
        let want_baud = match expected_value(expected.as_slice(), Register::BaudRate) {
            Some(v) => v,
            None => 0,
        };
        let known = joint_index(joints, id);
        let mut a = Adoption {
            id,
            expected,
            want_baud,
            phase: AdoptPhase::PingHere,
            port_baud: BAUD_RATE,
            found_baud: BAUD_RATE,
            audit: None,
            fixed: 0,
            hardware_error: 0,
            result: Ok(false),
        };
        match known {
            None => {
                a.phase = AdoptPhase::Finished;
                a.result = Err(AdoptError::NotAJoint { id });
                proof {
                    assert(!joints@.contains(id));
                }
                (a, Next::Finish)
            },
            Some(i) => {
                proof {
                    assert(joints@[i as int] == id);
                    assert(joints@.contains(id));
                }
                (a, Next::Perform(BusAction::Ping { id: FACTORY_ID }))
            },
        }
    }

    fn after_audit(&mut self, a: RegisterAudit) -> (n: Next)
        requires
            a.inv(),
        ensures
            final(self).inv(),
            (final(self)@, n) == adopt_after_audit(old(self)@, a@),
    {
        let out = a.outcome();
        self.audit = Some(a);
        match out {
            Err(e) => {
                self.phase = AdoptPhase::Finished;
                self.result = Err(AdoptError::Unanswered(e));
                Next::Finish
            },
            Ok(n) => {
                self.fixed = n;
                self.phase = AdoptPhase::Rebooted;
                Next::Perform(BusAction::Reboot { id: self.id })
            },
        }
    }

    fn begin_audit(&mut self) -> (n: Next)
        ensures
            final(self).inv(),
            (final(self)@, n) == adopt_begin_audit(old(self)@),
    {
        let ids = vec![self.id];
        assert(ids@ =~= seq![self.id]);
        let expected = copy_registers(&self.expected);
        let count = expected.len();
        assert(ids@.len() * expected@.len() == count);
        let (a, n) = RegisterAudit::start(ids, expected);
        match n {
            Next::Perform(act) => {
                self.audit = Some(a);
                self.phase = AdoptPhase::Auditing;
                Next::Perform(act)
            },
            Next::Finish => self.after_audit(a),
        }
    }

    /// Takes the outcome of the last action and returns the next one.
    pub fn step(&mut self, e: BusEvent) -> (n: Next)
        requires
            old(self).inv(),
        ensures
            final(self).inv(),
            (final(self)@, n) == adopt_next(old(self)@, e),
    {
        match self.phase {
            AdoptPhase::PingHere => {
                if e == BusEvent::Answered(true) {
                    self.phase = AdoptPhase::IdWritten;
                    self.found_baud = BAUD_RATE;
                    Next::Perform(BusAction::WriteId { current: FACTORY_ID, new: self.id })
                } else {
                    self.phase = AdoptPhase::ReopenFactory;
                    self.port_baud = FACTORY_BAUD_RATE;
                    Next::Perform(BusAction::Reopen { baud: FACTORY_BAUD_RATE })
                }
            },
            AdoptPhase::ReopenFactory => {
                self.phase = AdoptPhase::PingFactory;
                Next::Perform(BusAction::Ping { id: FACTORY_ID })
            },
            AdoptPhase::PingFactory => {
                if e == BusEvent::Answered(true) {
                    self.phase = AdoptPhase::IdWritten;
                    self.found_baud = FACTORY_BAUD_RATE;
                    Next::Perform(BusAction::WriteId { current: FACTORY_ID, new: self.id })
                } else {
                    self.phase = AdoptPhase::GiveUp;
                    self.port_baud = BAUD_RATE;
                    Next::Perform(BusAction::Reopen { baud: BAUD_RATE })
                }
            },
            AdoptPhase::GiveUp => {
                self.phase = AdoptPhase::Finished;
                self.result = Ok(false);
                Next::Finish
            },
            AdoptPhase::IdWritten => {
                self.phase = AdoptPhase::IdSettle;
                Next::Perform(BusAction::Pause { millis: EEPROM_SETTLE_MS })
            },
            AdoptPhase::IdSettle => {
                if self.found_baud != BAUD_RATE {
                    self.phase = AdoptPhase::BaudWritten;
                    Next::Perform(BusAction::WriteRegister { id: self.id, register: Register::BaudRate, value: self.want_baud })
                } else {
                    self.begin_audit()
                }
            },
            AdoptPhase::BaudWritten => {
                self.phase = AdoptPhase::BaudSettle;
                Next::Perform(BusAction::Pause { millis: EEPROM_SETTLE_MS })
            },
            AdoptPhase::BaudSettle => {
                self.phase = AdoptPhase::BackAtSpeed;
                self.port_baud = BAUD_RATE;
                Next::Perform(BusAction::Reopen { baud: BAUD_RATE })
            },
            AdoptPhase::BackAtSpeed => self.begin_audit(),
            AdoptPhase::Auditing => {
                let mut a = match self.audit.take() {
                    Some(a) => a,
                    None => {
                        return Next::Finish;
                    },
                };
                let n = a.step(e);
                match n {
                    Next::Perform(act) => {
                        self.audit = Some(a);
                        Next::Perform(act)
                    },
                    Next::Finish => self.after_audit(a),
                }
            },
            AdoptPhase::Rebooted => {
                self.phase = AdoptPhase::RebootSettle;
                Next::Perform(BusAction::Pause { millis: REBOOT_SETTLE_MS })
            },
            AdoptPhase::RebootSettle => {
                self.phase = AdoptPhase::PingBack;
                Next::Perform(BusAction::Ping { id: self.id })
            },
            AdoptPhase::PingBack => {
                if e == BusEvent::Answered(true) {
                    self.phase = AdoptPhase::HardwareCheck;
                    Next::Perform(BusAction::ReadHardwareError { id: self.id })
                } else {
                    self.phase = AdoptPhase::Finished;
                    self.result = Err(AdoptError::LostAfterReboot { id: self.id });
                    Next::Finish
                }
            },
            AdoptPhase::HardwareCheck => {
                self.hardware_error = match e {
                    BusEvent::Value(Some(x)) => x,
                    _ => 0,
                };
                self.phase = AdoptPhase::Finished;
                self.result = Ok(true);
                Next::Finish
            },
            AdoptPhase::Finished => Next::Finish,
        }
    }

    /// How the adoption ended: `Ok(true)` when the servo was adopted, `Ok(false)` when nothing
    /// answered at the factory ID.
    pub fn result(&self) -> (r: Result<bool, AdoptError>)
        ensures
            r == self@.result,
    {
        self.result
    }

    /// The speed the fresh servo was found at.
    pub fn found_at_baud(&self) -> (b: u32)
        ensures
            b == self@.found_baud,
    {
        self.found_baud
    }

    /// How many of the new servo's registers the check rewrote.
    pub fn registers_fixed(&self) -> (n: usize)
        ensures
            n == self@.fixed,
    {
        self.fixed
    }

    /// The hardware error status the servo reported after its reboot.
    pub fn hardware_error(&self) -> (h: u8)
        ensures
            h == self@.hardware_error,
    {
        self.hardware_error
    }
}

} // verus!
