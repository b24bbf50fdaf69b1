//! The position-loop gains written to every servo.
//!
//! The integral and derivative gains are written too, at zero. They live in RAM, so every
//! power-up restores the factory values, and the factory derivative gain is not zero: left in
//! place it damps the servo's loop and the robot runs softer than intended at the same
//! proportional gain. So they are pinned here rather than exposed.

use vstd::prelude::*;

verus! {

/// Integral gain written to every servo.
pub const KI: u16 = 0;

/// Derivative gain written to every servo.
pub const KD: u16 = 0;

/// A gain register of the position loop.
#[derive(Clone, Copy, Debug, PartialEq, Eq, Structural)]
pub enum Gain {
    PositionP,
    PositionI,
    PositionD,
}

/// One gain write.
#[derive(Clone, Copy, Debug, PartialEq, Eq, Structural)]
pub struct GainWrite {
    pub id: u8,
    pub gain: Gain,
    pub value: u16,
}

/// The writes for one servo: proportional, then integral, then derivative.
pub open spec fn gain_writes_of(id: u8, kp: u16) -> Seq<GainWrite> {
    seq![
        GainWrite { id, gain: Gain::PositionP, value: kp },
        GainWrite { id, gain: Gain::PositionI, value: KI },
        GainWrite { id, gain: Gain::PositionD, value: KD },
    ]
}

/// The writes for every servo, in order.
pub open spec fn gain_plan_of(ids: Seq<u8>, kp: u16) -> Seq<GainWrite>
    decreases ids.len(),
{
    if ids.len() == 0 {
        Seq::empty()
    } else {
        gain_plan_of(ids.drop_last(), kp) + gain_writes_of(ids.last(), kp)
    }
}

/// The gain writes that set proportional gain `kp` on every servo of `ids`, in the order they
/// are sent.
pub fn gain_plan(ids: &[u8], kp: u16) -> (plan: Vec<GainWrite>)
    ensures
        plan@ == gain_plan_of(ids@, kp),
        plan@.len() == 3 * ids@.len(),
        forall|k: int| 0 <= k < ids@.len() ==> #[trigger] plan@[3 * k] == (GainWrite { id: ids@[k], gain: Gain::PositionP, value: kp }),
{
    let mut plan: Vec<GainWrite> = Vec::new();
    let mut i: usize = 0;
    while i < ids.len()
        invariant
            i <= ids@.len(),
            plan@ == gain_plan_of(ids@.subrange(0, i as int), kp),
        decreases ids@.len() - i,
    {
        let id = ids[i];
        assert(ids@.subrange(0, i + 1).drop_last() =~= ids@.subrange(0, i as int));
        plan.push(GainWrite { id, gain: Gain::PositionP, value: kp });
        plan.push(GainWrite { id, gain: Gain::PositionI, value: KI });
        plan.push(GainWrite { id, gain: Gain::PositionD, value: KD });
        i = i + 1;
        assert(plan@ =~= gain_plan_of(ids@.subrange(0, i as int), kp));
    }
    assert(ids@.subrange(0, ids@.len() as int) =~= ids@);
    proof {
        if ids@.len() > 0 {
            every_servo_gets_kp(ids@, kp, 0);
        }
        assert forall|k: int| 0 <= k < ids@.len() implies #[trigger] plan@[3 * k] == (GainWrite { id: ids@[k], gain: Gain::PositionP, value: kp }) by {
            every_servo_gets_kp(ids@, kp, k);
        }
    }
    plan
}

/// Every servo gets exactly its three writes, in servo order: the writes for servo `k` are the
/// three starting at `3 * k`.
pub proof fn every_servo_gets_its_gains(ids: Seq<u8>, kp: u16, k: int)
    requires
        0 <= k < ids.len(),
    ensures
        gain_plan_of(ids, kp).len() == 3 * ids.len(),
        gain_plan_of(ids, kp).subrange(3 * k, 3 * k + 3) == gain_writes_of(ids[k], kp),
    decreases ids.len(),
{
    let rest = ids.drop_last();
    if k < ids.len() - 1 {
        every_servo_gets_its_gains(rest, kp, k);
        assert(gain_plan_of(ids, kp).subrange(3 * k, 3 * k + 3) =~= gain_plan_of(rest, kp).subrange(3 * k, 3 * k + 3));
    } else {
        if rest.len() > 0 {
            every_servo_gets_its_gains(rest, kp, 0);
        }
        assert(gain_plan_of(rest, kp).len() == 3 * rest.len());
        assert(gain_plan_of(ids, kp).subrange(3 * k, 3 * k + 3) =~= gain_writes_of(ids[k], kp));
    }
}

/// Every servo gets the proportional gain asked for and zero integral and derivative gains,
/// whatever its ID: the writes at `3k`, `3k + 1` and `3k + 2` are servo `k`'s P = `kp`, I = 0
/// and D = 0.
pub proof fn every_servo_gets_kp(ids: Seq<u8>, kp: u16, k: int)
    requires
        0 <= k < ids.len(),
    ensures
        gain_plan_of(ids, kp).len() == 3 * ids.len(),
        gain_plan_of(ids, kp)[3 * k] == (GainWrite { id: ids[k], gain: Gain::PositionP, value: kp }),
        gain_plan_of(ids, kp)[3 * k + 1] == (GainWrite { id: ids[k], gain: Gain::PositionI, value: 0 }),
        gain_plan_of(ids, kp)[3 * k + 2] == (GainWrite { id: ids[k], gain: Gain::PositionD, value: 0 }),
{
    every_servo_gets_its_gains(ids, kp, k);
    let p = gain_plan_of(ids, kp);
    assert(p[3 * k] == p.subrange(3 * k, 3 * k + 3)[0]);
    assert(p[3 * k + 1] == p.subrange(3 * k, 3 * k + 3)[1]);
    assert(p[3 * k + 2] == p.subrange(3 * k, 3 * k + 3)[2]);
}

} // verus!
