//! The robot's bus layout: which servo IDs sit on the bus, at what speed, and which EEPROM
//! registers every servo is expected to hold.

use vstd::prelude::*;

verus! {

/// Number of actuated joints, one servo each.
pub const NUM_JOINTS: usize = 15;

/// The servo IDs on the bus, in joint order. The order is the order blocks come back in.
pub const JOINT_IDS: [u8; NUM_JOINTS] = [20, 21, 22, 23, 24, 30, 31, 32, 33, 34, 10, 11, 12, 13, 14];

/// ID of the IMU board, which answers on the same bus as the servos.
pub const IMU_DXL_ID: u8 = 42;

/// The ID every factory-fresh servo answers as.
pub const FACTORY_ID: u8 = 1;

/// Speed of the bus in normal operation.
pub const BAUD_RATE: u32 = 1_000_000;

/// Speed a factory-fresh servo listens at.
pub const FACTORY_BAUD_RATE: u32 = 57_600;

/// Length of the block the IMU board serves at the tick's read address.
pub const IMU_BLOCK_LEN: usize = 12;

/// Devices answering the per-tick read: the IMU board, then every joint.
pub const BUS_DEVICES: usize = 1 + NUM_JOINTS;

/// The joint IDs as a sequence.
pub open spec fn joint_ids() -> Seq<u8> {
    JOINT_IDS@
}

/// An EEPROM register that the control loop depends on.
#[derive(Clone, Copy, Debug, PartialEq, Eq, Structural)]
pub enum Register {
    ReturnDelayTime,
    BaudRate,
    PwmSlope,
    Shutdown,
}

/// The registers asserted on every servo, with the value each must hold.
pub open spec fn expected_registers_spec() -> Seq<(Register, u8)> {
    seq![
        (Register::ReturnDelayTime, 0u8),
        (Register::BaudRate, 3u8),
        (Register::PwmSlope, 140u8),
        (Register::Shutdown, 52u8),
    ]
}

/// The registers asserted on every servo, with the value each must hold.
pub fn expected_registers() -> (regs: Vec<(Register, u8)>)
    ensures
        regs@ == expected_registers_spec(),
{
    let regs = vec![
        (Register::ReturnDelayTime, 0u8),
        (Register::BaudRate, 3u8),
        (Register::PwmSlope, 140u8),
        (Register::Shutdown, 52u8),
    ];
    assert(regs@ =~= expected_registers_spec());
    regs
}

/// The joint IDs, in joint order.
pub fn joint_id_list() -> (ids: Vec<u8>)
    ensures
        ids@ == joint_ids(),
{
    let mut ids: Vec<u8> = Vec::new();
    let mut i: usize = 0;
    while i < NUM_JOINTS
        invariant
            i <= NUM_JOINTS,
            JOINT_IDS@.len() == NUM_JOINTS,
            ids@ == JOINT_IDS@.subrange(0, i as int),
        decreases NUM_JOINTS - i,
    {
        ids.push(JOINT_IDS[i]);
        i = i + 1;
        assert(ids@ =~= JOINT_IDS@.subrange(0, i as int));
    }
    assert(ids@ =~= joint_ids());
    ids
}

/// The IDs addressed by the per-tick read: the IMU board first, so it answers before the
/// servo burst, then every joint in joint order.
pub fn bus_ids(imu_id: u8, joints: &[u8]) -> (ids: Vec<u8>)
    ensures
        ids@ == seq![imu_id] + joints@,
{
    let mut ids: Vec<u8> = Vec::new();
    ids.push(imu_id);
    let mut i: usize = 0;
    while i < joints.len()
        invariant
            i <= joints@.len(),
            ids@ == seq![imu_id] + joints@.subrange(0, i as int),
        decreases joints@.len() - i,
    {
        ids.push(joints[i]);
        i = i + 1;
        assert(ids@ =~= seq![imu_id] + joints@.subrange(0, i as int));
    }
    assert(joints@.subrange(0, joints@.len() as int) =~= joints@);
    ids
}

/// Position of `id` among the joint IDs, if it is one.
pub fn joint_index(joints: &[u8], id: u8) -> (index: Option<usize>)
    ensures
        match index {
            Some(i) => i < joints@.len() && joints@[i as int] == id
                && forall|j: int| 0 <= j < i ==> joints@[j] != id,
            None => forall|j: int| 0 <= j < joints@.len() ==> joints@[j] != id,
        },
{
    let mut i: usize = 0;
    while i < joints.len()
        invariant
            i <= joints@.len(),
            forall|j: int| 0 <= j < i ==> joints@[j] != id,
        decreases joints@.len() - i,
    {
        if joints[i] == id {
            return Some(i);
        }
        i = i + 1;
    }
    None
}

} // verus!
