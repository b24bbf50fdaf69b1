//! Decoding of what the Dynamixel bus answers: the per-tick block of every device and the
//! slower voltage and temperature block.
//!
//! Everything here stays in raw counts. Conversion to physical units happens where the
//! floating-point sensor values are built.

use vstd::prelude::*;
use crate::model::{BUS_DEVICES, IMU_BLOCK_LEN, NUM_JOINTS};
use crate::short_read::{ReadSite, ShortRead};
use crate::stale::{stale_after, StaleImuTracker};

verus! {

/// Start of the block read every tick: present PWM, current, velocity, position.
pub const READ_ADDR: u8 = 124;

/// Length of the block read every tick; the IMU board serves exactly this much at the same
/// address.
pub const READ_LEN: u8 = 12;

/// Start of the slow block: present input voltage (two bytes) then present temperature.
pub const SLOW_READ_ADDR: u8 = 144;

/// Length of the slow block.
pub const SLOW_READ_LEN: u8 = 3;

/// Velocity resolution, in thousandths of a revolution per minute per count (0.229 rpm).
pub const VELOCITY_MILLI_RPM_PER_COUNT: u32 = 229;

/// Input voltage resolution, in tenths of a volt per count.
pub const DECIVOLTS_PER_COUNT: u32 = 1;

/// Little-endian unsigned value of two bytes.
pub open spec fn le_u16(lo: u8, hi: u8) -> int {
    lo + 256 * hi
}

/// Little-endian two's-complement value of two bytes.
pub open spec fn le_i16(lo: u8, hi: u8) -> int {
    if le_u16(lo, hi) >= 0x8000 { le_u16(lo, hi) - 0x1_0000 } else { le_u16(lo, hi) }
}

/// Little-endian unsigned value of four bytes.
pub open spec fn le_u32(b0: u8, b1: u8, b2: u8, b3: u8) -> int {
    b0 + 0x100 * b1 + 0x1_0000 * b2 + 0x100_0000 * b3
}

/// Little-endian two's-complement value of four bytes.
pub open spec fn le_i32(b0: u8, b1: u8, b2: u8, b3: u8) -> int {
    if le_u32(b0, b1, b2, b3) >= 0x8000_0000 {
        le_u32(b0, b1, b2, b3) - 0x1_0000_0000
    } else {
        le_u32(b0, b1, b2, b3)
    }
}

/// `i16::from_le_bytes`.
pub fn i16_from_le(lo: u8, hi: u8) -> (v: i16)
    ensures
        v == le_i16(lo, hi),
{
    let u: u32 = lo as u32 + 256 * (hi as u32);
    if u >= 0x8000 {
        (u as i32 - 0x1_0000) as i16
    } else {
        u as i16
    }
}

/// `i32::from_le_bytes`.
pub fn i32_from_le(b0: u8, b1: u8, b2: u8, b3: u8) -> (v: i32)
    ensures
        v == le_i32(b0, b1, b2, b3),
{
    let u: u64 = b0 as u64 + 0x100 * (b1 as u64) + 0x1_0000 * (b2 as u64) + 0x100_0000 * (b3 as u64);
    if u >= 0x8000_0000 {
        (u as i64 - 0x1_0000_0000) as i32
    } else {
        u as i32
    }
}

/// `u16::from_le_bytes`.
pub fn u16_from_le(lo: u8, hi: u8) -> (v: u16)
    ensures
        v == le_u16(lo, hi),
{
    (lo as u16) + 256 * (hi as u16)
}

/// One servo's share of the per-tick read, in raw counts.
#[derive(Clone, Copy, Debug, PartialEq, Eq, Structural)]
pub struct JointCounts {
    /// Magnitude of the present current, in mA (one count is one mA).
    pub current: u16,
    /// Present velocity, in counts of 0.229 rpm.
    pub velocity: i32,
    /// Present position, in counts of a 4096-count turn.
    pub position: i32,
}

/// What a servo's 12-byte block says: bytes 0..2 present PWM (unused), 2..4 current,
/// 4..8 velocity, 8..12 position.
pub open spec fn joint_counts_of(b: Seq<u8>) -> JointCounts {
    JointCounts {
        current: (if le_i16(b[2], b[3]) < 0 { -le_i16(b[2], b[3]) } else { le_i16(b[2], b[3]) }) as u16,
        velocity: le_i32(b[4], b[5], b[6], b[7]) as i32,
        position: le_i32(b[8], b[9], b[10], b[11]) as i32,
    }
}

/// The decoded current is the magnitude of the signed 16-bit reading in bytes 2..4: a reading
/// with its sign bit clear is returned as it stands, one with its sign bit set as its distance
/// below 0x10000; it never exceeds 32768 mA.
pub proof fn the_current_is_the_magnitude(b: Seq<u8>)
    requires
        b.len() >= 12,
    ensures
        b[3] < 0x80 ==> joint_counts_of(b).current == b[2] + 0x100 * b[3],
        b[3] >= 0x80 ==> joint_counts_of(b).current == 0x1_0000 - (b[2] + 0x100 * b[3]),
        joint_counts_of(b).current <= 0x8000,
{
}

/// Velocity and position are the two's-complement little-endian 32-bit readings in bytes
/// 4..8 and 8..12: their bytes as they stand when the top bit is clear, less 2^32 when it is set.
pub proof fn velocity_and_position_are_signed_readings(b: Seq<u8>)
    requires
        b.len() >= 12,
    ensures
        b[7] < 0x80 ==> joint_counts_of(b).velocity == b[4] + 0x100 * b[5] + 0x1_0000 * b[6] + 0x100_0000 * b[7],
        b[7] >= 0x80 ==> joint_counts_of(b).velocity == b[4] + 0x100 * b[5] + 0x1_0000 * b[6] + 0x100_0000 * b[7] - 0x1_0000_0000,
        b[11] < 0x80 ==> joint_counts_of(b).position == b[8] + 0x100 * b[9] + 0x1_0000 * b[10] + 0x100_0000 * b[11],
        b[11] >= 0x80 ==> joint_counts_of(b).position == b[8] + 0x100 * b[9] + 0x1_0000 * b[10] + 0x100_0000 * b[11] - 0x1_0000_0000,
{
}

/// Decodes a servo's block of the per-tick read.
pub fn joint_counts(block: &[u8]) -> (c: JointCounts)
    requires
        block@.len() >= 12,
    ensures
        c == joint_counts_of(block@),
        block@[3] < 0x80 ==> c.current == block@[2] + 0x100 * block@[3],
        block@[3] >= 0x80 ==> c.current == 0x1_0000 - (block@[2] + 0x100 * block@[3]),
{
    proof {
        the_current_is_the_magnitude(block@);
    }
    let current = i16_from_le(block[2], block[3]);
    let magnitude: u16 = if current < 0 { (-(current as i32)) as u16 } else { current as u16 };
    JointCounts {
        current: magnitude,
        velocity: i32_from_le(block[4], block[5], block[6], block[7]),
        position: i32_from_le(block[8], block[9], block[10], block[11]),
    }
}

/// The IMU board's share of the per-tick read: its raw block, and the length of the run of
/// identical blocks it belongs to.
#[derive(Debug)]
pub struct ImuCounts {
    pub raw: [u8; IMU_BLOCK_LEN],
    pub stale_run: u64,
}

/// Every servo block (all but the first) has the tick's length.
pub open spec fn motor_blocks_whole(blocks: Seq<Vec<u8>>) -> bool {
    forall|j: int| 1 <= j < blocks.len() ==> #[trigger] blocks[j]@.len() == READ_LEN
}

/// `k` is the first servo block whose length is wrong.
pub open spec fn first_short_motor_block(blocks: Seq<Vec<u8>>, k: int) -> bool {
    &&& 1 <= k < blocks.len()
    &&& blocks[k]@.len() != READ_LEN
    &&& forall|j: int| 1 <= j < k ==> #[trigger] blocks[j]@.len() == READ_LEN
}

/// Takes the IMU board's block out of the per-tick read of the IMU board and every servo, in
/// bus order, and records it with the stale tracker.
///
/// The read must hold one block per device, and the IMU board's block must be whole; otherwise
/// the read fails and the tracker is left as it was.
pub fn tick_imu(tracker: &mut StaleImuTracker, blocks: &Vec<Vec<u8>>) -> (r: Result<ImuCounts, ShortRead>)
    ensures
        blocks@.len() != BUS_DEVICES ==> {
            &&& r == Err::<ImuCounts, ShortRead>(ShortRead { what: ReadSite::SyncReadBlocks, expected: BUS_DEVICES, got: blocks.len() })
            &&& *final(tracker) == *old(tracker)
        },
        blocks@.len() == BUS_DEVICES && blocks@[0]@.len() != IMU_BLOCK_LEN ==> {
            &&& r == Err::<ImuCounts, ShortRead>(ShortRead { what: ReadSite::ImuBlock, expected: IMU_BLOCK_LEN, got: blocks@[0].len() })
            &&& *final(tracker) == *old(tracker)
        },
        blocks@.len() == BUS_DEVICES && blocks@[0]@.len() == IMU_BLOCK_LEN ==> {
            &&& final(tracker).previous() == Some(blocks@[0]@)
            &&& final(tracker).stale == stale_after(old(tracker).previous(), old(tracker).stale, blocks@[0]@)
            &&& r matches Ok(c)
            &&& c.raw@ == blocks@[0]@
            &&& c.stale_run == final(tracker).stale.run
        },
{
    if blocks.len() != BUS_DEVICES {
        return Err(ShortRead { what: ReadSite::SyncReadBlocks, expected: BUS_DEVICES, got: blocks.len() });
    }
    let first = &blocks[0];
    if first.len() != IMU_BLOCK_LEN {
        return Err(ShortRead { what: ReadSite::ImuBlock, expected: IMU_BLOCK_LEN, got: first.len() });
    }
    let mut raw = [0u8; IMU_BLOCK_LEN];
    let mut i: usize = 0;
    while i < IMU_BLOCK_LEN
        invariant
            i <= IMU_BLOCK_LEN,
            first@.len() == IMU_BLOCK_LEN,
            raw@.len() == IMU_BLOCK_LEN,
            forall|j: int| 0 <= j < i ==> raw@[j] == first@[j],
        decreases IMU_BLOCK_LEN - i,
    {
        raw[i] = first[i];
        i = i + 1;
    }
    assert(raw@ =~= first@);
    let run = tracker.observe(&raw);
    Ok(ImuCounts { raw, stale_run: run })
}

/// Decodes the servos' share of the per-tick read: every block but the first, which is the IMU
/// board's. A servo block of the wrong length fails the read, the first such block naming its
/// length.
pub fn tick_joints(blocks: &Vec<Vec<u8>>) -> (r: Result<Vec<JointCounts>, ShortRead>)
    requires
        blocks@.len() == BUS_DEVICES,
    ensures
        motor_blocks_whole(blocks@) ==> (r matches Ok(joints) && {
            &&& joints@.len() == NUM_JOINTS
            &&& forall|j: int| 0 <= j < NUM_JOINTS ==> #[trigger] joints@[j] == joint_counts_of(blocks@[j + 1]@)
        }),
        !motor_blocks_whole(blocks@) ==> exists|k: int| first_short_motor_block(blocks@, k)
            && r == Err::<Vec<JointCounts>, ShortRead>(ShortRead { what: ReadSite::MotorBlock, expected: READ_LEN as usize, got: blocks@[k].len() }),
{
    let mut joints: Vec<JointCounts> = Vec::new();
    let mut k: usize = 1;
    while k < BUS_DEVICES
        invariant
            1 <= k <= BUS_DEVICES,
            blocks@.len() == BUS_DEVICES,
            joints@.len() == k - 1,
            forall|j: int| 1 <= j < k ==> #[trigger] blocks@[j]@.len() == READ_LEN,
            forall|j: int| 0 <= j < k - 1 ==> #[trigger] joints@[j] == joint_counts_of(blocks@[j + 1]@),
        decreases BUS_DEVICES - k,
    {
        let block = &blocks[k];
        if block.len() != READ_LEN as usize {
            assert(first_short_motor_block(blocks@, k as int));
            return Err(ShortRead { what: ReadSite::MotorBlock, expected: READ_LEN as usize, got: block.len() });
        }
        let c = joint_counts(block.as_slice());
        joints.push(c);
        k = k + 1;
    }
    Ok(joints)
}

/// A servo's input voltage in counts, from its slow block.
pub open spec fn voltage_of(block: Seq<u8>) -> int {
    le_u16(block[0], block[1])
}

/// The input voltages, in counts, of the servos that reported one above zero, in bus order.
pub open spec fn positive_voltages(blocks: Seq<Vec<u8>>) -> Seq<u16>
    decreases blocks.len(),
{
    if blocks.len() == 0 {
        Seq::empty()
    } else {
        let rest = positive_voltages(blocks.drop_last());
        if voltage_of(blocks.last()@) > 0 { rest.push(voltage_of(blocks.last()@) as u16) } else { rest }
    }
}

/// The voltages kept are exactly the positive ones, in bus order: each is above zero, and a
/// block's voltage is kept or dropped by whether it is above zero alone.
pub proof fn only_positive_voltages_are_kept(blocks: Seq<Vec<u8>>, b: Vec<u8>)
    ensures
        forall|i: int| 0 <= i < positive_voltages(blocks).len() ==> #[trigger] positive_voltages(blocks)[i] > 0,
        voltage_of(b@) > 0 ==> positive_voltages(blocks.push(b)) == positive_voltages(blocks).push(voltage_of(b@) as u16),
        voltage_of(b@) == 0 ==> positive_voltages(blocks.push(b)) == positive_voltages(blocks),
    decreases blocks.len(),
{
    assert(blocks.push(b).drop_last() =~= blocks);
    if blocks.len() > 0 {
        only_positive_voltages_are_kept(blocks.drop_last(), blocks.last());
        assert(blocks.drop_last().push(blocks.last()) =~= blocks);
        assert(voltage_of(blocks.last()@) < 0x1_0000);
    }
}

/// The slow read, decoded: every positive input voltage (a zero is a device answering
/// nonsense, not a flat pack) and every joint's temperature in whole degrees Celsius.
#[derive(Debug)]
pub struct SlowCounts {
    pub voltages: Vec<u16>,
    pub temperatures: Vec<u8>,
}

/// Every block of the slow read has its full length.
pub open spec fn slow_blocks_whole(blocks: Seq<Vec<u8>>) -> bool {
    forall|j: int| 0 <= j < blocks.len() ==> #[trigger] blocks[j]@.len() == SLOW_READ_LEN
}

/// `k` is the first block of the slow read whose length is wrong.
pub open spec fn first_short_slow_block(blocks: Seq<Vec<u8>>, k: int) -> bool {
    &&& 0 <= k < blocks.len()
    &&& blocks[k]@.len() != SLOW_READ_LEN
    &&& forall|j: int| 0 <= j < k ==> #[trigger] blocks[j]@.len() == SLOW_READ_LEN
}

/// Decodes the voltage and temperature read of every joint.
///
/// It is all-or-nothing: a missing block or a short one fails the whole read, and so does a
/// read in which no servo reported a voltage above zero.
pub fn read_slow(blocks: &Vec<Vec<u8>>) -> (r: Result<SlowCounts, ShortRead>)
    ensures
        blocks@.len() != NUM_JOINTS ==> r == Err::<SlowCounts, ShortRead>(
            ShortRead { what: ReadSite::VoltageTemperatureBlocks, expected: NUM_JOINTS, got: blocks.len() }),
        blocks@.len() == NUM_JOINTS && !slow_blocks_whole(blocks@) ==> exists|k: int| first_short_slow_block(blocks@, k)
            && r == Err::<SlowCounts, ShortRead>(
                ShortRead { what: ReadSite::VoltageTemperatureBlock, expected: SLOW_READ_LEN as usize, got: blocks@[k].len() }),
        blocks@.len() == NUM_JOINTS && slow_blocks_whole(blocks@) && positive_voltages(blocks@).len() == 0
            ==> r == Err::<SlowCounts, ShortRead>(ShortRead { what: ReadSite::InputVoltage, expected: NUM_JOINTS, got: 0 }),
        blocks@.len() == NUM_JOINTS && slow_blocks_whole(blocks@) && positive_voltages(blocks@).len() > 0
            ==> (r matches Ok(s) && {
                &&& s.voltages@ == positive_voltages(blocks@)
                &&& s.temperatures@.len() == NUM_JOINTS
                &&& forall|j: int| 0 <= j < NUM_JOINTS ==> #[trigger] s.temperatures@[j] == blocks@[j]@[2]
            }),
{
    if blocks.len() != NUM_JOINTS {
        return Err(ShortRead { what: ReadSite::VoltageTemperatureBlocks, expected: NUM_JOINTS, got: blocks.len() });
    }
    let mut voltages: Vec<u16> = Vec::new();
    let mut temperatures: Vec<u8> = Vec::new();
    let mut k: usize = 0;
    while k < NUM_JOINTS
        invariant
            k <= NUM_JOINTS,
            blocks@.len() == NUM_JOINTS,
            temperatures@.len() == k,
            forall|j: int| 0 <= j < k ==> #[trigger] blocks@[j]@.len() == SLOW_READ_LEN,
            forall|j: int| 0 <= j < k ==> #[trigger] temperatures@[j] == blocks@[j]@[2],
            voltages@ == positive_voltages(blocks@.subrange(0, k as int)),
        decreases NUM_JOINTS - k,
    {
        let block = &blocks[k];
        if block.len() != SLOW_READ_LEN as usize {
            assert(first_short_slow_block(blocks@, k as int));
            return Err(ShortRead { what: ReadSite::VoltageTemperatureBlock, expected: SLOW_READ_LEN as usize, got: block.len() });
        }
        let counts = u16_from_le(block[0], block[1]);
        assert(blocks@.subrange(0, k + 1).drop_last() =~= blocks@.subrange(0, k as int));
        if counts > 0 {
            voltages.push(counts);
        }
        temperatures.push(block[2]);
        k = k + 1;
    }
    assert(blocks@.subrange(0, NUM_JOINTS as int) =~= blocks@);
    if voltages.len() == 0 {
        return Err(ShortRead { what: ReadSite::InputVoltage, expected: NUM_JOINTS, got: 0 });
    }
    Ok(SlowCounts { voltages, temperatures })
}

} // verus!
