use std::f64::consts::PI;

use duck_control::dxl::{
    i16_from_le, i32_from_le, joint_counts, read_slow, tick_imu, tick_joints, u16_from_le, JointCounts, READ_LEN,
    SLOW_READ_LEN, VELOCITY_MILLI_RPM_PER_COUNT,
};
use duck_control::model::{BUS_DEVICES, IMU_BLOCK_LEN, NUM_JOINTS};
use duck_control::short_read::{check_count, ReadSite, ShortRead};
use duck_control::stale::{ImuStale, StaleImuTracker};

/// The block parsed per servo must cover current, velocity and position without overrunning.
#[test]
fn read_block_is_long_enough_for_every_field() {
    assert_eq!(READ_LEN as usize, IMU_BLOCK_LEN);
    // Highest offset touched by the parser is position at 8..12.
    assert!(READ_LEN >= 12);
}

/// The position convention must agree with the one goal positions are written with.
#[test]
fn position_conversion_round_trips_through_rustypot() {
    for raw in [0i32, 1024, 2048, 3072, 4095] {
        let ours = (2.0 * PI * raw as f64 / 4096.0) - PI;
        let theirs = (4096.0 * (PI + ours) / (2.0 * PI)) as i32;
        assert_eq!(theirs, raw, "raw {raw} did not survive the round trip");
    }
}

/// 0.229 rev/min per count.
#[test]
fn velocity_scale_matches_the_datasheet_figure() {
    let one_count = VELOCITY_MILLI_RPM_PER_COUNT as f64 / 1000.0 * (2.0 * PI / 60.0);
    let expected_rpm = 0.229;
    assert!((one_count * 60.0 / (2.0 * PI) - expected_rpm).abs() < 1e-12);
}

fn motor_block(current: i16, velocity: i32, position: i32) -> Vec<u8> {
    let mut b = vec![0xaa, 0xbb];
    b.extend_from_slice(&current.to_le_bytes());
    b.extend_from_slice(&velocity.to_le_bytes());
    b.extend_from_slice(&position.to_le_bytes());
    b
}

fn tick(imu: u8) -> Vec<Vec<u8>> {
    let mut blocks = vec![vec![imu; IMU_BLOCK_LEN]];
    for j in 0..NUM_JOINTS as i32 {
        blocks.push(motor_block(-(j as i16) * 10, j - 7, 2048 + j));
    }
    blocks
}

#[test]
fn little_endian_decoding_matches_std() {
    for (lo, hi) in [(0u8, 0u8), (0xff, 0x7f), (0x00, 0x80), (0xff, 0xff), (0x34, 0x12)] {
        assert_eq!(i16_from_le(lo, hi), i16::from_le_bytes([lo, hi]));
        assert_eq!(u16_from_le(lo, hi), u16::from_le_bytes([lo, hi]));
    }
    for b in [[0u8, 0, 0, 0], [0xff, 0xff, 0xff, 0x7f], [0, 0, 0, 0x80], [0xff; 4], [0x78, 0x56, 0x34, 0x12]] {
        assert_eq!(i32_from_le(b[0], b[1], b[2], b[3]), i32::from_le_bytes(b));
    }
}

#[test]
fn a_motor_block_gives_current_magnitude_velocity_and_position() {
    let c = joint_counts(&motor_block(-120, -35, 3000));
    assert_eq!(c, JointCounts { current: 120, velocity: -35, position: 3000 });
    let c = joint_counts(&motor_block(i16::MIN, i32::MIN, i32::MAX));
    assert_eq!(c, JointCounts { current: 32768, velocity: i32::MIN, position: i32::MAX });
}

#[test]
fn a_whole_tick_is_decoded_in_bus_order() {
    let mut t = StaleImuTracker::default();
    let blocks = tick(5);
    let imu = tick_imu(&mut t, &blocks).unwrap();
    assert_eq!(imu.raw, [5u8; IMU_BLOCK_LEN]);
    assert_eq!(imu.stale_run, 0);
    let joints = tick_joints(&blocks).unwrap();
    assert_eq!(joints.len(), NUM_JOINTS);
    assert_eq!(joints[3], JointCounts { current: 30, velocity: -4, position: 2051 });
    let again = tick_imu(&mut t, &blocks).unwrap();
    assert_eq!(again.stale_run, 1);
    assert_eq!(t.stale, ImuStale { total: 1, run: 1 });
}

#[test]
fn a_tick_with_a_missing_device_fails_and_counts_nothing() {
    let mut t = StaleImuTracker::default();
    let mut blocks = tick(5);
    blocks.pop();
    let err = tick_imu(&mut t, &blocks).unwrap_err();
    assert_eq!(err, ShortRead { what: ReadSite::SyncReadBlocks, expected: BUS_DEVICES, got: BUS_DEVICES - 1 });
    assert_eq!(t.last, None);
}

#[test]
fn a_short_imu_block_fails_the_tick() {
    let mut t = StaleImuTracker::default();
    let mut blocks = tick(5);
    blocks[0].truncate(10);
    let err = tick_imu(&mut t, &blocks).unwrap_err();
    assert_eq!(err, ShortRead { what: ReadSite::ImuBlock, expected: IMU_BLOCK_LEN, got: 10 });
    assert_eq!(t.last, None);
}

#[test]
fn a_short_motor_block_fails_the_tick_but_the_imu_sample_still_counts() {
    let mut t = StaleImuTracker::default();
    let mut blocks = tick(5);
    blocks[4].truncate(8);
    blocks[9].truncate(2);
    assert!(tick_imu(&mut t, &blocks).is_ok());
    let err = tick_joints(&blocks).unwrap_err();
    assert_eq!(err, ShortRead { what: ReadSite::MotorBlock, expected: READ_LEN as usize, got: 8 });
    assert_eq!(t.last, Some([5u8; IMU_BLOCK_LEN]));
}

fn slow_block(volts: u16, temp: u8) -> Vec<u8> {
    let v = volts.to_le_bytes();
    vec![v[0], v[1], temp]
}

#[test]
fn the_slow_read_keeps_positive_voltages_and_every_temperature() {
    let mut blocks: Vec<Vec<u8>> = (0..NUM_JOINTS).map(|j| slow_block(74 + (j as u16 % 2), 30 + j as u8)).collect();
    blocks[2] = slow_block(0, 60);
    let s = read_slow(&blocks).unwrap();
    assert_eq!(s.voltages.len(), NUM_JOINTS - 1);
    assert_eq!(s.voltages[0], 74);
    assert_eq!(s.voltages[1], 75);
    assert_eq!(s.voltages[2], 75);
    assert_eq!(s.temperatures.len(), NUM_JOINTS);
    assert_eq!(s.temperatures[2], 60);
    assert_eq!(s.temperatures[14], 44);
}

#[test]
fn the_slow_read_fails_on_a_missing_or_short_block_or_no_voltage() {
    let whole: Vec<Vec<u8>> = (0..NUM_JOINTS).map(|_| slow_block(74, 30)).collect();
    let mut missing = whole.clone();
    missing.pop();
    assert_eq!(
        read_slow(&missing).unwrap_err(),
        ShortRead { what: ReadSite::VoltageTemperatureBlocks, expected: NUM_JOINTS, got: NUM_JOINTS - 1 }
    );
    let mut short = whole.clone();
    short[6].truncate(1);
    assert_eq!(
        read_slow(&short).unwrap_err(),
        ShortRead { what: ReadSite::VoltageTemperatureBlock, expected: SLOW_READ_LEN as usize, got: 1 }
    );
    let flat: Vec<Vec<u8>> = (0..NUM_JOINTS).map(|_| slow_block(0, 30)).collect();
    assert_eq!(
        read_slow(&flat).unwrap_err(),
        ShortRead { what: ReadSite::InputVoltage, expected: NUM_JOINTS, got: 0 }
    );
}

#[test]
fn a_count_check_names_what_came_back_short() {
    assert_eq!(check_count(ReadSite::PresentPositions, 15, 15), Ok(()));
    assert_eq!(
        check_count(ReadSite::PresentPositions, 15, 14),
        Err(ShortRead { what: ReadSite::PresentPositions, expected: 15, got: 14 })
    );
}
