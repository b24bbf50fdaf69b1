use duck_control::model::{bus_ids, joint_id_list, joint_index, IMU_DXL_ID, JOINT_IDS, NUM_JOINTS};
use duck_control::replacement::{missing_from_census, replacement_target};

/// One silent servo is the only case a swap can be inferred from.
#[test]
fn a_replacement_is_inferred_only_from_exactly_one_missing_servo() {
    assert_eq!(replacement_target(&[]), None);
    assert_eq!(replacement_target(&[23]), Some(23));
    assert_eq!(replacement_target(&[23, 31]), None);
    assert_eq!(replacement_target(&JOINT_IDS), None);
}

#[test]
fn the_census_lists_the_silent_servos_in_order() {
    let ids = [20u8, 21, 22, 23];
    assert_eq!(missing_from_census(&ids, &[true, true, true, true]), Vec::<u8>::new());
    assert_eq!(missing_from_census(&ids, &[true, false, true, false]), vec![21, 23]);
    assert_eq!(missing_from_census(&ids, &[false, false, false, false]), vec![20, 21, 22, 23]);
    assert_eq!(missing_from_census(&[], &[]), Vec::<u8>::new());
}

#[test]
fn a_census_with_one_silent_servo_names_its_replacement() {
    let ids = joint_id_list();
    let mut answered = vec![true; ids.len()];
    answered[3] = false;
    let missing = missing_from_census(&ids, &answered);
    assert_eq!(replacement_target(&missing), Some(ids[3]));
    answered[5] = false;
    let missing = missing_from_census(&ids, &answered);
    assert_eq!(replacement_target(&missing), None);
}

#[test]
fn the_tick_addresses_the_imu_first_then_every_joint() {
    let ids = bus_ids(IMU_DXL_ID, &JOINT_IDS);
    assert_eq!(ids.len(), NUM_JOINTS + 1);
    assert_eq!(ids[0], IMU_DXL_ID);
    assert_eq!(&ids[1..], &JOINT_IDS[..]);
    assert_eq!(joint_id_list(), JOINT_IDS.to_vec());
}

#[test]
fn joint_index_finds_the_first_position() {
    assert_eq!(joint_index(&[5, 6, 7, 6], 6), Some(1));
    assert_eq!(joint_index(&[5, 6, 7], 9), None);
    assert_eq!(joint_index(&JOINT_IDS, JOINT_IDS[4]), Some(4));
}
