use duck_control::dxl::u16_from_le;
use duck_control::feetech::{
    check_header, check_read_len, check_status, check_voltages, checksum, feetech_ids, packet, position_count,
    read_params, u16_to_le, write_params, FeetechError, TooManyIds, READ,
};
use duck_control::model::{JOINT_IDS, NUM_JOINTS};
use duck_control::short_read::{ReadSite, ShortRead};

#[test]
fn feetech_packet_checksum_matches_ping_frame() {
    assert_eq!(packet(1, 1, &[]), vec![0xff, 0xff, 1, 2, 1, 0xfb]);
}

#[test]
fn a_read_frame_carries_address_and_length() {
    let p = packet(3, READ, &read_params(56, 2));
    assert_eq!(p, vec![0xff, 0xff, 3, 4, 2, 56, 2, !(3u16 + 4 + 2 + 56 + 2) as u8]);
}

#[test]
fn the_checksum_complements_the_low_byte_of_the_sum() {
    assert_eq!(checksum(&[]), 0xff);
    assert_eq!(checksum(&[0xff, 0xff]), 0x01);
    assert_eq!(checksum(&[1, 2, 1]), 0xfb);
    let long = vec![0xffu8; 257];
    assert_eq!(checksum(&long), (!(0xffu16 * 257)) as u8);
}

fn split(frame: &[u8]) -> ([u8; 4], Vec<u8>) {
    ([frame[0], frame[1], frame[2], frame[3]], frame[4..].to_vec())
}

#[test]
fn a_status_frame_gives_back_its_parameters() {
    let frame = packet(7, 0, &[0x34, 0x12]);
    let (header, tail) = split(&frame);
    assert_eq!(check_header(7, &header), Ok(4));
    let params = check_status(7, &header, &tail).unwrap();
    assert_eq!(params, vec![0x34, 0x12]);
    assert_eq!(u16_from_le(params[0], params[1]), 0x1234);
}

#[test]
fn a_status_frame_with_an_error_byte_is_refused() {
    let frame = packet(7, 0x20, &[1]);
    let (header, tail) = split(&frame);
    assert_eq!(check_header(7, &header), Ok(3));
    assert_eq!(check_status(7, &header, &tail), Err(FeetechError::ServoError { id: 7, code: 0x20 }));
}

#[test]
fn a_corrupted_status_frame_is_refused() {
    let mut frame = packet(7, 0, &[9, 9]);
    frame[5] = 8;
    let (header, tail) = split(&frame);
    assert_eq!(check_status(7, &header, &tail), Err(FeetechError::BadChecksum { id: 7 }));
}

#[test]
fn a_bad_header_is_refused() {
    assert_eq!(check_header(7, &[0xff, 0xff, 8, 4]), Err(FeetechError::BadHeader { id: 7, header: [0xff, 0xff, 8, 4] }));
    assert_eq!(check_header(7, &[0xfe, 0xff, 7, 4]), Err(FeetechError::BadHeader { id: 7, header: [0xfe, 0xff, 7, 4] }));
    assert_eq!(check_header(7, &[0xff, 0xff, 7, 1]), Err(FeetechError::BadLength { id: 7, length: 1 }));
    assert_eq!(check_header(7, &[0xff, 0xff, 7, 65]), Err(FeetechError::BadLength { id: 7, length: 65 }));
    assert_eq!(check_header(7, &[0xff, 0xff, 7, 64]), Ok(64));
    assert_eq!(check_header(7, &[0xff, 0xff, 7, 2]), Ok(2));
}

#[test]
fn register_reads_and_writes_are_framed_and_checked() {
    assert_eq!(write_params(42, &[0x00, 0x08]), vec![42, 0x00, 0x08]);
    assert_eq!(check_read_len(&[1, 2], 2), Ok(()));
    assert_eq!(
        check_read_len(&[1], 2),
        Err(ShortRead { what: ReadSite::FeetechRegisterRead, expected: 2, got: 1 })
    );
}

#[test]
fn sixteen_bit_values_round_trip() {
    for v in [0u16, 1, 255, 256, 2048, 4095, u16::MAX] {
        let b = u16_to_le(v);
        assert_eq!(b, v.to_le_bytes());
        assert_eq!(u16_from_le(b[0], b[1]), v);
    }
}

#[test]
fn positions_are_held_to_the_top_of_the_turn() {
    assert_eq!(position_count(0), 0);
    assert_eq!(position_count(4095), 4095);
    assert_eq!(position_count(4096), 4095);
    assert_eq!(position_count(u16::MAX), 4095);
}

#[test]
fn the_bus_ids_default_to_every_joint_and_are_capped() {
    assert_eq!(feetech_ids(&[]), Ok(JOINT_IDS.to_vec()));
    assert_eq!(feetech_ids(&[3, 1, 2]), Ok(vec![3, 1, 2]));
    let too_many = vec![1u8; NUM_JOINTS + 1];
    assert_eq!(feetech_ids(&too_many), Err(TooManyIds { count: NUM_JOINTS + 1 }));
    assert_eq!(feetech_ids(&vec![1u8; NUM_JOINTS]), Ok(vec![1u8; NUM_JOINTS]));
}

#[test]
fn a_bus_with_no_servo_reports_no_voltage() {
    assert_eq!(check_voltages(0), Err(ShortRead { what: ReadSite::FeetechInputVoltage, expected: 1, got: 0 }));
    assert_eq!(check_voltages(3), Ok(()));
}
