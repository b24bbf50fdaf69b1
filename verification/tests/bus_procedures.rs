use duck_control::action::{BusAction, BusEvent, Next, EEPROM_SETTLE_MS, REBOOT_SETTLE_MS};
use duck_control::adopt::{AdoptError, Adoption};
use duck_control::audit::RegisterAudit;
use duck_control::gains::{gain_plan, Gain, GainWrite, KD, KI};
use duck_control::model::{expected_registers, Register, BAUD_RATE, FACTORY_BAUD_RATE, FACTORY_ID, JOINT_IDS};
use duck_control::short_read::{ReadSite, ShortRead};
use duck_control::torque::TorqueSweep;

/// A simulated bus: register values per servo, and which IDs answer at which speed.
struct FakeBus {
    registers: Vec<(u8, Register, u8)>,
    fresh_at: Option<u32>,
    port: u32,
    comes_back: bool,
    hardware_error: Option<u8>,
    log: Vec<BusAction>,
}

impl FakeBus {
    fn perform(&mut self, a: BusAction) -> BusEvent {
        self.log.push(a);
        match a {
            BusAction::ReadRegister { id, register } => BusEvent::Value(
                self.registers.iter().find(|(i, r, _)| *i == id && *r == register).map(|(_, _, v)| *v),
            ),
            BusAction::WriteRegister { id, register, value } => {
                for entry in self.registers.iter_mut() {
                    if entry.0 == id && entry.1 == register {
                        entry.2 = value;
                    }
                }
                BusEvent::Done
            }
            BusAction::Ping { id } if id == FACTORY_ID => BusEvent::Answered(self.fresh_at == Some(self.port)),
            BusAction::Ping { .. } => BusEvent::Answered(self.comes_back),
            BusAction::Reopen { baud } => {
                self.port = baud;
                BusEvent::Done
            }
            BusAction::ReadHardwareError { .. } => BusEvent::Value(self.hardware_error),
            _ => BusEvent::Done,
        }
    }
}

fn servo(id: u8, delay: u8) -> Vec<(u8, Register, u8)> {
    vec![
        (id, Register::ReturnDelayTime, delay),
        (id, Register::BaudRate, 3),
        (id, Register::PwmSlope, 140),
        (id, Register::Shutdown, 52),
    ]
}

fn bus(registers: Vec<(u8, Register, u8)>) -> FakeBus {
    FakeBus { registers, fresh_at: None, port: BAUD_RATE, comes_back: true, hardware_error: Some(0), log: Vec::new() }
}

fn run_audit(bus: &mut FakeBus, ids: Vec<u8>) -> Result<usize, ShortRead> {
    let (mut audit, mut next) = RegisterAudit::start(ids, expected_registers());
    while let Next::Perform(a) = next {
        let e = bus.perform(a);
        next = audit.step(e);
    }
    audit.outcome()
}

#[test]
fn a_servo_with_every_register_right_is_only_read() {
    let mut b = bus(servo(20, 0));
    assert_eq!(run_audit(&mut b, vec![20]), Ok(0));
    assert_eq!(b.log.len(), 4);
    assert!(b.log.iter().all(|a| matches!(a, BusAction::ReadRegister { id: 20, .. })));
}

#[test]
fn a_wrong_register_is_rewritten_then_settled_and_counted() {
    let mut regs = servo(20, 250);
    regs.extend(servo(21, 0));
    regs.extend(servo(22, 250));
    let mut b = bus(regs);
    assert_eq!(run_audit(&mut b, vec![20, 21, 22]), Ok(2));
    assert_eq!(b.log[0], BusAction::ReadRegister { id: 20, register: Register::ReturnDelayTime });
    assert_eq!(b.log[1], BusAction::WriteRegister { id: 20, register: Register::ReturnDelayTime, value: 0 });
    assert_eq!(b.log[2], BusAction::Pause { millis: EEPROM_SETTLE_MS });
    assert_eq!(b.log[3], BusAction::ReadRegister { id: 20, register: Register::BaudRate });
    assert_eq!(run_audit(&mut b, vec![20, 21, 22]), Ok(0));
}

#[test]
fn a_second_check_after_a_successful_one_writes_nothing() {
    let mut regs = servo(20, 250);
    regs.extend(servo(21, 7));
    regs[5].2 = 1;
    let mut b = bus(regs);
    assert_eq!(run_audit(&mut b, vec![20, 21]), Ok(3));
    b.log.clear();
    assert_eq!(run_audit(&mut b, vec![20, 21]), Ok(0));
    assert_eq!(b.log.len(), 8);
    assert!(b.log.iter().all(|a| matches!(a, BusAction::ReadRegister { .. })));
}

#[test]
fn a_silent_servo_fails_the_audit() {
    let mut b = bus(servo(20, 0));
    assert_eq!(
        run_audit(&mut b, vec![20, 33]),
        Err(ShortRead { what: ReadSite::RegisterRead, expected: 1, got: 0 })
    );
}

#[test]
fn an_empty_audit_fixes_nothing() {
    let (audit, next) = RegisterAudit::start(Vec::new(), expected_registers());
    assert_eq!(next, Next::Finish);
    assert_eq!(audit.outcome(), Ok(0));
}

fn run_torque(ids: Vec<u8>, on: bool, fail: &[u8]) -> (Vec<BusAction>, Result<(), Vec<(u8, String)>>) {
    let mut log = Vec::new();
    let (mut sweep, mut next) = TorqueSweep::start(ids, on);
    while let Next::Perform(a) = next {
        log.push(a);
        let outcome = match a {
            BusAction::WriteTorque { id, .. } if fail.contains(&id) => Err(format!("timeout on {id}")),
            _ => Ok(()),
        };
        next = sweep.step(outcome);
    }
    (log, sweep.outcome())
}

#[test]
fn every_servo_is_written_whatever_the_others_said() {
    let (log, result) = run_torque(JOINT_IDS.to_vec(), false, &[21, 33]);
    let written: Vec<u8> = log
        .iter()
        .map(|a| match a {
            BusAction::WriteTorque { id, on: false } => *id,
            other => panic!("unexpected {other:?}"),
        })
        .collect();
    assert_eq!(written, JOINT_IDS.to_vec());
    assert_eq!(
        result,
        Err(vec![(21, "timeout on 21".to_string()), (33, "timeout on 33".to_string())])
    );
}

#[test]
fn a_sweep_without_failures_succeeds() {
    let (log, result) = run_torque(vec![1, 2, 3], true, &[]);
    assert_eq!(log.len(), 3);
    assert_eq!(result, Ok(()));
    let (log, result) = run_torque(Vec::new(), true, &[]);
    assert!(log.is_empty());
    assert_eq!(result, Ok(()));
}

#[test]
fn gains_are_written_p_then_i_then_d_for_every_servo() {
    let plan = gain_plan(&[20, 21], 900);
    assert_eq!(
        plan,
        vec![
            GainWrite { id: 20, gain: Gain::PositionP, value: 900 },
            GainWrite { id: 20, gain: Gain::PositionI, value: KI },
            GainWrite { id: 20, gain: Gain::PositionD, value: KD },
            GainWrite { id: 21, gain: Gain::PositionP, value: 900 },
            GainWrite { id: 21, gain: Gain::PositionI, value: KI },
            GainWrite { id: 21, gain: Gain::PositionD, value: KD },
        ]
    );
    assert_eq!(gain_plan(&JOINT_IDS, 1).len(), 3 * JOINT_IDS.len());
}

fn run_adoption(b: &mut FakeBus, id: u8) -> Adoption {
    let (mut adoption, mut next) = Adoption::start(id, &JOINT_IDS, expected_registers());
    while let Next::Perform(a) = next {
        if let BusAction::WriteId { current, new } = a {
            assert_eq!(current, FACTORY_ID);
            for entry in b.registers.iter_mut() {
                if entry.0 == FACTORY_ID {
                    entry.0 = new;
                }
            }
        }
        let e = b.perform(a);
        next = adoption.step(e);
    }
    adoption
}

#[test]
fn a_fresh_servo_at_the_factory_speed_is_adopted() {
    let mut regs = servo(FACTORY_ID, 250);
    regs[1].2 = 1;
    let mut b = bus(regs);
    b.fresh_at = Some(FACTORY_BAUD_RATE);
    let adoption = run_adoption(&mut b, 23);
    assert_eq!(adoption.result(), Ok(true));
    assert_eq!(adoption.found_at_baud(), FACTORY_BAUD_RATE);
    assert_eq!(adoption.registers_fixed(), 1);
    assert_eq!(adoption.hardware_error(), 0);
    assert_eq!(b.port, BAUD_RATE);
    assert_eq!(
        &b.log[..9],
        &[
            BusAction::Ping { id: FACTORY_ID },
            BusAction::Reopen { baud: FACTORY_BAUD_RATE },
            BusAction::Ping { id: FACTORY_ID },
            BusAction::WriteId { current: FACTORY_ID, new: 23 },
            BusAction::Pause { millis: EEPROM_SETTLE_MS },
            BusAction::WriteRegister { id: 23, register: Register::BaudRate, value: 3 },
            BusAction::Pause { millis: EEPROM_SETTLE_MS },
            BusAction::Reopen { baud: BAUD_RATE },
            BusAction::ReadRegister { id: 23, register: Register::ReturnDelayTime },
        ]
    );
    let tail = &b.log[b.log.len() - 4..];
    assert_eq!(
        tail,
        &[
            BusAction::Reboot { id: 23 },
            BusAction::Pause { millis: REBOOT_SETTLE_MS },
            BusAction::Ping { id: 23 },
            BusAction::ReadHardwareError { id: 23 },
        ]
    );
}

#[test]
fn a_servo_already_at_the_bus_speed_is_adopted_without_reopening() {
    let mut b = bus(servo(FACTORY_ID, 0));
    b.fresh_at = Some(BAUD_RATE);
    b.hardware_error = Some(0x20);
    let adoption = run_adoption(&mut b, 31);
    assert_eq!(adoption.result(), Ok(true));
    assert_eq!(adoption.found_at_baud(), BAUD_RATE);
    assert_eq!(adoption.registers_fixed(), 0);
    assert_eq!(adoption.hardware_error(), 0x20);
    assert!(!b.log.iter().any(|a| matches!(a, BusAction::Reopen { .. })));
    assert!(!b.log.iter().any(|a| matches!(a, BusAction::WriteRegister { .. })));
}

#[test]
fn nothing_at_the_factory_id_leaves_the_bus_at_its_speed() {
    let mut b = bus(Vec::new());
    let adoption = run_adoption(&mut b, 23);
    assert_eq!(adoption.result(), Ok(false));
    assert_eq!(b.port, BAUD_RATE);
    assert_eq!(
        b.log,
        vec![
            BusAction::Ping { id: FACTORY_ID },
            BusAction::Reopen { baud: FACTORY_BAUD_RATE },
            BusAction::Ping { id: FACTORY_ID },
            BusAction::Reopen { baud: BAUD_RATE },
        ]
    );
}

#[test]
fn a_servo_that_does_not_come_back_fails_the_adoption() {
    let mut b = bus(servo(FACTORY_ID, 0));
    b.fresh_at = Some(BAUD_RATE);
    b.comes_back = false;
    let adoption = run_adoption(&mut b, 23);
    assert_eq!(adoption.result(), Err(AdoptError::LostAfterReboot { id: 23 }));
}

#[test]
fn a_servo_that_stops_answering_reads_fails_the_adoption() {
    let mut b = bus(vec![(FACTORY_ID, Register::ReturnDelayTime, 0)]);
    b.fresh_at = Some(BAUD_RATE);
    let adoption = run_adoption(&mut b, 23);
    assert_eq!(
        adoption.result(),
        Err(AdoptError::Unanswered(ShortRead { what: ReadSite::RegisterRead, expected: 1, got: 0 }))
    );
}

#[test]
fn only_a_joint_id_can_be_adopted() {
    let (adoption, next) = Adoption::start(99, &JOINT_IDS, expected_registers());
    assert_eq!(next, Next::Finish);
    assert_eq!(adoption.result(), Err(AdoptError::NotAJoint { id: 99 }));
}

#[test]
fn a_missing_hardware_status_reads_as_no_error() {
    let mut b = bus(servo(FACTORY_ID, 0));
    b.fresh_at = Some(BAUD_RATE);
    b.hardware_error = None;
    let adoption = run_adoption(&mut b, 23);
    assert_eq!(adoption.result(), Ok(true));
    assert_eq!(adoption.hardware_error(), 0);
}
