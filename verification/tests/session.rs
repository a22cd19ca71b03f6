use robstride::frame::{rx_unpacks, tx_packs};
use robstride::motors::{Action, Event, Motors};
use robstride::types::{
    CanComMode, CanPack, ExId, MotorControlParams, MotorError, MotorMode, MotorType, RunMode,
};
use std::collections::HashMap;

fn session(ids: &[(u8, MotorType)]) -> Motors {
    let map: HashMap<u8, MotorType> = ids.iter().cloned().collect();
    Motors::new(&map)
}

fn sent(action: &Action) -> (CanPack, u64, usize) {
    match action {
        Action::Exchange { bytes, sleep_ms, frames } => {
            let mut packs = rx_unpacks(bytes, 1).expect("one frame is written");
            assert_eq!(bytes.len(), 17);
            (packs.remove(0), *sleep_ms, *frames)
        }
        Action::Done(r) => panic!("the operation is over: {:?}", r),
    }
}

fn reply_from(id: u8, mode: CanComMode, data: [u8; 8]) -> Event {
    let pack = CanPack { ex_id: ExId { id: 0xFD, data: id as u16, mode, res: 0 }, len: 8, data: data.to_vec() };
    Event::Reply(tx_packs(std::slice::from_ref(&pack)))
}

fn feedback_from(id: u8) -> Event {
    reply_from(id, CanComMode::MotorFeedback, [0x80, 0, 0x80, 0, 0x80, 0, 0, 0])
}

/// Drives an operation to its end; every motor answers with feedback, and a
/// mode request is answered with `mode`.
fn drive(motors: &mut Motors, first: Action, mode: u8) -> (Vec<(CanComMode, u8)>, Result<(), MotorError>) {
    let mut log = Vec::new();
    let mut action = first;
    loop {
        match action {
            Action::Done(r) => return (log, r),
            Action::Exchange { .. } => {
                let (pack, _, _) = sent(&action);
                log.push((pack.ex_id.mode, pack.ex_id.id));
                let event = match pack.ex_id.mode {
                    CanComMode::SdoRead => reply_from(pack.ex_id.id, CanComMode::SdoRead, [0x05, 0x70, 0, 0, mode, 0, 0, 0]),
                    _ => feedback_from(pack.ex_id.id),
                };
                action = motors.step(event);
            }
        }
    }
}

#[test]
fn a_new_session_knows_nothing() {
    let motors = session(&[(2, MotorType::Type01), (1, MotorType::Type04)]);
    assert!(motors.is_idle());
    assert_eq!(motors.run_mode(), RunMode::UnsetMode);
    assert_eq!(motors.motor_ids(), vec![1, 2]);
    assert_eq!(motors.motor_types().get(&1), Some(&MotorType::Type04));
    assert!(motors.get_latest_feedback().is_empty());
    assert_eq!(motors.get_latest_feedback_for(1), Err(MotorError::NoFeedback));
}

#[test]
fn zeroing_resets_all_then_zeroes_all_then_starts_all() {
    let mut motors = session(&[(2, MotorType::Type01), (5, MotorType::Type01), (9, MotorType::Type01)]);
    let first = motors.send_set_zeros(Some(&[2, 5]));
    let (pack, sleep_ms, frames) = sent(&first);
    assert_eq!(pack.ex_id, ExId { id: 2, data: 0xFD, mode: CanComMode::MotorReset, res: 0 });
    assert_eq!((sleep_ms, frames), (50, 1));
    let (log, result) = drive(&mut motors, first, 0);
    assert_eq!(result, Ok(()));
    assert_eq!(
        log,
        vec![
            (CanComMode::MotorReset, 2),
            (CanComMode::MotorReset, 5),
            (CanComMode::MotorZero, 2),
            (CanComMode::MotorZero, 5),
            (CanComMode::MotorIn, 2),
            (CanComMode::MotorIn, 5),
        ]
    );
    assert!(motors.is_idle());
}

#[test]
fn zeroing_keeps_the_order_given() {
    let mut motors = session(&[(2, MotorType::Type01), (5, MotorType::Type01)]);
    let first = motors.send_set_zeros(Some(&[5, 2]));
    let (log, _) = drive(&mut motors, first, 0);
    let ids: Vec<u8> = log.iter().map(|(_, id)| *id).collect();
    assert_eq!(ids, vec![5, 2, 5, 2, 5, 2]);
    let first = motors.send_set_zeros(None);
    let (log, _) = drive(&mut motors, first, 0);
    let ids: Vec<u8> = log.iter().map(|(_, id)| *id).collect();
    assert_eq!(ids, vec![2, 5, 2, 5, 2, 5]);
}

#[test]
fn zeroing_an_unknown_motor_sends_nothing() {
    let mut motors = session(&[(2, MotorType::Type01), (5, MotorType::Type01)]);
    assert_eq!(motors.send_set_zeros(Some(&[7])), Action::Done(Err(MotorError::InvalidMotorId(7))));
    assert_eq!(
        motors.send_set_zeros(Some(&[2, 8, 5, 9])),
        Action::Done(Err(MotorError::InvalidMotorId(8)))
    );
    assert!(motors.is_idle());
    assert_eq!(MotorError::InvalidMotorId(7).kind(), robstride::types::ErrorKind::InvalidInput);
    assert_eq!(motors.send_set_zeros(Some(&[])), Action::Done(Ok(())));
}

#[test]
fn a_motor_that_fails_does_not_stop_the_others() {
    let mut motors = session(&[(2, MotorType::Type01), (5, MotorType::Type01)]);
    let mut action = motors.send_set_zeros(None);
    let mut log = Vec::new();
    while let Action::Exchange { .. } = action {
        let (pack, _, _) = sent(&action);
        log.push((pack.ex_id.mode, pack.ex_id.id));
        action = match (pack.ex_id.mode, pack.ex_id.id) {
            (CanComMode::MotorReset, 5) => motors.step(Event::Failed),
            (CanComMode::MotorZero, 5) => motors.step(Event::Reply(vec![0; 17])),
            (_, id) => motors.step(feedback_from(id)),
        };
    }
    assert_eq!(action, Action::Done(Ok(())));
    assert_eq!(log.len(), 6);
    assert_eq!(log[5], (CanComMode::MotorIn, 5));
    let failures = motors.failures();
    assert_eq!(failures.len(), 1);
    assert_eq!(failures[&5], MotorError::Link);
    assert!(motors.is_idle());
    let first = motors.send_resets();
    assert!(motors.failures().is_empty());
    sent(&first);
    let second = motors.step(Event::Reply(vec![0; 17]));
    assert_eq!(sent(&second).0.ex_id.id, 5);
    assert_eq!(motors.step(Event::Reply(vec![0x41; 16])), Action::Done(Ok(())));
    let failures = motors.failures();
    assert_eq!(failures[&2], MotorError::BadFrame);
    assert_eq!(failures[&5], MotorError::BadFrame);
    assert_eq!(motors.step(Event::Failed), Action::Done(Ok(())));
}

#[test]
fn resets_starts_and_the_watchdog_go_to_every_motor() {
    let mut motors = session(&[(3, MotorType::Type03), (1, MotorType::Type01)]);
    let first = motors.send_resets();
    let (log, r) = drive(&mut motors, first, 0);
    assert_eq!((log, r), (vec![(CanComMode::MotorReset, 1), (CanComMode::MotorReset, 3)], Ok(())));
    let first = motors.send_starts();
    let (log, r) = drive(&mut motors, first, 0);
    assert_eq!((log, r), (vec![(CanComMode::MotorIn, 1), (CanComMode::MotorIn, 3)], Ok(())));
    let first = motors.send_can_timeout(100);
    let (pack, sleep_ms, frames) = sent(&first);
    assert_eq!(pack.ex_id, ExId { id: 1, data: 0xFD, mode: CanComMode::ParaWrite, res: 0 });
    assert_eq!(pack.data, vec![0x0C, 0x20, 0x04, 0, 0xD0, 0x07, 0, 0]);
    assert_eq!((sleep_ms, frames), (50, 1));
    let (log, r) = drive(&mut motors, first, 0);
    assert_eq!((log, r), (vec![(CanComMode::ParaWrite, 1), (CanComMode::ParaWrite, 3)], Ok(())));
}

#[test]
fn a_session_without_motors_has_nothing_to_send() {
    let mut motors = session(&[]);
    assert_eq!(motors.send_resets(), Action::Done(Ok(())));
    assert_eq!(motors.send_get_mode(), Action::Done(Ok(())));
    assert!(motors.modes().is_empty());
    assert_eq!(motors.send_motor_controls(&HashMap::new()), Action::Done(Ok(())));
    let mut one = HashMap::new();
    one.insert(1u8, MotorControlParams::default());
    assert_eq!(motors.send_motor_controls(&one), Action::Done(Err(MotorError::InvalidMotorId(1))));
}

#[test]
fn modes_are_read_from_the_fifth_byte() {
    let mut motors = session(&[(1, MotorType::Type01), (2, MotorType::Type01), (3, MotorType::Type01)]);
    let first = motors.send_get_mode();
    let (pack, sleep_ms, frames) = sent(&first);
    assert_eq!(pack.ex_id, ExId { id: 1, data: 0xFD, mode: CanComMode::SdoRead, res: 0 });
    assert_eq!(pack.data, vec![0x05, 0x70, 0, 0, 0, 0, 0, 0]);
    assert_eq!((sleep_ms, frames), (0, 1));
    let second = motors.step(reply_from(1, CanComMode::SdoRead, [0, 0, 0, 0, 2, 0, 0, 0]));
    assert_eq!(sent(&second).0.ex_id.id, 2);
    let third = motors.step(Event::Failed);
    assert_eq!(sent(&third).0.ex_id.id, 3);
    let done = motors.step(reply_from(3, CanComMode::SdoRead, [0, 0, 0, 0, 200, 0, 0, 0]));
    assert_eq!(done, Action::Done(Ok(())));
    let modes = motors.modes();
    assert_eq!(modes.len(), 2);
    assert_eq!(modes[&1], RunMode::SpeedMode);
    assert_eq!(modes[&3], RunMode::UnsetMode);
    assert_eq!(motors.run_mode(), RunMode::UnsetMode);
}

fn setpoints(ids: &[u8]) -> HashMap<u8, MotorControlParams> {
    ids.iter().map(|id| (*id, MotorControlParams::default())).collect()
}

#[test]
fn the_first_setpoint_asks_for_the_mode_and_changes_it() {
    let mut motors = session(&[(1, MotorType::Type04), (2, MotorType::Type04)]);
    let first = motors.send_motor_controls(&setpoints(&[1, 2]));
    let (log, r) = drive(&mut motors, first, 1);
    assert_eq!(r, Ok(()));
    assert_eq!(
        log,
        vec![
            (CanComMode::SdoRead, 1),
            (CanComMode::SdoRead, 2),
            (CanComMode::SdoWrite, 1),
            (CanComMode::SdoWrite, 2),
            (CanComMode::MotorCtrl, 1),
            (CanComMode::MotorCtrl, 2),
        ]
    );
    assert_eq!(motors.run_mode(), RunMode::MitMode);
    let again = motors.send_motor_controls(&setpoints(&[1, 2]));
    let (log, r) = drive(&mut motors, again, 1);
    assert_eq!(r, Ok(()));
    assert_eq!(log, vec![(CanComMode::MotorCtrl, 1), (CanComMode::MotorCtrl, 2)]);
}

#[test]
fn motors_already_in_the_mode_are_not_told_to_change() {
    let mut motors = session(&[(1, MotorType::Type04), (2, MotorType::Type04)]);
    let first = motors.send_motor_controls(&setpoints(&[2]));
    let (log, r) = drive(&mut motors, first, 0);
    assert_eq!(r, Ok(()));
    assert_eq!(log, vec![(CanComMode::SdoRead, 1), (CanComMode::SdoRead, 2), (CanComMode::MotorCtrl, 2)]);
    assert_eq!(motors.run_mode(), RunMode::MitMode);
}

#[test]
fn the_mode_write_carries_the_mode_and_waits() {
    let mut motors = session(&[(1, MotorType::Type04)]);
    let first = motors.send_motor_controls(&setpoints(&[1]));
    let (_, sleep_ms, _) = sent(&first);
    assert_eq!(sleep_ms, 0);
    let write = motors.step(reply_from(1, CanComMode::SdoRead, [0, 0, 0, 0, 3, 0, 0, 0]));
    let (pack, sleep_ms, frames) = sent(&write);
    assert_eq!(pack.ex_id, ExId { id: 1, data: 0xFD, mode: CanComMode::SdoWrite, res: 0 });
    assert_eq!(pack.data, vec![0x05, 0x70, 0, 0, 0, 0, 0, 0]);
    assert_eq!((sleep_ms, frames), (50, 1));
    let control = motors.step(Event::Failed);
    let (pack, sleep_ms, frames) = sent(&control);
    assert_eq!(pack.ex_id, ExId { id: 1, data: 32767, mode: CanComMode::MotorCtrl, res: 0 });
    assert_eq!(pack.data, vec![0x7F, 0xFF, 0x7F, 0xFF, 0, 0, 0, 0]);
    assert_eq!((sleep_ms, frames), (0, 1));
    assert_eq!(motors.step(Event::Failed), Action::Done(Ok(())));
    assert_eq!(motors.failures()[&1], MotorError::Link);
    assert!(motors.feedbacks().is_empty());
    assert_eq!(motors.run_mode(), RunMode::MitMode);
}

#[test]
fn without_an_answer_the_mode_stays_unknown() {
    let mut motors = session(&[(1, MotorType::Type04), (2, MotorType::Type04)]);
    let first = motors.send_motor_controls(&setpoints(&[1]));
    sent(&first);
    let second = motors.step(Event::Failed);
    assert_eq!(sent(&second).0.ex_id.mode, CanComMode::SdoRead);
    assert_eq!(motors.step(Event::Failed), Action::Done(Err(MotorError::ModeUnknown)));
    assert_eq!(motors.run_mode(), RunMode::UnsetMode);
    assert!(motors.is_idle());
}

#[test]
fn differing_answers_leave_the_mode_to_be_set() {
    let mut motors = session(&[(1, MotorType::Type04), (2, MotorType::Type04)]);
    let first = motors.send_motor_controls(&setpoints(&[1]));
    sent(&first);
    motors.step(reply_from(1, CanComMode::SdoRead, [0, 0, 0, 0, 0, 0, 0, 0]));
    let write = motors.step(reply_from(2, CanComMode::SdoRead, [0, 0, 0, 0, 1, 0, 0, 0]));
    assert_eq!(sent(&write).0.ex_id.mode, CanComMode::SdoWrite);
    assert_eq!(motors.run_mode(), RunMode::MitMode);
}

#[test]
fn feedback_is_decoded_and_kept() {
    let mut motors = session(&[(1, MotorType::Type01), (2, MotorType::Type01)]);
    let first = motors.send_motor_controls(&setpoints(&[1, 2]));
    let (_, r) = drive(&mut motors, first, 0);
    assert_eq!(r, Ok(()));
    let feedbacks = motors.feedbacks();
    assert_eq!(feedbacks.len(), 2);
    assert_eq!(feedbacks[&2].can_id, 2);
    assert_eq!(feedbacks[&2].position, 191);
    assert_eq!(feedbacks[&2].mode, MotorMode::Reset);
    let latest = motors.get_latest_feedback();
    assert_eq!(latest.len(), 2);
    assert_eq!(motors.get_latest_feedback_for(1), Ok(feedbacks[&1]));
    assert_eq!(motors.get_latest_feedback_for(3), Err(MotorError::NoFeedback));
}

#[test]
fn a_reply_from_a_stranger_ends_the_operation() {
    let mut motors = session(&[(1, MotorType::Type01)]);
    let first = motors.send_motor_controls(&setpoints(&[1]));
    sent(&first);
    let control = motors.step(reply_from(1, CanComMode::SdoRead, [0; 8]));
    assert_eq!(sent(&control).0.ex_id.mode, CanComMode::MotorCtrl);
    assert_eq!(motors.step(feedback_from(9)), Action::Done(Ok(())));
    assert_eq!(motors.failures()[&1], MotorError::MotorNotFound);
    assert!(motors.feedbacks().is_empty());
    assert!(motors.get_latest_feedback().is_empty());
}

#[test]
fn names_come_in_four_frames() {
    let mut motors = session(&[(1, MotorType::Type01), (2, MotorType::Type01)]);
    let first = motors.read_names();
    let (pack, sleep_ms, frames) = sent(&first);
    assert_eq!(pack.ex_id, ExId { id: 1, data: 0xFD, mode: CanComMode::ParaRead, res: 0 });
    assert_eq!(pack.data, vec![0, 0, 0, 0, 0, 0, 0, 0]);
    assert_eq!((sleep_ms, frames), (0, 4));
    let frame = |text: &[u8; 4]| CanPack {
        ex_id: ExId { id: 0xFD, data: 1, mode: CanComMode::ParaRead, res: 0 },
        len: 8,
        data: vec![0, 0, 0, 0, text[0], text[1], text[2], text[3]],
    };
    let reply = tx_packs(&[frame(b"robs"), frame(b"trid"), frame(b"e\00\0"), frame(b"1\0\0\0")]);
    let second = motors.step(Event::Reply(reply.clone()));
    assert_eq!(sent(&second).0.ex_id.id, 2);
    assert_eq!(motors.step(Event::Reply(reply[..51].to_vec())), Action::Done(Ok(())));
    assert_eq!(motors.failures()[&2], MotorError::BadFrame);
    let texts = motors.texts();
    assert_eq!(texts.len(), 1);
    assert_eq!(texts[&1], "robstride01");
}

#[test]
fn bar_codes_and_build_dates_ask_for_their_parameters() {
    let mut motors = session(&[(1, MotorType::Type01)]);
    let (pack, _, frames) = sent(&motors.read_bar_codes());
    assert_eq!((&pack.data[..2], frames), (&[0x01u8, 0x00][..], 4));
    let (pack, _, frames) = sent(&motors.read_build_dates());
    assert_eq!((&pack.data[..2], frames), (&[0x01u8, 0x10][..], 3));
}

#[test]
fn watchdog_timeouts_are_a_twentieth_of_a_millisecond_each() {
    let mut motors = session(&[(4, MotorType::Type01)]);
    let first = motors.read_can_timeouts();
    let (pack, sleep_ms, frames) = sent(&first);
    assert_eq!(pack.ex_id, ExId { id: 4, data: 0xFD, mode: CanComMode::ParaRead, res: 0 });
    assert_eq!(pack.data, vec![0x0C, 0x20, 0, 0, 0, 0, 0, 0]);
    assert_eq!((sleep_ms, frames), (0, 1));
    let done = motors.step(reply_from(4, CanComMode::ParaRead, [0x0C, 0x20, 0, 0, 0xD0, 0x07, 0, 0]));
    assert_eq!(done, Action::Done(Ok(())));
    assert_eq!(motors.timeouts()[&4], 100_000_000);
}

#[test]
fn a_new_operation_forgets_the_results_of_the_last() {
    let mut motors = session(&[(4, MotorType::Type01)]);
    let first = motors.send_get_mode();
    let (_, r) = drive(&mut motors, first, 2);
    assert_eq!(r, Ok(()));
    assert_eq!(motors.modes().len(), 1);
    let first = motors.send_resets();
    assert!(motors.modes().is_empty());
    drive(&mut motors, first, 0);
}

#[test]
fn a_setpoint_answered_by_another_kind_of_frame_leaves_zeros() {
    let mut motors = session(&[(7, MotorType::Type04)]);
    let first = motors.send_motor_controls(&setpoints(&[7]));
    sent(&first);
    let control = motors.step(reply_from(7, CanComMode::SdoRead, [0; 8]));
    assert_eq!(sent(&control).0.ex_id.mode, CanComMode::MotorCtrl);
    let done = motors.step(reply_from(7, CanComMode::MotorReset, [9, 9, 9, 9, 9, 9, 9, 9]));
    assert_eq!(done, Action::Done(Ok(())));
    let feedback = motors.get_latest_feedback_for(7).unwrap();
    assert_eq!(feedback.can_id, 7);
    assert_eq!((feedback.position, feedback.velocity, feedback.torque), (0, 0, 0));
    assert_eq!(motors.feedbacks()[&7], feedback);
    assert!(motors.failures().is_empty());
}

#[test]
fn an_operation_is_reported_with_the_failure_of_the_lowest_id() {
    let mut motors = session(&[(2, MotorType::Type01), (5, MotorType::Type01), (9, MotorType::Type01)]);
    assert_eq!(motors.first_failure(), None);
    let mut action = motors.send_resets();
    while let Action::Exchange { .. } = action {
        let (pack, _, _) = sent(&action);
        action = match pack.ex_id.id {
            5 => motors.step(Event::Reply(vec![0; 17])),
            9 => motors.step(Event::Failed),
            id => motors.step(feedback_from(id)),
        };
    }
    assert_eq!(action, Action::Done(Ok(())));
    assert_eq!(motors.failures().len(), 2);
    assert_eq!(motors.first_failure(), Some(MotorError::BadFrame));
    let first = motors.send_starts();
    assert_eq!(motors.first_failure(), None);
    drive(&mut motors, first, 0);
    assert_eq!(motors.first_failure(), None);
}

#[test]
fn the_reply_may_take_five_times_the_wait_after_a_command() {
    let motors = session(&[(1, MotorType::Type01)]);
    let (_, sleep_ms, _) = sent(&session(&[(1, MotorType::Type01)]).send_resets());
    assert_eq!(sleep_ms, 50);
    assert_eq!(motors.read_deadline_ms(), 250);
}
