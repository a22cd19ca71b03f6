use robstride::frame::{rx_unpacks, tx_packs};
use robstride::supervisor::{
    reciprocal, since, sleep_ns, watchdog_ms, MotorsSupervisor, Phase, WorkerAction, WorkerEvent,
};
use robstride::types::{
    CanComMode, CanPack, ExId, MotorControlParams, MotorError, MotorType,
};
use std::collections::HashMap;

const HZ: u64 = 1_000_000;

fn supervisor(ids: &[(u8, MotorType)]) -> MotorsSupervisor {
    let map: HashMap<u8, MotorType> = ids.iter().cloned().collect();
    MotorsSupervisor::new(&map, 10 * HZ, 50 * HZ)
}

fn answer(bytes: &[u8]) -> (CanPack, WorkerEvent) {
    let pack = rx_unpacks(bytes, 1).expect("one frame is written").remove(0);
    let data = match pack.ex_id.mode {
        CanComMode::SdoRead => vec![0x05, 0x70, 0, 0, 0, 0, 0, 0],
        _ => vec![0x80, 0, 0x80, 0, 0x80, 0, 0, 0],
    };
    let reply = CanPack {
        ex_id: ExId { id: 0xFD, data: pack.ex_id.id as u16, mode: CanComMode::MotorFeedback, res: 0 },
        len: 8,
        data,
    };
    (pack, WorkerEvent::Reply(tx_packs(std::slice::from_ref(&reply))))
}

/// Runs the worker from an event until it sleeps or exits; `fail` tells
/// which frames get no answer.
fn run(
    sup: &mut MotorsSupervisor,
    event: WorkerEvent,
    now: u64,
    fail: &dyn Fn(&CanPack) -> bool,
) -> (Vec<(CanComMode, u8)>, WorkerAction) {
    let mut log = Vec::new();
    let mut action = sup.step(event, now);
    loop {
        match action {
            WorkerAction::Exchange { ref bytes, .. } => {
                let (pack, reply) = answer(bytes);
                log.push((pack.ex_id.mode, pack.ex_id.id));
                let event = if fail(&pack) { WorkerEvent::Failed } else { reply };
                action = sup.step(event, now);
            }
            other => return (log, other),
        }
    }
}

fn never(_: &CanPack) -> bool {
    false
}

#[test]
fn a_new_supervisor_has_zero_setpoints_and_counters() {
    let sup = supervisor(&[(1, MotorType::Type01), (2, MotorType::Type04)]);
    assert_eq!(sup.get_params(1), Ok(MotorControlParams::default()));
    assert_eq!(sup.get_position(2), Ok(0));
    assert_eq!(sup.get_total_commands(1), Ok(0));
    assert_eq!(sup.get_failed_commands(2), Ok(0));
    assert_eq!(sup.get_total_commands(3), Err(MotorError::MotorIdNotFound(3)));
    assert_eq!(sup.get_failed_commands(3), Err(MotorError::MotorIdNotFound(3)));
    assert!(sup.get_latest_feedback().is_empty());
    assert_eq!(sup.get_actual_update_rate(), 0);
    assert!(sup.is_running());
    assert!(!sup.is_paused());
    assert_eq!(sup.phase(), Phase::Created);
    assert_eq!(sup.motors().motor_ids(), vec![1, 2]);
}

#[test]
fn setpoints_are_set_and_read_back() {
    let mut sup = supervisor(&[(1, MotorType::Type01)]);
    assert_eq!(sup.set_position(1, 1_500_000), Ok(1_500_000));
    assert_eq!(sup.set_velocity(1, -2_000_000), Ok(-2_000_000));
    assert_eq!(sup.set_torque(1, 3_000_000), Ok(3_000_000));
    assert_eq!(sup.set_kp(1, 40_000_000), Ok(40_000_000));
    assert_eq!(sup.set_kd(1, 1_000_000), Ok(1_000_000));
    assert_eq!(sup.get_position(1), Ok(1_500_000));
    assert_eq!(sup.get_velocity(1), Ok(-2_000_000));
    assert_eq!(sup.get_torque(1), Ok(3_000_000));
    assert_eq!(sup.get_kp(1), Ok(40_000_000));
    assert_eq!(sup.get_kd(1), Ok(1_000_000));
    let unknown = Err(MotorError::MotorIdNotFound(9));
    assert_eq!(sup.set_position(9, 1), unknown);
    assert_eq!(sup.set_velocity(9, 1), unknown);
    assert_eq!(sup.set_torque(9, 1), unknown);
    assert_eq!(sup.set_kp(9, 1), unknown);
    assert_eq!(sup.set_kd(9, 1), unknown);
    assert_eq!(sup.get_position(9), unknown);
    assert_eq!(sup.get_velocity(9), unknown);
    assert_eq!(sup.get_torque(9), unknown);
    assert_eq!(sup.get_kp(9), unknown);
    assert_eq!(sup.get_kd(9), unknown);
    assert_eq!(sup.get_params(9), Err(MotorError::MotorIdNotFound(9)));
    assert_eq!(sup.set_params(9, MotorControlParams::default()), Err(MotorError::MotorIdNotFound(9)));
    assert_eq!(MotorError::MotorIdNotFound(9).kind(), robstride::types::ErrorKind::NotFound);
}

#[test]
fn gains_are_never_negative() {
    let mut sup = supervisor(&[(1, MotorType::Type01)]);
    assert_eq!(sup.set_kp(1, -5), Ok(0));
    assert_eq!(sup.set_kd(1, -1), Ok(0));
    assert_eq!(sup.get_kp(1), Ok(0));
    assert_eq!(sup.get_kd(1), Ok(0));
    assert_eq!(sup.set_kp(1, 0), Ok(0));
    assert_eq!(sup.set_kd(1, i64::MIN), Ok(0));
    let params = MotorControlParams { position: 1, velocity: 2, kp: -3, kd: -4, torque: 5 };
    assert_eq!(sup.set_params(1, params), Ok(()));
    assert_eq!(
        sup.get_params(1),
        Ok(MotorControlParams { position: 1, velocity: 2, kp: 0, kd: 0, torque: 5 })
    );
}

#[test]
fn a_motor_to_be_zeroed_gets_a_zero_setpoint() {
    let mut sup = supervisor(&[(2, MotorType::Type04)]);
    sup.set_params(2, MotorControlParams { position: 1, velocity: 2, kp: 3, kd: 4, torque: 5 }).unwrap();
    assert_eq!(sup.add_motor_to_zero(2), Ok(()));
    assert_eq!(sup.get_position(2), Ok(0));
    assert_eq!(sup.get_velocity(2), Ok(0));
    assert_eq!(sup.get_torque(2), Ok(0));
    assert_eq!(sup.get_kp(2), Ok(3));
    assert_eq!(sup.get_kd(2), Ok(4));
    assert_eq!(sup.add_motor_to_zero(3), Err(MotorError::MotorIdNotFound(3)));
    let (log, _) = run(&mut sup, WorkerEvent::Wake, 0, &never);
    let zeroed: Vec<&(CanComMode, u8)> = log.iter().filter(|(m, _)| *m == CanComMode::MotorZero).collect();
    assert_eq!(zeroed, vec![&(CanComMode::MotorZero, 2)]);
    let (log, _) = run(&mut sup, WorkerEvent::Wake, 0, &never);
    assert_eq!(log, vec![(CanComMode::MotorCtrl, 2)]);
}

#[test]
fn the_first_step_starts_up_and_runs_an_iteration() {
    let mut sup = supervisor(&[(1, MotorType::Type01), (2, MotorType::Type04)]);
    let (log, action) = run(&mut sup, WorkerEvent::Wake, 1_000, &never);
    assert_eq!(
        log,
        vec![
            (CanComMode::MotorReset, 1),
            (CanComMode::MotorReset, 2),
            (CanComMode::MotorIn, 1),
            (CanComMode::MotorIn, 2),
            (CanComMode::ParaWrite, 1),
            (CanComMode::ParaWrite, 2),
            // motor 1 has a single encoder and is zeroed first
            (CanComMode::MotorReset, 1),
            (CanComMode::MotorZero, 1),
            (CanComMode::MotorIn, 1),
            (CanComMode::SdoRead, 1),
            (CanComMode::SdoRead, 2),
            (CanComMode::MotorCtrl, 1),
            (CanComMode::MotorCtrl, 1),
            (CanComMode::MotorCtrl, 2),
        ]
    );
    assert_eq!(action, WorkerAction::Sleep { ns: 20_000_000 });
    assert_eq!(sup.phase(), Phase::Top);
    assert_eq!(sup.get_total_commands(1), Ok(3));
    assert_eq!(sup.get_total_commands(2), Ok(1));
    assert_eq!(sup.get_failed_commands(1), Ok(0));
    assert_eq!(sup.get_failed_commands(2), Ok(0));
    assert_eq!(sup.motors().get_latest_feedback().len(), 2);
    assert!(sup.get_latest_feedback().is_empty());
    let (log, _) = run(&mut sup, WorkerEvent::Wake, 20_001_000, &never);
    assert_eq!(log, vec![(CanComMode::MotorCtrl, 1), (CanComMode::MotorCtrl, 2)]);
    assert_eq!(sup.get_latest_feedback().len(), 2);
    assert_eq!(sup.get_latest_feedback()[&1].position, 191);
    assert_eq!(sup.get_total_commands(1), Ok(4));
    assert_eq!(sup.get_total_commands(2), Ok(2));
}

#[test]
fn the_watchdog_is_set_from_the_lowest_rate() {
    let mut sup = supervisor(&[(3, MotorType::Type03)]);
    let mut action = sup.step(WorkerEvent::Wake, 0);
    let mut written = None;
    loop {
        match action {
            WorkerAction::Exchange { ref bytes, sleep_ms, frames } => {
                let (pack, reply) = answer(bytes);
                if pack.ex_id.mode == CanComMode::ParaWrite {
                    assert_eq!((sleep_ms, frames), (50, 1));
                    written = Some(pack.data.clone());
                }
                action = sup.step(reply, 0);
            }
            _ => break,
        }
    }
    // 10 Hz: 100 ms, written as 2000
    assert_eq!(written, Some(vec![0x0C, 0x20, 0x04, 0, 0xD0, 0x07, 0, 0]));
    sup.set_min_update_rate(3 * HZ);
    let (log, _) = run(&mut sup, WorkerEvent::Wake, 0, &never);
    assert_eq!(log, vec![(CanComMode::ParaWrite, 3), (CanComMode::MotorCtrl, 3)]);
    let (log, _) = run(&mut sup, WorkerEvent::Wake, 0, &never);
    assert_eq!(log, vec![(CanComMode::MotorCtrl, 3)]);
}

#[test]
fn failures_are_counted_and_never_pass_the_commands() {
    let mut sup = supervisor(&[(1, MotorType::Type02), (2, MotorType::Type02)]);
    run(&mut sup, WorkerEvent::Wake, 0, &never);
    assert_eq!((sup.get_total_commands(1), sup.get_failed_commands(1)), (Ok(1), Ok(0)));
    let fails = |pack: &CanPack| pack.ex_id.mode == CanComMode::MotorCtrl && pack.ex_id.id == 2;
    for round in 2..6u64 {
        let (log, action) = run(&mut sup, WorkerEvent::Wake, 0, &fails);
        assert_eq!(log, vec![(CanComMode::MotorCtrl, 1), (CanComMode::MotorCtrl, 2)]);
        assert!(matches!(action, WorkerAction::Sleep { .. }));
        for id in [1, 2] {
            let total = sup.get_total_commands(id).unwrap();
            let failed = sup.get_failed_commands(id).unwrap();
            assert_eq!(total, round);
            assert_eq!(failed, if id == 2 { round - 1 } else { 0 });
            assert!(failed <= total);
        }
    }
    sup.reset_command_counters();
    assert_eq!((sup.get_total_commands(1), sup.get_failed_commands(1)), (Ok(0), Ok(0)));
    assert_eq!((sup.get_total_commands(2), sup.get_failed_commands(2)), (Ok(0), Ok(0)));
}

#[test]
fn a_failed_zeroing_counts_each_attempt() {
    let mut sup = supervisor(&[(1, MotorType::Type01)]);
    let fails = |pack: &CanPack| pack.ex_id.mode == CanComMode::MotorZero;
    let (log, _) = run(&mut sup, WorkerEvent::Wake, 0, &fails);
    assert_eq!(
        &log[3..],
        &[
            (CanComMode::MotorReset, 1),
            (CanComMode::MotorZero, 1),
            (CanComMode::MotorIn, 1),
            (CanComMode::SdoRead, 1),
            (CanComMode::MotorCtrl, 1),
            (CanComMode::MotorCtrl, 1),
        ]
    );
    assert_eq!(sup.get_total_commands(1), Ok(3));
    assert_eq!(sup.get_failed_commands(1), Ok(1));
    // the motor is not zeroed again
    let (log, _) = run(&mut sup, WorkerEvent::Wake, 0, &fails);
    assert_eq!(log, vec![(CanComMode::MotorCtrl, 1)]);
}

#[test]
fn a_paused_worker_sends_nothing() {
    let mut sup = supervisor(&[(1, MotorType::Type02)]);
    run(&mut sup, WorkerEvent::Wake, 0, &never);
    sup.toggle_pause();
    assert!(sup.is_paused());
    for _ in 0..3 {
        assert_eq!(sup.step(WorkerEvent::Wake, 0), WorkerAction::Sleep { ns: 10_000_000 });
    }
    assert_eq!(sup.get_total_commands(1), Ok(1));
    sup.toggle_pause();
    let (log, _) = run(&mut sup, WorkerEvent::Wake, 0, &never);
    assert_eq!(log, vec![(CanComMode::MotorCtrl, 1)]);
}

#[test]
fn a_restart_is_done_once() {
    let mut sup = supervisor(&[(1, MotorType::Type02), (2, MotorType::Type02)]);
    run(&mut sup, WorkerEvent::Wake, 0, &never);
    sup.reset();
    let (log, _) = run(&mut sup, WorkerEvent::Wake, 0, &never);
    assert_eq!(
        log,
        vec![
            (CanComMode::MotorReset, 1),
            (CanComMode::MotorReset, 2),
            (CanComMode::MotorIn, 1),
            (CanComMode::MotorIn, 2),
            (CanComMode::MotorCtrl, 1),
            (CanComMode::MotorCtrl, 2),
        ]
    );
    let (log, _) = run(&mut sup, WorkerEvent::Wake, 0, &never);
    assert_eq!(log, vec![(CanComMode::MotorCtrl, 1), (CanComMode::MotorCtrl, 2)]);
}

#[test]
fn stopping_at_once_still_resets_the_motor() {
    let mut sup = supervisor(&[(1, MotorType::Type01)]);
    sup.stop();
    assert!(!sup.is_running());
    let (log, action) = run(&mut sup, WorkerEvent::Wake, 0, &never);
    assert_eq!(action, WorkerAction::Exit);
    assert_eq!(sup.phase(), Phase::Stopped);
    assert_eq!(log.last(), Some(&(CanComMode::MotorReset, 1)));
    assert_eq!(
        log,
        vec![
            (CanComMode::MotorReset, 1),
            (CanComMode::MotorIn, 1),
            (CanComMode::ParaWrite, 1),
            (CanComMode::MotorReset, 1),
        ]
    );
    // the reset of shutdown is a command to the motor
    assert_eq!(sup.get_total_commands(1), Ok(1));
    assert!(sup.get_total_commands(1).unwrap() >= 1);
    assert_eq!(sup.get_failed_commands(1), Ok(0));
    for event in [WorkerEvent::Wake, WorkerEvent::Failed, WorkerEvent::Reply(vec![1, 2, 3])] {
        assert_eq!(sup.step(event, 5), WorkerAction::Exit);
        assert_eq!(sup.phase(), Phase::Stopped);
        assert_eq!(sup.get_total_commands(1), Ok(1));
    }
}

#[test]
fn stopping_after_an_iteration_zeroes_the_setpoints_first() {
    let mut sup = supervisor(&[(1, MotorType::Type01), (2, MotorType::Type04)]);
    run(&mut sup, WorkerEvent::Wake, 0, &never);
    assert!(sup.get_total_commands(1).unwrap() >= 1);
    sup.stop();
    let (log, action) = run(&mut sup, WorkerEvent::Wake, 0, &never);
    assert_eq!(action, WorkerAction::Exit);
    assert_eq!(
        log,
        vec![
            (CanComMode::MotorCtrl, 1),
            (CanComMode::MotorCtrl, 2),
            (CanComMode::MotorReset, 1),
            (CanComMode::MotorReset, 2),
        ]
    );
    // three in the iteration (zeroing, its zero setpoint, the setpoint) and
    // two at shutdown for motor 1; one and two for motor 2
    assert_eq!(sup.get_total_commands(1), Ok(5));
    assert_eq!(sup.get_total_commands(2), Ok(3));
    assert_eq!(run(&mut sup, WorkerEvent::Wake, 0, &never), (vec![], WorkerAction::Exit));
}

#[test]
fn shutdown_goes_on_when_the_link_fails() {
    let mut sup = supervisor(&[(1, MotorType::Type02)]);
    run(&mut sup, WorkerEvent::Wake, 0, &never);
    sup.stop();
    let always = |_: &CanPack| true;
    let (log, action) = run(&mut sup, WorkerEvent::Wake, 0, &always);
    assert_eq!(log, vec![(CanComMode::MotorCtrl, 1), (CanComMode::MotorReset, 1)]);
    assert_eq!(action, WorkerAction::Exit);
    // counted as commands, but failures of shutdown are not counted
    assert_eq!(sup.get_total_commands(1), Ok(3));
    assert_eq!(sup.get_failed_commands(1), Ok(0));
}

#[test]
fn the_rate_is_measured_between_iterations() {
    let mut sup = supervisor(&[(1, MotorType::Type02)]);
    let (_, action) = run(&mut sup, WorkerEvent::Wake, 1_000_000, &never);
    // period of 50 Hz is 20 ms; nothing of it was used
    assert_eq!(action, WorkerAction::Sleep { ns: 20_000_000 });
    // measured from the end of start-up, which was at the same instant
    assert_eq!(sup.get_actual_update_rate(), u64::MAX);
    let (_, action) = run(&mut sup, WorkerEvent::Wake, 26_000_000, &never);
    assert_eq!(action, WorkerAction::Sleep { ns: 20_000_000 });
    assert_eq!(sup.get_actual_update_rate(), 40 * HZ);
    sup.set_target_update_rate(100 * HZ);
    let mut action = sup.step(WorkerEvent::Wake, 46_000_000);
    let mut now = 46_000_000;
    loop {
        match action {
            WorkerAction::Exchange { ref bytes, .. } => {
                now += 4_000_000;
                let (_, reply) = answer(bytes);
                action = sup.step(reply, now);
            }
            _ => break,
        }
    }
    assert_eq!(action, WorkerAction::Sleep { ns: 6_000_000 });
    assert_eq!(sup.get_actual_update_rate(), 50 * HZ);
}

#[test]
fn a_late_iteration_sleeps_a_microsecond() {
    assert_eq!(sleep_ns(20_000_000, 0), 20_000_000);
    assert_eq!(sleep_ns(20_000_000, 19_998_999), 1_001);
    assert_eq!(sleep_ns(20_000_000, 19_999_000), 1_000);
    assert_eq!(sleep_ns(20_000_000, 25_000_000), 1_000);
    assert_eq!(sleep_ns(20_000_000, u64::MAX), 1_000);
    assert_eq!(sleep_ns(u64::MAX, 0), u64::MAX);
    assert_eq!(sleep_ns(0, 0), 1_000);
}

#[test]
fn rates_and_periods_are_reciprocal() {
    assert_eq!(reciprocal(50 * HZ), 20_000_000);
    assert_eq!(reciprocal(20_000_000), 50 * HZ);
    assert_eq!(reciprocal(1), 1_000_000_000_000_000);
    assert_eq!(reciprocal(3 * HZ), 333_333_333);
    assert_eq!(reciprocal(0), u64::MAX);
    assert_eq!(reciprocal(u64::MAX), 0);
    assert_eq!(since(7, 3), 4);
    assert_eq!(since(3, 7), 0);
    assert_eq!(since(3, 3), 0);
}

#[test]
fn the_watchdog_timeout_is_rounded_up() {
    assert_eq!(watchdog_ms(10 * HZ), 100);
    assert_eq!(watchdog_ms(3 * HZ), 334);
    assert_eq!(watchdog_ms(1000 * HZ), 1);
    assert_eq!(watchdog_ms(1001 * HZ), 1);
    assert_eq!(watchdog_ms(HZ), 1000);
    assert_eq!(watchdog_ms(HZ / 2), 2000);
    assert_eq!(watchdog_ms(1), 1_000_000_000);
    assert_eq!(watchdog_ms(0), u32::MAX);
    assert_eq!(watchdog_ms(u64::MAX), 1);
}

#[test]
fn a_wake_up_where_a_reply_was_due_counts_as_a_failure() {
    let mut sup = supervisor(&[(1, MotorType::Type02)]);
    assert!(matches!(sup.step(WorkerEvent::Wake, 0), WorkerAction::Exchange { .. }));
    assert_eq!(sup.phase(), Phase::StartResets);
    // the reset fails; start-up goes on with the start
    let action = sup.step(WorkerEvent::Wake, 0);
    match action {
        WorkerAction::Exchange { ref bytes, .. } => {
            assert_eq!(answer(bytes).0.ex_id.mode, CanComMode::MotorIn);
        }
        other => panic!("{:?}", other),
    }
    assert_eq!(sup.phase(), Phase::StartStarts);
}

#[test]
fn a_bus_that_is_silent_fails_every_motor_of_the_batch() {
    let mut sup = supervisor(&[(1, MotorType::Type02), (2, MotorType::Type02)]);
    let always = |_: &CanPack| true;
    let (log, action) = run(&mut sup, WorkerEvent::Wake, 0, &always);
    assert!(matches!(action, WorkerAction::Sleep { .. }));
    // no motor tells its mode, so no setpoint goes out
    assert_eq!(&log[6..], &[(CanComMode::SdoRead, 1), (CanComMode::SdoRead, 2)]);
    for id in [1, 2] {
        assert_eq!(sup.get_total_commands(id), Ok(1));
        assert_eq!(sup.get_failed_commands(id), Ok(1));
    }
}
