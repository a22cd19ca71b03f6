use robstride::bits::{pack_bits, pack_ex_id, unpack_bits, unpack_ex_id};
use robstride::command::{
    can_timeout_of, can_timeout_pack, control_codes, control_pack, feedback_of, get_mode_pack,
    param_text, param_u16, read_param_pack, reset_pack, run_mode_of, set_mode_pack, start_pack,
    zero_pack,
};
use robstride::fixed::{fixed_to_uint, uint_to_fixed};
use robstride::frame::{rx_unpacks, tx_packs, unpack_raw_feedback};
use robstride::types::{
    motor_type_from_str, CanComMode, CanPack, ErrorKind, ExId, MotorControlParams, MotorError,
    MotorFeedbackRaw, MotorMode, MotorType, RunMode,
};
use robstride::{BAUDRATE, CAN_ID_BROADCAST, CAN_ID_DEBUG_UI, CAN_ID_MASTER, CAN_ID_MOTOR_DEFAULT};

fn feedback_frame(id: u8, data: u16, payload: [u8; 8]) -> CanPack {
    CanPack {
        ex_id: ExId { id, data, mode: CanComMode::MotorFeedback, res: 0 },
        len: 8,
        data: payload.to_vec(),
    }
}

#[test]
fn constants_have_their_values() {
    assert_eq!(CAN_ID_MASTER, 0x00);
    assert_eq!(CAN_ID_MOTOR_DEFAULT, 0x7F);
    assert_eq!(CAN_ID_BROADCAST, 0xFE);
    assert_eq!(CAN_ID_DEBUG_UI, 0xFD);
    assert_eq!(BAUDRATE, 921600);
}

#[test]
fn encodes_zero_of_a_symmetric_range_as_32767() {
    assert_eq!(fixed_to_uint(0, -12_500_000, 12_500_000), 32767);
    assert_eq!(fixed_to_uint(0, -120_000_000, 120_000_000), 32767);
    assert_eq!(fixed_to_uint(0, 0, 5_000_000_000), 0);
}

#[test]
fn encodes_the_ends_and_beyond() {
    assert_eq!(fixed_to_uint(-12_500_000, -12_500_000, 12_500_000), 0);
    assert_eq!(fixed_to_uint(12_500_000, -12_500_000, 12_500_000), 65535);
    assert_eq!(fixed_to_uint(-13_000_000, -12_500_000, 12_500_000), 0);
    assert_eq!(fixed_to_uint(99_000_000, -12_500_000, 12_500_000), 65535);
    assert_eq!(fixed_to_uint(i64::MIN, -1, i64::MAX), 0);
    assert_eq!(fixed_to_uint(i64::MAX, i64::MIN, i64::MAX), 65535);
    assert_eq!(fixed_to_uint(1_000_000, 0, 5_000_000), 13107);
}

#[test]
fn decodes_the_ends_of_a_range() {
    assert_eq!(uint_to_fixed(0, -12_500_000, 12_500_000), -12_500_000);
    assert_eq!(uint_to_fixed(65535, -12_500_000, 12_500_000), 12_500_000);
    assert_eq!(uint_to_fixed(32768, -12_500_000, 12_500_000), 191);
    assert_eq!(uint_to_fixed(65535, i64::MIN, i64::MAX), i64::MAX);
}

#[test]
fn a_code_decoded_and_encoded_comes_back() {
    let types = [MotorType::Type01, MotorType::Type02, MotorType::Type03, MotorType::Type04];
    for t in types {
        let c = t.config();
        let ranges = [
            (c.p_min, c.p_max),
            (c.v_min, c.v_max),
            (c.kp_min, c.kp_max),
            (c.kd_min, c.kd_max),
            (c.t_min, c.t_max),
        ];
        for (lo, hi) in ranges {
            for u in [0u16, 1, 2, 255, 256, 32767, 32768, 40000, 65534, 65535] {
                assert_eq!(fixed_to_uint(uint_to_fixed(u, lo, hi), lo, hi), u);
            }
        }
    }
}

#[test]
fn a_value_encoded_and_decoded_moves_less_than_a_step() {
    let (lo, hi) = (-12_500_000i64, 12_500_000i64);
    for x in [lo, lo + 1, -1, 0, 1, 762, 1144, 5_000_000, hi - 1, hi] {
        let back = uint_to_fixed(fixed_to_uint(x, lo, hi), lo, hi);
        assert!(back <= x);
        assert!(((x - back) as i128) * 65535 < (hi - lo) as i128);
    }
}

#[test]
fn packs_bits_from_the_lowest_field_up() {
    assert_eq!(pack_bits(&[0x12, 0x3456, 0x1f, 0x7], &[8, 16, 5, 3]), 0xFF34_5612);
    assert_eq!(pack_bits(&[0x1ff], &[8]), 0xff);
    assert_eq!(pack_bits(&[1, 1], &[32, 1]), 1);
    assert_eq!(pack_bits(&[5, 6, 7], &[4, 4]), 0x65);
    assert_eq!(pack_bits(&[], &[]), 0);
    assert_eq!(pack_bits(&[0xffff_ffff], &[40]), 0xffff_ffff);
    assert_eq!(pack_bits(&[3, 1], &[0, 1]), 1);
}

#[test]
fn unpacks_bits_from_the_lowest_field_up() {
    assert_eq!(unpack_bits(0xFF34_5612, &[8, 16, 5, 3]), vec![0x12, 0x3456, 0x1f, 0x7]);
    assert_eq!(unpack_bits(0xdead_beef, &[32, 4]), vec![0xdead_beef, 0]);
    assert_eq!(unpack_bits(0xab, &[4, 0, 4]), vec![0xb, 0, 0xa]);
    assert_eq!(unpack_bits(7, &[]), Vec::<u32>::new());
}

#[test]
fn packs_an_extended_id() {
    let ex = ExId { id: 1, data: 0xFD, mode: CanComMode::MotorReset, res: 0 };
    // (1 | 0xFD << 8 | 4 << 24) << 3 | 4
    assert_eq!(pack_ex_id(&ex), [0x20, 0x07, 0xE8, 0x0C]);
    let ex = ExId { id: 0, data: 0, mode: CanComMode::AnnounceDevId, res: 0 };
    assert_eq!(pack_ex_id(&ex), [0, 0, 0, 4]);
}

#[test]
fn an_extended_id_comes_back_without_its_reserved_bits() {
    let modes = [
        CanComMode::AnnounceDevId,
        CanComMode::MotorCtrl,
        CanComMode::MotorFeedback,
        CanComMode::SdoWrite,
        CanComMode::ModeTotal,
    ];
    for mode in modes {
        for (id, data) in [(0u8, 0u16), (1, 0xFD), (255, 65535), (127, 32767)] {
            let ex = ExId { id, data, mode, res: 0 };
            let bytes = pack_ex_id(&ex);
            assert_eq!(bytes[3] & 0b111, 0b100);
            assert_eq!(bytes[3] & 0b11, 0);
            assert_eq!(unpack_ex_id(bytes), ex);
            let with_res = ExId { res: 5, ..ex };
            assert_eq!(pack_ex_id(&with_res), bytes);
            assert_eq!(unpack_ex_id(pack_ex_id(&with_res)), ex);
        }
    }
}

#[test]
fn an_unassigned_kind_reads_as_mode_total() {
    // the value 31 in the five mode bits
    let word: u32 = ((31u32 << 24) << 3) | 4;
    let ex = unpack_ex_id(word.to_be_bytes());
    assert_eq!(ex.mode, CanComMode::ModeTotal);
    assert_eq!(CanComMode::from_code(23), CanComMode::ModeTotal);
    assert_eq!(CanComMode::from_code(2), CanComMode::MotorFeedback);
    assert_eq!(CanComMode::FaultWarn.code(), 21);
    assert_eq!(CanComMode::ModeTotal.code(), 22);
    assert_eq!(CanComMode::SdoRead.code(), 17);
}

#[test]
fn motor_and_run_modes_read_totally() {
    assert_eq!(MotorMode::from_code(0), MotorMode::Reset);
    assert_eq!(MotorMode::from_code(1), MotorMode::Cali);
    assert_eq!(MotorMode::from_code(2), MotorMode::Motor);
    assert_eq!(MotorMode::from_code(3), MotorMode::Brake);
    assert_eq!(MotorMode::from_code(9), MotorMode::Reset);
    assert_eq!(MotorMode::default(), MotorMode::Reset);
    assert_eq!(RunMode::from_code(0), RunMode::MitMode);
    assert_eq!(RunMode::from_code(5), RunMode::CspPositionMode);
    assert_eq!(RunMode::from_code(6), RunMode::UnsetMode);
    assert_eq!(RunMode::from_code(255), RunMode::UnsetMode);
    assert_eq!(RunMode::UnsetMode.code(), None);
    assert_eq!(RunMode::ToZeroMode.code(), Some(4));
}

#[test]
fn frames_start_with_at_and_end_with_cr_lf() {
    let packs = vec![reset_pack(1), start_pack(2), zero_pack(3)];
    let bytes = tx_packs(&packs);
    assert_eq!(bytes.len(), 51);
    for k in 0..3 {
        assert_eq!(&bytes[17 * k..17 * k + 2], b"AT");
        assert_eq!(&bytes[17 * k + 15..17 * k + 17], b"\r\n");
        assert_eq!(bytes[17 * k + 6], 8);
    }
    assert_eq!(tx_packs(&[]), Vec::<u8>::new());
}

#[test]
fn a_short_frame_is_written_with_eight_payload_bytes() {
    let pack = CanPack {
        ex_id: ExId { id: 9, data: 1, mode: CanComMode::MotorId, res: 0 },
        len: 2,
        data: vec![0xAA, 0xBB, 0xCC],
    };
    let bytes = tx_packs(std::slice::from_ref(&pack));
    assert_eq!(bytes.len(), 17);
    assert_eq!(bytes[6], 2);
    assert_eq!(&bytes[7..15], &[0xAA, 0xBB, 0, 0, 0, 0, 0, 0]);
    let back = rx_unpacks(&bytes, 1).unwrap();
    assert_eq!(back[0].len, 2);
    assert_eq!(back[0].data, vec![0xAA, 0xBB]);
    assert_eq!(back[0].byte(0), 0xAA);
    assert_eq!(back[0].byte(5), 0);
}

#[test]
fn frames_come_back_as_they_were_sent() {
    let packs = vec![reset_pack(1), read_param_pack(2, 0x200C), can_timeout_pack(3, 7)];
    let bytes = tx_packs(&packs);
    assert_eq!(rx_unpacks(&bytes, 3), Ok(packs.clone()));
    assert_eq!(rx_unpacks(&bytes, 2).unwrap(), packs[..2].to_vec());
    assert_eq!(rx_unpacks(&bytes, 0), Ok(vec![]));
}

#[test]
fn bad_bytes_are_refused() {
    let good = tx_packs(&[reset_pack(1)]);
    assert_eq!(rx_unpacks(&good[..16], 1), Err(MotorError::BadFrame));
    assert_eq!(rx_unpacks(&good, 2), Err(MotorError::BadFrame));
    assert_eq!(rx_unpacks(&[], 1), Err(MotorError::BadFrame));
    let mut bad = good.clone();
    bad[0] = b'B';
    assert_eq!(rx_unpacks(&bad, 1), Err(MotorError::BadFrame));
    let mut bad = good.clone();
    bad[1] = b'X';
    assert_eq!(rx_unpacks(&bad, 1), Err(MotorError::BadFrame));
    let mut bad = good.clone();
    bad[6] = 9;
    assert_eq!(rx_unpacks(&bad, 1), Err(MotorError::BadFrame));
    assert_eq!(rx_unpacks(&good, usize::MAX), Err(MotorError::BadFrame));
    let mut two = good.clone();
    two.extend_from_slice(&bad);
    assert_eq!(rx_unpacks(&two, 1).unwrap().len(), 1);
    assert_eq!(rx_unpacks(&two, 2), Err(MotorError::BadFrame));
}

#[test]
fn encodes_the_origin_for_the_largest_motor() {
    let params = MotorControlParams { position: 0, velocity: 0, kp: 0, kd: 0, torque: 0 };
    let config = MotorType::Type04.config();
    let codes = control_codes(&params, &config);
    assert_eq!(codes.position, 32767);
    assert_eq!(codes.velocity, 32767);
    assert_eq!(codes.kp, 0);
    assert_eq!(codes.kd, 0);
    assert_eq!(codes.torque, 32767);
    let pack = control_pack(5, &params, &config);
    assert_eq!(pack.ex_id, ExId { id: 5, data: 32767, mode: CanComMode::MotorCtrl, res: 0 });
    assert_eq!(pack.len, 8);
    assert_eq!(pack.data, vec![0x7F, 0xFF, 0x7F, 0xFF, 0x00, 0x00, 0x00, 0x00]);
}

#[test]
fn encodes_a_setpoint_field_by_field() {
    let params = MotorControlParams {
        position: 12_500_000,
        velocity: -44_000_000,
        kp: 250_000_000,
        kd: 5_000_000,
        torque: -12_000_000,
    };
    let pack = control_pack(1, &params, &MotorType::Type01.config());
    assert_eq!(pack.ex_id.data, 0);
    assert_eq!(pack.data, vec![0xFF, 0xFF, 0x00, 0x00, 0x7F, 0xFF, 0xFF, 0xFF]);
}

#[test]
fn decodes_feedback() {
    let config = MotorType::Type01.config();
    let pack = feedback_frame(1, 0x0003, [0x80, 0, 0x80, 0, 0x80, 0, 0, 0]);
    let bytes = tx_packs(std::slice::from_ref(&pack));
    assert_eq!(&bytes[..2], &[0x41, 0x54]);
    let pack = rx_unpacks(&bytes, 1).unwrap().remove(0);
    assert_eq!(pack.ex_id, ExId { id: 1, data: 3, mode: CanComMode::MotorFeedback, res: 0 });
    let raw = unpack_raw_feedback(&pack);
    assert_eq!(
        raw,
        MotorFeedbackRaw {
            can_id: 3,
            pos_int: 0x8000,
            vel_int: 0x8000,
            torque_int: 0x8000,
            mode: MotorMode::Reset,
            faults: 0,
        }
    );
    let feedback = feedback_of(&pack, &config);
    assert_eq!(feedback.can_id, 3);
    assert_eq!(feedback.faults, 0);
    assert_eq!(feedback.mode, MotorMode::Reset);
    assert_eq!(feedback.position, 191);
    assert_eq!(feedback.velocity, 672);
    assert_eq!(feedback.torque, 184);
    assert!(feedback.position.abs() < 1_000);
    assert!(feedback.velocity.abs() < 1_000);
    assert!(feedback.torque.abs() < 1_000);
}

#[test]
fn reads_state_and_faults_out_of_the_data_field() {
    let pack = feedback_frame(0, 0xBF07, [1, 2, 3, 4, 5, 6, 7, 8]);
    let raw = unpack_raw_feedback(&pack);
    assert_eq!(raw.can_id, 7);
    assert_eq!(raw.faults, 0x3F);
    assert_eq!(raw.mode, MotorMode::Motor);
    assert_eq!(raw.pos_int, 0x0102);
    assert_eq!(raw.vel_int, 0x0304);
    assert_eq!(raw.torque_int, 0x0506);
    let other = CanPack {
        ex_id: ExId { id: 0, data: 0xC105, mode: CanComMode::MotorIn, res: 0 },
        len: 8,
        data: vec![1, 2, 3, 4, 5, 6, 7, 8],
    };
    let raw = unpack_raw_feedback(&other);
    assert_eq!(
        raw,
        MotorFeedbackRaw {
            can_id: 5,
            pos_int: 0,
            vel_int: 0,
            torque_int: 0,
            mode: MotorMode::Brake,
            faults: 1,
        }
    );
    let short = CanPack { len: 3, data: vec![1, 2, 3], ..feedback_frame(0, 0, [0; 8]) };
    let raw = unpack_raw_feedback(&short);
    assert_eq!((raw.pos_int, raw.vel_int, raw.torque_int), (0x0102, 0x0300, 0));
}

#[test]
fn builds_the_watchdog_frame() {
    let pack = can_timeout_pack(4, 100);
    assert_eq!(pack.ex_id, ExId { id: 4, data: 0xFD, mode: CanComMode::ParaWrite, res: 0 });
    assert_eq!(pack.len, 8);
    assert_eq!(&pack.data[0..2], &[0x0C, 0x20]);
    assert_eq!(pack.data[2], 0x04);
    assert_eq!(pack.data[3], 0);
    assert_eq!(&pack.data[4..8], &[0xD0, 0x07, 0x00, 0x00]);
    assert_eq!(&can_timeout_pack(4, 5000).data[4..8], &100_000u32.to_le_bytes());
    assert_eq!(&can_timeout_pack(4, 5001).data[4..8], &100_000u32.to_le_bytes());
    assert_eq!(&can_timeout_pack(4, u32::MAX).data[4..8], &100_000u32.to_le_bytes());
    assert_eq!(&can_timeout_pack(4, 0).data[4..8], &[0, 0, 0, 0]);
    assert_eq!(&can_timeout_pack(4, 4999).data[4..8], &99_980u32.to_le_bytes());
}

#[test]
fn builds_the_plain_frames() {
    let host = |id, mode| ExId { id, data: 0xFD, mode, res: 0 };
    assert_eq!(reset_pack(2).ex_id, host(2, CanComMode::MotorReset));
    assert_eq!(reset_pack(2).data, vec![0; 8]);
    assert_eq!(start_pack(2).ex_id, host(2, CanComMode::MotorIn));
    assert_eq!(start_pack(2).data, vec![0; 8]);
    assert_eq!(zero_pack(2).ex_id, host(2, CanComMode::MotorZero));
    assert_eq!(zero_pack(2).data, vec![1, 0, 0, 0, 0, 0, 0, 0]);
    assert_eq!(read_param_pack(2, 0x1001).ex_id, host(2, CanComMode::ParaRead));
    assert_eq!(read_param_pack(2, 0x1001).data, vec![0x01, 0x10, 0, 0, 0, 0, 0, 0]);
    assert_eq!(get_mode_pack(2).ex_id, host(2, CanComMode::SdoRead));
    assert_eq!(get_mode_pack(2).data, vec![0x05, 0x70, 0, 0, 0, 0, 0, 0]);
    let set = set_mode_pack(2, RunMode::SpeedMode).unwrap();
    assert_eq!(set.ex_id, host(2, CanComMode::SdoWrite));
    assert_eq!(set.data, vec![0x05, 0x70, 0, 0, 2, 0, 0, 0]);
    assert_eq!(set_mode_pack(2, RunMode::MitMode).unwrap().data[4], 0);
    assert_eq!(set_mode_pack(2, RunMode::UnsetMode), None);
}

#[test]
fn reads_replies() {
    let reply = |data: [u8; 8]| feedback_frame(1, 1, data);
    assert_eq!(run_mode_of(&reply([0, 0, 0, 0, 1, 0, 0, 0])), RunMode::PositionMode);
    assert_eq!(run_mode_of(&reply([0, 0, 0, 0, 77, 0, 0, 0])), RunMode::UnsetMode);
    assert_eq!(param_u16(&reply([0, 0, 0, 0, 0xD0, 0x07, 9, 9])), 2000);
    assert_eq!(can_timeout_of(2000), 100_000_000);
    assert_eq!(can_timeout_of(1), 50_000);
    assert_eq!(can_timeout_of(65535), 3_276_750_000);
    let frames = vec![
        reply([0, 0, 0, 0, b'R', b'S', 0, b'0']),
        reply([9, 9, 9, 9, b'1', 0, 0, 0]),
    ];
    assert_eq!(param_text(&frames), b"RS01".to_vec());
    assert_eq!(param_text(&[]), Vec::<u8>::new());
}

#[test]
fn reads_motor_types_from_their_names() {
    assert_eq!(motor_type_from_str("01"), Ok(MotorType::Type01));
    assert_eq!(motor_type_from_str("02"), Ok(MotorType::Type02));
    assert_eq!(motor_type_from_str("03"), Ok(MotorType::Type03));
    assert_eq!(motor_type_from_str("04"), Ok(MotorType::Type04));
    assert_eq!(motor_type_from_str("05"), Err(MotorError::InvalidMotorType));
    assert_eq!(motor_type_from_str("11"), Err(MotorError::InvalidMotorType));
    assert_eq!(motor_type_from_str(""), Err(MotorError::InvalidMotorType));
    assert_eq!(motor_type_from_str("011"), Err(MotorError::InvalidMotorType));
    assert_eq!(motor_type_from_str("é"), Err(MotorError::InvalidMotorType));
}

#[test]
fn the_table_of_ranges_is_as_published() {
    let c1 = MotorType::Type01.config();
    assert_eq!((c1.p_min, c1.p_max), (-12_500_000, 12_500_000));
    assert_eq!((c1.v_min, c1.v_max), (-44_000_000, 44_000_000));
    assert_eq!((c1.kp_min, c1.kp_max), (0, 500_000_000));
    assert_eq!((c1.kd_min, c1.kd_max), (0, 5_000_000));
    assert_eq!((c1.t_min, c1.t_max), (-12_000_000, 12_000_000));
    assert!(c1.zero_on_init);
    let c2 = MotorType::Type02.config();
    assert!(!c2.zero_on_init);
    assert_eq!(robstride::types::MotorConfig { zero_on_init: true, ..c2 }, c1);
    let c3 = MotorType::Type03.config();
    assert_eq!((c3.v_min, c3.v_max), (-20_000_000, 20_000_000));
    assert_eq!((c3.kp_max, c3.kd_max), (5_000_000_000, 100_000_000));
    assert_eq!((c3.t_min, c3.t_max), (-60_000_000, 60_000_000));
    let c4 = MotorType::Type04.config();
    assert_eq!((c4.v_min, c4.v_max), (-15_000_000, 15_000_000));
    assert_eq!((c4.t_min, c4.t_max), (-120_000_000, 120_000_000));
    assert!(!c3.zero_on_init && !c4.zero_on_init);
    for c in [c1, c2, c3, c4] {
        assert!(c.is_valid());
    }
}

#[test]
fn setpoints_clamp_their_gains() {
    let p = MotorControlParams { position: -1, velocity: -2, kp: -3, kd: -4, torque: -5 };
    assert_eq!(
        p.clamped(),
        MotorControlParams { position: -1, velocity: -2, kp: 0, kd: 0, torque: -5 }
    );
    let q = MotorControlParams { position: 1, velocity: 2, kp: 3, kd: 4, torque: 5 };
    assert_eq!(q.clamped(), q);
    assert_eq!(
        MotorControlParams::default(),
        MotorControlParams { position: 0, velocity: 0, kp: 0, kd: 0, torque: 0 }
    );
}

#[test]
fn every_error_has_its_kind() {
    assert_eq!(MotorError::InvalidMotorType.kind(), ErrorKind::InvalidInput);
    assert_eq!(MotorError::InvalidMotorId(3).kind(), ErrorKind::InvalidInput);
    assert_eq!(MotorError::MotorNotFound.kind(), ErrorKind::NotFound);
    assert_eq!(MotorError::MotorIdNotFound(3).kind(), ErrorKind::NotFound);
    assert_eq!(MotorError::NoFeedback.kind(), ErrorKind::NotFound);
    assert_eq!(MotorError::BadFrame.kind(), ErrorKind::UnexpectedEof);
    assert_eq!(MotorError::ModeUnknown.kind(), ErrorKind::Other);
    assert_eq!(MotorError::Link.kind(), ErrorKind::Link);
}

#[test]
fn a_frame_of_another_kind_holds_no_measurement() {
    let pack = CanPack {
        ex_id: ExId { id: 0xFD, data: 0xBF07, mode: CanComMode::MotorReset, res: 0 },
        len: 8,
        data: vec![1, 2, 3, 4, 5, 6, 7, 8],
    };
    for t in [MotorType::Type01, MotorType::Type02, MotorType::Type03, MotorType::Type04] {
        let feedback = feedback_of(&pack, &t.config());
        assert_eq!(feedback.can_id, 7);
        assert_eq!(feedback.faults, 0x3F);
        assert_eq!(feedback.mode, MotorMode::Motor);
        assert_eq!(feedback.position, 0);
        assert_eq!(feedback.velocity, 0);
        assert_eq!(feedback.torque, 0);
    }
    let measured = CanPack {
        ex_id: ExId { mode: CanComMode::MotorFeedback, ..pack.ex_id },
        len: 8,
        data: vec![0; 8],
    };
    let feedback = feedback_of(&measured, &MotorType::Type04.config());
    assert_eq!(feedback.position, -12_500_000);
    assert_eq!(feedback.velocity, -15_000_000);
    assert_eq!(feedback.torque, -120_000_000);
}
