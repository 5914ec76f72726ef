use rctpower_protocol::client::{
    answer_event, attempts, read_back_event, verify_step, ClientConfig, VerifyAction, VerifyEvent, VerifyState,
};
use rctpower_protocol::types::values_equal;
use rctpower_protocol::DataValue;
use rctpower_protocol::frame::{make_frame, START_TOKEN};
use rctpower_protocol::proxy::{FrameSplitter, SplitAction};
use rctpower_protocol::{Command, FrameType};

#[test]
fn attempts_at_least_one() {
    let mut cfg = ClientConfig::default();
    assert_eq!(attempts(&cfg), 3);
    cfg.retries = 0;
    assert_eq!(attempts(&cfg), 1);
}

#[test]
fn verify_answered_write_is_done() {
    assert_eq!(
        verify_step(VerifyState::Written, VerifyEvent::Answered, 3),
        (VerifyState::Done, VerifyAction::ReturnValue)
    );
    assert_eq!(
        verify_step(VerifyState::Written, VerifyEvent::WriteFailed, 3),
        (VerifyState::Done, VerifyAction::ReturnError)
    );
}

#[test]
fn verify_lost_answer_reads_back_until_attempts_run_out() {
    let (s, a) = verify_step(VerifyState::Written, VerifyEvent::AnswerLost, 2);
    assert_eq!(s, VerifyState::ReadBack { attempt: 0 });
    assert_eq!(a, VerifyAction::ReadBack { rewrite: false });
    let (s, a) = verify_step(s, VerifyEvent::ReadMismatch, 2);
    assert_eq!(s, VerifyState::ReadBack { attempt: 1 });
    assert_eq!(a, VerifyAction::ReadBack { rewrite: true });
    let (s, a) = verify_step(s, VerifyEvent::ReadMismatch, 2);
    assert_eq!((s, a), (VerifyState::Done, VerifyAction::GiveUp));
    // a matching read-back confirms the write
    assert_eq!(
        verify_step(VerifyState::ReadBack { attempt: 1 }, VerifyEvent::ReadMatches, 2),
        (VerifyState::Done, VerifyAction::ReturnValue)
    );
    // with no retries configured there is still one read-back
    let (s, _) = verify_step(VerifyState::Written, VerifyEvent::AnswerLost, 0);
    assert_eq!(verify_step(s, VerifyEvent::ReadMismatch, 0), (VerifyState::Done, VerifyAction::GiveUp));
}

#[test]
fn splitter_forwards_frames_as_received() {
    let f1 = make_frame(Command::Read, 0xc0de, &[], 0, FrameType::Standard).unwrap();
    let f2 = make_frame(Command::Write, 0x2b, &[0x2d], 0, FrameType::Standard).unwrap();
    let mut chunk = vec![0x11, 0x22];
    chunk.extend_from_slice(&f1);
    chunk.extend_from_slice(&f2);
    let mut sp = FrameSplitter::new();
    let mut forwarded = Vec::new();
    for &c in chunk.iter() {
        match sp.push(c) {
            SplitAction::Forward { frame } => forwarded.push((frame.wire_bytes(), frame.id())),
            SplitAction::Continue => {}
            SplitAction::Desync => panic!("desync"),
        }
    }
    assert_eq!(forwarded.len(), 2);
    assert_eq!(forwarded[0], (f1, 0xc0de));
    assert_eq!(forwarded[1], (f2, 0x2b));
    assert!(sp.parser().no_bytes());
}

#[test]
fn splitter_frame_across_chunks_is_whole_and_desync_resets() {
    let f = make_frame(Command::Read, 1, &[], 0, FrameType::Standard).unwrap();
    let mut sp = FrameSplitter::new();
    for &c in f[..4].iter() {
        assert!(matches!(sp.push(c), SplitAction::Continue));
    }
    let mut last = None;
    for &c in f[4..].iter() {
        if let SplitAction::Forward { frame } = sp.push(c) {
            last = Some(frame.wire_bytes());
        }
    }
    assert_eq!(last, Some(f));
    // an invalid command byte desynchronizes
    assert!(matches!(sp.push(START_TOKEN), SplitAction::Continue));
    assert!(matches!(sp.push(0x7f), SplitAction::Desync));
    assert!(sp.parser().no_bytes());
}

#[test]
fn answered_write_with_other_value_is_read_back() {
    assert_eq!(
        verify_step(VerifyState::Written, VerifyEvent::AnsweredOther, 3),
        (VerifyState::ReadBack { attempt: 0 }, VerifyAction::ReadBack { rewrite: false })
    );
    let written = DataValue::F32(0.5f32.to_bits());
    assert_eq!(answer_event(&written, &DataValue::F32(0.5f32.to_bits())), VerifyEvent::Answered);
    assert_eq!(answer_event(&written, &DataValue::F32(0.25f32.to_bits())), VerifyEvent::AnsweredOther);
    assert_eq!(answer_event(&written, &DataValue::U32(0.5f32.to_bits())), VerifyEvent::AnsweredOther);
    // the device stored another value: the answer is not returned, the read-back decides
    let (s, a) = verify_step(VerifyState::Written, answer_event(&DataValue::U8(4), &DataValue::U8(3)), 2);
    assert_eq!(a, VerifyAction::ReadBack { rewrite: false });
    let read = DataValue::U8(4);
    assert_eq!(read_back_event(&DataValue::U8(4), Some(&read)), VerifyEvent::ReadMatches);
    assert_eq!(read_back_event(&DataValue::U8(4), None), VerifyEvent::ReadMismatch);
    assert_eq!(
        verify_step(s, read_back_event(&DataValue::U8(4), Some(&read)), 2),
        (VerifyState::Done, VerifyAction::ReturnValue)
    );
}

#[test]
fn values_compare_floats_as_numbers() {
    let z = DataValue::F32(0.0f32.to_bits());
    let nz = DataValue::F32((-0.0f32).to_bits());
    let nan = DataValue::F32(f32::NAN.to_bits());
    assert!(values_equal(&z, &nz));
    assert!(!values_equal(&nan, &nan));
    assert!(values_equal(&DataValue::F32(1.5f32.to_bits()), &DataValue::F32(1.5f32.to_bits())));
    assert!(!values_equal(&DataValue::F32(1.5f32.to_bits()), &DataValue::F32(2.5f32.to_bits())));
    assert!(values_equal(&DataValue::Str("ab".into()), &DataValue::Str("ab".into())));
    assert!(!values_equal(&DataValue::Str("ab".into()), &DataValue::Str("abc".into())));
    assert!(values_equal(&DataValue::Raw(vec![1, 2]), &DataValue::Raw(vec![1, 2])));
    assert!(!values_equal(&DataValue::Raw(vec![1, 2]), &DataValue::Raw(vec![1, 3])));
    assert!(!values_equal(&DataValue::I8(1), &DataValue::U8(1)));
    assert!(values_equal(&DataValue::Bool(true), &DataValue::Bool(true)));
}
