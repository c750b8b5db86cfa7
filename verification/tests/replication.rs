use sqld_core::frame::{Frame, FrameError, FRAME_HEADER_SIZE};
use sqld_core::log::{AppendError, FrameLog, Generation, LogReadError, Snapshot};
use sqld_core::replica::{
    backoff_delay_ms, ApplyError, HandshakeOutcome, PullAction, Replica, BACKOFF_BASE_MS,
    BACKOFF_CAP_MS,
};
use sqld_core::http::Method;
use sqld_core::replication::{
    handle_frames, handle_hello, load_snapshot, read_snapshot, Frames, FramesRequest,
    FramesResponse, Hello, ReplicationHandlerState, ReplicationResponse,
    MAX_FRAMES_IN_SINGLE_RESPONSE,
};

fn frame(frame_no: u64) -> Frame {
    Frame::new(frame_no, frame_no * 7, (frame_no % 5) as u32 + 1, vec![frame_no as u8; 16]).unwrap()
}

fn log_with(frames: u64) -> FrameLog {
    let mut log = FrameLog::new(11, 22);
    for n in 1..=frames {
        assert_eq!(log.append(frame(n)), Ok(n));
    }
    log
}

fn request(next_offset: u64) -> Result<FramesRequest, String> {
    Ok(FramesRequest { next_offset })
}

fn numbers(response: &FramesResponse) -> Vec<u64> {
    match response {
        FramesResponse::Frames(frames) => frames.frames.iter().map(|f| f.frame_no).collect(),
        other => panic!("no frames in {:?}", other),
    }
}

#[test]
fn frame_bytes_have_header_then_payload() {
    let f = Frame::new(0x0102030405060708, 0x1112131415161718, 0x21222324, vec![0xAA, 0xFF, 0x00]).unwrap();
    let bytes = f.to_bytes();
    assert_eq!(bytes.len(), FRAME_HEADER_SIZE + 3);
    assert_eq!(
        bytes,
        vec![
            0x08, 0x07, 0x06, 0x05, 0x04, 0x03, 0x02, 0x01, 0x18, 0x17, 0x16, 0x15, 0x14, 0x13, 0x12,
            0x11, 0x24, 0x23, 0x22, 0x21, 0xAA, 0xFF, 0x00
        ]
    );
}

#[test]
fn frame_round_trips_through_bytes() {
    let f = Frame::new(u64::MAX, 0, u32::MAX, vec![0xFF; 4096]).unwrap();
    let back = Frame::try_from_bytes(&f.to_bytes()).unwrap();
    assert_eq!(back, f);
    assert!(back.same_as(&f));
    assert_eq!(back.to_bytes(), f.to_bytes());
}

#[test]
fn frame_with_empty_payload_round_trips() {
    let f = Frame::new(1, 2, 3, Vec::new()).unwrap();
    assert_eq!(f.to_bytes().len(), FRAME_HEADER_SIZE);
    assert_eq!(Frame::try_from_bytes(&f.to_bytes()), Ok(f));
}

#[test]
fn frame_number_zero_is_never_valid() {
    assert_eq!(Frame::new(0, 1, 1, vec![1]), None);
    let bytes = vec![0u8; 24];
    assert_eq!(Frame::try_from_bytes(&bytes), Err(FrameError::ZeroFrameNo));
}

#[test]
fn short_bytes_are_no_frame() {
    assert_eq!(Frame::try_from_bytes(&[1u8; 19]), Err(FrameError::Truncated { len: 19 }));
    assert_eq!(Frame::try_from_bytes(&[]), Err(FrameError::Truncated { len: 0 }));
    assert_eq!(
        FrameError::Truncated { len: 19 }.message(),
        "frame of 19 bytes is shorter than its header"
    );
    assert_eq!(FrameError::ZeroFrameNo.message(), "frame number 0 is not valid");
}

#[test]
fn duplicate_is_the_same_frame() {
    let f = frame(9);
    let copy = f.duplicate();
    assert_eq!(copy, f);
    let other = frame(10);
    assert!(!other.same_as(&f));
}

#[test]
fn frames_new_push_is_empty() {
    let mut frames = Frames::new();
    assert!(frames.is_empty());
    assert_eq!(frames.len(), 0);
    frames.push(frame(1));
    frames.push(frame(2));
    assert!(!frames.is_empty());
    assert_eq!(frames.len(), 2);
    assert_eq!(frames.frames[1], frame(2));
}

#[test]
fn new_log_is_empty() {
    let log = FrameLog::new(5, 6);
    assert_eq!(log.max_available_frame_no(), 0);
    assert_eq!(log.compaction_boundary(), 0);
    assert_eq!(log.current_generation(), Generation { id: 5, start_index: 0 });
    assert_eq!(log.current_database_id(), 6);
    assert!(log.get_snapshot(1).is_none());
    assert_eq!(log.frame_after(0), Ok(None));
}

#[test]
fn append_takes_the_next_frame_number_only() {
    let mut log = FrameLog::new(1, 1);
    assert_eq!(log.append(frame(2)), Err(AppendError::OutOfOrder { expected: 1 }));
    assert_eq!(log.append(frame(1)), Ok(1));
    assert_eq!(log.append(frame(1)), Err(AppendError::OutOfOrder { expected: 2 }));
    assert_eq!(log.append(frame(3)), Err(AppendError::OutOfOrder { expected: 2 }));
    assert_eq!(log.append(frame(2)), Ok(2));
    assert_eq!(log.max_available_frame_no(), 2);
}

#[test]
fn frames_are_visible_from_one_to_the_tail() {
    let log = log_with(5);
    for n in 1..=5u64 {
        let f = log.frame_after(n - 1).unwrap().unwrap();
        assert_eq!(f.frame_no, n);
        assert_eq!(*f, frame(n));
    }
    assert_eq!(log.frame_after(5), Ok(None));
    assert_eq!(log.frame_after(u64::MAX), Ok(None));
}

#[test]
fn stream_from_yields_frames_in_order() {
    let log = log_with(10);
    let got: Vec<u64> = log.stream_from(4, 100).unwrap().iter().map(|f| f.frame_no).collect();
    assert_eq!(got, vec![4, 5, 6, 7, 8, 9, 10]);
    let got: Vec<u64> = log.stream_from(4, 3).unwrap().iter().map(|f| f.frame_no).collect();
    assert_eq!(got, vec![4, 5, 6]);
    let got: Vec<u64> = log.stream_from(0, 2).unwrap().iter().map(|f| f.frame_no).collect();
    assert_eq!(got, vec![1, 2]);
    assert_eq!(log.stream_from(11, 5).unwrap().len(), 0);
    assert_eq!(log.stream_from(3, 0).unwrap().len(), 0);
}

#[test]
fn compaction_moves_frames_to_the_snapshot() {
    let mut log = log_with(10);
    assert_eq!(log.compact(4), 4);
    assert_eq!(log.compaction_boundary(), 4);
    assert_eq!(log.max_available_frame_no(), 10);
    assert_eq!(log.frame_after(3), Err(LogReadError::SnapshotRequired));
    assert_eq!(log.frame_after(0), Err(LogReadError::SnapshotRequired));
    assert_eq!(log.frame_after(4).unwrap().unwrap().frame_no, 5);
    assert_eq!(log.stream_from(4, 10), Err(LogReadError::SnapshotRequired));
    assert_eq!(log.stream_from(5, 10).unwrap().len(), 6);
    let snapshot = log.get_snapshot(2).unwrap();
    assert_eq!(snapshot.len(), 4);
    assert_eq!(Frame::try_from_bytes(snapshot.record(0)), Ok(frame(1)));
    assert_eq!(Frame::try_from_bytes(snapshot.record(3)), Ok(frame(4)));
    assert!(log.get_snapshot(5).is_none());
}

#[test]
fn compaction_never_goes_back_nor_past_the_tail() {
    let mut log = log_with(10);
    assert_eq!(log.compact(6), 6);
    assert_eq!(log.compact(3), 6);
    assert_eq!(log.compact(0), 6);
    assert_eq!(log.compact(1000), 10);
    assert_eq!(log.max_available_frame_no(), 10);
    assert_eq!(log.frame_after(10), Ok(None));
    assert_eq!(log.get_snapshot(1).unwrap().len(), 10);
    assert_eq!(log.append(frame(11)), Ok(11));
    assert_eq!(log.frame_after(10).unwrap().unwrap().frame_no, 11);
}

#[test]
fn should_compact_when_the_log_is_past_its_limit() {
    let mut log = log_with(5);
    assert!(!log.should_compact(5));
    assert!(log.should_compact(4));
    log.compact(3);
    assert!(!log.should_compact(2));
    assert!(log.should_compact(1));
}

#[test]
fn a_new_generation_starts_at_the_tail() {
    let mut log = log_with(7);
    log.start_generation(99);
    assert_eq!(log.current_generation(), Generation { id: 99, start_index: 7 });
    assert_eq!(log.max_available_frame_no(), 7);
}

#[test]
fn hello_carries_generation_and_database() {
    let mut log = log_with(3);
    log.start_generation(42);
    let state = ReplicationHandlerState::new(log);
    assert_eq!(
        handle_hello(&state),
        Hello { generation_id: 42, generation_start_index: 3, database_id: 22 }
    );
}

#[test]
fn frames_request_is_refused_without_credentials() {
    let state = ReplicationHandlerState::new(log_with(3));
    let response = handle_frames(&state, Err("no token".to_string()), request(1));
    assert_eq!(response, FramesResponse::Unauthorized("no token".to_string()));
    assert_eq!(response.status(), 401);
    assert_eq!(response.body_text(), Some("no token".to_string()));
}

#[test]
fn frames_request_that_cannot_be_read_is_a_bad_request() {
    let state = ReplicationHandlerState::new(log_with(3));
    let response = handle_frames(&state, Ok(()), Err("expected value".to_string()));
    assert_eq!(response, FramesResponse::BadRequest("expected value".to_string()));
    assert_eq!(response.status(), 400);
}

#[test]
fn credentials_are_checked_before_the_request() {
    let state = ReplicationHandlerState::new(log_with(3));
    let response = handle_frames(&state, Err("denied".to_string()), Err("garbage".to_string()));
    assert_eq!(response.status(), 401);
}

#[test]
fn frames_past_the_tail_are_no_content() {
    let state = ReplicationHandlerState::new(log_with(3));
    let response = handle_frames(&state, Ok(()), request(4));
    assert_eq!(response, FramesResponse::NoContent);
    assert_eq!(response.status(), 204);
    assert_eq!(response.body_text(), Some(String::new()));
    assert_eq!(handle_frames(&state, Ok(()), request(u64::MAX)), FramesResponse::NoContent);
    let empty = ReplicationHandlerState::new(FrameLog::new(1, 1));
    assert_eq!(handle_frames(&empty, Ok(()), request(0)), FramesResponse::NoContent);
    assert_eq!(handle_frames(&empty, Ok(()), request(1)), FramesResponse::NoContent);
}

#[test]
fn frames_are_served_from_the_offset_on() {
    let state = ReplicationHandlerState::new(log_with(5));
    let response = handle_frames(&state, Ok(()), request(3));
    assert_eq!(response.status(), 200);
    assert_eq!(numbers(&response), vec![3, 4, 5]);
    assert_eq!(response.body_text(), None);
    match response {
        FramesResponse::Frames(frames) => assert_eq!(frames.frames[0], frame(3)),
        _ => unreachable!(),
    }
}

#[test]
fn offset_zero_reads_as_offset_one() {
    let state = ReplicationHandlerState::new(log_with(2));
    assert_eq!(numbers(&handle_frames(&state, Ok(()), request(0))), vec![1, 2]);
    assert_eq!(numbers(&handle_frames(&state, Ok(()), request(1))), vec![1, 2]);
}

#[test]
fn one_response_carries_at_most_256_frames() {
    assert_eq!(MAX_FRAMES_IN_SINGLE_RESPONSE, 256);
    let state = ReplicationHandlerState::new(log_with(600));
    let first = numbers(&handle_frames(&state, Ok(()), request(1)));
    assert_eq!(first.len(), 256);
    assert_eq!(first[0], 1);
    assert_eq!(first[255], 256);
    let second = numbers(&handle_frames(&state, Ok(()), request(257)));
    assert_eq!(second.len(), 256);
    assert_eq!(second[255], 512);
    let third = numbers(&handle_frames(&state, Ok(()), request(513)));
    assert_eq!(third.len(), 88);
    assert_eq!(third[87], 600);
    let exact = ReplicationHandlerState::new(log_with(256));
    assert_eq!(numbers(&handle_frames(&exact, Ok(()), request(1))).len(), 256);
}

#[test]
fn replication_resync() {
    let mut log = log_with(60);
    assert_eq!(log.compact(50), 50);
    let state = ReplicationHandlerState::new(log);
    let response = handle_frames(&state, Ok(()), request(10));
    assert_eq!(response.status(), 200);
    let got = numbers(&response);
    assert_eq!(got.len(), 41);
    assert_eq!(got[0], 10);
    assert_eq!(got[40], 50);
    let mut replica = Replica::new();
    for n in 1..=9 {
        assert_eq!(replica.apply(&frame(n)), Ok(()));
    }
    assert_eq!(replica.next_request(), Some(FramesRequest { next_offset: 10 }));
    assert_eq!(replica.on_response(&response), PullAction::PullAgain);
    assert_eq!(replica.last_applied_frame_no(), 50);
    assert_eq!(replica.pull(&state), PullAction::PullAgain);
    assert!(replica.last_applied_frame_no() > 50);
    assert_eq!(replica.last_applied_frame_no(), 60);
}

#[test]
fn snapshot_is_loaded_from_the_offset_on() {
    let mut log = log_with(8);
    log.compact(6);
    let frames = load_snapshot(&log, 4).unwrap();
    let got: Vec<u64> = frames.frames.iter().map(|f| f.frame_no).collect();
    assert_eq!(got, vec![4, 5, 6]);
    assert_eq!(frames.frames[0], frame(4));
    assert!(load_snapshot(&log, 7).unwrap().is_empty());
    let uncompacted = log_with(3);
    assert!(load_snapshot(&uncompacted, 1).unwrap().is_empty());
}

#[test]
fn snapshot_of_given_records_keeps_them() {
    let snapshot = Snapshot::from_records(vec![frame(1).to_bytes(), vec![1, 2, 3]]);
    assert_eq!(snapshot.len(), 2);
    assert_eq!(snapshot.record(1).to_vec(), vec![1u8, 2, 3]);
    assert_eq!(Frame::try_from_bytes(snapshot.record(0)), Ok(frame(1)));
}

#[test]
fn replica_converges_to_the_tail_of_its_primary() {
    let state = ReplicationHandlerState::new(log_with(1000));
    let mut replica = Replica::new();
    let mut rounds = 0;
    loop {
        match replica.pull(&state) {
            PullAction::PullAgain => rounds += 1,
            PullAction::Wait => break,
            other => panic!("unexpected {:?}", other),
        }
    }
    assert_eq!(rounds, 4);
    assert_eq!(replica.last_applied_frame_no(), 1000);
}

#[test]
fn replica_converges_across_a_compaction() {
    let mut log = log_with(700);
    log.compact(300);
    let state = ReplicationHandlerState::new(log);
    let mut replica = Replica::new();
    replica.catch_up(&state);
    assert_eq!(replica.last_applied_frame_no(), 700);
    assert_eq!(replica.pull(&state), PullAction::Wait);
    assert_eq!(replica.last_applied_frame_no(), 700);
}

#[test]
fn replica_of_an_empty_primary_waits() {
    let state = ReplicationHandlerState::new(FrameLog::new(1, 1));
    let mut replica = Replica::new();
    assert_eq!(replica.pull(&state), PullAction::Wait);
    replica.catch_up(&state);
    assert_eq!(replica.last_applied_frame_no(), 0);
}

#[test]
fn apply_refuses_frames_that_are_not_newer() {
    let mut replica = Replica::new();
    assert_eq!(replica.apply(&frame(3)), Ok(()));
    assert_eq!(replica.last_applied_frame_no(), 3);
    assert_eq!(replica.apply(&frame(3)), Err(ApplyError::Stale { frame_no: 3, last_applied: 3 }));
    assert_eq!(replica.apply(&frame(2)), Err(ApplyError::Stale { frame_no: 2, last_applied: 3 }));
    assert_eq!(replica.last_applied_frame_no(), 3);
    assert_eq!(replica.apply(&frame(9)), Ok(()));
    assert_eq!(replica.last_applied_frame_no(), 9);
}

#[test]
fn apply_all_stops_at_the_first_refusal() {
    let mut frames = Frames::new();
    frames.push(frame(1));
    frames.push(frame(2));
    frames.push(frame(2));
    frames.push(frame(5));
    let mut replica = Replica::new();
    assert_eq!(replica.apply_all(&frames), Err(ApplyError::Stale { frame_no: 2, last_applied: 2 }));
    assert_eq!(replica.last_applied_frame_no(), 2);
    assert_eq!(
        replica.on_response(&FramesResponse::Frames(frames)),
        PullAction::Rejected(ApplyError::Stale { frame_no: 1, last_applied: 2 })
    );
}

#[test]
fn replica_reacts_to_each_answer() {
    let mut replica = Replica::new();
    assert_eq!(replica.on_response(&FramesResponse::NoContent), PullAction::Wait);
    assert_eq!(
        replica.on_response(&FramesResponse::Failed(FrameError::ZeroFrameNo)),
        PullAction::RetryAfterError { failures: 1 }
    );
    assert_eq!(
        replica.on_response(&FramesResponse::Failed(FrameError::ZeroFrameNo)),
        PullAction::RetryAfterError { failures: 2 }
    );
    assert_eq!(replica.on_response(&FramesResponse::NoContent), PullAction::Wait);
    assert_eq!(
        replica.on_response(&FramesResponse::Failed(FrameError::ZeroFrameNo)),
        PullAction::RetryAfterError { failures: 1 }
    );
    assert_eq!(
        replica.on_response(&FramesResponse::Unauthorized("x".to_string())),
        PullAction::GiveUp { status: 401 }
    );
    assert_eq!(
        replica.on_response(&FramesResponse::BadRequest("x".to_string())),
        PullAction::GiveUp { status: 400 }
    );
    assert_eq!(replica.last_applied_frame_no(), 0);
}

#[test]
fn failed_response_has_status_500_and_says_why() {
    let response = FramesResponse::Failed(FrameError::Truncated { len: 3 });
    assert_eq!(response.status(), 500);
    assert_eq!(
        response.body_text(),
        Some("Replication failed: frame of 3 bytes is shorter than its header".to_string())
    );
}

#[test]
fn handshake_with_another_generation_drops_later_frames() {
    let mut replica = Replica::new();
    let first = Hello { generation_id: 1, generation_start_index: 0, database_id: 9 };
    assert_eq!(replica.handshake(&first), HandshakeOutcome::FirstContact);
    for n in 1..=20 {
        replica.apply(&frame(n)).unwrap();
    }
    assert_eq!(replica.handshake(&first), HandshakeOutcome::SameGeneration);
    assert_eq!(replica.last_applied_frame_no(), 20);
    let second = Hello { generation_id: 2, generation_start_index: 12, database_id: 9 };
    assert_eq!(replica.handshake(&second), HandshakeOutcome::Resync { last_applied: 12 });
    assert_eq!(replica.last_applied_frame_no(), 12);
    assert_eq!(replica.next_request(), Some(FramesRequest { next_offset: 13 }));
    let third = Hello { generation_id: 3, generation_start_index: 40, database_id: 9 };
    assert_eq!(replica.handshake(&third), HandshakeOutcome::Resync { last_applied: 12 });
    assert_eq!(replica.last_applied_frame_no(), 12);
}

#[test]
fn replica_at_the_last_frame_number_asks_for_nothing() {
    let mut replica = Replica::new();
    replica.apply(&Frame::new(u64::MAX, 0, 1, Vec::new()).unwrap()).unwrap();
    assert_eq!(replica.next_request(), None);
    let state = ReplicationHandlerState::new(log_with(2));
    assert_eq!(replica.pull(&state), PullAction::Wait);
    assert_eq!(replica.last_applied_frame_no(), u64::MAX);
}

#[test]
fn backoff_doubles_up_to_its_cap() {
    assert_eq!(BACKOFF_BASE_MS, 100);
    assert_eq!(BACKOFF_CAP_MS, 10_000);
    assert_eq!(backoff_delay_ms(0, 0), 0);
    assert_eq!(backoff_delay_ms(1, 0), 100);
    assert_eq!(backoff_delay_ms(2, 0), 200);
    assert_eq!(backoff_delay_ms(3, 0), 400);
    assert_eq!(backoff_delay_ms(7, 0), 6_400);
    assert_eq!(backoff_delay_ms(8, 0), 10_000);
    assert_eq!(backoff_delay_ms(9, 0), 10_000);
    assert_eq!(backoff_delay_ms(u32::MAX, 0), 10_000);
}

#[test]
fn backoff_has_jitter_below_the_base() {
    assert_eq!(backoff_delay_ms(0, 99), 99);
    assert_eq!(backoff_delay_ms(0, 100), 0);
    assert_eq!(backoff_delay_ms(2, 1234), 234);
    assert_eq!(backoff_delay_ms(u32::MAX, u64::MAX), 10_000 + u64::MAX % 100);
    for jitter in 0..300u64 {
        assert!(backoff_delay_ms(20, jitter) < 10_100);
    }
}

#[test]
fn unreachable_primary_is_counted_as_a_failure() {
    let mut replica = Replica::new();
    replica.apply(&frame(4)).unwrap();
    assert_eq!(replica.on_error(), PullAction::RetryAfterError { failures: 1 });
    assert_eq!(replica.on_error(), PullAction::RetryAfterError { failures: 2 });
    assert_eq!(replica.last_applied_frame_no(), 4);
    assert_eq!(replica.on_response(&FramesResponse::NoContent), PullAction::Wait);
    assert_eq!(replica.on_error(), PullAction::RetryAfterError { failures: 1 });
}

#[test]
fn the_endpoint_routes_by_method_and_path() {
    let state = ReplicationHandlerState::new(log_with(3));
    let hello = state.handle(Method::Get, b"/v1/replication/hello", Err("x".to_string()), Err("y".to_string()));
    assert_eq!(
        hello,
        ReplicationResponse::Hello(Hello { generation_id: 11, generation_start_index: 0, database_id: 22 })
    );
    assert_eq!(hello.status(), 200);
    let frames = state.handle(Method::Post, b"/v1/replication/frames", Ok(()), request(2));
    assert_eq!(frames.status(), 200);
    match frames {
        ReplicationResponse::Frames(response) => assert_eq!(numbers(&response), vec![2, 3]),
        other => panic!("unexpected {:?}", other),
    }
    let refused = state.handle(Method::Post, b"/v1/replication/frames", Err("no".to_string()), request(2));
    assert_eq!(refused.status(), 401);
    let caught_up = state.handle(Method::Post, b"/v1/replication/frames", Ok(()), request(4));
    assert_eq!(caught_up, ReplicationResponse::Frames(FramesResponse::NoContent));
    assert_eq!(caught_up.status(), 204);
}

#[test]
fn the_endpoint_knows_two_paths_and_their_methods() {
    let state = ReplicationHandlerState::new(log_with(3));
    let cases = [
        (Method::Post, &b"/v1/replication/hello"[..], 405),
        (Method::Other, &b"/v1/replication/hello"[..], 405),
        (Method::Get, &b"/v1/replication/frames"[..], 405),
        (Method::Other, &b"/v1/replication/frames"[..], 405),
        (Method::Get, &b"/v1/replication/"[..], 404),
        (Method::Get, &b"/v1/replication/hello/"[..], 404),
        (Method::Post, &b"/v1/replication/frame"[..], 404),
        (Method::Get, &b"/"[..], 404),
        (Method::Get, &b""[..], 404),
    ];
    for (method, path, status) in cases {
        assert_eq!(state.handle(method, path, Ok(()), request(1)).status(), status);
    }
}

fn damaged_log() -> FrameLog {
    let records = vec![frame(1).to_bytes(), frame(2).to_bytes(), vec![1, 2, 3], frame(4).to_bytes()];
    FrameLog::restore(5, 6, Snapshot::from_records(records)).unwrap()
}

#[test]
fn a_snapshot_answer_carries_at_most_256_frames() {
    let mut log = log_with(1000);
    assert_eq!(log.compact(700), 700);
    let state = ReplicationHandlerState::new(log);
    let first = numbers(&handle_frames(&state, Ok(()), request(1)));
    assert_eq!(first.len(), 256);
    assert_eq!(first[0], 1);
    assert_eq!(first[255], 256);
    let second = numbers(&handle_frames(&state, Ok(()), request(257)));
    assert_eq!(second.len(), 256);
    assert_eq!(second[255], 512);
    let third = numbers(&handle_frames(&state, Ok(()), request(513)));
    assert_eq!(third.len(), 188);
    assert_eq!(third[187], 700);
    let fourth = numbers(&handle_frames(&state, Ok(()), request(701)));
    assert_eq!(fourth.len(), 256);
    assert_eq!(fourth[0], 701);
    let exact = numbers(&handle_frames(&state, Ok(()), request(445)));
    assert_eq!(exact.len(), 256);
    assert_eq!(exact[255], 700);
    let one = numbers(&handle_frames(&state, Ok(()), request(700)));
    assert_eq!(one, vec![700]);
}

#[test]
fn every_answer_with_frames_holds_between_one_and_256() {
    let mut log = log_with(900);
    log.compact(600);
    let state = ReplicationHandlerState::new(log);
    for offset in (0..=905u64).step_by(7) {
        match handle_frames(&state, Ok(()), request(offset)) {
            FramesResponse::Frames(frames) => {
                assert!(frames.len() >= 1 && frames.len() <= MAX_FRAMES_IN_SINGLE_RESPONSE);
                assert_eq!(frames.frames[0].frame_no, offset.max(1));
            }
            FramesResponse::NoContent => assert!(offset > 900),
            other => panic!("unexpected {:?}", other),
        }
    }
}

#[test]
fn a_replica_far_behind_catches_up_through_the_snapshot_in_rounds() {
    let mut log = log_with(1000);
    log.compact(700);
    let state = ReplicationHandlerState::new(log);
    let mut replica = Replica::new();
    let mut stops = Vec::new();
    while replica.pull(&state) == PullAction::PullAgain {
        stops.push(replica.last_applied_frame_no());
    }
    assert_eq!(stops, vec![256, 512, 700, 956, 1000]);
    assert_eq!(replica.catch_up(&state), PullAction::Wait);
    assert_eq!(replica.last_applied_frame_no(), 1000);
}

#[test]
fn a_log_is_restored_from_a_snapshot() {
    let records = vec![frame(1).to_bytes(), frame(2).to_bytes(), frame(3).to_bytes()];
    let mut log = FrameLog::restore(8, 9, Snapshot::from_records(records)).unwrap();
    assert_eq!(log.compaction_boundary(), 3);
    assert_eq!(log.max_available_frame_no(), 3);
    assert_eq!(log.current_generation(), Generation { id: 8, start_index: 3 });
    assert_eq!(log.current_database_id(), 9);
    assert_eq!(log.frame_after(2), Err(LogReadError::SnapshotRequired));
    assert_eq!(log.frame_after(3), Ok(None));
    assert_eq!(log.append(frame(3)), Err(AppendError::OutOfOrder { expected: 4 }));
    assert_eq!(log.append(frame(4)), Ok(4));
    let state = ReplicationHandlerState::new(log);
    assert_eq!(numbers(&handle_frames(&state, Ok(()), request(2))), vec![2, 3]);
    assert_eq!(numbers(&handle_frames(&state, Ok(()), request(4))), vec![4]);
    let empty = FrameLog::restore(1, 1, Snapshot::from_records(Vec::new())).unwrap();
    assert_eq!(empty.max_available_frame_no(), 0);
    assert!(empty.get_snapshot(0).is_none());
}

#[test]
fn a_damaged_snapshot_fails_the_read() {
    let snapshot = Snapshot::from_records(vec![frame(1).to_bytes(), vec![1, 2, 3], vec![0u8; 30]]);
    assert_eq!(read_snapshot(&snapshot, 1).err(), Some(FrameError::Truncated { len: 3 }));
    assert_eq!(read_snapshot(&snapshot, 5).err(), Some(FrameError::Truncated { len: 3 }));
    let zero = Snapshot::from_records(vec![frame(1).to_bytes(), vec![0u8; 30], vec![1]]);
    assert_eq!(read_snapshot(&zero, 1).err(), Some(FrameError::ZeroFrameNo));
    let log = damaged_log();
    assert_eq!(load_snapshot(&log, 1).err(), Some(FrameError::Truncated { len: 3 }));
    assert_eq!(load_snapshot(&log, 4).err(), Some(FrameError::Truncated { len: 3 }));
    assert!(load_snapshot(&log, 5).unwrap().is_empty());
}

#[test]
fn a_sound_snapshot_is_read_from_the_offset_on() {
    let snapshot = Snapshot::from_records(vec![frame(3).to_bytes(), frame(5).to_bytes(), frame(9).to_bytes()]);
    let got: Vec<u64> = read_snapshot(&snapshot, 4).unwrap().frames.iter().map(|f| f.frame_no).collect();
    assert_eq!(got, vec![5, 9]);
    assert_eq!(read_snapshot(&snapshot, 0).unwrap().len(), 3);
    assert_eq!(read_snapshot(&snapshot, 10).unwrap().len(), 0);
    assert_eq!(read_snapshot(&Snapshot::from_records(Vec::new()), 1).unwrap().len(), 0);
    assert_eq!(read_snapshot(&snapshot, 9).unwrap().frames[0], frame(9));
}

#[test]
fn a_damaged_snapshot_is_a_server_error_and_never_no_content() {
    let mut log = damaged_log();
    log.append(frame(5)).unwrap();
    let state = ReplicationHandlerState::new(log);
    for offset in 0..=4 {
        let response = handle_frames(&state, Ok(()), request(offset));
        assert_eq!(response, FramesResponse::Failed(FrameError::Truncated { len: 3 }));
        assert_eq!(response.status(), 500);
    }
    assert_eq!(numbers(&handle_frames(&state, Ok(()), request(5))), vec![5]);
    assert_eq!(handle_frames(&state, Ok(()), request(6)), FramesResponse::NoContent);
}

#[test]
fn a_replica_backs_off_from_a_damaged_snapshot() {
    let mut log = damaged_log();
    log.append(frame(5)).unwrap();
    let state = ReplicationHandlerState::new(log);
    let mut replica = Replica::new();
    assert_eq!(replica.pull(&state), PullAction::RetryAfterError { failures: 1 });
    assert_eq!(replica.pull(&state), PullAction::RetryAfterError { failures: 2 });
    assert_eq!(replica.catch_up(&state), PullAction::RetryAfterError { failures: 3 });
    assert_eq!(replica.last_applied_frame_no(), 0);
    let mut past = Replica::new();
    past.apply(&frame(4)).unwrap();
    assert_eq!(past.catch_up(&state), PullAction::Wait);
    assert_eq!(past.last_applied_frame_no(), 5);
}

#[test]
fn frames_are_truncated_to_a_length() {
    let mut frames = Frames::new();
    for n in 1..=5 {
        frames.push(frame(n));
    }
    frames.truncate(9);
    assert_eq!(frames.len(), 5);
    frames.truncate(5);
    assert_eq!(frames.len(), 5);
    frames.truncate(2);
    assert_eq!(frames.frames, vec![frame(1), frame(2)]);
    frames.truncate(0);
    assert!(frames.is_empty());
}

#[test]
fn a_replica_knows_how_many_frames_it_will_apply() {
    let mut replica = Replica::new();
    replica.apply(&frame(3)).unwrap();
    let mut frames = Frames::new();
    assert_eq!(replica.accepted(&frames), 0);
    for n in [4, 5, 9, 9, 12] {
        frames.push(frame(n));
    }
    assert_eq!(replica.accepted(&frames), 3);
    assert_eq!(replica.apply_all(&frames), Err(ApplyError::Stale { frame_no: 9, last_applied: 9 }));
    assert_eq!(replica.last_applied_frame_no(), 9);
    assert_eq!(replica.accepted(&frames), 0);
    let mut fresh = Replica::new();
    let mut sorted = Frames::new();
    for n in [1, 2, 3] {
        sorted.push(frame(n));
    }
    assert_eq!(fresh.accepted(&sorted), 3);
    assert_eq!(fresh.apply_all(&sorted), Ok(()));
}
