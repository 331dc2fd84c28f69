use seal_proxy::outcome::{bearer_header, is_success, push_outcome, ExportError, PushError};
use seal_proxy::payload::{compress_payload, decompress_payload};
use seal_proxy::scheduler::{step, SchedulerAction, SchedulerEvent, SchedulerState};

#[test]
fn rejected_push_keeps_client() {
    let r = push_outcome(503, Ok("overloaded".to_string()));
    assert_eq!(
        r,
        Err(PushError::Rejected { status: 503, body: "overloaded".to_string() })
    );
    let e = ExportError::Push(r.unwrap_err());
    let (s, a) = step(SchedulerState::Running, &SchedulerEvent::Failed(e));
    assert_eq!(s, SchedulerState::Running);
    assert_eq!(a, SchedulerAction::Wait);
}

#[test]
fn unreadable_body_gets_placeholder() {
    let r = push_outcome(500, Err("eof".to_string()));
    assert_eq!(
        r,
        Err(PushError::Rejected {
            status: 500,
            body: "couldn't decode response body; eof".to_string()
        })
    );
}

#[test]
fn success_statuses() {
    assert_eq!(push_outcome(200, Ok(String::new())), Ok(()));
    assert_eq!(push_outcome(204, Err("x".to_string())), Ok(()));
    assert!(is_success(299));
    assert!(!is_success(199));
    assert!(!is_success(300));
}

#[test]
fn transport_failure_recreates_client() {
    let e = ExportError::Push(PushError::Transport("connection reset".to_string()));
    let (s, a) = step(SchedulerState::Running, &SchedulerEvent::Failed(e));
    assert_eq!(s, SchedulerState::Running);
    assert_eq!(a, SchedulerAction::RecreateClient);
}

#[test]
fn encode_and_compression_failures_keep_running() {
    for e in [ExportError::Encode, ExportError::Compression] {
        let (s, a) = step(SchedulerState::Running, &SchedulerEvent::Failed(e));
        assert_eq!(s, SchedulerState::Running);
        assert_eq!(a, SchedulerAction::Wait);
    }
}

#[test]
fn tick_exports_and_success_waits() {
    assert_eq!(
        step(SchedulerState::Running, &SchedulerEvent::Tick),
        (SchedulerState::Running, SchedulerAction::Export)
    );
    assert_eq!(
        step(SchedulerState::Running, &SchedulerEvent::Pushed),
        (SchedulerState::Running, SchedulerAction::Wait)
    );
}

#[test]
fn cancellation_between_ticks_stops_pushes() {
    let (s, a) = step(SchedulerState::Running, &SchedulerEvent::Cancel);
    assert_eq!(s, SchedulerState::Cancelled);
    assert_eq!(a, SchedulerAction::Exit);
    let (s2, a2) = step(s, &SchedulerEvent::Tick);
    assert_eq!(s2, SchedulerState::Cancelled);
    assert_eq!(a2, SchedulerAction::Exit);
}

#[test]
fn bearer_header_value() {
    assert_eq!(bearer_header(&"abc".to_string()), "Bearer abc");
}

#[test]
fn compression_round_trip() {
    let data: Vec<u8> = (0..2000u32).map(|i| (i % 7) as u8).collect();
    let c = compress_payload(&data).unwrap();
    assert_ne!(c, data);
    assert!(c.len() < data.len());
    assert_eq!(decompress_payload(&c), Some(data));
}

#[test]
fn compression_of_empty_input() {
    let c = compress_payload(&vec![]).unwrap();
    assert_eq!(c, vec![0u8]);
    assert_eq!(decompress_payload(&c), Some(vec![]));
}

#[test]
fn garbage_does_not_decompress() {
    assert_eq!(decompress_payload(&vec![0xff, 0xff, 0xff, 0xff, 0xff, 0xff]), None);
}

#[test]
fn request_status_labels() {
    assert_eq!(seal_proxy::request_status::status_label(true), "success");
    assert_eq!(seal_proxy::request_status::status_label(false), "failure");
}
