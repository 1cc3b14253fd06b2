use ssh_chain::session::{ReadOutcome, ReaderAction, ReaderLoop, SessionError};

#[test]
fn output_is_emitted_with_the_session_id() {
    let mut r = ReaderLoop::new("s1");
    assert!(r.before_read(false));
    match r.after_read(ReadOutcome::Bytes(b"ls\r\n".to_vec())) {
        ReaderAction::Emit(o) => {
            assert_eq!(o.session_id, "s1");
            assert_eq!(o.data, "ls\r\n");
        }
        _ => panic!("expected output"),
    }
    assert!(r.before_read(false));
}

#[test]
fn invalid_bytes_are_replaced() {
    let mut r = ReaderLoop::new("s1");
    match r.after_read(ReadOutcome::Bytes(vec![b'a', 0xff, b'b'])) {
        ReaderAction::Emit(o) => assert_eq!(o.data, "a\u{fffd}b"),
        _ => panic!("expected output"),
    }
}

#[test]
fn end_of_stream_exits_once() {
    let mut r = ReaderLoop::new("s2");
    match r.after_read(ReadOutcome::Bytes(Vec::new())) {
        ReaderAction::Exit(e) => assert_eq!(e.session_id, "s2"),
        _ => panic!("expected exit"),
    }
    assert!(!r.before_read(false));
}

#[test]
fn would_block_sleeps_and_retries() {
    let mut r = ReaderLoop::new("s3");
    assert!(matches!(r.after_read(ReadOutcome::WouldBlock), ReaderAction::Sleep));
    assert!(r.before_read(false));
}

#[test]
fn read_failure_stops_silently() {
    let mut r = ReaderLoop::new("s4");
    assert!(matches!(r.after_read(ReadOutcome::Failed), ReaderAction::Stop));
    assert!(!r.before_read(false));
}

#[test]
fn shutdown_flag_ends_loop() {
    let mut r = ReaderLoop::new("s5");
    assert!(!r.before_read(true));
    assert!(!r.before_read(false));
}

#[test]
fn error_messages() {
    assert_eq!(SessionError::NotFound.message(), "Session not found");
    assert_eq!(SessionError::LockFailed.message(), "Lock failed");
    assert_eq!(SessionError::Channel("eof".to_string()).message(), "eof");
}
