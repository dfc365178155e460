use omni_terminal::codec::{build_frame, parse_frame};
use omni_terminal::ids::format_session_id;
use omni_terminal::mux::{
    build_attached_reply, build_created_reply, build_error_reply, parse_control, ControlMsg,
};
use omni_terminal::session::{SessionManager, MAX_BUFFER_SIZE};

#[test]
fn frame_roundtrip() {
    let id = [7u8; 16];
    let payload = b"hello pty".to_vec();
    let frame = build_frame(&id, &payload);
    assert_eq!(frame.len(), 16 + payload.len());
    let (rid, rpayload) = parse_frame(&frame).expect("frame splits");
    assert_eq!(rid, id);
    assert_eq!(rpayload, payload);
    // Frames of 16 bytes or fewer are dropped.
    assert!(parse_frame(&frame[..16]).is_none());
    assert!(parse_frame(b"short").is_none());
}

#[test]
fn session_lifecycle_delivers_ring_then_live() {
    let mut mgr = SessionManager::new();
    let (id, mut rx) = mgr.create_session(80, 24);

    // Attached: output flows straight down the channel.
    let first = vec![1u8; 100];
    assert!(mgr.push_output(&id, &first));
    assert_eq!(rx.try_recv().unwrap(), first);

    // Detach; the next bytes buffer in the ring.
    mgr.detach_session(&id, 1_000);
    drop(rx);
    let buffered_bytes = vec![2u8; 50];
    assert!(mgr.push_output(&id, &buffered_bytes));

    // Attach: the whole ring comes back first, before anything live.
    let (mut rx2, drained) = mgr.attach_session(&id).expect("session exists");
    assert_eq!(drained, buffered_bytes);
    let live = vec![3u8; 10];
    assert!(mgr.push_output(&id, &live));
    assert_eq!(rx2.try_recv().unwrap(), live);
}

#[test]
fn ring_drops_oldest_beyond_cap() {
    let mut mgr = SessionManager::new();
    let (id, rx) = mgr.create_session(80, 24);
    mgr.detach_session(&id, 0);
    drop(rx);
    let chunk = vec![9u8; MAX_BUFFER_SIZE];
    mgr.push_output(&id, &chunk);
    mgr.push_output(&id, b"tail");
    let (_rx, drained) = mgr.attach_session(&id).unwrap();
    assert_eq!(drained.len(), MAX_BUFFER_SIZE);
    assert_eq!(&drained[drained.len() - 4..], b"tail");
    assert_eq!(drained[0], 9);
}

#[test]
fn reap_threshold() {
    let mut mgr = SessionManager::new();
    let (id, _rx) = mgr.create_session(80, 24);
    mgr.detach_session(&id, 1_000);

    // Detached for less than the limit: survives the sweep.
    let reaped = mgr.reap_stale_sessions(1_000 + 59_000, 60_000);
    assert!(reaped.is_empty());
    assert!(mgr.resize_session(&id, 100, 30).is_ok());

    // Detached for more: removed, and a later attach fails by name.
    let reaped = mgr.reap_stale_sessions(1_000 + 61_000, 60_000);
    assert_eq!(reaped, vec![id]);
    let err = mgr.attach_session(&id).unwrap_err();
    assert_eq!(err, format!("Session {} not found", format_session_id(&id)));
}

#[test]
fn attached_session_is_never_reaped() {
    let mut mgr = SessionManager::new();
    let (id, _rx) = mgr.create_session(80, 24);
    let reaped = mgr.reap_stale_sessions(u64::MAX, 0);
    assert!(reaped.is_empty());
    assert!(mgr.resize_session(&id, 90, 25).is_ok());
}

#[test]
fn close_session_removes() {
    let mut mgr = SessionManager::new();
    let (id, _rx) = mgr.create_session(80, 24);
    mgr.close_session(&id);
    assert!(mgr.attach_session(&id).is_err());
    assert!(!mgr.push_output(&id, b"x"));
}

#[test]
fn control_message_parsing() {
    match parse_control(r#"{"type":"create","cols":132,"rows":43}"#) {
        Ok(ControlMsg::Create { cols, rows }) => {
            assert_eq!(cols, 132);
            assert_eq!(rows, 43);
        }
        other => panic!("unexpected: {:?}", other.is_ok()),
    }
    // Sizes default to 80x24.
    match parse_control(r#"{"type":"create"}"#) {
        Ok(ControlMsg::Create { cols, rows }) => {
            assert_eq!(cols, 80);
            assert_eq!(rows, 24);
        }
        _ => panic!("create without sizes must parse"),
    }
    let id = [0x55u8; 16];
    let ids = format_session_id(&id);
    match parse_control(&format!(r#"{{"type":"attach","session_id":"{ids}"}}"#)) {
        Ok(ControlMsg::Attach { session_id }) => assert_eq!(session_id, id),
        _ => panic!("attach must parse"),
    }
    match parse_control(&format!(r#"{{"type":"resize","session_id":"{ids}","cols":10,"rows":5}}"#))
    {
        Ok(ControlMsg::Resize { session_id, cols, rows }) => {
            assert_eq!(session_id, id);
            assert_eq!(cols, 10);
            assert_eq!(rows, 5);
        }
        _ => panic!("resize must parse"),
    }
    match parse_control(&format!(r#"{{"type":"close","session_id":"{ids}"}}"#)) {
        Ok(ControlMsg::Close { session_id }) => assert_eq!(session_id, id),
        _ => panic!("close must parse"),
    }
}

#[test]
fn control_message_errors() {
    assert!(parse_control("not json").unwrap_err().starts_with("Invalid JSON"));
    assert_eq!(parse_control(r#"{"cols":80}"#).unwrap_err(), "Missing 'type' field");
    assert_eq!(parse_control(r#"{"type":"attach"}"#).unwrap_err(), "Missing session_id");
    assert_eq!(
        parse_control(r#"{"type":"attach","session_id":"zz"}"#).unwrap_err(),
        "Invalid session_id"
    );
    assert_eq!(
        parse_control(r#"{"type":"shout"}"#).unwrap_err(),
        "Unknown message type: shout"
    );
}

#[test]
fn reply_strings() {
    let id = [0xABu8; 16];
    let ids = format_session_id(&id);
    assert_eq!(
        build_created_reply(&id),
        format!(r#"{{"type":"created","session_id":"{ids}"}}"#)
    );
    assert_eq!(
        build_attached_reply(&id),
        format!(r#"{{"type":"attached","session_id":"{ids}"}}"#)
    );
    assert_eq!(
        build_error_reply("Session 0 not found"),
        r#"{"type":"error","message":"Session 0 not found"}"#
    );
}

#[test]
fn uuid_string_roundtrip() {
    let mut mgr = SessionManager::new();
    let (id, _rx) = mgr.create_session(1, 1);
    let s = format_session_id(&id);
    assert_eq!(s.len(), 36);
    assert_eq!(omni_terminal::ids::parse_session_id(&s), Some(id));
    assert_eq!(
        omni_terminal::ids::parse_session_id("00112233-4455-6677-8899-aabbccddeeff"),
        Some([0x00, 0x11, 0x22, 0x33, 0x44, 0x55, 0x66, 0x77, 0x88, 0x99, 0xaa, 0xbb, 0xcc,
            0xdd, 0xee, 0xff])
    );
}

#[test]
fn control_dimensions_truncate_to_wire_width() {
    match parse_control(r#"{"type":"create","cols":70000,"rows":24}"#) {
        Ok(ControlMsg::Create { cols, rows }) => {
            assert_eq!(cols, (70000u64 % 65536) as u16);
            assert_eq!(rows, 24);
        }
        _ => panic!("create must parse"),
    }
    // A non-numeric size reads as absent and defaults.
    match parse_control(r#"{"type":"create","cols":"wide"}"#) {
        Ok(ControlMsg::Create { cols, rows }) => {
            assert_eq!(cols, 80);
            assert_eq!(rows, 24);
        }
        _ => panic!("create must parse"),
    }
}
