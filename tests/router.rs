use rust_tunnel::registry::Action;
use rust_tunnel::router::{DataAction, ServerHandler, SubsystemDecision};

#[test]
fn end_of_text_disconnects() {
    let mut h: ServerHandler<&str> = ServerHandler::new(4);
    assert!(h.channel_open_session(1, "one"));
    assert!(h.channel_open_session(2, "two"));
    assert!(matches!(h.subsystem_request(2, "sftp"), SubsystemDecision::Accept("two")));
    assert_eq!(h.data(1, &[3]), DataAction::Disconnect);
    assert_eq!(h.data(2, &[3]), DataAction::Disconnect);
}

#[test]
fn other_data_is_echoed() {
    let mut h: ServerHandler<u8> = ServerHandler::new(0);
    h.channel_open_session(1, 0);
    assert_eq!(h.data(1, &[3, 3]), DataAction::Echo);
    assert_eq!(h.data(1, b"ls\n"), DataAction::Echo);
    assert_eq!(h.data(1, &[]), DataAction::Echo);
}

#[test]
fn unsupported_subsystem_is_rejected() {
    let mut h: ServerHandler<&str> = ServerHandler::new(0);
    h.channel_open_session(1, "chan");
    assert!(matches!(h.subsystem_request(1, "shell"), SubsystemDecision::Reject));
    assert!(matches!(h.subsystem_request(1, "sftpx"), SubsystemDecision::Reject));
    assert_eq!(h.data(1, b"a"), DataAction::Echo);
    assert!(h.channel_eof(1));
    assert!(matches!(h.subsystem_request(1, "sftp"), SubsystemDecision::Accept("chan")));
}

#[test]
fn upgrade_happens_once() {
    let mut h: ServerHandler<&str> = ServerHandler::new(0);
    h.channel_open_session(7, "chan");
    assert!(matches!(h.subsystem_request(7, "sftp"), SubsystemDecision::Accept("chan")));
    assert!(matches!(h.subsystem_request(7, "sftp"), SubsystemDecision::Reject));
    assert_eq!(h.data(7, b"x"), DataAction::Forwarded);
}

#[test]
fn closed_channel_is_refused() {
    let mut h: ServerHandler<&str> = ServerHandler::new(9);
    h.channel_open_session(1, "a");
    h.channel_open_session(2, "b");
    let closed: Option<Action<()>> = h.channel_close(1);
    assert!(matches!(
        closed,
        Some(Action::RemoveChannel { session: 9, channel: 1 })
    ));
    assert_eq!(h.data(1, b"x"), DataAction::Refused);
    assert_eq!(h.data(1, &[3]), DataAction::Refused);
    assert!(!h.channel_eof(1));
    assert!(matches!(h.subsystem_request(1, "sftp"), SubsystemDecision::Reject));
    let again: Option<Action<()>> = h.channel_close(1);
    assert!(again.is_none());
    assert_eq!(h.data(2, b"x"), DataAction::Echo);
}

#[test]
fn never_opened_channel_is_refused() {
    let mut h: ServerHandler<&str> = ServerHandler::new(0);
    assert_eq!(h.data(5, b"x"), DataAction::Refused);
    assert!(!h.channel_eof(5));
    assert!(matches!(h.subsystem_request(5, "sftp"), SubsystemDecision::Reject));
}

#[test]
fn router_knows_its_session() {
    let h: ServerHandler<&str> = ServerHandler::new(42);
    assert_eq!(h.session_id(), 42);
}
