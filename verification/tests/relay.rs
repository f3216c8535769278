use std::sync::Arc;

use romoto::relay::{
    startup_line, ConnectionRole, RelayHandler, RelayServer, RelayState, ShellStep,
};
use romoto::server::relay_login;
use romoto::ssh::{Auth, ChannelReply};

fn make_handler(pass: Option<&str>) -> RelayHandler<u32, u32, ()> {
    RelayHandler {
        peer_addr: "127.0.0.1:1234".into(),
        state: Arc::new(()),
        pass: pass.map(|s| s.to_string()),
        role: ConnectionRole::Unknown,
        session_id: None,
        host_channel_info: None,
    }
}

fn no_hosts() -> RelayState<u32> {
    RelayState::new()
}

/// A relay at which a host has registered each of `ids`, with its position as the handle.
fn with_hosts(ids: &[&str]) -> RelayState<u32> {
    let mut state = no_hosts();
    for (i, id) in ids.iter().enumerate() {
        let mut h = make_handler(None);
        h.classify_user(&format!("host:{id}"));
        assert!(h.channel_open_session(&mut state, i as u32));
    }
    state
}

#[test]
fn test_classify_user_host() {
    let mut h = make_handler(None);
    h.classify_user("host:abc123");
    assert!(matches!(h.role, ConnectionRole::Host));
    assert_eq!(h.session_id.as_deref(), Some("abc123"));
}

#[test]
fn test_classify_user_guest() {
    let mut h = make_handler(None);
    h.classify_user("abc123");
    assert!(matches!(h.role, ConnectionRole::Guest));
    assert_eq!(h.session_id.as_deref(), Some("abc123"));
}

#[test]
fn test_classify_user_host_empty_sid() {
    let mut h = make_handler(None);
    h.classify_user("host:");
    assert!(matches!(h.role, ConnectionRole::Host));
    assert_eq!(h.session_id.as_deref(), Some(""));
}

#[test]
fn test_classify_user_not_host_prefix() {
    let mut h = make_handler(None);
    h.classify_user("hosting");
    assert!(matches!(h.role, ConnectionRole::Guest));
    assert_eq!(h.session_id.as_deref(), Some("hosting"));
}

#[test]
fn test_auth_none_host_no_pass() {
    let mut h = make_handler(None);
    let result = h.auth_none("host:session1", &no_hosts());
    assert!(matches!(result, Auth::Accept));
}

#[test]
fn test_auth_none_host_with_pass_rejects() {
    let mut h = make_handler(Some("secret"));
    let result = h.auth_none("host:session1", &no_hosts());
    assert!(matches!(result, Auth::Reject { .. }));
}

#[test]
fn test_auth_password_host_correct() {
    let mut h = make_handler(Some("secret"));
    let result = h.auth_password("host:session1", "secret", &no_hosts());
    assert!(matches!(result, Auth::Accept));
}

#[test]
fn test_auth_password_host_wrong() {
    let mut h = make_handler(Some("secret"));
    let result = h.auth_password("host:session1", "wrong", &no_hosts());
    assert!(matches!(result, Auth::Reject { .. }));
}

#[test]
fn test_auth_guest_no_host_registered() {
    let mut h = make_handler(None);
    let result = h.auth_none("session1", &no_hosts());
    assert!(matches!(result, Auth::Reject { .. }));
}

#[test]
fn classify_user_beyond_ascii() {
    let mut h = make_handler(None);
    h.classify_user("host:\u{e9}t\u{e9}");
    assert_eq!(h.role, ConnectionRole::Host);
    assert_eq!(h.session_id.as_deref(), Some("\u{e9}t\u{e9}"));
    h.classify_user("h\u{f6}st:x");
    assert_eq!(h.role, ConnectionRole::Guest);
    assert_eq!(h.session_id.as_deref(), Some("h\u{f6}st:x"));
    h.classify_user("");
    assert_eq!(h.role, ConnectionRole::Guest);
    assert_eq!(h.session_id.as_deref(), Some(""));
}

#[test]
fn classify_user_keeps_the_rest() {
    let mut h = make_handler(Some("secret"));
    h.host_channel_info = Some((3, 4));
    h.classify_user("host:a");
    h.classify_user("b");
    assert_eq!(h.role, ConnectionRole::Guest);
    assert_eq!(h.session_id.as_deref(), Some("b"));
    assert_eq!(h.peer_addr, "127.0.0.1:1234");
    assert_eq!(h.pass.as_deref(), Some("secret"));
    assert_eq!(h.host_channel_info, Some((3, 4)));
}

#[test]
fn host_without_relay_password_may_send_any() {
    let mut h = make_handler(None);
    assert_eq!(h.auth_password("host:s", "whatever", &no_hosts()), Auth::Accept);
}

#[test]
fn host_cannot_use_a_key() {
    let mut h = make_handler(None);
    assert_eq!(h.auth_publickey("host:s", &no_hosts()), Auth::Reject);
    assert_eq!(h.auth_publickey("host:s", &with_hosts(&["s"])), Auth::Reject);
    assert_eq!(h.role, ConnectionRole::Host);
}

#[test]
fn registered_session_is_open_to_every_method() {
    let state = with_hosts(&["abc12345"]);
    let mut h = make_handler(Some("secret"));
    assert_eq!(h.auth_none("abc12345", &state), Auth::Accept);
    assert_eq!(h.auth_password("abc12345", "wrong", &state), Auth::Accept);
    assert_eq!(h.auth_publickey("abc12345", &state), Auth::Accept);
}

#[test]
fn unknown_session_is_closed_to_every_method() {
    let state = with_hosts(&["abc12345"]);
    let mut h = make_handler(Some("secret"));
    assert_eq!(h.auth_none("abc1234", &state), Auth::Reject);
    assert_eq!(h.auth_password("abc1234", "secret", &state), Auth::Reject);
    assert_eq!(h.auth_publickey("abc1234", &state), Auth::Reject);
}

#[test]
fn host_login_matches_relay_password() {
    for (relay_pass, host_pass, accepted) in [
        (None, None, true),
        (None, Some("x"), true),
        (Some("x"), Some("x"), true),
        (Some("x"), Some("y"), false),
        (Some("x"), None, false),
    ] {
        let mut h = make_handler(relay_pass);
        let login = relay_login("abc12345", host_pass);
        let auth = match &login.password {
            Some(password) => h.auth_password(&login.user, password, &no_hosts()),
            None => h.auth_none(&login.user, &no_hosts()),
        };
        assert_eq!(auth == Auth::Accept, accepted);
        assert_eq!(h.role, ConnectionRole::Host);
        assert_eq!(h.session_id.as_deref(), Some("abc12345"));
    }
}

#[test]
fn only_hosts_register() {
    let mut state = no_hosts();
    let mut h = make_handler(None);
    assert!(h.channel_open_session(&mut state, 7));
    h.classify_user("guest");
    assert!(h.channel_open_session(&mut state, 8));
    assert!(state.hosts.is_empty());
    h.classify_user("host:s");
    assert!(h.channel_open_session(&mut state, 9));
    assert_eq!(state.hosts.len(), 1);
    assert_eq!(state.hosts.get("s").map(|e| e.handle), Some(9));
}

#[test]
fn latest_registration_leads() {
    let state = with_hosts(&["a", "b", "a"]);
    assert_eq!(state.hosts.get("a").map(|e| e.handle), Some(2));
    assert_eq!(state.hosts.get("b").map(|e| e.handle), Some(1));
    assert_eq!(state.hosts.len(), 2);
}

#[test]
fn shell_request_of_a_host_is_acknowledged() {
    let mut h = make_handler(None);
    h.classify_user("host:s");
    assert!(matches!(
        h.shell_request(&no_hosts()),
        ShellStep::Reply(ChannelReply::Success)
    ));
}

#[test]
fn shell_request_of_a_guest_opens_a_channel() {
    let state = with_hosts(&["x", "s"]);
    let mut h = make_handler(None);
    h.classify_user("s");
    match h.shell_request(&state) {
        ShellStep::Open(channel) => {
            assert_eq!(*channel.host, 1);
            assert_eq!(channel.connected_address, "relay");
            assert_eq!(channel.connected_port, 0);
            assert_eq!(channel.originator_address, "127.0.0.1:1234");
            assert_eq!(channel.originator_port, 0);
        }
        ShellStep::Reply(_) => panic!("no channel"),
    }
}

#[test]
fn shell_request_without_host_fails() {
    let mut h = make_handler(None);
    h.classify_user("s");
    assert!(matches!(
        h.shell_request(&with_hosts(&["x"])),
        ShellStep::Reply(ChannelReply::Failure)
    ));
    let unnamed = make_handler(None);
    assert!(matches!(
        unnamed.shell_request(&no_hosts()),
        ShellStep::Reply(ChannelReply::Failure)
    ));
    assert!(matches!(unnamed.shell_request(&with_hosts(&[""])), ShellStep::Open(_)));
}

#[test]
fn channel_opened_ties_the_guest_to_the_host() {
    let mut h = make_handler(None);
    h.classify_user("s");
    assert_eq!(h.channel_opened(None), ChannelReply::Failure);
    assert_eq!(h.host_channel_info, None);
    assert_eq!(h.channel_opened(Some((1, 5))), ChannelReply::Success);
    assert_eq!(h.host_channel_info, Some((1, 5)));
    assert_eq!(h.channel_opened(None), ChannelReply::Failure);
    assert_eq!(h.host_channel_info, Some((1, 5)));
    assert_eq!(h.session_id.as_deref(), Some("s"));
}

#[test]
fn guest_data_goes_to_the_host() {
    let mut h = make_handler(None);
    h.classify_user("s");
    assert!(h.data(b"ls\r").is_none());
    h.channel_opened(Some((1, 5)));
    let (to, bytes) = h.data(b"ls\r").unwrap();
    assert_eq!(*to, (1, 5));
    assert_eq!(bytes, b"ls\r".to_vec());
}

#[test]
fn other_data_goes_nowhere() {
    let mut h = make_handler(None);
    h.host_channel_info = Some((1, 5));
    assert!(h.data(b"x").is_none());
    h.classify_user("host:s");
    assert!(h.data(b"x").is_none());
}

#[test]
fn window_change_is_announced_to_the_host() {
    let mut h = make_handler(None);
    assert!(h.window_change_request(120, 40).is_none());
    h.channel_opened(Some((1, 5)));
    let (to, bytes) = h.window_change_request(120, 40).unwrap();
    assert_eq!(*to, (1, 5));
    assert_eq!(bytes, b"\x1b]romoto;resize;120;40\x07".to_vec());
}

#[test]
fn new_client_of_the_relay() {
    let server = RelayServer { state: Arc::new(()), pass: Some("secret".to_string()) };
    let h: RelayHandler<u32, u32, ()> = server.new_client(Some("10.0.0.1:99".to_string()));
    assert_eq!(h.peer_addr, "10.0.0.1:99");
    assert_eq!(h.pass.as_deref(), Some("secret"));
    assert_eq!(h.role, ConnectionRole::Unknown);
    assert_eq!(h.session_id, None);
    assert_eq!(h.host_channel_info, None);
    let open = RelayServer { state: Arc::new(()), pass: None };
    let h: RelayHandler<u32, u32, ()> = open.new_client(None);
    assert_eq!(h.peer_addr, "unknown");
    assert_eq!(h.pass, None);
}

#[test]
fn relay_startup_line() {
    assert_eq!(startup_line(2222), "\x1b[1mromoto relay\x1b[0m listening on port 2222");
}

#[test]
fn connections_share_the_registered_hosts() {
    let server = RelayServer { state: Arc::new(5u8), pass: None };
    let mut a: RelayHandler<u32, u32, u8> = server.new_client(None);
    let b: RelayHandler<u32, u32, u8> = server.new_client(None);
    a.classify_user("host:abc12345");
    assert!(Arc::ptr_eq(&a.state, &server.state));
    assert!(Arc::ptr_eq(&a.state, &b.state));
}
