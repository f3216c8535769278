use std::sync::Arc;

use romoto::relay::{ConnectionRole, RelayHandler, RelayServer};
use romoto::server::{
    generate_session_id, relay_address, relay_login, session_id_from, startup_lines, AppServer,
    Registration, RegistrationEvent, RelayError,
};
use romoto::session::SharedState;
use romoto::ssh::{peer_name, received, Auth, ChannelReply, ReadOutcome};

fn host(id: &str) -> AppServer<u8, u16> {
    AppServer {
        state: Arc::new(5),
        broadcast_tx: Arc::new(7),
        session_id: id.to_string(),
    }
}

#[test]
fn test_generate_session_id_length() {
    let id = generate_session_id();
    assert_eq!(id.len(), 8);
}

#[test]
fn test_generate_session_id_charset() {
    let id = generate_session_id();
    assert!(id.chars().all(|c| c.is_ascii_lowercase() || c.is_ascii_digit()));
}

#[test]
fn test_generate_session_id_unique() {
    let a = generate_session_id();
    let b = generate_session_id();
    assert_ne!(a, b);
}

#[test]
fn session_id_spells_the_picks() {
    assert_eq!(session_id_from(&vec![0, 1, 2, 27, 28, 29, 30, 31]), "abc12345");
    assert_eq!(session_id_from(&vec![25, 26, 35]), "z09");
    assert_eq!(session_id_from(&vec![]), "");
}

#[test]
fn session_ids_name_guests() {
    for _ in 0..100 {
        let id = generate_session_id();
        let mut h: RelayHandler<u32, u32, ()> = RelayServer { state: Arc::new(()), pass: None }.new_client(None);
        h.classify_user(&id);
        assert_eq!(h.role, ConnectionRole::Guest);
        assert_eq!(h.session_id, Some(id));
    }
}

#[test]
fn startup_lines_on_this_machine() {
    assert_eq!(
        startup_lines("opencode", "abc12345", 2222, None, "/home/user/project"),
        vec![
            "\x1b[1mromoto\x1b[0m session started",
            "Command: opencode",
            "Connect with: ssh abc12345@localhost -p 2222",
            "Working directory: /home/user/project",
        ]
    );
}

#[test]
fn startup_lines_over_a_relay() {
    assert_eq!(
        startup_lines("vim", "abc12345", 3000, Some("relay.example"), "/tmp"),
        vec![
            "\x1b[1mromoto\x1b[0m session started",
            "Command: vim",
            "Relay: relay.example",
            "Connect with: ssh abc12345@relay.example",
            "Working directory: /tmp",
        ]
    );
}

#[test]
fn session_id_is_the_access_token() {
    let server = host("abc12345");
    let client = server.new_client(None);
    assert_eq!(client.auth_none("abc12345"), Auth::Accept);
    assert_eq!(client.auth_password("abc12345", ""), Auth::Accept);
    assert_eq!(client.auth_password("abc12345", "anything"), Auth::Accept);
    assert_eq!(client.auth_publickey("abc12345"), Auth::Accept);
    for user in ["", "abc1234", "abc123456", "ABC12345", "abc12346"] {
        assert_eq!(client.auth_none(user), Auth::Reject);
        assert_eq!(client.auth_password(user, "abc12345"), Auth::Reject);
        assert_eq!(client.auth_publickey(user), Auth::Reject);
    }
}

#[test]
fn new_client_of_the_host() {
    let server = host("abc12345");
    let client = server.new_client(Some("10.0.0.1:99".to_string()));
    assert_eq!(client.peer_addr, "10.0.0.1:99");
    assert_eq!(client.session_id, "abc12345");
    assert_eq!(server.new_client(None).peer_addr, "unknown");
}

#[test]
fn relay_addresses() {
    assert_eq!(relay_address("relay.example"), "relay.example:22");
    assert_eq!(relay_address("relay.example:2200"), "relay.example:2200");
    assert_eq!(relay_address(""), ":22");
    assert_eq!(relay_address(&relay_address("r")), "r:22");
}

#[test]
fn relay_logins() {
    let login = relay_login("abc12345", Some("secret"));
    assert_eq!(login.user, "host:abc12345");
    assert_eq!(login.password.as_deref(), Some("secret"));
    let login = relay_login("abc12345", None);
    assert_eq!(login.user, "host:abc12345");
    assert_eq!(login.password, None);
}

#[test]
fn registration_goes_step_by_step() {
    let mut r = Registration::new();
    for (event, expected) in [
        (RegistrationEvent::SessionOpened, Registration::LogIn),
        (RegistrationEvent::LoginAnswered(true), Registration::OpenSession),
        (RegistrationEvent::LoginAnswered(false), Registration::OpenSession),
        (RegistrationEvent::SessionOpened, Registration::RequestShell),
        (RegistrationEvent::ShellRequested, Registration::Stay),
        (RegistrationEvent::Interrupted, Registration::Done),
        (RegistrationEvent::LoginAnswered(false), Registration::Done),
    ] {
        r.handle(event);
        assert_eq!(r, expected);
    }
}

#[test]
fn a_rejected_login_ends_the_registration() {
    let mut r = Registration::new();
    r.handle(RegistrationEvent::LoginAnswered(false));
    assert_eq!(r, Registration::Failed(RelayError::AuthRejected));
    r.handle(RegistrationEvent::LoginAnswered(true));
    r.handle(RegistrationEvent::SessionOpened);
    assert_eq!(r, Registration::Failed(RelayError::AuthRejected));
    assert_eq!(RelayError::AuthRejected.message(), "relay auth rejected \u{2014} check --pass");
}

#[test]
fn peer_names() {
    assert_eq!(peer_name(Some("1.2.3.4:5".to_string())), "1.2.3.4:5");
    assert_eq!(peer_name(None), "unknown");
}

#[test]
fn reads_are_handed_on_until_the_end() {
    let buf = *b"hello";
    assert_eq!(received(&buf, ReadOutcome::Read(3)), Some(b"hel".to_vec()));
    assert_eq!(received(&buf, ReadOutcome::Read(5)), Some(b"hello".to_vec()));
    assert_eq!(received(&buf, ReadOutcome::Read(0)), None);
    assert_eq!(received(&buf, ReadOutcome::Failed), None);
}

#[test]
fn clients_share_one_session() {
    let server = host("abc12345");
    let (a, b) = (server.new_client(None), server.new_client(None));
    assert!(Arc::ptr_eq(&a.state, &server.state));
    assert!(Arc::ptr_eq(&a.state, &b.state));
    assert!(Arc::ptr_eq(&a.broadcast_tx, &server.broadcast_tx));
    assert!(Arc::ptr_eq(&a.broadcast_tx, &b.broadcast_tx));
}

#[test]
fn a_terminal_request_is_answered() {
    let client = host("abc12345").new_client(None);
    let mut session = SharedState::new();
    session.record_output(b"output");
    let taken: Result<(), &str> = Ok(());
    assert_eq!(
        client.pty_request(&mut session, 120, 65576, taken),
        Ok(Some(ChannelReply::Success))
    );
    assert_eq!((session.last_size.cols, session.last_size.rows), (120, 40));
    assert_eq!(client.pty_request(&mut session, 1, 1, Err("no")), Err("no"));
    assert_eq!((session.last_size.cols, session.last_size.rows), (120, 40));
    assert_eq!(session.buffer, b"output".to_vec());
}

#[test]
fn a_window_change_is_not_answered() {
    let client = host("abc12345").new_client(None);
    let mut session = SharedState::new();
    session.record_output(b"output");
    let taken: Result<(), &str> = Ok(());
    assert_eq!(client.window_change_request(&mut session, 120, 65576, taken), Ok(None));
    assert_eq!((session.last_size.cols, session.last_size.rows), (120, 40));
    assert_eq!(client.window_change_request(&mut session, 1, 1, Err("no")), Err("no"));
    assert_eq!((session.last_size.cols, session.last_size.rows), (120, 40));
    assert_eq!(session.buffer, b"output".to_vec());
}
