//! The session host: its session ID, what it tells the user at the start, whom it lets in, and how
//! it registers with a relay.

use crate::decimal::{append_decimal, decimal, decimal_text, law_decimal_denotes, number_u16};
use crate::session::{requested_size, SharedState, SizeRequest};
use crate::ssh::{accept_if, peer_name, Auth, ChannelReply};
use crate::text::{contains_char, str_eq};
use std::sync::Arc;
use vstd::prelude::*;
use vstd::string::*;
use vstd::utf8::*;

verus! {

/// How many characters a session ID has.
pub const SESSION_ID_LEN: usize = 8;

/// The characters that session IDs are made of.
pub open spec fn alphabet() -> Seq<char> {
    "abcdefghijklmnopqrstuvwxyz0123456789"@
}

/// Whether `id` could be a session ID: eight lower-case letters and digits.
pub open spec fn is_session_id(id: Seq<char>) -> bool {
    &&& id.len() == SESSION_ID_LEN
    &&& forall|i: int|
        0 <= i < id.len() ==> {
            let c = #[trigger] id[i];
            ('a' <= c <= 'z') || ('0' <= c <= '9')
        }
}

/// The text that picks of the alphabet spell.
pub open spec fn spelled(picks: Seq<usize>) -> Seq<char> {
    Seq::new(picks.len(), |i: int| alphabet()[picks[i] as int])
}

/// The alphabet holds the 26 lower-case letters and the 10 digits.
proof fn lemma_alphabet(i: int)
    requires
        0 <= i < 36,
    ensures
        alphabet().len() == 36,
        ('a' <= alphabet()[i] <= 'z') || ('0' <= alphabet()[i] <= '9'),
        "abcdefghijklmnopqrstuvwxyz0123456789".is_ascii(),
{
    reveal_strlit("abcdefghijklmnopqrstuvwxyz0123456789");
}

/// A random number below `bound`, drawn from the thread's generator by `rand::thread_rng` and
/// `rand::Rng::gen_range`. The number is below `bound`; which one it is depends on chance.
#[verifier::external_body]
fn random_below(bound: usize) -> (r: usize)
    requires
        bound > 0,
    ensures
        r < bound,
{
    rand::Rng::gen_range(&mut rand::thread_rng(), 0..bound)
}

/// The session ID that `picks`, positions in the alphabet, spell.
pub fn session_id_from(picks: &Vec<usize>) -> (r: String)
    requires
        forall|i: int| 0 <= i < picks.len() ==> #[trigger] picks[i] < 36,
    ensures
        r@ == spelled(picks@),
        picks.len() == SESSION_ID_LEN ==> is_session_id(r@),
{
    let chars = "abcdefghijklmnopqrstuvwxyz0123456789";
    let mut id = String::new();
    let mut i: usize = 0;
    while i < picks.len()
        invariant
            i <= picks.len(),
            chars@ == alphabet(),
            forall|j: int| 0 <= j < picks.len() ==> #[trigger] picks[j] < 36,
            id@ == spelled(picks@.take(i as int)),
        decreases picks.len() - i,
    {
        let k: usize = picks[i];
        proof {
            lemma_alphabet(k as int);
        }
        id.append(chars.substring_ascii(k, k + 1));
        i += 1;
        assert(id@ =~= spelled(picks@.take(i as int)));
    }
    assert(picks@.take(i as int) =~= picks@);
    proof {
        assert forall|j: int| 0 <= j < id@.len() implies {
            let c = #[trigger] id@[j];
            ('a' <= c <= 'z') || ('0' <= c <= '9')
        } by {
            lemma_alphabet(picks[j] as int);
        }
    }
    id
}

/// A random session ID.
pub fn generate_session_id() -> (r: String)
    ensures
        is_session_id(r@),
{
    let mut picks: Vec<usize> = Vec::new();
    while picks.len() < SESSION_ID_LEN
        invariant
            picks.len() <= SESSION_ID_LEN,
            forall|i: int| 0 <= i < picks.len() ==> #[trigger] picks[i] < 36,
        decreases SESSION_ID_LEN - picks.len(),
    {
        picks.push(random_below(36));
    }
    session_id_from(&picks)
}

/// The command that lets a guest in: over the relay, or on this machine where there is none.
pub open spec fn connect_command(id: Seq<char>, port: u16, relay: Option<Seq<char>>) -> Seq<char> {
    match relay {
        Some(relay) => "ssh "@ + id + "@"@ + relay,
        None => "ssh "@ + id + "@localhost -p "@ + decimal_text(port as nat),
    }
}

/// What the user is told when a session starts.
pub open spec fn startup_text(
    command: Seq<char>,
    id: Seq<char>,
    port: u16,
    relay: Option<Seq<char>>,
    directory: Seq<char>,
) -> Seq<Seq<char>> {
    let head = seq!["\x1b[1mromoto\x1b[0m session started"@, "Command: "@ + command];
    let via = match relay {
        Some(relay) => seq!["Relay: "@ + relay],
        None => Seq::empty(),
    };
    let tail = seq![
        "Connect with: "@ + connect_command(id, port, relay),
        "Working directory: "@ + directory,
    ];
    head + via + tail
}

/// The text of an optional string slice.
pub open spec fn str_of(s: Option<&str>) -> Option<Seq<char>> {
    match s {
        Some(s) => Some(s@),
        None => None,
    }
}

/// `label` followed by `value`.
fn labelled(label: &str, value: &str) -> (r: String)
    ensures
        r@ == label@ + value@,
{
    label.to_owned().concat(value)
}

/// The lines that are printed when a session starts.
pub fn startup_lines(
    command: &str,
    id: &str,
    port: u16,
    relay: Option<&str>,
    directory: &str,
) -> (r: Vec<String>)
    ensures
        r.deep_view() == startup_text(command@, id@, port, str_of(relay), directory@),
{
    let mut lines: Vec<String> = Vec::new();
    lines.push("\x1b[1mromoto\x1b[0m session started".to_owned());
    lines.push(labelled("Command: ", command));
    let mut connect = labelled("Connect with: ssh ", id);
    match relay {
        Some(relay) => {
            lines.push(labelled("Relay: ", relay));
            connect.append("@");
            connect.append(relay);
        },
        None => {
            connect.append("@localhost -p ");
            append_decimal(&mut connect, port as u32);
        },
    }
    proof {
        reveal_strlit("Connect with: ssh ");
        reveal_strlit("Connect with: ");
        reveal_strlit("ssh ");
        assert(connect@ =~= "Connect with: "@ + connect_command(id@, port, str_of(relay)));
    }
    lines.push(connect);
    lines.push(labelled("Working directory: ", directory));
    assert(lines.deep_view() =~= startup_text(command@, id@, port, str_of(relay), directory@));
    lines
}

/// One client's connection to the session host, with the host's own handles to the state of the
/// session and to the sender of its output.
pub struct ClientHandler<S, B> {
    pub peer_addr: String,
    pub state: Arc<S>,
    pub broadcast_tx: Arc<B>,
    pub session_id: String,
}

/// The session host as it waits for clients.
pub struct AppServer<S, B> {
    pub state: Arc<S>,
    pub broadcast_tx: Arc<B>,
    pub session_id: String,
}

impl<S, B> AppServer<S, B> {
    /// A handler for a client that has connected from `peer`. All handlers have the same state and
    /// the same sender: only handles are passed on, and an `S` or a `B` cannot be copied here.
    pub fn new_client(&self, peer: Option<String>) -> (r: ClientHandler<S, B>)
        ensures
            r.state == self.state,
            r.broadcast_tx == self.broadcast_tx,
            r.session_id@ == self.session_id@,
            r.peer_addr@ == match peer {
                Some(address) => address@,
                None => "unknown"@,
            },
    {
        ClientHandler {
            peer_addr: peer_name(peer),
            state: self.state.clone(),
            broadcast_tx: self.broadcast_tx.clone(),
            session_id: self.session_id.clone(),
        }
    }
}

impl<S, B> ClientHandler<S, B> {
    /// Whether the user name is the session ID, which is all that it takes to get in.
    fn check(&self, user: &str) -> (r: Auth)
        ensures
            r == accept_if(user@ == self.session_id@),
    {
        if str_eq(user, self.session_id.as_str()) {
            Auth::Accept
        } else {
            Auth::Reject
        }
    }

    /// A client without credentials is let in if its user name is the session ID.
    pub fn auth_none(&self, user: &str) -> (r: Auth)
        ensures
            r == accept_if(user@ == self.session_id@),
    {
        self.check(user)
    }

    /// A client with a password is let in if its user name is the session ID, whatever the
    /// password.
    pub fn auth_password(&self, user: &str, _password: &str) -> (r: Auth)
        ensures
            r == accept_if(user@ == self.session_id@),
    {
        self.check(user)
    }

    /// A client with a key is let in if its user name is the session ID, whatever the key.
    pub fn auth_publickey(&self, user: &str) -> (r: Auth)
        ensures
            r == accept_if(user@ == self.session_id@),
    {
        self.check(user)
    }

    /// The client asks for a terminal of `col_width` columns and `row_height` rows. `resized` is how
    /// the attempt to give the terminal that size has ended.
    pub fn pty_request<E>(
        &self,
        session: &mut SharedState,
        col_width: u32,
        row_height: u32,
        resized: Result<(), E>,
    ) -> (r: Result<Option<ChannelReply>, E>)
        ensures
            old(session).wf() ==> final(session).wf(),
            SizeRequest::Terminal.served(
                old(session)@,
                final(session)@,
                col_width,
                row_height,
                resized,
                r,
            ),
    {
        session.client_resize(requested_size(col_width, row_height), resized.is_ok());
        match resized {
            Ok(_) => Ok(Some(ChannelReply::Success)),
            Err(e) => Err(e),
        }
    }

    /// The client's window has changed to `col_width` columns and `row_height` rows. `resized` is how
    /// the attempt to give the terminal that size has ended.
    pub fn window_change_request<E>(
        &self,
        session: &mut SharedState,
        col_width: u32,
        row_height: u32,
        resized: Result<(), E>,
    ) -> (r: Result<Option<ChannelReply>, E>)
        ensures
            old(session).wf() ==> final(session).wf(),
            SizeRequest::WindowChange.served(
                old(session)@,
                final(session)@,
                col_width,
                row_height,
                resized,
                r,
            ),
    {
        session.client_resize(requested_size(col_width, row_height), resized.is_ok());
        match resized {
            Ok(_) => Ok(None),
            Err(e) => Err(e),
        }
    }
}

/// Where a relay listens: port 22, unless the address names a port.
pub open spec fn relay_endpoint(relay: Seq<char>) -> Seq<char> {
    if relay.contains(':') {
        relay
    } else {
        relay + ":22"@
    }
}

/// The address to connect to for the relay `relay`.
pub fn relay_address(relay: &str) -> (r: String)
    ensures
        r@ == relay_endpoint(relay@),
{
    if contains_char(relay, ':') {
        relay.to_owned()
    } else {
        labelled(relay, ":22")
    }
}

/// The user name under which the host of session `id` registers with a relay.
pub open spec fn host_user(id: Seq<char>) -> Seq<char> {
    seq!['h', 'o', 's', 't', ':'] + id
}

/// How a host logs in to a relay: with a password if it was given one.
pub struct RelayLogin {
    pub user: String,
    pub password: Option<String>,
}

/// Why a host could not register with a relay.
#[derive(Clone, Copy, Debug, PartialEq, Eq, Structural)]
pub enum RelayError {
    AuthRejected,
}

impl RelayError {
    /// What the user is told.
    pub fn message(&self) -> (r: &'static str)
        ensures
            r@ == "relay auth rejected — check --pass"@,
    {
        "relay auth rejected — check --pass"
    }
}

/// How the host of session `id` logs in to a relay.
pub fn relay_login(id: &str, pass: Option<&str>) -> (r: RelayLogin)
    ensures
        r.user@ == host_user(id@),
        crate::ssh::text_of(r.password) == str_of(pass),
{
    let user = labelled("host:", id);
    proof {
        reveal_strlit("host:");
        assert("host:"@ =~= seq!['h', 'o', 's', 't', ':']);
    }
    let password = match pass {
        Some(pass) => Some(pass.to_owned()),
        None => None,
    };
    RelayLogin { user, password }
}

/// How far a host has come in registering with a relay that it is connected to: what is to be done
/// next.
#[derive(Clone, Copy, Debug, PartialEq, Eq, Structural)]
pub enum Registration {
    /// Log in.
    LogIn,
    /// Open a session channel, by which the relay learns of the session.
    OpenSession,
    /// Ask for a shell on the channel, without a reply.
    RequestShell,
    /// Stay connected until the user interrupts: the relay brings guests.
    Stay,
    /// Nothing: the user has had enough.
    Done,
    /// Nothing: the registration has failed.
    Failed(RelayError),
}

/// What a host is told while it registers.
#[derive(Clone, Copy, Debug, PartialEq, Eq, Structural)]
pub enum RegistrationEvent {
    LoginAnswered(bool),
    SessionOpened,
    ShellRequested,
    Interrupted,
}

impl Registration {
    /// The state after `event`. The host goes on only if the relay has accepted its login. An event
    /// that is out of turn changes nothing.
    pub open spec fn after(self, event: RegistrationEvent) -> Registration {
        match (self, event) {
            (Registration::LogIn, RegistrationEvent::LoginAnswered(accepted)) => if accepted {
                Registration::OpenSession
            } else {
                Registration::Failed(RelayError::AuthRejected)
            },
            (Registration::OpenSession, RegistrationEvent::SessionOpened) =>
                Registration::RequestShell,
            (Registration::RequestShell, RegistrationEvent::ShellRequested) => Registration::Stay,
            (Registration::Stay, RegistrationEvent::Interrupted) => Registration::Done,
            _ => self,
        }
    }

    /// The state after each of `events` in turn.
    pub open spec fn after_all(self, events: Seq<RegistrationEvent>) -> Registration
        decreases events.len(),
    {
        if events.len() == 0 {
            self
        } else {
            self.after_all(events.drop_last()).after(events.last())
        }
    }

    /// A host that has just connected.
    pub fn new() -> (r: Registration)
        ensures
            r == Registration::LogIn,
    {
        Registration::LogIn
    }

    /// Takes note of an event.
    pub fn handle(&mut self, event: RegistrationEvent)
        ensures
            *final(self) == old(self).after(event),
    {
        match (*self, event) {
            (Registration::LogIn, RegistrationEvent::LoginAnswered(accepted)) => {
                if accepted {
                    *self = Registration::OpenSession;
                } else {
                    *self = Registration::Failed(RelayError::AuthRejected);
                }
            },
            (Registration::OpenSession, RegistrationEvent::SessionOpened) => {
                *self = Registration::RequestShell;
            },
            (Registration::RequestShell, RegistrationEvent::ShellRequested) => {
                *self = Registration::Stay;
            },
            (Registration::Stay, RegistrationEvent::Interrupted) => {
                *self = Registration::Done;
            },
            _ => {},
        }
    }
}

/// The first answer to the login decides, in any course of events: the registration has failed if
/// and only if it was a rejection, and nothing but a login is due before it.
pub proof fn law_login_decides(events: Seq<RegistrationEvent>, i: int)
    requires
        forall|j: int|
            0 <= j < events.len() && j < i ==> !(#[trigger] events[j] is LoginAnswered),
        0 <= i <= events.len(),
        i < events.len() ==> events[i] is LoginAnswered,
    ensures
        i == events.len() ==> Registration::LogIn.after_all(events) == Registration::LogIn,
        i < events.len() ==> {
            let state = Registration::LogIn.after_all(events);
            &&& state != Registration::LogIn
            &&& state is Failed <==> events[i] == RegistrationEvent::LoginAnswered(false)
        },
    decreases events.len(),
{
    if events.len() > 0 {
        let before = events.drop_last();
        if i == events.len() {
            assert(!(events[events.len() - 1] is LoginAnswered));
            law_login_decides(before, before.len() as int);
        } else if i == before.len() {
            law_login_decides(before, i);
        } else {
            assert(before[i] == events[i]);
            law_login_decides(before, i);
        }
    }
}

/// The address that is dialled always names a port, and naming one again changes nothing.
pub proof fn law_relay_endpoint_names_port(relay: Seq<char>)
    ensures
        relay_endpoint(relay).contains(':'),
        relay_endpoint(relay_endpoint(relay)) == relay_endpoint(relay),
{
    reveal_strlit(":22");
    if !relay.contains(':') {
        assert(relay_endpoint(relay)[relay.len() as int] == ':');
    }
}

/// Each number that was drawn stands for one character: 0 to 25 for `a` to `z`, 26 to 35 for `0` to
/// `9`.
pub proof fn law_session_id_spells_picks(picks: &Vec<usize>, r: String, i: int)
    requires
        call_ensures(session_id_from, (picks,), r),
        forall|j: int| 0 <= j < picks.len() ==> #[trigger] picks[j] < 36,
        0 <= i < picks.len(),
    ensures
        r@.len() == picks.len(),
        picks[i] < 26 ==> r@[i] as int == 'a' as int + picks[i],
        picks[i] >= 26 ==> r@[i] as int == '0' as int + picks[i] - 26,
{
    reveal_strlit("abcdefghijklmnopqrstuvwxyz0123456789");
    let k = picks[i] as int;
    assert(r@[i] == alphabet()[k]);
}

/// A session ID has eight characters, each a lower-case letter or a digit.
pub proof fn law_session_id_form(r: String, i: int)
    requires
        call_ensures(generate_session_id, (), r),
        0 <= i < 8,
    ensures
        r@.len() == 8,
        'a' <= r@[i] <= 'z' || '0' <= r@[i] <= '9',
{
}

/// The notation of a 16-bit number as text is read as that number, and no blank stands in it.
proof fn lemma_port_is_read_back(port: u16)
    ensures
        number_u16(encode_utf8(decimal_text(port as nat))) == Some(port),
        forall|i: int|
            0 <= i < decimal_text(port as nat).len() ==> #[trigger] decimal_text(port as nat)[i]
                != ' ',
{
    let text = decimal_text(port as nat);
    let digits = decimal(port as nat);
    law_decimal_denotes(port as nat);
    assert forall|i: int| 0 <= i < text.len() implies '\0' <= #[trigger] text[i] <= '\u{7f}' && text[i]
        != ' ' by {
        assert(48 <= digits[i] <= 57);
    }
    is_ascii_chars_encode_utf8(text);
    assert forall|i: int| 0 <= i < text.len() implies encode_utf8(text)[i] == digits[i] by {
        assert(text[i] == digits[i] as char);
        assert(48 <= digits[i] <= 57);
    }
    assert(encode_utf8(text) =~= digits);
}

/// Without a relay the third line tells the port that the host listens on: what follows its last
/// blank is read as `port`.
pub proof fn law_connect_line_names_port(
    command: &str,
    id: &str,
    port: u16,
    directory: &str,
    r: Vec<String>,
)
    requires
        call_ensures(startup_lines, (command, id, port, None::<&str>, directory), r),
    ensures
        r.len() == 4,
        ({
            let line = r[2]@;
            exists|at: int|
                {
                    &&& 0 <= at < line.len()
                    &&& #[trigger] line[at] == ' '
                    &&& forall|j: int| at < j < line.len() ==> #[trigger] line[j] != ' '
                    &&& number_u16(encode_utf8(line.skip(at + 1))) == Some(port)
                }
        }),
{
    let lines = r.deep_view();
    let line = r[2]@;
    let text = decimal_text(port as nat);
    lemma_port_is_read_back(port);
    reveal_strlit("@localhost -p ");
    assert(lines == startup_text(command@, id@, port, None, directory@));
    assert(lines.len() == 4 && r@.len() == 4);
    assert(lines[2] == line);
    let at = line.len() - text.len() - 1;
    assert(line.skip(at + 1) =~= text);
    assert(line[at] == ' ');
    assert forall|j: int| at < j < line.len() implies #[trigger] line[j] != ' ' by {
        assert(line[j] == text[j - at - 1]);
    }
}

/// Sessions on different ports are announced differently.
pub proof fn law_connect_lines_differ_by_port(
    command: &str,
    id: &str,
    port: u16,
    other: u16,
    directory: &str,
    r: Vec<String>,
    r_other: Vec<String>,
)
    requires
        call_ensures(startup_lines, (command, id, port, None::<&str>, directory), r),
        call_ensures(startup_lines, (command, id, other, None::<&str>, directory), r_other),
        port != other,
    ensures
        r[2]@ != r_other[2]@,
{
    law_connect_line_names_port(command, id, port, directory, r);
    law_connect_line_names_port(command, id, other, directory, r_other);
    let line = r[2]@;
    let line_other = r_other[2]@;
    if line == line_other {
        let a = choose|at: int|
            {
                &&& 0 <= at < line.len()
                &&& #[trigger] line[at] == ' '
                &&& forall|j: int| at < j < line.len() ==> #[trigger] line[j] != ' '
                &&& number_u16(encode_utf8(line.skip(at + 1))) == Some(port)
            };
        let b = choose|at: int|
            {
                &&& 0 <= at < line_other.len()
                &&& #[trigger] line_other[at] == ' '
                &&& forall|j: int| at < j < line_other.len() ==> #[trigger] line_other[j] != ' '
                &&& number_u16(encode_utf8(line_other.skip(at + 1))) == Some(other)
            };
        assert(line[a] == ' ' && line[b] == ' ');
        assert(a == b);
    }
}

/// Every line says what it is about and gives it in full: the command, the relay if there is one, the
/// session ID with the place to connect to, and the working directory.
pub proof fn law_startup_lines_name_everything(
    command: &str,
    id: &str,
    port: u16,
    relay: Option<&str>,
    directory: &str,
    r: Vec<String>,
)
    requires
        call_ensures(startup_lines, (command, id, port, relay, directory), r),
    ensures
        r.len() == (if relay is Some {
            5int
        } else {
            4
        }),
        r[0]@ == "\x1b[1mromoto\x1b[0m session started"@,
        r[1]@ == "Command: "@ + command@,
        r[r.len() - 1]@ == "Working directory: "@ + directory@,
        ({
            let connect = "Connect with: ssh "@ + id@ + seq!['@'];
            match relay {
                Some(host) => r[2]@ == "Relay: "@ + host@ && r[3]@ == connect + host@,
                None => (connect + "localhost -p "@).is_prefix_of(r[2]@),
            }
        }),
{
    let lines = r.deep_view();
    reveal_strlit("Connect with: ssh ");
    reveal_strlit("Connect with: ");
    reveal_strlit("ssh ");
    reveal_strlit("@");
    reveal_strlit("@localhost -p ");
    reveal_strlit("localhost -p ");
    assert(lines == startup_text(command@, id@, port, str_of(relay), directory@));
    assert(lines.len() == r@.len());
    assert(lines.len() == 4 + if relay is Some {
        1int
    } else {
        0
    });
    assert(lines[0] == r[0]@);
    assert(lines[1] == r[1]@);
    assert(lines[2] == r[2]@);
    assert(lines[lines.len() - 1] == r[r.len() - 1]@);
    let connect = "Connect with: ssh "@ + id@ + seq!['@'];
    match relay {
        Some(host) => {
            assert(lines[3] == r[3]@);
            assert(r[3]@ =~= connect + host@);
        },
        None => {
            let head = connect + "localhost -p "@;
            assert(r[2]@.subrange(0, head.len() as int) =~= head);
        },
    }
}

/// A user gets in exactly with the session ID as the user name, and no password or key makes a
/// difference.
pub proof fn law_only_session_id_gets_in<S, B>(
    client: &ClientHandler<S, B>,
    user: &str,
    password: &str,
    by_none: Auth,
    by_password: Auth,
    by_key: Auth,
)
    requires
        call_ensures(ClientHandler::<S, B>::auth_none, (client, user), by_none),
        call_ensures(ClientHandler::<S, B>::auth_password, (client, user, password), by_password),
        call_ensures(ClientHandler::<S, B>::auth_publickey, (client, user), by_key),
    ensures
        by_none == Auth::Accept <==> user@ == client.session_id@,
        by_password == Auth::Accept <==> user@ == client.session_id@,
        by_key == Auth::Accept <==> user@ == client.session_id@,
{
}

/// Every client of a host gets in with the session ID of that host, and shares the host's state and
/// sender.
pub proof fn law_clients_share_the_session<S, B>(
    server: &AppServer<S, B>,
    peer: Option<String>,
    client: ClientHandler<S, B>,
    handler: &ClientHandler<S, B>,
    user: &str,
    r: Auth,
)
    requires
        call_ensures(AppServer::<S, B>::new_client, (server, peer), client),
        call_ensures(ClientHandler::<S, B>::auth_none, (handler, user), r),
        *handler == client,
    ensures
        client.state == server.state,
        client.broadcast_tx == server.broadcast_tx,
        peer matches Some(address) ==> client.peer_addr@ == address@,
        peer is None ==> client.peer_addr@ == "unknown"@,
        r == Auth::Accept <==> user@ == server.session_id@,
{
}

/// A terminal request and a change of the window: the terminal's refusal is passed on and changes
/// nothing. Otherwise the session has the size that was asked for, each number cut to 16 bits, and
/// only the terminal request is answered. The output that is kept is the same.
pub proof fn law_size_requests<S, B, E>(
    client: &ClientHandler<S, B>,
    s: &mut SharedState,
    t: &mut SharedState,
    cols: u32,
    rows: u32,
    resized: Result<(), E>,
    terminal: Result<Option<ChannelReply>, E>,
    change: Result<Option<ChannelReply>, E>,
)
    requires
        call_ensures(
            ClientHandler::<S, B>::pty_request::<E>,
            (client, s, cols, rows, resized),
            terminal,
        ),
        call_ensures(
            ClientHandler::<S, B>::window_change_request::<E>,
            (client, t, cols, rows, resized),
            change,
        ),
        *old(s) == *old(t),
    ensures
        match resized {
            Ok(_) => {
                &&& terminal matches Ok(reply)
                &&& reply == Some(ChannelReply::Success)
                &&& change matches Ok(none)
                &&& none is None
                &&& final(s).last_size.cols == cols % 65536
                &&& final(s).last_size.rows == rows % 65536
                &&& final(s).last_size.pixel_width == 0
                &&& final(s).last_size.pixel_height == 0
            },
            Err(e) => {
                &&& terminal matches Err(a)
                &&& a == e
                &&& change matches Err(b)
                &&& b == e
                &&& final(s).last_size == old(s).last_size
            },
        },
        final(t).last_size == final(s).last_size,
        final(s).buffer@ == old(s).buffer@,
        final(t).buffer@ == old(s).buffer@,
{
    assert(final(s)@.buffer == final(s).buffer@);
    assert(final(t)@.buffer == final(t).buffer@);
}

/// A relay address that names a port is taken as it is, and any other gets `:22`.
pub proof fn law_relay_address_keeps_host(relay: &str, r: String)
    requires
        call_ensures(relay_address, (relay,), r),
    ensures
        (exists|i: int| 0 <= i < relay@.len() && #[trigger] relay@[i] == ':') ==> r@ == relay@,
        (forall|i: int| 0 <= i < relay@.len() ==> #[trigger] relay@[i] != ':') ==> r@ == relay@
            + seq![':', '2', '2'],
{
    reveal_strlit(":22");
    assert(":22"@ =~= seq![':', '2', '2']);
    if exists|i: int| 0 <= i < relay@.len() && #[trigger] relay@[i] == ':' {
        let i = choose|i: int| 0 <= i < relay@.len() && #[trigger] relay@[i] == ':';
        assert(relay@.contains(':'));
    }
}

/// A host logs in as `host:` and its session ID, and shows the password that it was given, if any.
pub proof fn law_relay_login_names_session(id: &str, pass: Option<&str>, r: RelayLogin)
    requires
        call_ensures(relay_login, (id, pass), r),
    ensures
        r.user@ == seq!['h', 'o', 's', 't', ':'] + id@,
        r.password is Some <==> pass is Some,
        pass matches Some(given) ==> r.password->0@ == given@,
{
}

/// How a host that registers gets from one thing to do to the next. It opens a session only when its
/// login was accepted, fails only when it was rejected, asks for a shell only on an open session,
/// stays only once it has asked, and is done only when interrupted then. At every other event it goes
/// on with what it was doing.
pub proof fn law_registration_steps(s: &mut Registration, event: RegistrationEvent)
    requires
        call_ensures(Registration::handle, (s, event), ()),
    ensures
        *old(s) == Registration::LogIn && event == RegistrationEvent::LoginAnswered(true) ==> *final(s) == Registration::OpenSession,
        *old(s) == Registration::LogIn && event == RegistrationEvent::LoginAnswered(false)
            ==> *final(s) == Registration::Failed(RelayError::AuthRejected),
        *old(s) == Registration::OpenSession && event == RegistrationEvent::SessionOpened ==> *final(s) == Registration::RequestShell,
        *old(s) == Registration::RequestShell && event == RegistrationEvent::ShellRequested
            ==> *final(s) == Registration::Stay,
        *old(s) == Registration::Stay && event == RegistrationEvent::Interrupted ==> *final(s)
            == Registration::Done,
        *final(s) != *old(s) ==> {
            ||| *old(s) == Registration::LogIn && event is LoginAnswered
            ||| *old(s) == Registration::OpenSession && event is SessionOpened
            ||| *old(s) == Registration::RequestShell && event is ShellRequested
            ||| *old(s) == Registration::Stay && event is Interrupted
        },
{
}

/// Any numbers below 36 spell an ID.
pub proof fn law_picks_are_taken(picks: &Vec<usize>)
    requires
        forall|j: int| 0 <= j < picks@.len() ==> #[trigger] picks@[j] < 36,
    ensures
        call_requires(session_id_from, (picks,)),
{
}

} // verus!
