//! The relay: hosts register their sessions with it, and guests reach a host through it.
//!
//! `H` is the handle by which the relay reaches a host's connection, and `C` names a channel on it.
//! `S` is what holds the registered hosts for all connections. The relay only keeps these and hands
//! them back.

use crate::decimal::{append_decimal, decimal_text};
use crate::resize::{resize_escape, resize_sequence};
use crate::server::{host_user, is_session_id};
use crate::ssh::{accept_if, peer_name, text_of, Auth, ChannelReply};
use crate::text::{str_eq, strip_prefix};
use std::sync::Arc;
use vstd::hash_map::*;
use vstd::prelude::*;
use vstd::string::*;

verus! {

/// A registered host.
pub struct HostEntry<H> {
    pub handle: H,
}

/// The hosts that have registered, by session ID.
#[verifier::reject_recursive_types(H)]
pub struct RelayState<H> {
    pub hosts: StringHashMap<HostEntry<H>>,
}

/// Which end of a session a connection to the relay is.
#[derive(Clone, Copy, Debug, PartialEq, Eq, Structural)]
pub enum ConnectionRole {
    Unknown,
    Host,
    Guest,
}

/// The relay as it waits for connections.
pub struct RelayServer<S> {
    pub state: Arc<S>,
    pub pass: Option<String>,
}

/// One connection to the relay, with the relay's own handle to the registered hosts.
pub struct RelayHandler<H, C, S> {
    pub peer_addr: String,
    pub state: Arc<S>,
    pub pass: Option<String>,
    pub role: ConnectionRole,
    pub session_id: Option<String>,
    pub host_channel_info: Option<(H, C)>,
}

/// A way to authenticate.
pub enum AuthMethod {
    NoCredentials,
    Password(Seq<char>),
    PublicKey,
}

/// The channel that is to be opened on a host for a guest.
pub struct ForwardedChannel<'a, H> {
    pub host: &'a H,
    pub connected_address: &'static str,
    pub connected_port: u32,
    pub originator_address: String,
    pub originator_port: u32,
}

/// How to answer a request for a shell.
pub enum ShellStep<'a, H> {
    /// Answer at once.
    Reply(ChannelReply),
    /// Open a channel on the host first.
    Open(ForwardedChannel<'a, H>),
}

/// What marks the user name of a host.
pub open spec fn host_prefix() -> Seq<char> {
    seq!['h', 'o', 's', 't', ':']
}

/// A user name that begins with `host:` is a host's, any other is a guest's.
pub open spec fn role_of(user: Seq<char>) -> ConnectionRole {
    if host_prefix().is_prefix_of(user) {
        ConnectionRole::Host
    } else {
        ConnectionRole::Guest
    }
}

/// The session that a user name stands for: what follows `host:`, or all of a guest's name.
pub open spec fn session_of(user: Seq<char>) -> Seq<char> {
    if host_prefix().is_prefix_of(user) {
        user.skip(host_prefix().len() as int)
    } else {
        user
    }
}

/// Whether the relay lets `user` in. A host needs the relay's password, if there is one, and cannot
/// use a key. A guest gets in by any method, and only to a session whose host has registered.
pub open spec fn lets_in(
    pass: Option<Seq<char>>,
    hosts: Set<Seq<char>>,
    user: Seq<char>,
    method: AuthMethod,
) -> bool {
    if role_of(user) == ConnectionRole::Host {
        match method {
            AuthMethod::NoCredentials => pass is None,
            AuthMethod::Password(given) => pass is None || pass == Some(given),
            AuthMethod::PublicKey => false,
        }
    } else {
        hosts.contains(session_of(user))
    }
}

/// The registered hosts after a connection has opened a session channel: a host's session leads to
/// it from now on.
pub open spec fn registered<H>(
    hosts: Map<Seq<char>, HostEntry<H>>,
    role: ConnectionRole,
    session: Option<Seq<char>>,
    handle: H,
) -> Map<Seq<char>, HostEntry<H>> {
    match session {
        Some(id) => if role == ConnectionRole::Host {
            hosts.insert(id, HostEntry { handle })
        } else {
            hosts
        },
        None => hosts,
    }
}

/// The line that is printed when the relay starts.
pub fn startup_line(port: u16) -> (r: String)
    ensures
        r@ == "\x1b[1mromoto relay\x1b[0m listening on port "@ + decimal_text(port as nat),
{
    let mut line = "\x1b[1mromoto relay\x1b[0m listening on port ".to_owned();
    append_decimal(&mut line, port as u32);
    line
}

impl<H> RelayState<H> {
    /// No host has registered yet.
    pub fn new() -> (r: RelayState<H>)
        ensures
            r.hosts@ == Map::<Seq<char>, HostEntry<H>>::empty(),
    {
        RelayState { hosts: StringHashMap::new() }
    }
}

impl<S> RelayServer<S> {
    /// A handler for a connection from `peer`. All handlers have the same registered hosts: only the
    /// handle to them is passed on, and an `S` cannot be copied here.
    pub fn new_client<H, C>(&self, peer: Option<String>) -> (r: RelayHandler<H, C, S>)
        ensures
            r.state == self.state,
            r.peer_addr@ == match peer {
                Some(address) => address@,
                None => "unknown"@,
            },
            text_of(r.pass) == text_of(self.pass),
            r.role == ConnectionRole::Unknown,
            r.session_id is None,
            r.host_channel_info is None,
    {
        let pass = match &self.pass {
            Some(pass) => Some(pass.clone()),
            None => None,
        };
        RelayHandler {
            peer_addr: peer_name(peer),
            state: self.state.clone(),
            pass,
            role: ConnectionRole::Unknown,
            session_id: None,
            host_channel_info: None,
        }
    }
}

impl<H, C, S> RelayHandler<H, C, S> {
    /// Whether `next` is this connection once it has given the name `user`: role and session come
    /// from the name alone, and all else is as it was.
    pub open spec fn identified(self, next: RelayHandler<H, C, S>, user: Seq<char>) -> bool {
        &&& next.role == role_of(user)
        &&& text_of(next.session_id) == Some(session_of(user))
        &&& next.peer_addr == self.peer_addr
        &&& next.state == self.state
        &&& next.pass == self.pass
        &&& next.host_channel_info == self.host_channel_info
    }

    /// The session that this connection belongs to; the nameless one before it has given a name.
    pub open spec fn session(self) -> Seq<char> {
        match self.session_id {
            Some(id) => id@,
            None => Seq::empty(),
        }
    }

    /// Takes role and session from a user name.
    pub fn classify_user(&mut self, user: &str)
        ensures
            old(self).identified(*final(self), user@),
    {
        proof {
            reveal_strlit("host:");
            assert("host:"@ =~= host_prefix());
        }
        match strip_prefix(user, "host:") {
            Some(id) => {
                proof {
                    assert(user@.subrange(0, 5) =~= host_prefix());
                    assert(user@.skip(5) =~= id@);
                }
                self.role = ConnectionRole::Host;
                self.session_id = Some(id.to_owned());
            },
            None => {
                self.role = ConnectionRole::Guest;
                self.session_id = Some(user.to_owned());
            },
        }
    }

    /// Whether the host of this connection's session has registered.
    fn check_guest(&self, state: &RelayState<H>) -> (r: Auth)
        ensures
            r == accept_if(state.hosts@.contains_key(self.session())),
    {
        let found = match &self.session_id {
            Some(id) => state.hosts.contains_key(id.as_str()),
            None => {
                proof {
                    reveal_strlit("");
                    assert(""@ =~= Seq::<char>::empty());
                }
                state.hosts.contains_key("")
            },
        };
        if found {
            Auth::Accept
        } else {
            Auth::Reject
        }
    }

    /// An attempt to authenticate without credentials.
    pub fn auth_none(&mut self, user: &str, state: &RelayState<H>) -> (r: Auth)
        ensures
            old(self).identified(*final(self), user@),
            r == accept_if(
                lets_in(
                    text_of(old(self).pass),
                    state.hosts@.dom(),
                    user@,
                    AuthMethod::NoCredentials,
                ),
            ),
    {
        self.classify_user(user);
        match self.role {
            ConnectionRole::Host => if self.pass.is_some() {
                Auth::Reject
            } else {
                Auth::Accept
            },
            ConnectionRole::Guest => self.check_guest(state),
            ConnectionRole::Unknown => Auth::Reject,
        }
    }

    /// An attempt to authenticate with a password.
    pub fn auth_password(&mut self, user: &str, password: &str, state: &RelayState<H>) -> (r: Auth)
        ensures
            old(self).identified(*final(self), user@),
            r == accept_if(
                lets_in(
                    text_of(old(self).pass),
                    state.hosts@.dom(),
                    user@,
                    AuthMethod::Password(password@),
                ),
            ),
    {
        self.classify_user(user);
        match self.role {
            ConnectionRole::Host => match &self.pass {
                Some(expected) => if str_eq(password, expected.as_str()) {
                    Auth::Accept
                } else {
                    Auth::Reject
                },
                None => Auth::Accept,
            },
            ConnectionRole::Guest => self.check_guest(state),
            ConnectionRole::Unknown => Auth::Reject,
        }
    }

    /// An attempt to authenticate with a key. Which key it is makes no difference.
    pub fn auth_publickey(&mut self, user: &str, state: &RelayState<H>) -> (r: Auth)
        ensures
            old(self).identified(*final(self), user@),
            r == accept_if(
                lets_in(
                    text_of(old(self).pass),
                    state.hosts@.dom(),
                    user@,
                    AuthMethod::PublicKey,
                ),
            ),
    {
        self.classify_user(user);
        match self.role {
            ConnectionRole::Guest => self.check_guest(state),
            _ => Auth::Reject,
        }
    }

    /// A session channel is opened, which every connection may do. A host registers by it: `handle`
    /// is the way to reach it.
    pub fn channel_open_session(&self, state: &mut RelayState<H>, handle: H) -> (r: bool)
        ensures
            r,
            final(state).hosts@ == registered(
                old(state).hosts@,
                self.role,
                text_of(self.session_id),
                handle,
            ),
    {
        match self.role {
            ConnectionRole::Host => {
                if let Some(id) = &self.session_id {
                    state.hosts.insert(id.clone(), HostEntry { handle });
                }
            },
            _ => {},
        }
        true
    }

    /// A shell is asked for. A host has what it needs and is told so. For a guest a channel is to
    /// be opened on the host of its session, and the request fails where no host has registered.
    pub fn shell_request<'a>(&self, state: &'a RelayState<H>) -> (r: ShellStep<'a, H>)
        ensures
            if self.role == ConnectionRole::Host {
                r == ShellStep::<H>::Reply(ChannelReply::Success)
            } else if !state.hosts@.contains_key(self.session()) {
                r == ShellStep::<H>::Reply(ChannelReply::Failure)
            } else {
                &&& r matches ShellStep::Open(channel)
                &&& *channel.host == state.hosts@[self.session()].handle
                &&& channel.connected_address@ == "relay"@
                &&& channel.connected_port == 0
                &&& channel.originator_address@ == self.peer_addr@
                &&& channel.originator_port == 0
            },
    {
        if let ConnectionRole::Host = self.role {
            return ShellStep::Reply(ChannelReply::Success);
        }
        let id = match &self.session_id {
            Some(id) => id.clone(),
            None => String::new(),
        };
        match state.hosts.get(id.as_str()) {
            Some(entry) => ShellStep::Open(
                ForwardedChannel {
                    host: &entry.handle,
                    connected_address: "relay",
                    connected_port: 0,
                    originator_address: self.peer_addr.clone(),
                    originator_port: 0,
                },
            ),
            None => ShellStep::Reply(ChannelReply::Failure),
        }
    }

    /// The attempt to open a channel on the host has ended: with the host and its new channel, to
    /// which the guest is tied from now on, or with nothing, and then nothing changes.
    pub fn channel_opened(&mut self, opened: Option<(H, C)>) -> (r: ChannelReply)
        ensures
            r == (if opened is Some {
                ChannelReply::Success
            } else {
                ChannelReply::Failure
            }),
            final(self).host_channel_info == (if opened is Some {
                opened
            } else {
                old(self).host_channel_info
            }),
            final(self).role == old(self).role,
            final(self).session_id == old(self).session_id,
            final(self).peer_addr == old(self).peer_addr,
            final(self).state == old(self).state,
            final(self).pass == old(self).pass,
    {
        match opened {
            Some(info) => {
                self.host_channel_info = Some(info);
                ChannelReply::Success
            },
            None => ChannelReply::Failure,
        }
    }

    /// The window at this end has a new size. A connection that is tied to a host's channel
    /// announces it there.
    pub fn window_change_request(&self, cols: u32, rows: u32) -> (r: Option<(&(H, C), Vec<u8>)>)
        ensures
            match self.host_channel_info {
                Some(info) => {
                    &&& r matches Some((to, bytes))
                    &&& *to == info
                    &&& bytes@ == resize_sequence(cols as nat, rows as nat)
                },
                None => r is None,
            },
    {
        match &self.host_channel_info {
            Some(info) => Some((info, resize_escape(cols, rows))),
            None => None,
        }
    }

    /// Bytes have come in. A guest's go unchanged to the channel that it is tied to, and any others
    /// go nowhere.
    pub fn data(&self, data: &[u8]) -> (r: Option<(&(H, C), Vec<u8>)>)
        ensures
            match self.host_channel_info {
                Some(info) => if self.role == ConnectionRole::Guest {
                    &&& r matches Some((to, bytes))
                    &&& *to == info
                    &&& bytes@ == data@
                } else {
                    r is None
                },
                None => r is None,
            },
    {
        match self.role {
            ConnectionRole::Guest => match &self.host_channel_info {
                Some(info) => Some((info, vstd::slice::slice_to_vec(data))),
                None => None,
            },
            _ => None,
        }
    }
}

/// The relay recognises a host by the name under which the host logs in, and files it under the
/// host's own session ID, whatever that is.
pub proof fn law_host_is_recognised(id: Seq<char>)
    ensures
        role_of(host_user(id)) == ConnectionRole::Host,
        session_of(host_user(id)) == id,
{
    assert(host_user(id).subrange(0, 5) =~= host_prefix());
    assert(host_user(id).skip(5) =~= id);
}

/// A session ID is never taken for the name of a host: whoever gives it as a user name is a guest
/// of that session.
pub proof fn law_session_id_names_guest(id: Seq<char>)
    requires
        is_session_id(id),
    ensures
        role_of(id) == ConnectionRole::Guest,
        session_of(id) == id,
{
    if host_prefix().is_prefix_of(id) {
        assert(id[4] == id.subrange(0, 5)[4]);
        assert(host_prefix()[4] == ':');
    }
}

/// A host that logs in with what it was given gets in exactly if the relay asks for no password or
/// for the one that the host was given.
pub proof fn law_host_login(
    relay_pass: Option<Seq<char>>,
    host_pass: Option<Seq<char>>,
    hosts: Set<Seq<char>>,
    id: Seq<char>,
)
    ensures
        lets_in(
            relay_pass,
            hosts,
            host_user(id),
            match host_pass {
                Some(given) => AuthMethod::Password(given),
                None => AuthMethod::NoCredentials,
            },
        ) <==> relay_pass is None || relay_pass == host_pass,
{
    law_host_is_recognised(id);
}

/// Once the host of a session has registered, the session ID lets guests in by every method, and
/// it leads them to that host.
pub proof fn law_registered_session_is_open<H>(
    pass: Option<Seq<char>>,
    hosts: Map<Seq<char>, HostEntry<H>>,
    id: Seq<char>,
    handle: H,
    method: AuthMethod,
)
    requires
        is_session_id(id),
    ensures
        ({
            let now = registered(
                hosts,
                role_of(host_user(id)),
                Some(session_of(host_user(id))),
                handle,
            );
            &&& lets_in(pass, now.dom(), id, method)
            &&& now.contains_key(session_of(id))
            &&& now[session_of(id)].handle == handle
        }),
{
    law_host_is_recognised(id);
    law_session_id_names_guest(id);
}

/// A guest of a session whose host has not registered is turned away, whatever it shows.
pub proof fn law_unknown_session_is_closed(
    pass: Option<Seq<char>>,
    hosts: Set<Seq<char>>,
    user: Seq<char>,
    method: AuthMethod,
)
    requires
        role_of(user) == ConnectionRole::Guest,
        !hosts.contains(session_of(user)),
    ensures
        !lets_in(pass, hosts, user, method),
{
}

/// A session channel that a connection has opened.
pub struct SessionOpened<H> {
    pub role: ConnectionRole,
    pub session: Option<Seq<char>>,
    pub handle: H,
}

/// The registered hosts after all of `opened`, from none.
pub open spec fn registered_by<H>(opened: Seq<SessionOpened<H>>) -> Map<Seq<char>, HostEntry<H>>
    decreases opened.len(),
{
    if opened.len() == 0 {
        Map::empty()
    } else {
        let last = opened.last();
        registered(registered_by(opened.drop_last()), last.role, last.session, last.handle)
    }
}

/// Whether the `i`-th of `opened` registers session `id`.
pub open spec fn registers<H>(opened: Seq<SessionOpened<H>>, i: int, id: Seq<char>) -> bool {
    &&& 0 <= i < opened.len()
    &&& opened[i].role == ConnectionRole::Host
    &&& opened[i].session == Some(id)
}

/// The sessions that are open to guests are exactly those for which a host has registered at some
/// time: nothing else opens a session, and a registration is never lost.
pub proof fn law_open_sessions<H>(opened: Seq<SessionOpened<H>>, id: Seq<char>)
    ensures
        registered_by(opened).contains_key(id) <==> exists|i: int| registers(opened, i, id),
    decreases opened.len(),
{
    if opened.len() > 0 {
        let before = opened.drop_last();
        let n = before.len() as int;
        law_open_sessions(before, id);
        if registers(opened, n, id) {
            assert(registered_by(opened).contains_key(id));
        } else if registered_by(before).contains_key(id) {
            let k = choose|k: int| registers(before, k, id);
            assert(registers(opened, k, id));
        } else if exists|i: int| registers(opened, i, id) {
            let k = choose|k: int| registers(opened, k, id);
            assert(registers(before, k, id));
        }
    }
}

/// The latest registration for a session says where the session leads, and no other connection
/// changes that.
pub proof fn law_latest_registration<H>(
    opened: Seq<SessionOpened<H>>,
    last: SessionOpened<H>,
    id: Seq<char>,
)
    ensures
        last.role == ConnectionRole::Host && last.session == Some(id) ==> registered_by(
            opened.push(last),
        )[id].handle == last.handle,
        last.role != ConnectionRole::Host || last.session != Some(id) ==> registered_by(
            opened.push(last),
        )[id] == registered_by(opened)[id],
{
    assert(opened.push(last).drop_last() =~= opened);
}

/// What a user name with `host:` before it and one without it stand for.
proof fn lemma_names(user: Seq<char>)
    ensures
        user.len() >= 5 && user.take(5) == seq!['h', 'o', 's', 't', ':'] ==> role_of(user)
            == ConnectionRole::Host && session_of(user) == user.skip(5),
        user.len() < 5 || user.take(5) != seq!['h', 'o', 's', 't', ':'] ==> role_of(user)
            == ConnectionRole::Guest && session_of(user) == user,
{
    if user.len() >= 5 {
        assert(user.subrange(0, 5) =~= user.take(5));
        assert(host_prefix() =~= seq!['h', 'o', 's', 't', ':']);
    }
}

/// The line at the start tells the port that the relay listens on.
pub proof fn law_relay_line_names_port(port: u16, text: &mut String, r: String)
    requires
        call_ensures(startup_line, (port,), r),
        call_ensures(append_decimal, (text, port as u32), ()),
        old(text)@.len() == 0,
    ensures
        r@ == "\x1b[1mromoto relay\x1b[0m listening on port "@ + final(text)@,
{
    assert(final(text)@ =~= decimal_text(port as nat));
}

/// A connection starts without role, session or host, with the relay's password and its registered
/// hosts, and nobody has registered with a new relay.
pub proof fn law_connections_start_unknown<H, C, S>(
    server: &RelayServer<S>,
    peer: Option<String>,
    r: RelayHandler<H, C, S>,
    state: RelayState<H>,
    id: Seq<char>,
)
    requires
        call_ensures(RelayServer::<S>::new_client::<H, C>, (server, peer), r),
        call_ensures(RelayState::<H>::new, (), state),
    ensures
        r.role == ConnectionRole::Unknown && r.session_id is None && r.host_channel_info is None,
        r.state == server.state,
        r.pass is Some <==> server.pass is Some,
        server.pass matches Some(pass) ==> r.pass->0@ == pass@,
        peer matches Some(address) ==> r.peer_addr@ == address@,
        peer is None ==> r.peer_addr@ == "unknown"@,
        !state.hosts@.contains_key(id),
{
}

/// A name that begins with `host:` makes a connection the host of the session that follows, and any
/// other name makes it a guest of the session of that name. Nothing else about it changes.
pub proof fn law_name_decides_role<H, C, S>(h: &mut RelayHandler<H, C, S>, user: &str)
    requires
        call_ensures(RelayHandler::<H, C, S>::classify_user, (h, user), ()),
    ensures
        ({
            let host = user@.len() >= 5 && user@.take(5) == seq!['h', 'o', 's', 't', ':'];
            &&& final(h).session_id is Some
            &&& host ==> final(h).role == ConnectionRole::Host && final(h).session_id->0@
                == user@.skip(5)
            &&& !host ==> final(h).role == ConnectionRole::Guest && final(h).session_id->0@ == user@
        }),
        final(h).peer_addr == old(h).peer_addr,
        final(h).state == old(h).state,
        final(h).pass == old(h).pass,
        final(h).host_channel_info == old(h).host_channel_info,
{
    lemma_names(user@);
}

/// Who gets in. A host without credentials needs a relay without a password, a host with a password
/// needs the relay's or a relay without one, and a host with a key never gets in. A guest gets in, by
/// every method, exactly if the name that it gives is that of a registered session.
pub proof fn law_who_gets_in<H, C, S>(
    a: &mut RelayHandler<H, C, S>,
    b: &mut RelayHandler<H, C, S>,
    c: &mut RelayHandler<H, C, S>,
    user: &str,
    password: &str,
    state: &RelayState<H>,
    by_none: Auth,
    by_password: Auth,
    by_key: Auth,
)
    requires
        call_ensures(RelayHandler::<H, C, S>::auth_none, (a, user, state), by_none),
        call_ensures(
            RelayHandler::<H, C, S>::auth_password,
            (b, user, password, state),
            by_password,
        ),
        call_ensures(RelayHandler::<H, C, S>::auth_publickey, (c, user, state), by_key),
    ensures
        ({
            let host = user@.len() >= 5 && user@.take(5) == seq!['h', 'o', 's', 't', ':'];
            &&& host ==> (by_none == Auth::Accept <==> old(a).pass is None)
            &&& host ==> (by_password == Auth::Accept <==> old(b).pass is None || old(b).pass->0@
                == password@)
            &&& host ==> by_key == Auth::Reject
            &&& !host ==> (by_none == Auth::Accept <==> state.hosts@.contains_key(user@))
            &&& !host ==> (by_password == Auth::Accept <==> state.hosts@.contains_key(user@))
            &&& !host ==> (by_key == Auth::Accept <==> state.hosts@.contains_key(user@))
        }),
{
    lemma_names(user@);
}

/// Logging in takes role and session from the name as told above, by every method and whether or not
/// the user gets in. Nothing else about the connection changes.
pub proof fn law_login_identifies<H, C, S>(
    a: &mut RelayHandler<H, C, S>,
    b: &mut RelayHandler<H, C, S>,
    c: &mut RelayHandler<H, C, S>,
    d: &mut RelayHandler<H, C, S>,
    user: &str,
    password: &str,
    state: &RelayState<H>,
    by_none: Auth,
    by_password: Auth,
    by_key: Auth,
)
    requires
        call_ensures(RelayHandler::<H, C, S>::auth_none, (a, user, state), by_none),
        call_ensures(
            RelayHandler::<H, C, S>::auth_password,
            (b, user, password, state),
            by_password,
        ),
        call_ensures(RelayHandler::<H, C, S>::auth_publickey, (c, user, state), by_key),
        call_ensures(RelayHandler::<H, C, S>::classify_user, (d, user), ()),
    ensures
        final(a).role == final(d).role && final(b).role == final(d).role && final(c).role == final(d).role,
        final(a).session_id is Some && final(b).session_id is Some && final(c).session_id is Some,
        final(a).session_id->0@ == final(d).session_id->0@,
        final(b).session_id->0@ == final(d).session_id->0@,
        final(c).session_id->0@ == final(d).session_id->0@,
        final(a).peer_addr == old(a).peer_addr && final(a).pass == old(a).pass && final(a).state
            == old(a).state && final(a).host_channel_info == old(a).host_channel_info,
        final(b).peer_addr == old(b).peer_addr && final(b).pass == old(b).pass && final(b).state
            == old(b).state && final(b).host_channel_info == old(b).host_channel_info,
        final(c).peer_addr == old(c).peer_addr && final(c).pass == old(c).pass && final(c).state
            == old(c).state && final(c).host_channel_info == old(c).host_channel_info,
{
}

/// A host that opens a session channel is registered under its session, in place of whoever was, and
/// every other session is as it was. A guest's channel, or one of a connection without a name,
/// changes nothing. All of them may open one.
pub proof fn law_only_hosts_register<H, C, S>(
    h: &RelayHandler<H, C, S>,
    state: &mut RelayState<H>,
    handle: H,
    r: bool,
    other: Seq<char>,
)
    requires
        call_ensures(RelayHandler::<H, C, S>::channel_open_session, (h, state, handle), r),
    ensures
        r,
        h.role == ConnectionRole::Host && h.session_id is Some ==> {
            &&& final(state).hosts@.contains_key(h.session_id->0@)
            &&& final(state).hosts@[h.session_id->0@].handle == handle
        },
        h.role != ConnectionRole::Host || h.session_id is None || other != h.session_id->0@ ==> {
            &&& final(state).hosts@.contains_key(other) == old(state).hosts@.contains_key(other)
            &&& final(state).hosts@[other] == old(state).hosts@[other]
        },
{
}

/// A shell for a host needs no channel. For any other connection a channel is opened on the host that
/// is registered for its session, on behalf of its own address, and the request fails exactly where
/// there is none. The password of the relay plays no part.
pub proof fn law_shell_leads_to_host_of_session<'a, H, C, S>(
    h: &RelayHandler<H, C, S>,
    state: &'a RelayState<H>,
    r: ShellStep<'a, H>,
)
    requires
        call_ensures(RelayHandler::<H, C, S>::shell_request, (h, state), r),
        h.session_id is Some,
    ensures
        ({
            let id = h.session_id->0@;
            if h.role == ConnectionRole::Host {
                r == ShellStep::<H>::Reply(ChannelReply::Success)
            } else if !state.hosts@.contains_key(id) {
                r == ShellStep::<H>::Reply(ChannelReply::Failure)
            } else {
                &&& r matches ShellStep::Open(channel)
                &&& *channel.host == state.hosts@[id].handle
                &&& channel.connected_address@ == seq!['r', 'e', 'l', 'a', 'y']
                &&& channel.connected_port == 0
                &&& channel.originator_address@ == h.peer_addr@
                &&& channel.originator_port == 0
            }
        }),
{
    reveal_strlit("relay");
    assert("relay"@ =~= seq!['r', 'e', 'l', 'a', 'y']);
}

/// A guest that was let in reaches its host: whatever the relay's password, the shell that it asks
/// for leads to the handle that is registered under the name that it gave.
pub proof fn law_admitted_guest_reaches_host<'a, H, C, S>(
    h: &mut RelayHandler<H, C, S>,
    user: &str,
    state: &'a RelayState<H>,
    after: &RelayHandler<H, C, S>,
    r: ShellStep<'a, H>,
)
    requires
        call_ensures(RelayHandler::<H, C, S>::auth_none, (h, user, state), Auth::Accept),
        call_ensures(RelayHandler::<H, C, S>::shell_request, (after, state), r),
        *after == *final(h),
        user@.len() < 5 || user@.take(5) != seq!['h', 'o', 's', 't', ':'],
    ensures
        state.hosts@.contains_key(user@),
        r matches ShellStep::Open(channel) && *channel.host == state.hosts@[user@].handle
            && channel.originator_address@ == old(h).peer_addr@,
{
    lemma_names(user@);
    law_shell_leads_to_host_of_session(after, state, r);
}

/// A guest that gives the ID under which a host registered is led to that host.
pub proof fn law_guest_reaches_registered_host<'a, H, C, S>(
    host: &RelayHandler<H, C, S>,
    state: &mut RelayState<H>,
    handle: H,
    opened: bool,
    now: &'a RelayState<H>,
    guest: &RelayHandler<H, C, S>,
    r: ShellStep<'a, H>,
)
    requires
        call_ensures(RelayHandler::<H, C, S>::channel_open_session, (host, state, handle), opened),
        call_ensures(RelayHandler::<H, C, S>::shell_request, (guest, now), r),
        *now == *final(state),
        host.role == ConnectionRole::Host,
        guest.role == ConnectionRole::Guest,
        host.session_id is Some,
        guest.session_id is Some,
        guest.session_id->0@ == host.session_id->0@,
    ensures
        r matches ShellStep::Open(channel) && *channel.host == handle,
{
    law_only_hosts_register(host, state, handle, opened, Seq::empty());
    law_shell_leads_to_host_of_session(guest, now, r);
}

/// Once a channel on the host is open, the guest's bytes go there unchanged and so do the sizes of
/// its window, and the request has succeeded. If none could be opened, the request has failed and
/// everything goes where it went before. Bytes of anyone but a guest go nowhere.
pub proof fn law_guest_is_tied_to_channel<H, C, S>(
    h: &mut RelayHandler<H, C, S>,
    opened: Option<(H, C)>,
    reply: ChannelReply,
    after: &RelayHandler<H, C, S>,
    data: &[u8],
    sent: Option<(&(H, C), Vec<u8>)>,
    cols: u32,
    rows: u32,
    escape: Vec<u8>,
    announced: Option<(&(H, C), Vec<u8>)>,
)
    requires
        call_ensures(RelayHandler::<H, C, S>::channel_opened, (h, opened), reply),
        call_ensures(RelayHandler::<H, C, S>::data, (after, data), sent),
        call_ensures(RelayHandler::<H, C, S>::window_change_request, (after, cols, rows), announced),
        call_ensures(resize_escape, (cols, rows), escape),
        *after == *final(h),
    ensures
        reply == ChannelReply::Success <==> opened is Some,
        final(h).role == old(h).role,
        final(h).session_id == old(h).session_id,
        ({
            let target = if opened is Some {
                opened
            } else {
                old(h).host_channel_info
            };
            match target {
                Some(to) => {
                    &&& announced matches Some((at, bytes))
                    &&& *at == to
                    &&& bytes@ == escape@
                    &&& if old(h).role == ConnectionRole::Guest {
                        &&& sent matches Some((there, keys))
                        &&& *there == to
                        &&& keys@ == data@
                    } else {
                        sent is None
                    }
                },
                None => sent is None && announced is None,
            }
        }),
{
}

} // verus!
