//! The terminal session that clients share: the output that a newcomer is shown, and the size of
//! the terminal.

use crate::resize::{
    announced_size, law_no_prefix_no_size, law_resize_round_trip, parse_resize_escape,
    resize_sequence,
};
use crate::ssh::ChannelReply;
use vstd::prelude::*;

verus! {

/// How many bytes of output are kept for clients that join later.
pub const BUFFER_LIMIT: usize = 65536;

/// The size of a terminal. The pixel sizes are not known and stay 0.
#[derive(Clone, Copy, Debug, PartialEq, Eq, Structural)]
pub struct PtySize {
    pub rows: u16,
    pub cols: u16,
    pub pixel_width: u16,
    pub pixel_height: u16,
}

/// What the clients of a session share: the latest output since the command was started, and the
/// size that a client last asked for.
pub struct SharedState {
    pub buffer: Vec<u8>,
    pub last_size: PtySize,
}

/// What bytes from a guest behind the relay mean.
pub enum GuestInput {
    /// The terminal is to take this size.
    Resize(PtySize),
    /// These bytes go to the command.
    Keys(Vec<u8>),
}

/// What is left to do after the command was started again.
pub struct Restart {
    /// The size that the new terminal is to take.
    pub size: PtySize,
    /// What every client is sent.
    pub broadcast: Vec<u8>,
}

/// A size in columns and rows.
pub open spec fn cells(cols: u16, rows: u16) -> PtySize {
    PtySize { rows, cols, pixel_width: 0, pixel_height: 0 }
}

/// The last `n` items of `s`, or all of them if there are fewer.
pub open spec fn trailing(s: Seq<u8>, n: nat) -> Seq<u8> {
    if s.len() <= n {
        s
    } else {
        s.skip(s.len() - n)
    }
}

/// What is kept of `buffer` and then `data`.
pub open spec fn recorded(buffer: Seq<u8>, data: Seq<u8>) -> Seq<u8> {
    trailing(buffer + data, BUFFER_LIMIT as nat)
}

/// What can happen to a session: the command wrote output, it was started again, a client's request
/// for a size was carried out or failed, a guest behind the relay sent bytes.
pub enum SessionEvent {
    Output(Seq<u8>),
    Restarted,
    ClientResize(PtySize, bool),
    GuestInput(Seq<u8>),
}

/// The state of a session: the output that is kept, and the size.
pub struct SessionView {
    pub buffer: Seq<u8>,
    pub size: PtySize,
}

impl SessionView {
    /// The state as the command is first started.
    pub open spec fn initial() -> SessionView {
        SessionView { buffer: Seq::empty(), size: cells(80, 24) }
    }

    /// The state after `event`. Output is kept up to the limit and forgotten at a restart. The size
    /// is the last one that a client obtained or a guest announced.
    pub open spec fn after(self, event: SessionEvent) -> SessionView {
        match event {
            SessionEvent::Output(data) => SessionView {
                buffer: recorded(self.buffer, data),
                ..self
            },
            SessionEvent::Restarted => SessionView { buffer: Seq::empty(), ..self },
            SessionEvent::ClientResize(size, applied) => if applied {
                SessionView { size, ..self }
            } else {
                self
            },
            SessionEvent::GuestInput(data) => match announced_size(data) {
                Some((cols, rows)) => SessionView { size: cells(cols, rows), ..self },
                None => self,
            },
        }
    }

    /// The state after each of `events` in turn.
    pub open spec fn after_all(self, events: Seq<SessionEvent>) -> SessionView
        decreases events.len(),
    {
        if events.len() == 0 {
            self
        } else {
            self.after_all(events.drop_last()).after(events.last())
        }
    }
}

/// All output of the command since it was last started.
pub open spec fn output_of_run(events: Seq<SessionEvent>) -> Seq<u8>
    decreases events.len(),
{
    if events.len() == 0 {
        Seq::empty()
    } else {
        let before = output_of_run(events.drop_last());
        match events.last() {
            SessionEvent::Output(data) => before + data,
            SessionEvent::Restarted => Seq::empty(),
            _ => before,
        }
    }
}

/// `ESC [ 2 J ESC [ H`: clears a screen and puts the cursor in its corner.
pub open spec fn clear_screen() -> Seq<u8> {
    seq![0x1bu8, 91, 50, 74, 0x1b, 91, 72]
}

/// The size that a client asks for with the 32-bit numbers of an SSH request: the terminal takes
/// the low 16 bits of each.
pub open spec fn requested(cols: u32, rows: u32) -> PtySize {
    cells((cols % 0x10000) as u16, (rows % 0x10000) as u16)
}

/// The requests by which a client asks for a size.
pub enum SizeRequest {
    /// The request for a terminal.
    Terminal,
    /// The report that the client's window has changed.
    WindowChange,
}

impl SizeRequest {
    /// What the client is answered once the terminal took the size: only the request for a terminal
    /// has an answer.
    pub open spec fn answer(self) -> Option<ChannelReply> {
        match self {
            SizeRequest::Terminal => Some(ChannelReply::Success),
            SizeRequest::WindowChange => None,
        }
    }

    /// Whether this request for `cols` and `rows` leads from `before` to `after` and has the result
    /// `r`, where `resized` is how the attempt to resize the terminal ended. A size that the
    /// terminal took is remembered and the request is answered. Otherwise nothing changes, and the
    /// result is the error.
    pub open spec fn served<E>(
        self,
        before: SessionView,
        after: SessionView,
        cols: u32,
        rows: u32,
        resized: Result<(), E>,
        r: Result<Option<ChannelReply>, E>,
    ) -> bool {
        &&& after == before.after(
            SessionEvent::ClientResize(requested(cols, rows), resized is Ok),
        )
        &&& match resized {
            Ok(_) => r == Ok::<Option<ChannelReply>, E>(self.answer()),
            Err(e) => r == Err::<Option<ChannelReply>, E>(e),
        }
    }
}

/// The size that a terminal is opened with: 24 rows of 80 columns.
pub fn initial_size() -> (r: PtySize)
    ensures
        r == cells(80, 24),
{
    PtySize { rows: 24, cols: 80, pixel_width: 0, pixel_height: 0 }
}

/// The terminal size in a client's request.
pub fn requested_size(cols: u32, rows: u32) -> (r: PtySize)
    ensures
        r == requested(cols, rows),
{
    assert(cols as u16 == cols % 0x10000) by (bit_vector);
    assert(rows as u16 == rows % 0x10000) by (bit_vector);
    PtySize {
        rows: #[verifier::truncate] (rows as u16),
        cols: #[verifier::truncate] (cols as u16),
        pixel_width: 0,
        pixel_height: 0,
    }
}

impl View for SharedState {
    type V = SessionView;

    open spec fn view(&self) -> SessionView {
        SessionView { buffer: self.buffer@, size: self.last_size }
    }
}

impl SharedState {
    /// No more output is kept than the limit allows.
    pub open spec fn wf(self) -> bool {
        self.buffer.len() <= BUFFER_LIMIT
    }

    /// The state as the command is first started.
    pub fn new() -> (r: SharedState)
        ensures
            r.wf(),
            r@ == SessionView::initial(),
    {
        SharedState { buffer: Vec::new(), last_size: initial_size() }
    }

    /// Keeps output of the command, and forgets the oldest of what is beyond the limit.
    pub fn record_output(&mut self, data: &[u8])
        ensures
            final(self).wf(),
            final(self)@ == old(self)@.after(SessionEvent::Output(data@)),
            final(self).last_size == old(self).last_size,
    {
        self.buffer.extend_from_slice(data);
        assert(self.buffer@ =~= old(self).buffer@ + data@);
        if self.buffer.len() > BUFFER_LIMIT {
            let excess: usize = self.buffer.len() - BUFFER_LIMIT;
            let kept = self.buffer.split_off(excess);
            self.buffer = kept;
            assert(self.buffer@ =~= recorded(old(self).buffer@, data@));
        }
    }

    /// What a client that joins is sent first: the output that was kept, if there is any.
    pub fn replay(&self) -> (r: Option<Vec<u8>>)
        ensures
            r is None <==> self@.buffer.len() == 0,
            r is Some ==> r->0@ == self@.buffer,
    {
        if self.buffer.is_empty() {
            None
        } else {
            Some(vstd::slice::slice_to_vec(self.buffer.as_slice()))
        }
    }

    /// The command has ended and was started again in a new terminal: earlier output is forgotten,
    /// the new terminal takes the last known size, and the clients' screens are cleared.
    pub fn restart(&mut self) -> (r: Restart)
        ensures
            final(self).wf(),
            final(self)@ == old(self)@.after(SessionEvent::Restarted),
            r.size == old(self)@.size,
            r.broadcast@ == clear_screen(),
    {
        self.buffer.clear();
        let broadcast: Vec<u8> = vec![0x1b, 91, 50, 74, 0x1b, 91, 72];
        assert(broadcast@ =~= clear_screen());
        Restart { size: self.last_size, broadcast }
    }

    /// A client of the session host asked for `size`, and the terminal took it or (`applied` is
    /// false) did not. Only a size that the terminal took is remembered.
    pub fn client_resize(&mut self, size: PtySize, applied: bool)
        ensures
            old(self).wf() ==> final(self).wf(),
            final(self)@ == old(self)@.after(SessionEvent::ClientResize(size, applied)),
    {
        if applied {
            self.last_size = size;
        }
    }

    /// Sorts out what a guest behind the relay sent. A resize sequence sets the size, whether or
    /// not the terminal can take it; anything else is meant for the command, byte for byte.
    pub fn guest_input(&mut self, data: &[u8]) -> (r: GuestInput)
        ensures
            old(self).wf() ==> final(self).wf(),
            final(self)@ == old(self)@.after(SessionEvent::GuestInput(data@)),
            match announced_size(data@) {
                Some((cols, rows)) => r == GuestInput::Resize(cells(cols, rows)),
                None => r matches GuestInput::Keys(keys) && keys@ == data@,
            },
    {
        match parse_resize_escape(data) {
            Some((cols, rows)) => {
                let size = PtySize { rows, cols, pixel_width: 0, pixel_height: 0 };
                self.last_size = size;
                GuestInput::Resize(size)
            },
            None => GuestInput::Keys(vstd::slice::slice_to_vec(data)),
        }
    }
}

/// Output may be recorded in one piece or in two: the same is kept.
pub proof fn law_record_in_pieces(buffer: Seq<u8>, first: Seq<u8>, second: Seq<u8>)
    ensures
        recorded(recorded(buffer, first), second) == recorded(buffer, first + second),
{
    assert(buffer + (first + second) =~= buffer + first + second);
    assert(recorded(recorded(buffer, first), second) =~= recorded(buffer, first + second));
}

/// Whatever has happened in a session, a client that joins is shown the latest output of the
/// running command and nothing of an earlier run: the buffer is the end of the output since the
/// last start, up to the limit.
pub proof fn law_buffer_is_latest_output(events: Seq<SessionEvent>)
    ensures
        SessionView::initial().after_all(events).buffer == trailing(
            output_of_run(events),
            BUFFER_LIMIT as nat,
        ),
        SessionView::initial().after_all(events).buffer.len() <= BUFFER_LIMIT,
    decreases events.len(),
{
    if events.len() > 0 {
        let before = events.drop_last();
        law_buffer_is_latest_output(before);
        let empty = Seq::<u8>::empty();
        if let SessionEvent::Output(data) = events.last() {
            law_record_in_pieces(empty, output_of_run(before), data);
            assert(empty + output_of_run(before) =~= output_of_run(before));
            assert(empty + (output_of_run(before) + data) =~= output_of_run(before) + data);
        }
    }
}

/// A restart leaves the size as it was, so the new terminal is as large as the last client wanted
/// the old one.
pub proof fn law_restart_keeps_size(state: SessionView)
    ensures
        state.after(SessionEvent::Restarted).size == state.size,
        state.after(SessionEvent::Restarted).buffer.len() == 0,
{
}

/// A change of the window does to the session what a request for a terminal of that size does, and
/// succeeds or fails as that does, but it is never answered.
pub proof fn law_window_change_acts_as_terminal_request<E>(
    before: SessionView,
    after_terminal: SessionView,
    after_change: SessionView,
    cols: u32,
    rows: u32,
    resized: Result<(), E>,
    terminal: Result<Option<ChannelReply>, E>,
    change: Result<Option<ChannelReply>, E>,
)
    requires
        SizeRequest::Terminal.served(before, after_terminal, cols, rows, resized, terminal),
        SizeRequest::WindowChange.served(before, after_change, cols, rows, resized, change),
    ensures
        after_change == after_terminal,
        after_change.buffer == before.buffer,
        after_change.size == (if resized is Ok {
            requested(cols, rows)
        } else {
            before.size
        }),
        change is Ok <==> resized is Ok,
        terminal is Ok <==> resized is Ok,
        resized matches Err(e) ==> change == Err::<Option<ChannelReply>, E>(e) && terminal == Err::<
            Option<ChannelReply>,
            E,
        >(e),
        change matches Ok(reply) ==> reply is None,
        terminal matches Ok(reply) ==> reply == Some(ChannelReply::Success),
{
}

/// A window size that fits a terminal means the same to the session whether its client connects
/// directly or through the relay.
pub proof fn law_direct_and_relayed_sizes_agree(cols: u32, rows: u32)
    requires
        cols <= u16::MAX,
        rows <= u16::MAX,
    ensures
        announced_size(resize_sequence(cols as nat, rows as nat)) == Some(
            (requested(cols, rows).cols, requested(cols, rows).rows),
        ),
        requested(cols, rows) == cells(cols as u16, rows as u16),
{
    law_resize_round_trip(cols as nat, rows as nat);
}

/// What is kept after output is the end of what was kept before and the new output together: 65536
/// bytes of it, or all if there are fewer, byte for byte. The size stays.
pub proof fn law_record_keeps_the_end(s: &mut SharedState, data: &[u8])
    requires
        call_ensures(SharedState::record_output, (s, data), ()),
    ensures
        ({
            let all = old(s).buffer@ + data@;
            let kept = final(s).buffer@;
            &&& kept.len() == (if all.len() <= 65536 {
                all.len()
            } else {
                65536
            })
            &&& forall|i: int|
                0 <= i < kept.len() ==> #[trigger] kept[i] == all[all.len() - kept.len() + i]
        }),
        final(s).last_size == old(s).last_size,
{
    assert(final(s)@.buffer == final(s).buffer@);
}

/// A client that joins is sent what is kept, byte for byte, or nothing if nothing is kept.
pub proof fn law_replay_is_what_is_kept(s: &SharedState, r: Option<Vec<u8>>)
    requires
        call_ensures(SharedState::replay, (s,), r),
    ensures
        r is None <==> s.buffer@.len() == 0,
        r matches Some(bytes) ==> bytes@.len() == s.buffer@.len() && forall|i: int|
            0 <= i < bytes@.len() ==> #[trigger] bytes@[i] == s.buffer@[i],
{
}

/// While all output since the start fits in 65536 bytes, a client that joins is sent exactly that
/// output: what was kept before, which a newcomer then would have been sent, and the new output.
pub proof fn law_output_is_replayed(
    s: &mut SharedState,
    data: &[u8],
    before: &SharedState,
    after: &SharedState,
    r_before: Option<Vec<u8>>,
    r: Option<Vec<u8>>,
)
    requires
        call_ensures(SharedState::record_output, (s, data), ()),
        call_ensures(SharedState::replay, (before,), r_before),
        call_ensures(SharedState::replay, (after,), r),
        *before == *old(s),
        *after == *final(s),
        old(s).buffer@.len() + data@.len() <= 65536,
    ensures
        ({
            let earlier = match r_before {
                Some(bytes) => bytes@,
                None => Seq::empty(),
            };
            match r {
                Some(bytes) => bytes@ == earlier + data@,
                None => earlier.len() == 0 && data@.len() == 0,
            }
        }),
{
    law_record_keeps_the_end(s, data);
    law_replay_is_what_is_kept(before, r_before);
    law_replay_is_what_is_kept(after, r);
    let earlier = match r_before {
        Some(bytes) => bytes@,
        None => Seq::empty(),
    };
    assert(earlier =~= old(s).buffer@);
    assert(final(s).buffer@ =~= old(s).buffer@ + data@);
    if let Some(bytes) = r {
        assert(bytes@ =~= earlier + data@);
    }
}

/// A session starts with nothing to replay and a terminal of 80 columns and 24 rows.
pub proof fn law_session_starts_empty(s: SharedState, size: PtySize)
    requires
        call_ensures(SharedState::new, (), s),
        call_ensures(initial_size, (), size),
    ensures
        s.buffer@.len() == 0,
        s.last_size == size,
        size.cols == 80 && size.rows == 24 && size.pixel_width == 0 && size.pixel_height == 0,
{
    assert(s@.buffer == s.buffer@);
}

/// A restart leaves nothing of the earlier output, keeps the size and asks the new terminal to take
/// it, and clears the clients' screens by the same bytes each time.
pub proof fn law_restart_effects(s: &mut SharedState, r: Restart)
    requires
        call_ensures(SharedState::restart, (s,), r),
    ensures
        final(s).buffer@.len() == 0,
        final(s).last_size == old(s).last_size,
        r.size == old(s).last_size,
        r.broadcast@ == seq![0x1bu8, 91, 50, 74, 0x1b, 91, 72],
{
    assert(final(s)@.buffer == final(s).buffer@);
}

/// The numbers of a request are cut to 16 bits: a multiple of 65536 more makes no difference, and
/// numbers that fit are taken as they are.
pub proof fn law_requested_size_wraps(cols: u32, rows: u32, r: PtySize)
    requires
        call_ensures(requested_size, (cols, rows), r),
    ensures
        0 <= r.cols <= cols && (cols - r.cols) % 65536 == 0,
        0 <= r.rows <= rows && (rows - r.rows) % 65536 == 0,
        r.pixel_width == 0 && r.pixel_height == 0,
{
}

/// A size that the terminal took is the one that is remembered, and one that it did not take changes
/// nothing. The output that is kept is the same either way.
pub proof fn law_only_applied_sizes_count(s: &mut SharedState, size: PtySize, applied: bool)
    requires
        call_ensures(SharedState::client_resize, (s, size, applied), ()),
    ensures
        applied ==> final(s).last_size == size,
        !applied ==> final(s).last_size == old(s).last_size,
        final(s).buffer@ == old(s).buffer@,
{
    assert(final(s)@.buffer == final(s).buffer@);
}

/// What a guest behind the relay sends is a size exactly where it reads as one. Then it sets the
/// size; otherwise it goes to the command byte for byte and the size stays. The output that is kept
/// is the same either way.
pub proof fn law_guest_input_is_size_or_keys(
    s: &mut SharedState,
    data: &[u8],
    r: GuestInput,
    read: Option<(u16, u16)>,
)
    requires
        call_ensures(SharedState::guest_input, (s, data), r),
        call_ensures(parse_resize_escape, (data,), read),
    ensures
        match read {
            Some((cols, rows)) => {
                &&& r matches GuestInput::Resize(size)
                &&& size == final(s).last_size
                &&& size.cols == cols && size.rows == rows
                &&& size.pixel_width == 0 && size.pixel_height == 0
            },
            None => {
                &&& r matches GuestInput::Keys(keys)
                &&& keys@ == data@
                &&& final(s).last_size == old(s).last_size
            },
        },
        final(s).buffer@ == old(s).buffer@,
{
    assert(final(s)@.buffer == final(s).buffer@);
}

/// Bytes that differ from `ESC ] romoto;resize;` anywhere, or end before it does, are keys: they
/// reach the command unchanged and leave the size alone.
pub proof fn law_keys_reach_the_command(s: &mut SharedState, data: &[u8], i: int, r: GuestInput)
    requires
        call_ensures(SharedState::guest_input, (s, data), r),
        0 <= i < 16,
        i < data@.len() ==> data@[i] != seq![
            0x1bu8, 93, 114, 111, 109, 111, 116, 111, 59, 114, 101, 115, 105, 122, 101, 59,
        ][i],
    ensures
        r matches GuestInput::Keys(keys) && keys@ == data@,
        final(s).last_size == old(s).last_size,
        final(s).buffer@ == old(s).buffer@,
{
    assert(final(s)@.buffer == final(s).buffer@);
    law_no_prefix_no_size(data@, i);
}

} // verus!
