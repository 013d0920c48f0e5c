//! The protocol driver, as a state machine.
//!
//! The session owns no socket and reads no clock. Whoever runs it tells
//! it what happened (the socket is ready, a datagram came, the deadline
//! passed, the local address is known) together with the time in
//! milliseconds, and gets back what to do next, in order.

use vstd::prelude::*;
use crate::control::{audio_kick_bytes, heartbeat_bytes, ControlCommand};
use crate::error::DecodeError;
use crate::frame::{parse_frame, spec_parse_frame, Frame};
use crate::handshake::{login_request_bytes, port_request_bytes, LoginRequest, PortRequest, PortResponse};
use crate::reassembly::{arrives, join, lemma_any_order_completes, spec_add, spec_add_all, spec_frame, FrameBuilder, Slots};
use crate::wire::copy_range;

verus! {

/// The port on which the camera answers the port request.
pub const CAMERA_PORT: u16 = 10104;

/// How long to wait for the port response, in milliseconds.
pub const HANDSHAKE_TIMEOUT_MS: u64 = 1000;

/// The pause between the two login requests, in milliseconds.
pub const LOGIN_GAP_MS: u64 = 20;

/// The keep-alive batch is sent when more than this many milliseconds have
/// passed since the last one.
pub const KEEPALIVE_INTERVAL_MS: u64 = 2000;

/// How long to wait for the next datagram while streaming, in milliseconds.
pub const RECEIVE_DEADLINE_MS: u64 = 100;

/// Where the session stands.
#[derive(Debug, Clone, Copy, PartialEq, Eq, Structural)]
pub enum Phase {
    /// The port request is out, the camera's session port is not known.
    Discovering,
    /// The session port is known, the login is not sent yet.
    Authenticating,
    /// The login is sent; media frames are expected.
    Streaming,
}

/// Why the session cannot start.
#[derive(Debug, Clone, Copy, PartialEq, Eq)]
pub enum Failure {
    /// No datagram came in answer to the port request.
    HandshakeTimeout,
    /// The answer to the port request is no port response.
    BadPortResponse(DecodeError),
    /// The socket is not bound to an IPv4 address.
    NotIpv4,
}

/// One thing to do for the session.
#[derive(Debug, PartialEq, Eq)]
pub enum Action {
    /// Point the socket at this port of the camera.
    Connect(u16),
    /// Send this datagram.
    Send(Vec<u8>),
    /// Let this many milliseconds pass.
    Pause(u64),
    /// Wait for a datagram for at most this many milliseconds, and tell the
    /// session what came of it.
    Receive(u64),
    /// Look up the local address of the socket, and tell the session.
    QueryLocal,
    /// Hand this frame to the video bus.
    PublishVideo(Vec<u8>),
    /// Hand this frame to the audio bus.
    PublishAudio(Vec<u8>),
    /// A video frame was lost: a fragment of it never came.
    Dropped,
    /// A datagram could not be used; the session goes on.
    Anomaly(DecodeError),
    /// Give up.
    Fail(Failure),
}

/// An action, with its bytes as a sequence.
pub enum ActionView {
    Connect(u16),
    Send(Seq<u8>),
    Pause(u64),
    Receive(u64),
    QueryLocal,
    PublishVideo(Seq<u8>),
    PublishAudio(Seq<u8>),
    Dropped,
    Anomaly(DecodeError),
    Fail(Failure),
}

impl View for Action {
    type V = ActionView;

    open spec fn view(&self) -> ActionView {
        match *self {
            Action::Connect(port) => ActionView::Connect(port),
            Action::Send(bytes) => ActionView::Send(bytes@),
            Action::Pause(ms) => ActionView::Pause(ms),
            Action::Receive(ms) => ActionView::Receive(ms),
            Action::QueryLocal => ActionView::QueryLocal,
            Action::PublishVideo(frame) => ActionView::PublishVideo(frame@),
            Action::PublishAudio(frame) => ActionView::PublishAudio(frame@),
            Action::Dropped => ActionView::Dropped,
            Action::Anomaly(e) => ActionView::Anomaly(e),
            Action::Fail(f) => ActionView::Fail(f),
        }
    }
}

/// The actions of a list, each by its view.
pub open spec fn action_views(actions: Seq<Action>) -> Seq<ActionView> {
    Seq::new(actions.len(), |i: int| actions[i]@)
}

/// What a session holds.
pub struct SessionView {
    pub phase: Phase,
    /// The slots of the video reassembler.
    pub slots: Slots,
    /// When the last keep-alive batch went out; 0 before the first.
    pub last_keepalive: u64,
    /// When the first video frame was completed.
    pub fps_start: Option<u64>,
    /// Video frames completed.
    pub frames_received: u64,
    /// Video frames lost.
    pub frames_dropped: u64,
    /// The video frame completed last; empty before the first.
    pub last_frame: Seq<u8>,
}

/// A counter one higher; it stays at its largest value.
pub open spec fn bump(n: u64) -> u64 {
    if n < u64::MAX {
        (n + 1) as u64
    } else {
        n
    }
}

/// A fresh session: discovering, nothing received.
pub open spec fn spec_initial() -> SessionView {
    SessionView {
        phase: Phase::Discovering,
        slots: Seq::empty(),
        last_keepalive: 0,
        fps_start: None,
        frames_received: 0,
        frames_dropped: 0,
        last_frame: Seq::empty(),
    }
}

/// The keep-alive batch: heartbeat, heartbeat, audio kick, audio kick.
pub open spec fn keepalive_batch() -> Seq<ActionView> {
    seq![
        ActionView::Send(heartbeat_bytes()),
        ActionView::Send(heartbeat_bytes()),
        ActionView::Send(audio_kick_bytes()),
        ActionView::Send(audio_kick_bytes()),
    ]
}

/// Whether the keep-alive batch is to be sent at `now`: more than 2000 ms
/// have passed since the last one.
pub open spec fn keepalive_due(last_keepalive: u64, now: u64) -> bool {
    now - last_keepalive > KEEPALIVE_INTERVAL_MS
}

/// The top of the streaming loop at `now`: the keep-alive batch where it
/// is due, then the wait for the next datagram.
pub open spec fn spec_tick(s: SessionView, now: u64) -> (SessionView, Seq<ActionView>) {
    if keepalive_due(s.last_keepalive, now) {
        (
            SessionView { last_keepalive: now, ..s },
            keepalive_batch() + seq![ActionView::Receive(RECEIVE_DEADLINE_MS)],
        )
    } else {
        (s, seq![ActionView::Receive(RECEIVE_DEADLINE_MS)])
    }
}

/// A video fragment with index `pkt_index` arrives at `now`.
///
/// Index 0 is a frame boundary. The frame collected so far ends there: a
/// complete one is published and becomes the last frame, an incomplete
/// one counts as dropped, and where nothing was collected nothing
/// happens. The slots are cleared. In every case the fragment is then
/// stored.
pub open spec fn spec_video(s: SessionView, pkt_index: u16, payload: Seq<u8>, now: u64) -> (
    SessionView,
    Seq<ActionView>,
) {
    if pkt_index != 0 {
        (SessionView { slots: spec_add(s.slots, pkt_index as nat, payload), ..s }, Seq::empty())
    } else {
        let fresh = spec_add(Seq::empty(), 0, payload);
        if s.slots.len() == 0 {
            (SessionView { slots: fresh, ..s }, Seq::empty())
        } else {
            match spec_frame(s.slots) {
                Some(frame) => (
                    SessionView {
                        slots: fresh,
                        last_frame: frame,
                        frames_received: bump(s.frames_received),
                        fps_start: if s.fps_start is None {
                            Some(now)
                        } else {
                            s.fps_start
                        },
                        ..s
                    },
                    seq![ActionView::PublishVideo(frame)],
                ),
                None => (
                    SessionView { slots: fresh, frames_dropped: bump(s.frames_dropped), ..s },
                    seq![ActionView::Dropped],
                ),
            }
        }
    }
}

/// A datagram arrives at `now` while streaming.
///
/// A late port response is ignored. A media frame gives up its media
/// bytes by the offset rule; audio is published as it is, video goes to
/// the reassembler. A datagram that does not decode, or whose lengths do
/// not fit, is an anomaly and changes nothing.
pub open spec fn spec_dispatch(s: SessionView, datagram: Seq<u8>, now: u64) -> (
    SessionView,
    Seq<ActionView>,
) {
    match spec_parse_frame(datagram) {
        Err(e) => (s, seq![ActionView::Anomaly(e)]),
        Ok(Frame::PortResponse(_)) => (s, Seq::empty()),
        Ok(Frame::MediaFrame(f)) => match f.spec_payload(datagram) {
            Err(e) => (s, seq![ActionView::Anomaly(e)]),
            Ok(payload) => if f.is_audio == 1 {
                (s, seq![ActionView::PublishAudio(payload)])
            } else {
                spec_video(s, f.pkt_index, payload, now)
            },
        },
    }
}

/// The socket is bound: while discovering, point it at the camera's
/// discovery port, send the port request and wait for the answer.
pub open spec fn spec_start(s: SessionView) -> (SessionView, Seq<ActionView>) {
    if s.phase is Discovering {
        (
            s,
            seq![
                ActionView::Connect(CAMERA_PORT),
                ActionView::Send(port_request_bytes()),
                ActionView::Receive(HANDSHAKE_TIMEOUT_MS),
            ],
        )
    } else {
        (s, Seq::empty())
    }
}

/// A datagram arrives at `now`.
///
/// While discovering it must be the port response: the session then
/// points the socket at the port it names and asks for the local address;
/// anything else ends the session. While streaming the datagram is
/// dispatched and the loop goes on.
pub open spec fn spec_on_datagram(s: SessionView, datagram: Seq<u8>, now: u64) -> (
    SessionView,
    Seq<ActionView>,
) {
    match s.phase {
        Phase::Discovering => match PortResponse::spec_decode(datagram) {
            Ok(r) => (
                SessionView { phase: Phase::Authenticating, ..s },
                seq![ActionView::Connect(r.udp_info.udp_port), ActionView::QueryLocal],
            ),
            Err(e) => (s, seq![ActionView::Fail(Failure::BadPortResponse(e))]),
        },
        Phase::Authenticating => (s, Seq::empty()),
        Phase::Streaming => {
            let (s1, handled) = spec_dispatch(s, datagram, now);
            let (s2, next) = spec_tick(s1, now);
            (s2, handled + next)
        },
    }
}

/// The receive deadline passes at `now`: fatal while discovering, the
/// next turn of the loop while streaming.
pub open spec fn spec_on_timeout(s: SessionView, now: u64) -> (SessionView, Seq<ActionView>) {
    match s.phase {
        Phase::Discovering => (s, seq![ActionView::Fail(Failure::HandshakeTimeout)]),
        Phase::Authenticating => (s, Seq::empty()),
        Phase::Streaming => spec_tick(s, now),
    }
}

/// The local address of the socket is known at `now`: `Some` of port and
/// IPv4 address, or `None` where it is not IPv4.
///
/// While authenticating, the login goes out twice, 20 ms apart, and the
/// streaming loop starts; without an IPv4 address the session ends.
pub open spec fn spec_on_local_addr(s: SessionView, local: Option<(u16, [u8; 4])>, now: u64) -> (
    SessionView,
    Seq<ActionView>,
) {
    match s.phase {
        Phase::Authenticating => match local {
            Some((port, ip)) => {
                let login = login_request_bytes(port, ip@);
                let (s1, next) = spec_tick(SessionView { phase: Phase::Streaming, ..s }, now);
                (
                    s1,
                    seq![
                        ActionView::Send(login),
                        ActionView::Pause(LOGIN_GAP_MS),
                        ActionView::Send(login),
                    ] + next,
                )
            },
            None => (s, seq![ActionView::Fail(Failure::NotIpv4)]),
        },
        _ => (s, Seq::empty()),
    }
}

/// The state of one camera session.
#[derive(Debug, PartialEq, Eq)]
pub struct Session {
    phase: Phase,
    builder: FrameBuilder,
    last_keepalive: u64,
    fps_start: Option<u64>,
    frames_received: u64,
    frames_dropped: u64,
    last_frame: Vec<u8>,
}

impl View for Session {
    type V = SessionView;

    closed spec fn view(&self) -> SessionView {
        SessionView {
            phase: self.phase,
            slots: self.builder@,
            last_keepalive: self.last_keepalive,
            fps_start: self.fps_start,
            frames_received: self.frames_received,
            frames_dropped: self.frames_dropped,
            last_frame: self.last_frame@,
        }
    }
}

fn push_action(out: &mut Vec<Action>, action: Action)
    ensures
        action_views(final(out)@) == action_views(old(out)@).push(action@),
{
    out.push(action);
    assert(action_views(out@) =~= action_views(old(out)@).push(action@));
}

impl Session {
    /// A fresh session.
    pub fn new() -> (s: Self)
        ensures
            s@ == spec_initial(),
    {
        Session {
            phase: Phase::Discovering,
            builder: FrameBuilder::new(),
            last_keepalive: 0,
            fps_start: None,
            frames_received: 0,
            frames_dropped: 0,
            last_frame: Vec::new(),
        }
    }

    /// Where the session stands.
    pub fn phase(&self) -> (p: Phase)
        ensures
            p == self@.phase,
    {
        self.phase
    }

    /// Video frames completed so far.
    pub fn frames_received(&self) -> (n: u64)
        ensures
            n == self@.frames_received,
    {
        self.frames_received
    }

    /// Video frames lost so far.
    pub fn frames_dropped(&self) -> (n: u64)
        ensures
            n == self@.frames_dropped,
    {
        self.frames_dropped
    }

    /// When the first video frame was completed, if one was.
    pub fn fps_start(&self) -> (t: Option<u64>)
        ensures
            t == self@.fps_start,
    {
        self.fps_start
    }

    /// When the last keep-alive batch went out; 0 before the first.
    pub fn last_keepalive(&self) -> (t: u64)
        ensures
            t == self@.last_keepalive,
    {
        self.last_keepalive
    }

    /// The video frame completed last; empty before the first.
    pub fn last_frame(&self) -> (frame: &Vec<u8>)
        ensures
            frame@ == self@.last_frame,
    {
        &self.last_frame
    }

    /// Whether the reassembler holds no fragment.
    pub fn reassembler_is_empty(&self) -> (e: bool)
        ensures
            e == (self@.slots.len() == 0),
    {
        self.builder.is_empty()
    }

    /// The socket is bound.
    pub fn start(&mut self) -> (actions: Vec<Action>)
        ensures
            (final(self)@, action_views(actions@)) == spec_start(old(self)@),
    {
        let mut out: Vec<Action> = Vec::new();
        assert(action_views(out@) =~= Seq::<ActionView>::empty());
        match self.phase {
            Phase::Discovering => {
                push_action(&mut out, Action::Connect(CAMERA_PORT));
                push_action(&mut out, Action::Send(PortRequest::new().encode()));
                push_action(&mut out, Action::Receive(HANDSHAKE_TIMEOUT_MS));
                assert(action_views(out@) =~= spec_start(old(self)@).1);
            },
            _ => {},
        }
        out
    }

    /// A datagram arrived at `now_ms`.
    pub fn on_datagram(&mut self, datagram: &[u8], now_ms: u64) -> (actions: Vec<Action>)
        ensures
            (final(self)@, action_views(actions@)) == spec_on_datagram(
                old(self)@,
                datagram@,
                now_ms,
            ),
    {
        let mut out: Vec<Action> = Vec::new();
        assert(action_views(out@) =~= Seq::<ActionView>::empty());
        match self.phase {
            Phase::Discovering => {
                match PortResponse::decode(datagram) {
                    Ok(r) => {
                        self.phase = Phase::Authenticating;
                        push_action(&mut out, Action::Connect(r.udp_info.udp_port));
                        push_action(&mut out, Action::QueryLocal);
                    },
                    Err(e) => {
                        push_action(&mut out, Action::Fail(Failure::BadPortResponse(e)));
                    },
                }
                assert(action_views(out@) =~= spec_on_datagram(old(self)@, datagram@, now_ms).1);
            },
            Phase::Authenticating => {},
            Phase::Streaming => {
                self.dispatch(datagram, now_ms, &mut out);
                self.tick(now_ms, &mut out);
                assert(Seq::<ActionView>::empty() + spec_dispatch(old(self)@, datagram@, now_ms).1
                    =~= spec_dispatch(old(self)@, datagram@, now_ms).1);
            },
        }
        out
    }

    /// The receive deadline passed at `now_ms` without a datagram.
    pub fn on_timeout(&mut self, now_ms: u64) -> (actions: Vec<Action>)
        ensures
            (final(self)@, action_views(actions@)) == spec_on_timeout(old(self)@, now_ms),
    {
        let mut out: Vec<Action> = Vec::new();
        assert(action_views(out@) =~= Seq::<ActionView>::empty());
        match self.phase {
            Phase::Discovering => {
                push_action(&mut out, Action::Fail(Failure::HandshakeTimeout));
                assert(action_views(out@) =~= spec_on_timeout(old(self)@, now_ms).1);
            },
            Phase::Authenticating => {},
            Phase::Streaming => {
                self.tick(now_ms, &mut out);
                assert(Seq::<ActionView>::empty() + spec_tick(old(self)@, now_ms).1 =~= spec_tick(
                    old(self)@,
                    now_ms,
                ).1);
            },
        }
        out
    }

    /// The local address of the socket was looked up at `now_ms`: `Some` of
    /// port and IPv4 address, `None` where the address is not IPv4.
    pub fn on_local_addr(&mut self, local: Option<(u16, [u8; 4])>, now_ms: u64) -> (actions: Vec<
        Action,
    >)
        ensures
            (final(self)@, action_views(actions@)) == spec_on_local_addr(
                old(self)@,
                local,
                now_ms,
            ),
    {
        let mut out: Vec<Action> = Vec::new();
        assert(action_views(out@) =~= Seq::<ActionView>::empty());
        match self.phase {
            Phase::Authenticating => {
                match local {
                    Some((port, ip)) => {
                        self.phase = Phase::Streaming;
                        push_action(&mut out, Action::Send(LoginRequest::new(port, ip).encode()));
                        push_action(&mut out, Action::Pause(LOGIN_GAP_MS));
                        push_action(&mut out, Action::Send(LoginRequest::new(port, ip).encode()));
                        let ghost login = login_request_bytes(port, ip@);
                        assert(action_views(out@) =~= seq![
                            ActionView::Send(login),
                            ActionView::Pause(LOGIN_GAP_MS),
                            ActionView::Send(login),
                        ]);
                        self.tick(now_ms, &mut out);
                    },
                    None => {
                        push_action(&mut out, Action::Fail(Failure::NotIpv4));
                        assert(action_views(out@) =~= spec_on_local_addr(
                            old(self)@,
                            local,
                            now_ms,
                        ).1);
                    },
                }
            },
            _ => {},
        }
        out
    }

    /// The top of the streaming loop.
    fn tick(&mut self, now_ms: u64, out: &mut Vec<Action>)
        ensures
            final(self)@ == spec_tick(old(self)@, now_ms).0,
            action_views(final(out)@) == action_views(old(out)@) + spec_tick(
                old(self)@,
                now_ms,
            ).1,
    {
        if now_ms > self.last_keepalive && now_ms - self.last_keepalive > KEEPALIVE_INTERVAL_MS {
            push_action(out, Action::Send(ControlCommand::new().encode()));
            push_action(out, Action::Send(ControlCommand::new().encode()));
            push_action(out, Action::Send(ControlCommand::audio_kick().encode()));
            push_action(out, Action::Send(ControlCommand::audio_kick().encode()));
            self.last_keepalive = now_ms;
        }
        push_action(out, Action::Receive(RECEIVE_DEADLINE_MS));
        assert(action_views(out@) =~= action_views(old(out)@) + spec_tick(old(self)@, now_ms).1);
    }

    /// One datagram while streaming.
    fn dispatch(&mut self, datagram: &[u8], now_ms: u64, out: &mut Vec<Action>)
        ensures
            final(self)@ == spec_dispatch(old(self)@, datagram@, now_ms).0,
            action_views(final(out)@) == action_views(old(out)@) + spec_dispatch(
                old(self)@,
                datagram@,
                now_ms,
            ).1,
    {
        match parse_frame(datagram) {
            Err(e) => {
                push_action(out, Action::Anomaly(e));
            },
            Ok(Frame::PortResponse(_)) => {},
            Ok(Frame::MediaFrame(f)) => {
                match f.payload(datagram) {
                    Err(e) => {
                        push_action(out, Action::Anomaly(e));
                    },
                    Ok(payload) => {
                        if f.is_audio == 1 {
                            push_action(out, Action::PublishAudio(payload));
                        } else {
                            self.video(f.pkt_index, payload, now_ms, out);
                        }
                    },
                }
            },
        }
        assert(action_views(out@) =~= action_views(old(out)@) + spec_dispatch(
            old(self)@,
            datagram@,
            now_ms,
        ).1);
    }

    /// One video fragment.
    fn video(&mut self, pkt_index: u16, payload: Vec<u8>, now_ms: u64, out: &mut Vec<Action>)
        ensures
            final(self)@ == spec_video(old(self)@, pkt_index, payload@, now_ms).0,
            action_views(final(out)@) == action_views(old(out)@) + spec_video(
                old(self)@,
                pkt_index,
                payload@,
                now_ms,
            ).1,
    {
        if pkt_index == 0 && !self.builder.is_empty() {
            match self.builder.finalize() {
                Some(frame) => {
                    self.last_frame = copy_range(frame.as_slice(), 0, frame.len());
                    assert(self.last_frame@ =~= frame@);
                    if self.frames_received < u64::MAX {
                        self.frames_received = self.frames_received + 1;
                    }
                    if self.fps_start.is_none() {
                        self.fps_start = Some(now_ms);
                    }
                    push_action(out, Action::PublishVideo(frame));
                },
                None => {
                    if self.frames_dropped < u64::MAX {
                        self.frames_dropped = self.frames_dropped + 1;
                    }
                    push_action(out, Action::Dropped);
                },
            }
        }
        self.builder.add_piece(pkt_index, payload.as_slice());
        assert(action_views(out@) =~= action_views(old(out)@) + spec_video(
            old(self)@,
            pkt_index,
            payload@,
            now_ms,
        ).1);
    }
}

/// A video fragment as it arrives: its index, its bytes, the time.
pub struct Arrival {
    pub pkt_index: u16,
    pub payload: Seq<u8>,
    pub now: u64,
}

/// The session after each of `arrivals` came in, first to last, with
/// everything there was to do on the way.
pub open spec fn spec_video_all(s: SessionView, arrivals: Seq<Arrival>) -> (
    SessionView,
    Seq<ActionView>,
)
    decreases arrivals.len(),
{
    if arrivals.len() == 0 {
        (s, Seq::empty())
    } else {
        let (s1, done) = spec_video_all(s, arrivals.drop_last());
        let a = arrivals.last();
        let (s2, more) = spec_video(s1, a.pkt_index, a.payload, a.now);
        (s2, done + more)
    }
}

/// The arrivals as the reassembler sees them: index and bytes.
pub open spec fn adds_of(arrivals: Seq<Arrival>) -> Seq<(nat, Seq<u8>)> {
    Seq::new(arrivals.len(), |i: int| (arrivals[i].pkt_index as nat, arrivals[i].payload))
}

/// A media frame with fragment index 0 that finds the reassembler empty
/// publishes nothing and counts no drop: the session is as before but for
/// the one slot that now holds the fragment.
pub proof fn lemma_first_boundary_is_silent(s: SessionView, datagram: Seq<u8>, now: u64)
    requires
        s.slots.len() == 0,
        spec_parse_frame(datagram) matches Ok(Frame::MediaFrame(f)) && f.is_audio != 1
            && f.pkt_index == 0 && f.payload_fits(datagram.len()),
    ensures
        spec_parse_frame(datagram) matches Ok(Frame::MediaFrame(f)) && f.spec_payload(
            datagram,
        ) matches Ok(payload) && spec_dispatch(s, datagram, now) == (
            SessionView { slots: seq![Some(payload)], ..s },
            Seq::<ActionView>::empty(),
        ),
{
    let f = spec_parse_frame(datagram)->Ok_0->MediaFrame_0;
    let payload = f.spec_payload(datagram)->Ok_0;
    assert(spec_add(Seq::empty(), 0, payload) =~= seq![Some(payload)]);
}

/// How far a session has come: 0 while discovering, 1 while
/// authenticating, 2 while streaming.
pub open spec fn phase_rank(phase: Phase) -> nat {
    match phase {
        Phase::Discovering => 0,
        Phase::Authenticating => 1,
        Phase::Streaming => 2,
    }
}

/// A session only moves forward, one phase at a time: on the port
/// response from discovering to authenticating, on the local address from
/// authenticating to streaming. Nothing that happens leads back, and
/// streaming is never left.
pub proof fn lemma_phase_only_advances(
    s: SessionView,
    datagram: Seq<u8>,
    local: Option<(u16, [u8; 4])>,
    now: u64,
)
    ensures
        spec_start(s).0.phase == s.phase,
        spec_on_timeout(s, now).0.phase == s.phase,
        spec_on_datagram(s, datagram, now).0.phase == (if s.phase is Discovering
            && PortResponse::spec_decode(datagram) is Ok {
            Phase::Authenticating
        } else {
            s.phase
        }),
        spec_on_local_addr(s, local, now).0.phase == (if s.phase is Authenticating
            && local is Some {
            Phase::Streaming
        } else {
            s.phase
        }),
        phase_rank(s.phase) <= phase_rank(spec_on_datagram(s, datagram, now).0.phase)
            <= phase_rank(s.phase) + 1,
        phase_rank(s.phase) <= phase_rank(spec_on_local_addr(s, local, now).0.phase)
            <= phase_rank(s.phase) + 1,
{
}

/// An audio frame is published as it is: the reassembler, the counters
/// and the last frame stay as they were.
pub proof fn lemma_audio_bypasses_reassembly(s: SessionView, datagram: Seq<u8>, now: u64)
    requires
        spec_parse_frame(datagram) matches Ok(Frame::MediaFrame(f)) && f.is_audio == 1
            && f.payload_fits(datagram.len()),
    ensures
        spec_parse_frame(datagram) matches Ok(Frame::MediaFrame(f)) && f.spec_payload(
            datagram,
        ) matches Ok(payload) && spec_dispatch(s, datagram, now) == (
            s,
            seq![ActionView::PublishAudio(payload)],
        ),
{
}

/// The last frame is replaced exactly when a video frame is published,
/// and by that frame whole.
pub proof fn lemma_last_frame_is_the_last_published(s: SessionView, datagram: Seq<u8>, now: u64)
    ensures
        ({
            let (s1, actions) = spec_dispatch(s, datagram, now);
            if exists|i: int| 0 <= i < actions.len() && (#[trigger] actions[i]) is PublishVideo {
                actions == seq![ActionView::PublishVideo(s1.last_frame)]
            } else {
                s1.last_frame == s.last_frame
            }
        }),
{
    let (s1, actions) = spec_dispatch(s, datagram, now);
    if exists|i: int| 0 <= i < actions.len() && (#[trigger] actions[i]) is PublishVideo {
        let i = choose|i: int| 0 <= i < actions.len() && (#[trigger] actions[i]) is PublishVideo;
        assert(actions =~= seq![ActionView::PublishVideo(s1.last_frame)]);
    } else {
        if s1.last_frame != s.last_frame {
            assert(actions[0] is PublishVideo);
        }
    }
}

/// Storing one arrival after the others is storing them all.
proof fn lemma_add_all_split(slots: Slots, first: Seq<(nat, Seq<u8>)>, rest: Seq<(nat, Seq<u8>)>)
    ensures
        spec_add_all(slots, first + rest) == spec_add_all(spec_add_all(slots, first), rest),
    decreases rest.len(),
{
    if rest.len() == 0 {
        assert(first + rest =~= first);
    } else {
        lemma_add_all_split(slots, first, rest.drop_last());
        assert((first + rest).drop_last() =~= first + rest.drop_last());
        assert((first + rest).last() == rest.last());
    }
}

/// Fragments that are no frame boundary are only stored: nothing is
/// published, nothing counted.
proof fn lemma_inner_fragments_are_silent(s: SessionView, arrivals: Seq<Arrival>)
    requires
        forall|j: int| 0 <= j < arrivals.len() ==> (#[trigger] arrivals[j]).pkt_index != 0,
    ensures
        spec_video_all(s, arrivals) == (
            SessionView { slots: spec_add_all(s.slots, adds_of(arrivals)), ..s },
            Seq::<ActionView>::empty(),
        ),
    decreases arrivals.len(),
{
    if arrivals.len() == 0 {
        assert(adds_of(arrivals) =~= Seq::empty());
    } else {
        let before = arrivals.drop_last();
        assert forall|j: int| 0 <= j < before.len() implies (#[trigger] before[j]).pkt_index
            != 0 by {
            assert(before[j] == arrivals[j]);
        }
        lemma_inner_fragments_are_silent(s, before);
        assert(arrivals[arrivals.len() - 1].pkt_index != 0);
        assert(adds_of(arrivals).drop_last() =~= adds_of(before));
        assert(Seq::<ActionView>::empty() + Seq::<ActionView>::empty() =~= Seq::<
            ActionView,
        >::empty());
    }
}

/// Between two frame boundaries the session publishes exactly once.
///
/// `arrivals` starts with the boundary of a frame and holds every fragment
/// of it, in any order, each with the bytes that `frags` has for its
/// index, and no other boundary. Whatever the session held before: the
/// fragments after the boundary cause nothing, and the next boundary
/// publishes the frame, which is the fragments joined in ascending order,
/// latches it as the last frame, and counts no drop.
pub proof fn lemma_one_emission_per_frame(
    s: SessionView,
    frags: Seq<Seq<u8>>,
    arrivals: Seq<Arrival>,
    next: Arrival,
)
    requires
        arrivals.len() > 0,
        arrivals[0].pkt_index == 0,
        next.pkt_index == 0,
        forall|j: int| 1 <= j < arrivals.len() ==> (#[trigger] arrivals[j]).pkt_index != 0,
        forall|j: int|
            0 <= j < arrivals.len() ==> (#[trigger] arrivals[j]).pkt_index < frags.len()
                && arrivals[j].payload == frags[arrivals[j].pkt_index as int],
        forall|i: nat| i < frags.len() ==> #[trigger] arrives(adds_of(arrivals), i),
    ensures
        ({
            let first = arrivals[0];
            let (s1, _) = spec_video(s, first.pkt_index, first.payload, first.now);
            let (s2, between) = spec_video_all(s1, arrivals.subrange(1, arrivals.len() as int));
            let (s3, at_boundary) = spec_video(s2, next.pkt_index, next.payload, next.now);
            &&& between == Seq::<ActionView>::empty()
            &&& at_boundary == seq![ActionView::PublishVideo(join(frags))]
            &&& s3.last_frame == join(frags)
            &&& s3.frames_dropped == s1.frames_dropped
            &&& s3.frames_received == bump(s1.frames_received)
            &&& s3.slots == seq![Some(next.payload)]
        }),
{
    let first = arrivals[0];
    let rest = arrivals.subrange(1, arrivals.len() as int);
    let (s1, _) = spec_video(s, first.pkt_index, first.payload, first.now);
    assert forall|j: int| 0 <= j < rest.len() implies (#[trigger] rest[j]).pkt_index != 0 by {
        assert(rest[j] == arrivals[j + 1]);
    }
    lemma_inner_fragments_are_silent(s1, rest);
    let (s2, between) = spec_video_all(s1, rest);
    let head = seq![(0nat, first.payload)];
    assert(s1.slots == spec_add(Seq::empty(), 0, first.payload));
    assert(head.drop_last() =~= Seq::<(nat, Seq<u8>)>::empty());
    assert(spec_add_all(Seq::empty(), head.drop_last()) == Seq::<Option<Seq<u8>>>::empty());
    assert(head.last() == (0nat, first.payload));
    assert(spec_add_all(Seq::empty(), head) == s1.slots);
    lemma_add_all_split(Seq::empty(), head, adds_of(rest));
    assert(head + adds_of(rest) =~= adds_of(arrivals));
    assert(s2.slots == spec_add_all(Seq::empty(), adds_of(arrivals)));
    assert forall|j: int| 0 <= j < adds_of(arrivals).len() implies (#[trigger] adds_of(
        arrivals,
    )[j]).0 < frags.len() && adds_of(arrivals)[j].1 == frags[adds_of(arrivals)[j].0 as int] by {
        assert(arrivals[j].pkt_index < frags.len());
    }
    lemma_any_order_completes(frags, adds_of(arrivals));
    assert(s2.slots.len() > 0);
    assert(spec_add(Seq::empty(), 0, next.payload) =~= seq![Some(next.payload)]);
}

} // verus!
