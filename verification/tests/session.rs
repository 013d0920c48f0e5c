use chinesium::control::ControlCommand;
use chinesium::error::DecodeError;
use chinesium::handshake::{LoginRequest, PortRequest, PortResponse};
use chinesium::header::TTEGHeader;
use chinesium::media::MediaFrame;
use chinesium::session::{
    Action, Failure, Phase, Session, CAMERA_PORT, HANDSHAKE_TIMEOUT_MS, KEEPALIVE_INTERVAL_MS,
    LOGIN_GAP_MS, RECEIVE_DEADLINE_MS,
};
use chinesium::udp_info::TUDPInfo;

const T0: u64 = 1_700_000_000_000;

fn port_response(port: u16) -> Vec<u8> {
    PortResponse {
        header: TTEGHeader::new(1, 0x0c, 68),
        unknown_1: 0,
        unknown_2: 0,
        udp_info: TUDPInfo { unknown: [0; 18], udp_port: port, ip_addr: [192, 168, 1, 20] },
        cam_name: [0x41; 28],
        unknown_3: 0,
    }
    .encode()
}

fn media(is_audio: u16, frame_index: u16, pkt_index: u16, payload: &[u8]) -> Vec<u8> {
    let mut out = MediaFrame {
        header: TTEGHeader::new(2, 0x03, (16 + payload.len()) as u16),
        unknown_0: 1,
        unknown_1: 1,
        is_audio,
        frame_index,
        pkt_index,
        media_data_len: payload.len() as u32,
    }
    .encode();
    out.extend_from_slice(payload);
    out
}

fn keepalive() -> Vec<Action> {
    vec![
        Action::Send(ControlCommand::new().encode()),
        Action::Send(ControlCommand::new().encode()),
        Action::Send(ControlCommand::audio_kick().encode()),
        Action::Send(ControlCommand::audio_kick().encode()),
    ]
}

/// A session that has shaken hands and sent its first keep-alive at `T0`.
fn streaming() -> Session {
    let mut s = Session::new();
    s.start();
    s.on_datagram(&port_response(10000), T0);
    s.on_local_addr(Some((40000, [192, 168, 1, 5])), T0);
    assert_eq!(s.phase(), Phase::Streaming);
    assert_eq!(s.last_keepalive(), T0);
    s
}

/// What a datagram causes besides the wait for the next one.
fn feed(s: &mut Session, datagram: &[u8], now: u64) -> Vec<Action> {
    let mut actions = s.on_datagram(datagram, now);
    assert_eq!(actions.pop(), Some(Action::Receive(RECEIVE_DEADLINE_MS)));
    actions
}

#[test]
fn timing_constants() {
    assert_eq!(CAMERA_PORT, 10104);
    assert_eq!(HANDSHAKE_TIMEOUT_MS, 1000);
    assert_eq!(LOGIN_GAP_MS, 20);
    assert_eq!(KEEPALIVE_INTERVAL_MS, 2000);
    assert_eq!(RECEIVE_DEADLINE_MS, 100);
}

#[test]
fn new_session_is_discovering() {
    let s = Session::new();
    assert_eq!(s.phase(), Phase::Discovering);
    assert_eq!(s.frames_received(), 0);
    assert_eq!(s.frames_dropped(), 0);
    assert_eq!(s.fps_start(), None);
    assert_eq!(s.last_keepalive(), 0);
    assert!(s.last_frame().is_empty());
    assert!(s.reassembler_is_empty());
}

#[test]
fn start_sends_the_port_request() {
    let mut s = Session::new();
    assert_eq!(
        s.start(),
        vec![
            Action::Connect(10104),
            Action::Send(vec![
                0x31, 0x54, 0x45, 0x47, 0x0b, 0x00, 0x0c, 0x00, 0x01, 0x00, 0x00, 0x00, 0x00,
                0x00, 0x00, 0x00, 0x00, 0x00, 0x00, 0x00
            ]),
            Action::Receive(1000),
        ]
    );
    assert_eq!(s.phase(), Phase::Discovering);
    assert_eq!(s, Session::new());
}

#[test]
fn handshake_succeeds() {
    let mut s = Session::new();
    let hello = s.start();
    assert_eq!(hello[1], Action::Send(PortRequest::new().encode()));

    let reply = port_response(0x2710);
    assert_eq!(&reply[34..36], &[0x27, 0x10]);
    assert_eq!(s.on_datagram(&reply, T0), vec![Action::Connect(10000), Action::QueryLocal]);
    assert_eq!(s.phase(), Phase::Authenticating);

    let login = LoginRequest::new(40000, [192, 168, 1, 5]).encode();
    let mut expected = vec![
        Action::Send(login.clone()),
        Action::Pause(20),
        Action::Send(login),
    ];
    expected.extend(keepalive());
    expected.push(Action::Receive(100));
    assert_eq!(s.on_local_addr(Some((40000, [192, 168, 1, 5])), T0 + 3), expected);
    assert_eq!(s.phase(), Phase::Streaming);
    assert_eq!(s.last_keepalive(), T0 + 3);
}

#[test]
fn port_response_with_trailing_bytes_is_accepted() {
    let mut s = Session::new();
    s.start();
    let mut reply = port_response(4660);
    reply.resize(4096, 0);
    assert_eq!(s.on_datagram(&reply, T0), vec![Action::Connect(4660), Action::QueryLocal]);
}

#[test]
fn handshake_timeout_is_fatal() {
    let mut s = Session::new();
    s.start();
    assert_eq!(s.on_timeout(T0 + 1000), vec![Action::Fail(Failure::HandshakeTimeout)]);
    assert_eq!(s.phase(), Phase::Discovering);
}

#[test]
fn bad_port_response_is_fatal() {
    let mut s = Session::new();
    s.start();
    assert_eq!(
        s.on_datagram(&port_response(10000)[..75], T0),
        vec![Action::Fail(Failure::BadPortResponse(DecodeError::ShortBuffer))]
    );
    let mut bad = port_response(10000);
    bad[0] = b'X';
    assert_eq!(
        s.on_datagram(&bad, T0),
        vec![Action::Fail(Failure::BadPortResponse(DecodeError::BadSignature))]
    );
    assert_eq!(s.phase(), Phase::Discovering);
}

#[test]
fn local_address_that_is_not_ipv4_is_fatal() {
    let mut s = Session::new();
    s.start();
    s.on_datagram(&port_response(10000), T0);
    assert_eq!(s.on_local_addr(None, T0), vec![Action::Fail(Failure::NotIpv4)]);
    assert_eq!(s.phase(), Phase::Authenticating);
}

#[test]
fn events_out_of_turn_cause_nothing() {
    let mut s = Session::new();
    assert_eq!(s.on_local_addr(Some((1, [1, 1, 1, 1])), T0), vec![]);
    assert_eq!(s, Session::new());

    s.start();
    s.on_datagram(&port_response(10000), T0);
    assert_eq!(s.start(), vec![]);
    assert_eq!(s.on_datagram(&media(0, 1, 0, &[1]), T0), vec![]);
    assert_eq!(s.on_timeout(T0), vec![]);
    assert_eq!(s.phase(), Phase::Authenticating);
    assert!(s.reassembler_is_empty());

    let mut s = streaming();
    assert_eq!(s.start(), vec![]);
    assert_eq!(s.on_local_addr(Some((1, [1, 1, 1, 1])), T0), vec![]);
    assert_eq!(s.on_local_addr(None, T0), vec![]);
    assert_eq!(s.phase(), Phase::Streaming);
}

#[test]
fn heartbeat_cadence() {
    let mut s = streaming();
    assert_eq!(s.on_timeout(T0 + 100), vec![Action::Receive(100)]);
    assert_eq!(s.on_timeout(T0 + 1999), vec![Action::Receive(100)]);
    assert_eq!(s.on_timeout(T0 + 2000), vec![Action::Receive(100)]);
    assert_eq!(s.last_keepalive(), T0);

    let heartbeat = vec![
        0x32, 0x54, 0x45, 0x47, 0x01, 0x00, 0x1c, 0x00, 0x01, 0x00, 0x00, 0x00, 0x00, 0x00, 0x00,
        0x00, 0x01, 0x00, 0x00, 0x00, 0x08, 0x00, 0x00, 0x00, 0x00, 0x00, 0x00, 0x00, 0x00, 0x00,
        0x00, 0x00, 0x01, 0x00, 0x00, 0x00,
    ];
    let mut kick = heartbeat.clone();
    kick[4] = 0x04;
    assert_eq!(
        s.on_timeout(T0 + 2001),
        vec![
            Action::Send(heartbeat.clone()),
            Action::Send(heartbeat),
            Action::Send(kick.clone()),
            Action::Send(kick),
            Action::Receive(100),
        ]
    );
    assert_eq!(s.last_keepalive(), T0 + 2001);
    assert_eq!(s.on_timeout(T0 + 2101), vec![Action::Receive(100)]);
    assert_eq!(s.on_timeout(T0 + 4001), vec![Action::Receive(100)]);
    assert_eq!(s.on_timeout(T0 + 4002).len(), 5);
}

#[test]
fn keepalive_follows_a_datagram_too() {
    let mut s = streaming();
    let mut expected = vec![Action::PublishAudio(vec![1])];
    expected.extend(keepalive());
    expected.push(Action::Receive(100));
    assert_eq!(s.on_datagram(&media(1, 0, 0, &[1]), T0 + 5000), expected);
    assert_eq!(s.last_keepalive(), T0 + 5000);
}

#[test]
fn clock_that_runs_backwards_sends_nothing() {
    let mut s = streaming();
    assert_eq!(s.on_timeout(T0 - 5000), vec![Action::Receive(100)]);
    assert_eq!(s.on_timeout(0), vec![Action::Receive(100)]);
    assert_eq!(s.last_keepalive(), T0);
}

#[test]
fn video_reassembly() {
    let mut s = streaming();
    assert_eq!(feed(&mut s, &media(0, 7, 0, &[0xaa]), T0 + 1), vec![]);
    assert_eq!(feed(&mut s, &media(0, 7, 1, &[0xbb]), T0 + 2), vec![]);
    assert_eq!(feed(&mut s, &media(0, 7, 2, &[0xcc]), T0 + 3), vec![]);
    assert!(s.last_frame().is_empty());
    assert_eq!(
        feed(&mut s, &media(0, 8, 0, &[0xdd]), T0 + 4),
        vec![Action::PublishVideo(vec![0xaa, 0xbb, 0xcc])]
    );
    assert_eq!(s.frames_dropped(), 0);
    assert_eq!(s.frames_received(), 1);
    assert_eq!(s.last_frame(), &vec![0xaa, 0xbb, 0xcc]);
    assert_eq!(s.fps_start(), Some(T0 + 4));
}

#[test]
fn video_reassembly_out_of_order() {
    let mut s = streaming();
    assert_eq!(feed(&mut s, &media(0, 7, 0, &[0xaa]), T0), vec![]);
    assert_eq!(feed(&mut s, &media(0, 7, 2, &[0xcc]), T0), vec![]);
    assert_eq!(feed(&mut s, &media(0, 7, 1, &[0xbb]), T0), vec![]);
    assert_eq!(
        feed(&mut s, &media(0, 8, 0, &[0xdd]), T0),
        vec![Action::PublishVideo(vec![0xaa, 0xbb, 0xcc])]
    );
}

#[test]
fn dropped_fragment() {
    let mut s = streaming();
    assert_eq!(feed(&mut s, &media(0, 7, 0, &[0xaa]), T0), vec![]);
    assert_eq!(feed(&mut s, &media(0, 7, 2, &[0xcc]), T0), vec![]);
    assert_eq!(feed(&mut s, &media(0, 8, 0, &[0xdd]), T0), vec![Action::Dropped]);
    assert_eq!(s.frames_dropped(), 1);
    assert_eq!(s.frames_received(), 0);
    assert!(s.last_frame().is_empty());
    assert_eq!(s.fps_start(), None);
}

#[test]
fn frame_after_a_drop_is_published() {
    let mut s = streaming();
    feed(&mut s, &media(0, 7, 0, &[1]), T0);
    feed(&mut s, &media(0, 7, 2, &[3]), T0);
    assert_eq!(feed(&mut s, &media(0, 8, 0, &[4]), T0), vec![Action::Dropped]);
    assert_eq!(feed(&mut s, &media(0, 8, 1, &[5]), T0), vec![]);
    assert_eq!(feed(&mut s, &media(0, 9, 0, &[6]), T0), vec![Action::PublishVideo(vec![4, 5])]);
    assert_eq!(s.frames_dropped(), 1);
    assert_eq!(s.frames_received(), 1);
}

#[test]
fn audio_path() {
    let mut s = streaming();
    feed(&mut s, &media(0, 7, 0, &[0xaa]), T0);
    let before = (s.frames_received(), s.frames_dropped(), s.reassembler_is_empty());
    assert_eq!(
        feed(&mut s, &media(1, 3, 0, &[0xde, 0xad]), T0),
        vec![Action::PublishAudio(vec![0xde, 0xad])]
    );
    assert_eq!((s.frames_received(), s.frames_dropped(), s.reassembler_is_empty()), before);
    assert!(s.last_frame().is_empty());
    assert_eq!(feed(&mut s, &media(0, 8, 0, &[0xbb]), T0), vec![Action::PublishVideo(vec![0xaa])]);
}

#[test]
fn audio_leaves_an_empty_reassembler_empty() {
    let mut s = streaming();
    assert_eq!(
        feed(&mut s, &media(1, 0, 0, &[0xde, 0xad]), T0),
        vec![Action::PublishAudio(vec![0xde, 0xad])]
    );
    assert!(s.reassembler_is_empty());
}

#[test]
fn first_boundary_publishes_nothing_and_counts_no_drop() {
    let mut s = streaming();
    assert!(s.reassembler_is_empty());
    assert_eq!(feed(&mut s, &media(0, 1, 0, &[1, 2, 3]), T0), vec![]);
    assert_eq!(s.frames_dropped(), 0);
    assert_eq!(s.frames_received(), 0);
    assert!(!s.reassembler_is_empty());
    assert!(s.last_frame().is_empty());
}

#[test]
fn two_boundaries_with_a_complete_frame_between_publish_once() {
    let mut s = streaming();
    let mut published = Vec::new();
    published.extend(feed(&mut s, &media(0, 1, 0, &[1]), T0));
    published.extend(feed(&mut s, &media(0, 1, 3, &[4]), T0));
    published.extend(feed(&mut s, &media(0, 1, 1, &[2]), T0));
    published.extend(feed(&mut s, &media(0, 1, 2, &[3]), T0));
    published.extend(feed(&mut s, &media(0, 2, 0, &[5]), T0));
    assert_eq!(published, vec![Action::PublishVideo(vec![1, 2, 3, 4])]);
    assert_eq!(s.frames_received(), 1);
}

#[test]
fn consecutive_single_fragment_frames() {
    let mut s = streaming();
    assert_eq!(feed(&mut s, &media(0, 1, 0, &[1]), T0 + 10), vec![]);
    assert_eq!(feed(&mut s, &media(0, 2, 0, &[2]), T0 + 20), vec![Action::PublishVideo(vec![1])]);
    assert_eq!(feed(&mut s, &media(0, 3, 0, &[3]), T0 + 30), vec![Action::PublishVideo(vec![2])]);
    assert_eq!(s.frames_received(), 2);
    assert_eq!(s.fps_start(), Some(T0 + 20));
    assert_eq!(s.last_frame(), &vec![2]);
}

#[test]
fn frame_index_does_not_drive_reassembly() {
    let mut s = streaming();
    feed(&mut s, &media(0, 7, 0, &[1]), T0);
    feed(&mut s, &media(0, 9, 1, &[2]), T0);
    assert_eq!(feed(&mut s, &media(0, 7, 0, &[3]), T0), vec![Action::PublishVideo(vec![1, 2])]);
}

#[test]
fn fragment_without_a_boundary_is_dropped_at_the_next_one() {
    let mut s = streaming();
    assert_eq!(feed(&mut s, &media(0, 7, 1, &[1]), T0), vec![]);
    assert_eq!(feed(&mut s, &media(0, 8, 0, &[2]), T0), vec![Action::Dropped]);
    assert_eq!(s.frames_dropped(), 1);
}

#[test]
fn late_port_response_is_ignored() {
    let mut s = streaming();
    feed(&mut s, &media(0, 7, 0, &[1]), T0);
    assert_eq!(feed(&mut s, &port_response(10000), T0), vec![]);
    assert_eq!(s.phase(), Phase::Streaming);
    assert_eq!(feed(&mut s, &media(0, 8, 0, &[2]), T0), vec![Action::PublishVideo(vec![1])]);
}

#[test]
fn unknown_message_is_an_anomaly_and_the_session_goes_on() {
    let mut s = streaming();
    let mut closed = TTEGHeader::new(1, 0x10, 0x14).encode();
    closed.extend_from_slice(&[0; 0x14]);
    assert_eq!(feed(&mut s, &closed, T0), vec![Action::Anomaly(DecodeError::UnknownCommand)]);
    assert_eq!(feed(&mut s, &[1, 2, 3], T0), vec![Action::Anomaly(DecodeError::ShortBuffer)]);
    assert_eq!(feed(&mut s, &[0u8; 64], T0), vec![Action::Anomaly(DecodeError::BadSignature)]);
    assert_eq!(s.phase(), Phase::Streaming);
    assert_eq!(feed(&mut s, &media(1, 0, 0, &[5]), T0), vec![Action::PublishAudio(vec![5])]);
}

#[test]
fn length_mismatch_is_an_anomaly_and_stores_nothing() {
    let mut s = streaming();
    let d = media(0, 7, 0, &[1, 2, 3, 4]);
    assert_eq!(feed(&mut s, &d[..26], T0), vec![Action::Anomaly(DecodeError::LengthMismatch)]);
    assert!(s.reassembler_is_empty());
    let a = media(1, 7, 0, &[1, 2, 3, 4]);
    assert_eq!(feed(&mut s, &a[..27], T0), vec![Action::Anomaly(DecodeError::LengthMismatch)]);
    assert_eq!(s.frames_dropped(), 0);
}

#[test]
fn payload_offset_rule_is_applied_to_media() {
    let mut s = streaming();
    let mut d = MediaFrame {
        header: TTEGHeader::new(2, 0x03, 16 + 4 + 2),
        unknown_0: 1,
        unknown_1: 1,
        is_audio: 1,
        frame_index: 0,
        pkt_index: 0,
        media_data_len: 2,
    }
    .encode();
    d.extend_from_slice(&[9, 9, 9, 9, 0xde, 0xad, 0x00, 0x00]);
    assert_eq!(feed(&mut s, &d, T0), vec![Action::PublishAudio(vec![0xde, 0xad])]);
}
