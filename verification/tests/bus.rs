use chinesium::bus::{delivered, open_bus, publish, BUS_CAPACITY};
use chinesium::header::TTEGHeader;
use chinesium::media::MediaFrame;
use chinesium::session::{Action, Session};
use tokio::sync::broadcast::error::TryRecvError;

fn fragment(is_audio: u16, pkt_index: u16, payload: &[u8]) -> Vec<u8> {
    let mut out = MediaFrame {
        header: TTEGHeader::new(2, 0x03, (16 + payload.len()) as u16),
        unknown_0: 1,
        unknown_1: 1,
        is_audio,
        frame_index: 0,
        pkt_index,
        media_data_len: payload.len() as u32,
    }
    .encode();
    out.extend_from_slice(payload);
    out
}

#[test]
fn delivered_counts_subscribers() {
    assert_eq!(delivered(None), 0);
    assert_eq!(delivered(Some(1)), 1);
    assert_eq!(delivered(Some(17)), 17);
}

#[test]
fn publish_without_subscribers_is_a_non_event() {
    let bus = open_bus();
    assert_eq!(publish(&bus, vec![1, 2, 3]), 0);
    assert_eq!(publish(&bus, vec![4]), 0);
    let mut late = bus.subscribe();
    assert_eq!(late.try_recv(), Err(TryRecvError::Empty));
}

#[test]
fn publish_reaches_every_subscriber_in_order() {
    let bus = open_bus();
    let mut a = bus.subscribe();
    assert_eq!(publish(&bus, vec![1]), 1);
    let mut b = bus.subscribe();
    assert_eq!(publish(&bus, vec![2, 2]), 2);
    assert_eq!(publish(&bus, vec![]), 2);
    assert_eq!(a.try_recv(), Ok(vec![1]));
    assert_eq!(a.try_recv(), Ok(vec![2, 2]));
    assert_eq!(a.try_recv(), Ok(vec![]));
    assert_eq!(a.try_recv(), Err(TryRecvError::Empty));
    assert_eq!(b.try_recv(), Ok(vec![2, 2]));
    assert_eq!(b.try_recv(), Ok(vec![]));
    assert_eq!(b.try_recv(), Err(TryRecvError::Empty));
}

#[test]
fn bus_keeps_its_capacity_for_a_slow_subscriber() {
    assert_eq!(BUS_CAPACITY, 40);
    let bus = open_bus();
    let mut slow = bus.subscribe();
    for i in 0..40u8 {
        assert_eq!(publish(&bus, vec![i]), 1);
    }
    for i in 0..40u8 {
        assert_eq!(slow.try_recv(), Ok(vec![i]));
    }
    assert_eq!(slow.try_recv(), Err(TryRecvError::Empty));
}

#[test]
fn slow_subscriber_loses_the_oldest_and_stays_subscribed() {
    let bus = open_bus();
    let mut slow = bus.subscribe();
    let mut quick = bus.subscribe();
    for i in 0..200u8 {
        assert_eq!(publish(&bus, vec![i]), 2);
        assert_eq!(quick.try_recv(), Ok(vec![i]));
    }
    assert!(matches!(slow.try_recv(), Err(TryRecvError::Lagged(_))));
    let first = slow.try_recv().unwrap();
    assert!(first[0] > 0);
    let mut last = first[0];
    while let Ok(item) = slow.try_recv() {
        assert_eq!(item[0], last + 1);
        last = item[0];
    }
    assert_eq!(last, 199);
    assert_eq!(publish(&bus, vec![0xff]), 2);
    assert_eq!(slow.try_recv(), Ok(vec![0xff]));
}

#[test]
fn dropped_subscriber_is_reclaimed() {
    let bus = open_bus();
    let a = bus.subscribe();
    let _b = bus.subscribe();
    assert_eq!(publish(&bus, vec![1]), 2);
    drop(a);
    assert_eq!(publish(&bus, vec![2]), 1);
}

#[test]
fn session_frames_reach_the_buses() {
    let video = open_bus();
    let audio = open_bus();
    let mut video_rx = video.subscribe();
    let mut audio_rx = audio.subscribe();

    let mut s = Session::new();
    s.start();
    let reply = chinesium::handshake::PortResponse {
        header: TTEGHeader::new(1, 0x0c, 68),
        unknown_1: 0,
        unknown_2: 0,
        udp_info: chinesium::udp_info::TUDPInfo::new(10000, [10, 0, 0, 2]),
        cam_name: [0; 28],
        unknown_3: 0,
    }
    .encode();
    s.on_datagram(&reply, 1);
    s.on_local_addr(Some((5000, [10, 0, 0, 1])), 1);

    let datagrams = [
        fragment(0, 0, &[0xaa]),
        fragment(0, 1, &[0xbb]),
        fragment(1, 0, &[0xde, 0xad]),
        fragment(0, 2, &[0xcc]),
        fragment(0, 0, &[0x01]),
    ];
    for d in datagrams.iter() {
        for action in s.on_datagram(d, 2) {
            match action {
                Action::PublishVideo(frame) => assert_eq!(publish(&video, frame), 1),
                Action::PublishAudio(frame) => assert_eq!(publish(&audio, frame), 1),
                _ => {}
            }
        }
    }
    assert_eq!(audio_rx.try_recv(), Ok(vec![0xde, 0xad]));
    assert_eq!(audio_rx.try_recv(), Err(TryRecvError::Empty));
    assert_eq!(video_rx.try_recv(), Ok(vec![0xaa, 0xbb, 0xcc]));
    assert_eq!(video_rx.try_recv(), Err(TryRecvError::Empty));
    assert_eq!(s.last_frame(), &vec![0xaa, 0xbb, 0xcc]);
    assert_eq!(s.frames_dropped(), 0);
}
