use stream_playback::bytes::{push_le, push_sample, read_i16, read_i32};
use stream_playback::receiver::{
    local_bind, read_channel0, uses_register, Delivery, Receiver, REGISTER, WARN_INTERVAL_NANOS,
};
use stream_playback::stats::Stats;
use stream_playback::text::host_port;

/// A packet with this number and these channels, one after the other.
fn packet(id: i32, channels: &[&[i16]]) -> Vec<u8> {
    let mut bytes = vec![0xaau8; 8];
    bytes.extend_from_slice(&id.to_le_bytes());
    for channel in channels {
        for sample in *channel {
            bytes.extend_from_slice(&sample.to_le_bytes());
        }
    }
    bytes
}

fn hear(receiver: &mut Receiver, stats: &mut Stats, id: i32) -> Delivery {
    receiver.on_datagram(stats, &packet(id, &[&[1, -2]]), 0)
}

fn samples(delivery: Delivery) -> Vec<i16> {
    match delivery {
        Delivery::Samples(samples) => samples,
        other => panic!("no samples: {:?}", other),
    }
}

#[test]
fn first_packet_may_have_any_number() {
    for id in [0, 7, -1, i32::MAX, i32::MIN] {
        let mut receiver = Receiver::new(16, 2);
        let mut stats = Stats::default();
        assert_eq!(samples(hear(&mut receiver, &mut stats, id)), vec![1, -2]);
        assert_eq!(stats.snapshot(), (1, 0, id));
        assert_eq!(receiver.last_pkt_id, Some(id));
    }
}

#[test]
fn gaps_are_counted_as_lost() {
    let mut receiver = Receiver::new(16, 2);
    let mut stats = Stats::default();
    hear(&mut receiver, &mut stats, 10);
    hear(&mut receiver, &mut stats, 11);
    assert_eq!(stats.snapshot(), (2, 0, 11));
    hear(&mut receiver, &mut stats, 15);
    assert_eq!(stats.snapshot(), (3, 3, 15));
    // The widest gap that is bridged.
    hear(&mut receiver, &mut stats, 15 + 999);
    assert_eq!(stats.snapshot(), (4, 3 + 998, 1014));
}

#[test]
fn wide_gaps_duplicates_and_late_packets_do_not_count() {
    let mut receiver = Receiver::new(16, 2);
    let mut stats = Stats::default();
    hear(&mut receiver, &mut stats, 500);
    for id in [500, 499, 1, 1500, 2000, -500, i32::MIN, i32::MAX] {
        assert!(matches!(hear(&mut receiver, &mut stats, id), Delivery::OutOfSequence));
        assert_eq!(stats.snapshot(), (1, 0, 500));
        assert_eq!(receiver.last_pkt_id, Some(500));
    }
    hear(&mut receiver, &mut stats, 501);
    assert_eq!(stats.snapshot(), (2, 0, 501));
}

#[test]
fn packet_numbers_go_round() {
    let mut receiver = Receiver::new(16, 2);
    let mut stats = Stats::default();
    hear(&mut receiver, &mut stats, i32::MAX - 1);
    hear(&mut receiver, &mut stats, i32::MIN + 1);
    assert_eq!(stats.snapshot(), (2, 2, i32::MIN + 1));
}

#[test]
fn received_and_lost_add_up_to_the_way_gone() {
    let mut receiver = Receiver::new(16, 2);
    let mut stats = Stats::default();
    for id in [100, 101, 103, 102, 103, 200, 5000, 201, 250] {
        hear(&mut receiver, &mut stats, id);
    }
    let (received, lost, latest) = stats.snapshot();
    assert_eq!(latest, 250);
    assert_eq!(received, 6);
    assert_eq!(received + lost, 250 - 100 + 1);
}

#[test]
fn counters_go_round() {
    let mut receiver = Receiver::new(16, 2);
    let mut stats = Stats { received: u64::MAX, lost: u64::MAX, latest_pkt_id: 4 };
    receiver.last_pkt_id = Some(4);
    hear(&mut receiver, &mut stats, 7);
    assert_eq!(stats.snapshot(), (0, 1, 7));
}

#[test]
fn only_the_first_channel_is_delivered() {
    let mut receiver = Receiver::new(12 + 3 * 4, 2);
    let mut stats = Stats::default();
    let data = packet(1, &[&[0x1234, i16::MIN], &[9, 9], &[8, 8]]);
    assert_eq!(samples(receiver.on_datagram(&mut stats, &data, 0)), vec![0x1234, i16::MIN]);
    let data = packet(2, &[&[0x1234, i16::MIN], &[5, 5], &[4, 4]]);
    assert_eq!(samples(receiver.on_datagram(&mut stats, &data, 0)), vec![0x1234, i16::MIN]);
}

#[test]
fn packet_too_short_for_the_first_channel_counts_without_audio() {
    let mut receiver = Receiver::new(16, 3);
    let mut stats = Stats::default();
    assert!(matches!(hear(&mut receiver, &mut stats, 3), Delivery::NoAudio));
    assert_eq!(stats.snapshot(), (1, 0, 3));
}

#[test]
fn header_alone_is_a_packet_of_no_samples() {
    let mut receiver = Receiver::new(12, 0);
    let mut stats = Stats::default();
    let delivery = receiver.on_datagram(&mut stats, &packet(1, &[]), 0);
    assert!(samples(delivery).is_empty());
}

#[test]
fn datagram_of_another_size_is_left_alone() {
    let mut receiver = Receiver::new(16, 2);
    let mut stats = Stats::default();
    let data = packet(1, &[&[1]]);
    let delivery = receiver.on_datagram(&mut stats, &data, WARN_INTERVAL_NANOS + 1);
    assert!(matches!(delivery, Delivery::WrongSize { warn: true }));
    let delivery = receiver.on_datagram(&mut stats, &data, WARN_INTERVAL_NANOS);
    assert!(matches!(delivery, Delivery::WrongSize { warn: false }));
    let delivery = receiver.on_datagram(&mut stats, &[], 0);
    assert!(matches!(delivery, Delivery::WrongSize { warn: false }));
    assert_eq!(stats, Stats::default());
    assert_eq!(receiver.last_pkt_id, None);
}

#[test]
fn register_is_sent_without_a_fixed_port() {
    assert_eq!(REGISTER.as_bytes(), b"register");
    assert!(uses_register(None));
    assert!(!uses_register(Some(7999)));
}

#[test]
fn addresses_to_bind_and_to_connect() {
    assert_eq!(local_bind(Some(7999)), "0.0.0.0:7999");
    assert_eq!(local_bind(None), "0.0.0.0:0");
    assert_eq!(host_port("192.168.1.10", 7998), "192.168.1.10:7998");
    assert_eq!(host_port("localhost", 65535), "localhost:65535");
}

#[test]
fn little_endian_numbers() {
    for n in [0, 1, -1, 258, -32768, i32::MAX, i32::MIN, 0x12345678] {
        assert_eq!(read_i32(&n.to_le_bytes(), 0), n);
    }
    for n in [0i16, 1, -1, 258, i16::MAX, i16::MIN] {
        let mut bytes = vec![7u8];
        push_sample(&mut bytes, n);
        assert_eq!(bytes[1..], n.to_le_bytes());
        assert_eq!(read_i16(&bytes, 1), n);
    }
    for n in [0u64, 1, 258, u64::MAX, 0x0123456789abcdef] {
        let mut bytes = Vec::new();
        push_le(&mut bytes, n, 8);
        assert_eq!(bytes, n.to_le_bytes());
    }
    assert_eq!(read_channel0(&packet(1, &[&[5, -6]]), 2), vec![5, -6]);
}
