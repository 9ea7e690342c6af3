use stream_playback::stats::{format_stats_line, Stats, StatsReporter};
use stream_playback::text::{push_decimal, push_hex, push_left_aligned, push_signed_decimal};

#[test]
fn line_of_the_manual() {
    let mut reporter = StatsReporter::new();
    let secs = 86400 * 20000 + 12 * 3600 + 34 * 60 + 57;
    assert_eq!(
        reporter.report((500, 0, 499), secs),
        "[12:34:57] recv/s=500   lost/s=0     total_recv=500   total_lost=0   pkt_id=499"
    );
}

#[test]
fn rates_are_what_came_since() {
    let mut reporter = StatsReporter::new();
    reporter.report((500, 2, 501), 0);
    assert_eq!(
        reporter.report((1000, 5, -3), 3661),
        "[01:01:01] recv/s=500   lost/s=3     total_recv=1000  total_lost=5   pkt_id=-3"
    );
    assert_eq!((reporter.last_received, reporter.last_lost), (1000, 5));
}

#[test]
fn counter_that_runs_backwards_has_no_rate() {
    let mut reporter = StatsReporter { last_received: 10, last_lost: 10 };
    let line = reporter.report((4, 10, 0), 86399);
    assert!(line.starts_with("[23:59:59] recv/s=0     lost/s=0     "));
    assert_eq!(reporter.last_received, 4);
}

#[test]
fn rates_add_up_to_the_total() {
    let mut reporter = StatsReporter::new();
    let mut sum = 0;
    for total in [3u64, 3, 10, 500, 501] {
        let line = reporter.report((total, 0, 0), 0);
        let rate = &line["[00:00:00] recv/s=".len()..line.find(" lost/s=").unwrap()];
        sum += rate.trim().parse::<u64>().unwrap();
    }
    assert_eq!(sum, 501);
}

#[test]
fn wide_numbers_push_the_line_out() {
    let line = format_stats_line(0, u64::MAX, 123456, u64::MAX, 1234, i32::MIN);
    assert_eq!(
        line,
        "[00:00:00] recv/s=18446744073709551615 lost/s=123456 total_recv=18446744073709551615 \
         total_lost=1234 pkt_id=-2147483648"
    );
}

#[test]
fn snapshot_and_count() {
    let mut stats = Stats::default();
    assert_eq!(stats.snapshot(), (0, 0, 0));
    stats.count(3, 9);
    stats.count(0, 10);
    assert_eq!(stats.snapshot(), (2, 3, 10));
}

#[test]
fn numbers_as_text() {
    for n in [0u64, 9, 10, 99, 100, 65535, u64::MAX] {
        let mut s = String::from(">");
        assert_eq!(push_decimal(&mut s, n), n.to_string().len() as u64);
        assert_eq!(s, format!(">{}", n));
        let mut s = String::new();
        push_left_aligned(&mut s, n, 5);
        assert_eq!(s, format!("{:<5}", n));
    }
    for i in [0, 5, -5, i32::MAX, i32::MIN] {
        let mut s = String::new();
        push_signed_decimal(&mut s, i);
        assert_eq!(s, i.to_string());
    }
    let mut s = String::new();
    push_hex(&mut s, &[0x00, 0x9a, 0xff, 0x10]);
    assert_eq!(s, "009aff10");
}
