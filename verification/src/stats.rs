//! Packet counters and the line that reports them once a second.

use crate::text::decimal;
use crate::text::is_decimal;
use crate::text::is_padded_decimal;
use crate::text::law_left_aligned_is_padded;
use crate::text::law_signed_decimal_reads_back;
use crate::text::law_two_digits_read_back;
use crate::text::left_aligned;
use crate::text::push_left_aligned;
use crate::text::push_signed_decimal;
use crate::text::push_two_digits;
use crate::text::signed_decimal;
use crate::text::two_digits;
use vstd::prelude::*;
use vstd::string::StringExecFns;

verus! {

/// `n` as a counter of 64 bits holds it.
pub open spec fn wrap_u64(n: int) -> u64 {
    (n % 0x1_0000_0000_0000_0000) as u64
}

/// What is left of `a` after taking away `b`, but never less than nothing.
pub open spec fn saturating_difference(a: u64, b: u64) -> u64 {
    if a >= b {
        (a - b) as u64
    } else {
        0
    }
}

/// Counters over all packets that were heard.
#[derive(Debug, Clone, Copy, PartialEq, Eq)]
pub struct Stats {
    /// Packets that were accepted.
    pub received: u64,
    /// Packets that the gaps between accepted packets show to be missing.
    pub lost: u64,
    /// The number of the packet that was accepted last.
    pub latest_pkt_id: i32,
}

impl Default for Stats {
    fn default() -> (stats: Stats)
        ensures
            stats == (Stats { received: 0, lost: 0, latest_pkt_id: 0 }),
    {
        Stats { received: 0, lost: 0, latest_pkt_id: 0 }
    }
}

impl Stats {
    /// The counters after packet `id` was accepted, with `missed` packets lost before it.
    pub open spec fn counted(self, missed: nat, id: i32) -> Stats {
        Stats {
            received: wrap_u64(self.received + 1),
            lost: wrap_u64(self.lost + missed),
            latest_pkt_id: id,
        }
    }

    /// Counts packet `id`, with `missed` packets lost before it.
    pub fn count(&mut self, missed: u64, id: i32)
        ensures
            *final(self) == old(self).counted(missed as nat, id),
    {
        self.lost = self.lost.wrapping_add(missed);
        self.received = self.received.wrapping_add(1);
        self.latest_pkt_id = id;
    }

    /// Packets received, packets lost, and the latest packet number.
    pub fn snapshot(&self) -> (all: (u64, u64, i32))
        ensures
            all == (self.received, self.lost, self.latest_pkt_id),
    {
        (self.received, self.lost, self.latest_pkt_id)
    }
}

/// A counter that goes round holds the remainder of what was counted, so that it does not matter
/// where on the way it went round.
pub proof fn law_wrapped_sum(n: int, more: int)
    ensures
        wrap_u64(wrap_u64(n) + more) == wrap_u64(n + more),
        (wrap_u64(n) - n) % 0x1_0000_0000_0000_0000 == 0,
        0 <= n <= u64::MAX ==> wrap_u64(n) == n,
{
    vstd::arithmetic::div_mod::lemma_add_mod_noop(n, more, 0x1_0000_0000_0000_0000);
    vstd::arithmetic::div_mod::lemma_add_mod_noop(
        n % 0x1_0000_0000_0000_0000,
        more,
        0x1_0000_0000_0000_0000,
    );
}

/// The report: wall clock (UTC), packets of the last second, totals, latest packet number.
pub open spec fn stats_line(
    unix_secs: u64,
    delta_recv: u64,
    delta_lost: u64,
    received: u64,
    lost: u64,
    pkt_id: i32,
) -> Seq<char> {
    "["@ + two_digits(((unix_secs / 3600) % 24) as nat) + ":"@ + two_digits(
        ((unix_secs / 60) % 60) as nat,
    ) + ":"@ + two_digits((unix_secs % 60) as nat) + "] recv/s="@ + left_aligned(
        decimal(delta_recv as nat),
        5,
    ) + " lost/s="@ + left_aligned(decimal(delta_lost as nat), 5) + " total_recv="@ + left_aligned(
        decimal(received as nat),
        5,
    ) + " total_lost="@ + left_aligned(decimal(lost as nat), 3) + " pkt_id="@ + signed_decimal(
        pkt_id as int,
    )
}

/// Writes the report.
pub fn format_stats_line(
    unix_secs: u64,
    delta_recv: u64,
    delta_lost: u64,
    received: u64,
    lost: u64,
    pkt_id: i32,
) -> (line: String)
    ensures
        line@ == stats_line(unix_secs, delta_recv, delta_lost, received, lost, pkt_id),
{
    let mut line = "[".to_string();
    push_two_digits(&mut line, (unix_secs / 3600) % 24);
    line.append(":");
    push_two_digits(&mut line, (unix_secs / 60) % 60);
    line.append(":");
    push_two_digits(&mut line, unix_secs % 60);
    line.append("] recv/s=");
    push_left_aligned(&mut line, delta_recv, 5);
    line.append(" lost/s=");
    push_left_aligned(&mut line, delta_lost, 5);
    line.append(" total_recv=");
    push_left_aligned(&mut line, received, 5);
    line.append(" total_lost=");
    push_left_aligned(&mut line, lost, 3);
    line.append(" pkt_id=");
    push_signed_decimal(&mut line, pkt_id);
    line
}

/// What the last report said, so that the next one can tell what came since.
#[derive(Debug, Clone, Copy, PartialEq, Eq)]
pub struct StatsReporter {
    pub last_received: u64,
    pub last_lost: u64,
}

impl StatsReporter {
    /// Nothing was reported yet.
    pub fn new() -> (reporter: StatsReporter)
        ensures
            reporter == (StatsReporter { last_received: 0, last_lost: 0 }),
    {
        StatsReporter { last_received: 0, last_lost: 0 }
    }

    /// The report for a snapshot of the counters, taken `unix_secs` after the epoch.
    pub fn report(&mut self, snapshot: (u64, u64, i32), unix_secs: u64) -> (line: String)
        ensures
            final(self).last_received == snapshot.0,
            final(self).last_lost == snapshot.1,
            line@ == stats_line(
                unix_secs,
                saturating_difference(snapshot.0, old(self).last_received),
                saturating_difference(snapshot.1, old(self).last_lost),
                snapshot.0,
                snapshot.1,
                snapshot.2,
            ),
    {
        let (received, lost, pkt_id) = snapshot;
        let delta_recv = received.saturating_sub(self.last_received);
        let delta_lost = lost.saturating_sub(self.last_lost);
        self.last_received = received;
        self.last_lost = lost;
        format_stats_line(unix_secs, delta_recv, delta_lost, received, lost, pkt_id)
    }
}

/// The sum of what the reports of `readings` say came since the report before.
pub open spec fn sum_of_rates(readings: Seq<u64>) -> int
    decreases readings.len(),
{
    if readings.len() == 0 {
        0
    } else {
        let before: u64 = if readings.len() == 1 {
            0
        } else {
            readings[readings.len() - 2]
        };
        sum_of_rates(readings.drop_last()) + saturating_difference(readings.last(), before)
    }
}

/// As long as a counter does not run backwards, the rates that were reported add up to it.
pub proof fn law_rates_add_up(readings: Seq<u64>)
    requires
        readings.len() > 0,
        forall|i: int, j: int| 0 <= i <= j < readings.len() ==> readings[i] <= readings[j],
    ensures
        sum_of_rates(readings) == readings.last(),
    decreases readings.len(),
{
    if readings.len() > 1 {
        law_rates_add_up(readings.drop_last());
    } else {
        assert(sum_of_rates(readings.drop_last()) == 0);
    }
}

/// Counting a packet adds one to what was received, and what is missing before it to what was
/// lost, in counters that go round after 64 bits; the packet is then the latest.
pub proof fn law_counting_adds_up(before: Stats, missed: u64, id: i32, after: Stats)
    requires
        exists|s: &mut Stats|
            *s == before && *final(s) == after && #[trigger] call_ensures(
                Stats::count,
                (s, missed, id),
                (),
            ),
    ensures
        (after.received - (before.received + 1)) % 0x1_0000_0000_0000_0000 == 0,
        (after.lost - (before.lost + missed)) % 0x1_0000_0000_0000_0000 == 0,
        after.latest_pkt_id == id,
{
    law_wrapped_sum(before.received + 1, 0);
    law_wrapped_sum(before.lost + missed, 0);
}

/// A snapshot holds the three counters, each in its place; at the start they are zero.
pub proof fn law_snapshot_holds_the_counters(
    stats: Stats,
    all: (u64, u64, i32),
    fresh: Stats,
    reporter: StatsReporter,
)
    requires
        call_ensures(Stats::snapshot, (&stats,), all),
        call_ensures(<Stats as Default>::default, (), fresh),
        call_ensures(StatsReporter::new, (), reporter),
    ensures
        all.0 == stats.received,
        all.1 == stats.lost,
        all.2 == stats.latest_pkt_id,
        fresh.received == 0,
        fresh.lost == 0,
        fresh.latest_pkt_id == 0,
        reporter.last_received == 0,
        reporter.last_lost == 0,
{
}

/// The parts of a report.
pub struct ReportParts {
    pub hour: Seq<char>,
    pub minute: Seq<char>,
    pub second: Seq<char>,
    pub recv_rate: Seq<char>,
    pub lost_rate: Seq<char>,
    pub total_recv: Seq<char>,
    pub total_lost: Seq<char>,
    pub pkt_id: Seq<char>,
}

/// `text` is two digits that read as `n`.
pub open spec fn is_two_digits(text: Seq<char>, n: int) -> bool {
    &&& text.len() == 2
    &&& '0' <= text[0] <= '9'
    &&& '0' <= text[1] <= '9'
    &&& 10 * (text[0] as int - '0' as int) + (text[1] as int - '0' as int) == n
}

/// There is no other way to write a number below a hundred in two digits.
pub proof fn law_two_digits_are_unique(text: Seq<char>, n: int)
    requires
        is_two_digits(text, n),
    ensures
        0 <= n < 100,
        text == two_digits(n as nat),
{
    law_two_digits_read_back(n as nat);
    assert(text =~= two_digits(n as nat));
}

/// The line of a report tells the time of the day in hours, minutes and seconds, and then each of
/// the numbers behind its name.
pub proof fn law_line_tells_its_numbers(
    unix_secs: u64,
    delta_recv: u64,
    delta_lost: u64,
    received: u64,
    lost: u64,
    pkt_id: i32,
    line: String,
) -> (parts: ReportParts)
    requires
        call_ensures(
            format_stats_line,
            (unix_secs, delta_recv, delta_lost, received, lost, pkt_id),
            line,
        ),
    ensures
        line@ == "["@ + parts.hour + ":"@ + parts.minute + ":"@ + parts.second + "] recv/s="@
            + parts.recv_rate + " lost/s="@ + parts.lost_rate + " total_recv="@ + parts.total_recv
            + " total_lost="@ + parts.total_lost + " pkt_id="@ + parts.pkt_id,
        is_two_digits(parts.hour, unix_secs as int / 3600 % 24),
        is_two_digits(parts.minute, unix_secs as int / 60 % 60),
        is_two_digits(parts.second, unix_secs as int % 60),
        is_padded_decimal(parts.recv_rate, delta_recv as int, 5),
        is_padded_decimal(parts.lost_rate, delta_lost as int, 5),
        is_padded_decimal(parts.total_recv, received as int, 5),
        is_padded_decimal(parts.total_lost, lost as int, 3),
        pkt_id >= 0 ==> is_decimal(parts.pkt_id, pkt_id as int),
        pkt_id < 0 ==> parts.pkt_id.len() > 0 && parts.pkt_id[0] == '-' && is_decimal(
            parts.pkt_id.skip(1),
            -pkt_id,
        ),
{
    lemma_report_parts(unix_secs, delta_recv, delta_lost, received, lost, pkt_id)
}

/// A report tells what came and what was lost since the report before, which is nothing where a
/// counter ran backwards; the totals; and the number of the latest packet. The next report counts
/// from this one.
pub proof fn law_report_tells_the_counters(
    before: StatsReporter,
    snapshot: (u64, u64, i32),
    unix_secs: u64,
    after: StatsReporter,
    line: String,
) -> (parts: ReportParts)
    requires
        exists|r: &mut StatsReporter|
            *r == before && *final(r) == after && #[trigger] call_ensures(
                StatsReporter::report,
                (r, snapshot, unix_secs),
                line,
            ),
    ensures
        after.last_received == snapshot.0,
        after.last_lost == snapshot.1,
        line@ == "["@ + parts.hour + ":"@ + parts.minute + ":"@ + parts.second + "] recv/s="@
            + parts.recv_rate + " lost/s="@ + parts.lost_rate + " total_recv="@ + parts.total_recv
            + " total_lost="@ + parts.total_lost + " pkt_id="@ + parts.pkt_id,
        is_two_digits(parts.hour, unix_secs as int / 3600 % 24),
        is_two_digits(parts.minute, unix_secs as int / 60 % 60),
        is_two_digits(parts.second, unix_secs as int % 60),
        is_padded_decimal(
            parts.recv_rate,
            if snapshot.0 >= before.last_received {
                snapshot.0 - before.last_received
            } else {
                0
            },
            5,
        ),
        is_padded_decimal(
            parts.lost_rate,
            if snapshot.1 >= before.last_lost {
                snapshot.1 - before.last_lost
            } else {
                0
            },
            5,
        ),
        is_padded_decimal(parts.total_recv, snapshot.0 as int, 5),
        is_padded_decimal(parts.total_lost, snapshot.1 as int, 3),
        snapshot.2 >= 0 ==> is_decimal(parts.pkt_id, snapshot.2 as int),
        snapshot.2 < 0 ==> parts.pkt_id.len() > 0 && parts.pkt_id[0] == '-' && is_decimal(
            parts.pkt_id.skip(1),
            -snapshot.2,
        ),
{
    lemma_report_parts(
        unix_secs,
        saturating_difference(snapshot.0, before.last_received),
        saturating_difference(snapshot.1, before.last_lost),
        snapshot.0,
        snapshot.1,
        snapshot.2,
    )
}

proof fn lemma_report_parts(
    unix_secs: u64,
    delta_recv: u64,
    delta_lost: u64,
    received: u64,
    lost: u64,
    pkt_id: i32,
) -> (parts: ReportParts)
    ensures
        stats_line(unix_secs, delta_recv, delta_lost, received, lost, pkt_id) == "["@ + parts.hour + ":"@ + parts.minute + ":"@ + parts.second + "] recv/s="@
            + parts.recv_rate + " lost/s="@ + parts.lost_rate + " total_recv="@ + parts.total_recv
            + " total_lost="@ + parts.total_lost + " pkt_id="@ + parts.pkt_id,
        is_two_digits(parts.hour, unix_secs as int / 3600 % 24),
        is_two_digits(parts.minute, unix_secs as int / 60 % 60),
        is_two_digits(parts.second, unix_secs as int % 60),
        is_padded_decimal(parts.recv_rate, delta_recv as int, 5),
        is_padded_decimal(parts.lost_rate, delta_lost as int, 5),
        is_padded_decimal(parts.total_recv, received as int, 5),
        is_padded_decimal(parts.total_lost, lost as int, 3),
        pkt_id >= 0 ==> is_decimal(parts.pkt_id, pkt_id as int),
        pkt_id < 0 ==> parts.pkt_id.len() > 0 && parts.pkt_id[0] == '-' && is_decimal(
            parts.pkt_id.skip(1),
            -pkt_id,
        ),
{
    law_two_digits_read_back(((unix_secs / 3600) % 24) as nat);
    law_two_digits_read_back(((unix_secs / 60) % 60) as nat);
    law_two_digits_read_back((unix_secs % 60) as nat);
    law_left_aligned_is_padded(delta_recv as nat, 5);
    law_left_aligned_is_padded(delta_lost as nat, 5);
    law_left_aligned_is_padded(received as nat, 5);
    law_left_aligned_is_padded(lost as nat, 3);
    law_signed_decimal_reads_back(pkt_id as int);
    ReportParts {
        hour: two_digits(((unix_secs / 3600) % 24) as nat),
        minute: two_digits(((unix_secs / 60) % 60) as nat),
        second: two_digits((unix_secs % 60) as nat),
        recv_rate: left_aligned(decimal(delta_recv as nat), 5),
        lost_rate: left_aligned(decimal(delta_lost as nat), 5),
        total_recv: left_aligned(decimal(received as nat), 5),
        total_lost: left_aligned(decimal(lost as nat), 3),
        pkt_id: signed_decimal(pkt_id as int),
    }
}

} // verus!
