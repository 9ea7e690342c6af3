//! The receiving end of the audio stream: which datagrams count, and the samples they carry.
//!
//! A packet is a header of twelve bytes, whose last four are the packet number, and then the
//! channels one after the other, each a block of 16-bit samples. Only the first channel is played.

use crate::bytes::le_bytes;
use crate::bytes::le_i16;
use crate::bytes::le_i32;
use crate::bytes::law_packet_number_is_its_four_bytes;
use crate::bytes::law_sample_is_its_two_bytes;
use crate::bytes::law_sample_round_trip;
use crate::bytes::read_i16;
use crate::bytes::read_i32;
use crate::bytes::to_unsigned;
use crate::stats::law_wrapped_sum;
use crate::stats::wrap_u64;
use crate::stats::Stats;
use crate::text::decimal;
use crate::text::host_and_port;
use crate::text::host_port;
use crate::text::is_decimal;
use crate::text::law_decimal_reads_back;
use vstd::prelude::*;

verus! {

/// Bytes in front of the first sample.
pub const HEADER_LEN: usize = 12;

/// Where the packet number stands in the header.
pub const ID_OFFSET: usize = 8;

/// A step of this many packet numbers, or more, is not taken for a gap.
pub const MAX_STEP: i32 = 1000;

/// The least time between two warnings about the size of a packet, in nanoseconds.
pub const WARN_INTERVAL_NANOS: u128 = 1_000_000_000;

/// The time from one `REGISTER` to the next, in seconds.
pub const REGISTER_INTERVAL_SECS: u64 = 2;

/// What the client sends to ask for the stream.
pub const REGISTER: &'static str = "register";

/// The packet number in the header of a packet.
pub open spec fn packet_id(packet: Seq<u8>) -> i32 {
    le_i32(packet, ID_OFFSET as int)
}

/// The samples of the first channel.
pub open spec fn channel0(packet: Seq<u8>, sample_per_packet: nat) -> Seq<i16> {
    Seq::new(sample_per_packet, |i: int| le_i16(packet, HEADER_LEN + 2 * i))
}

/// How far `id` is ahead of `last`; the packet numbers go round after the largest one.
pub open spec fn step_from(last: i32, id: i32) -> int {
    let d = id - last;
    if d > 0x7fff_ffff {
        d - 0x1_0000_0000
    } else if d < -0x8000_0000 {
        d + 0x1_0000_0000
    } else {
        d
    }
}

/// How many packets are missing between the last packet and packet `id`, where `id` may follow:
/// the first packet may have any number, and a later one must be ahead by less than `MAX_STEP`.
pub open spec fn missed(last: Option<i32>, id: i32) -> Option<nat> {
    match last {
        None => Some(0),
        Some(last) => if 1 <= step_from(last, id) < MAX_STEP {
            Some((step_from(last, id) - 1) as nat)
        } else {
            None
        },
    }
}

/// What became of a datagram.
#[derive(Debug)]
pub enum Delivery {
    /// It was counted, and these are its samples.
    Samples(Vec<i16>),
    /// It was counted, but it is too short to hold the first channel.
    NoAudio,
    /// Its number does not follow, and it was not counted.
    OutOfSequence,
    /// It has not the size of a packet. `warn` tells whether to say so.
    WrongSize { warn: bool },
}

/// Takes in the datagrams of one stream.
#[derive(Debug)]
pub struct Receiver {
    /// The size of a packet, in bytes.
    pub pkt_len: usize,
    /// Samples of one channel in a packet.
    pub sample_per_packet: usize,
    /// The number of the packet that was accepted last.
    pub last_pkt_id: Option<i32>,
}

impl Receiver {
    /// A receiver that has not heard anything.
    pub fn new(pkt_len: usize, sample_per_packet: usize) -> (receiver: Receiver)
        ensures
            receiver == (Receiver { pkt_len, sample_per_packet, last_pkt_id: None }),
    {
        Receiver { pkt_len, sample_per_packet, last_pkt_id: None }
    }

    /// What a datagram does to the receiver, to the counters, and what it delivers.
    pub open spec fn takes(
        self,
        stats: Stats,
        data: Seq<u8>,
        since_warning_nanos: u128,
        receiver_after: Receiver,
        stats_after: Stats,
        delivery: Delivery,
    ) -> bool {
        if data.len() != self.pkt_len {
            &&& receiver_after == self
            &&& stats_after == stats
            &&& delivery == (Delivery::WrongSize {
                warn: since_warning_nanos > WARN_INTERVAL_NANOS,
            })
        } else {
            let id = packet_id(data);
            match missed(self.last_pkt_id, id) {
                None => {
                    &&& receiver_after == self
                    &&& stats_after == stats
                    &&& delivery == Delivery::OutOfSequence
                },
                Some(missed) => {
                    &&& receiver_after == (Receiver { last_pkt_id: Some(id), ..self })
                    &&& stats_after == stats.counted(missed, id)
                    &&& if data.len() >= HEADER_LEN + 2 * self.sample_per_packet {
                        &&& delivery matches Delivery::Samples(samples)
                        &&& samples@ == channel0(data, self.sample_per_packet as nat)
                    } else {
                        delivery == Delivery::NoAudio
                    }
                },
            }
        }
    }

    /// Takes in a datagram, `since_warning_nanos` after the last warning about a packet's size.
    pub fn on_datagram(
        &mut self,
        stats: &mut Stats,
        data: &[u8],
        since_warning_nanos: u128,
    ) -> (delivery: Delivery)
        requires
            data@.len() == old(self).pkt_len ==> HEADER_LEN <= data@.len(),
            data@.len() == old(self).pkt_len && missed(old(self).last_pkt_id, packet_id(data@)) is Some
                ==> HEADER_LEN + 2 * old(self).sample_per_packet <= usize::MAX,
        ensures
            old(self).takes(
                *old(stats),
                data@,
                since_warning_nanos,
                *final(self),
                *final(stats),
                delivery,
            ),
    {
        if data.len() != self.pkt_len {
            return Delivery::WrongSize { warn: since_warning_nanos > WARN_INTERVAL_NANOS };
        }
        let pkt_id = read_i32(data, ID_OFFSET);
        let mut lost: u64 = 0;
        if let Some(last) = self.last_pkt_id {
            let diff: i32 = pkt_id.wrapping_sub(last);
            if diff == 1 {
            } else if diff > 1 && diff < MAX_STEP {
                lost = (diff - 1) as u64;
            } else {
                return Delivery::OutOfSequence;
            }
        }
        self.last_pkt_id = Some(pkt_id);
        stats.count(lost, pkt_id);

        let ch0_end: usize = HEADER_LEN + self.sample_per_packet * 2;
        if data.len() >= ch0_end {
            Delivery::Samples(read_channel0(data, self.sample_per_packet))
        } else {
            Delivery::NoAudio
        }
    }
}

/// Reads the samples of the first channel.
pub fn read_channel0(packet: &[u8], sample_per_packet: usize) -> (samples: Vec<i16>)
    requires
        HEADER_LEN + 2 * sample_per_packet <= packet@.len(),
    ensures
        samples@ == channel0(packet@, sample_per_packet as nat),
{
    let mut samples: Vec<i16> = Vec::with_capacity(sample_per_packet);
    let size: usize = packet.len();
    let mut i: usize = 0;
    while i < sample_per_packet
        invariant
            i <= sample_per_packet,
            size == packet@.len(),
            HEADER_LEN + 2 * sample_per_packet <= size,
            samples@ == channel0(packet@, i as nat),
        decreases sample_per_packet - i,
    {
        samples.push(read_i16(packet, HEADER_LEN + 2 * i));
        i = i + 1;
    }
    samples
}

/// The local address to listen on: the fixed port, or any free one.
pub fn local_bind(listen_port: Option<u16>) -> (address: String)
    ensures
        address@ == host_and_port(
            "0.0.0.0"@,
            match listen_port {
                Some(port) => port as nat,
                None => 0,
            },
        ),
{
    match listen_port {
        Some(port) => host_port("0.0.0.0", port),
        None => host_port("0.0.0.0", 0),
    }
}

/// Whether to ask the server for the stream. With a fixed port the server knows the address.
pub fn uses_register(listen_port: Option<u16>) -> (register: bool)
    ensures
        register == (listen_port is None),
{
    listen_port.is_none()
}

/// A packet that comes twice counts once, and one that comes late, by up to half a round of the
/// packet numbers, does not count.
pub proof fn law_no_way_back(last: i32, id: i32)
    requires
        step_from(last, id) <= 0,
    ensures
        missed(Some(last), id) is None,
        missed(Some(last), last) is None,
{
}

/// A gap of up to 998 packets is bridged and counted, also where the packet numbers go round.
pub proof fn law_gap_is_counted(last: i32, id: i32, gap: nat)
    requires
        gap + 1 < MAX_STEP,
        (id - last) % 0x1_0000_0000 == gap + 1,
    ensures
        missed(Some(last), id) == Some(gap),
{
}

/// Only the first channel is played: two packets that agree up to its end deliver the same samples.
pub proof fn law_other_channels_are_ignored(p: Seq<u8>, q: Seq<u8>, sample_per_packet: nat)
    requires
        HEADER_LEN + 2 * sample_per_packet <= p.len(),
        HEADER_LEN + 2 * sample_per_packet <= q.len(),
        p.take(HEADER_LEN + 2 * sample_per_packet) == q.take(HEADER_LEN + 2 * sample_per_packet),
    ensures
        channel0(p, sample_per_packet) == channel0(q, sample_per_packet),
        packet_id(p) == packet_id(q),
{
    let end = HEADER_LEN + 2 * sample_per_packet;
    assert forall|i: int| 0 <= i < sample_per_packet implies channel0(p, sample_per_packet)[i]
        == channel0(q, sample_per_packet)[i] by {
        let at = HEADER_LEN + 2 * i;
        assert(p.subrange(at, at + 2) =~= p.take(end).subrange(at, at + 2));
        assert(q.subrange(at, at + 2) =~= q.take(end).subrange(at, at + 2));
    }
    assert(p.subrange(8, 12) =~= p.take(end).subrange(8, 12));
    assert(q.subrange(8, 12) =~= q.take(end).subrange(8, 12));
}

/// What is delivered is what was sent: samples that stand in the first channel as two bytes each
/// come out in their order.
pub proof fn law_samples_come_out(packet: Seq<u8>, sent: Seq<i16>)
    requires
        HEADER_LEN + 2 * sent.len() <= packet.len(),
        forall|i: int| #![trigger sent[i]]
            0 <= i < sent.len() ==> packet.subrange(HEADER_LEN + 2 * i, HEADER_LEN + 2 * i + 2)
                == le_bytes(to_unsigned(sent[i] as int, 0x1_0000), 2),
    ensures
        channel0(packet, sent.len()) == sent,
{
    assert forall|i: int| 0 <= i < sent.len() implies channel0(packet, sent.len())[i]
        == sent[i] by {
        law_sample_round_trip(packet, HEADER_LEN + 2 * i, sent[i]);
    }
}

/// A stream as it was heard, in numbers without bound.
pub struct Tally {
    pub last: Option<i32>,
    pub received: nat,
    pub lost: nat,
}

/// What was heard of packets with the numbers `ids`, in that order, from the start.
pub open spec fn tally(ids: Seq<i32>) -> Tally
    decreases ids.len(),
{
    if ids.len() == 0 {
        Tally { last: None, received: 0, lost: 0 }
    } else {
        let before = tally(ids.drop_last());
        match missed(before.last, ids.last()) {
            Some(missed) => Tally {
                last: Some(ids.last()),
                received: before.received + 1,
                lost: before.lost + missed,
            },
            None => before,
        }
    }
}

/// The counters after packets with the numbers `ids`, in that order, from the start.
pub open spec fn stats_after(ids: Seq<i32>) -> Stats
    decreases ids.len(),
{
    if ids.len() == 0 {
        Stats { received: 0, lost: 0, latest_pkt_id: 0 }
    } else {
        let before = stats_after(ids.drop_last());
        match missed(tally(ids.drop_last()).last, ids.last()) {
            Some(missed) => before.counted(missed, ids.last()),
            None => before,
        }
    }
}

/// A receiver goes by the tally: a packet takes it, and the counters, from what was heard so far to
/// what was heard with the packet.
pub proof fn law_receiver_follows_tally(
    receiver: Receiver,
    stats: Stats,
    ids: Seq<i32>,
    packet: Seq<u8>,
    since_warning_nanos: u128,
    receiver_after: Receiver,
    counters_after: Stats,
    delivery: Delivery,
)
    requires
        receiver.last_pkt_id == tally(ids).last,
        stats == stats_after(ids),
        packet.len() == receiver.pkt_len,
        receiver.takes(
            stats,
            packet,
            since_warning_nanos,
            receiver_after,
            counters_after,
            delivery,
        ),
    ensures
        receiver_after.last_pkt_id == tally(ids.push(packet_id(packet))).last,
        counters_after == stats_after(ids.push(packet_id(packet))),
{
    assert(ids.push(packet_id(packet)).drop_last() =~= ids);
}

/// Nothing is counted twice or left out: every packet number from the first to the latest was
/// either received or lost, so the two counts add up to the way between them.
pub proof fn law_received_and_lost_add_up(ids: Seq<i32>)
    requires
        ids.len() > 0,
    ensures
        tally(ids).last is Some,
        1 <= tally(ids).received <= ids.len(),
        (tally(ids).received + tally(ids).lost - 1) % 0x1_0000_0000 == (tally(ids).last->0
            - ids[0]) % 0x1_0000_0000,
    decreases ids.len(),
{
    let before = tally(ids.drop_last());
    if ids.len() == 1 {
        assert(before == Tally { last: None, received: 0, lost: 0 });
    } else {
        law_received_and_lost_add_up(ids.drop_last());
        let last = before.last->0;
        let step = step_from(last, ids.last());
        if 1 <= step < MAX_STEP {
            lemma_same_remainder(
                before.received + before.lost - 1,
                last - ids[0],
                step,
                ids.last() - last,
            );
        }
    }
}

proof fn lemma_same_remainder(a: int, b: int, c: int, d: int)
    requires
        a % 0x1_0000_0000 == b % 0x1_0000_0000,
        c % 0x1_0000_0000 == d % 0x1_0000_0000,
    ensures
        (a + c) % 0x1_0000_0000 == (b + d) % 0x1_0000_0000,
{
}

/// The counters of 64 bits hold the tally, as long as it fits, and its remainder after that.
pub proof fn law_counters_hold_the_tally(ids: Seq<i32>)
    ensures
        stats_after(ids).received == wrap_u64(tally(ids).received as int),
        stats_after(ids).lost == wrap_u64(tally(ids).lost as int),
        tally(ids).last matches Some(last) ==> stats_after(ids).latest_pkt_id == last,
    decreases ids.len(),
{
    if ids.len() > 0 {
        let init = ids.drop_last();
        law_counters_hold_the_tally(init);
        let before = tally(init);
        if let Some(missed) = missed(before.last, ids.last()) {
            law_wrapped_sum(before.received as int, 1);
            law_wrapped_sum(before.lost as int, missed as int);
        }
    }
}

/// A datagram of another size than a packet changes nothing and delivers nothing. It is worth a
/// warning where the last one is more than a second ago.
pub proof fn law_wrong_size_changes_nothing(
    receiver: Receiver,
    stats: Stats,
    data: &[u8],
    since_warning_nanos: u128,
    receiver_after: Receiver,
    counters_after: Stats,
    delivery: Delivery,
)
    requires
        exists|r: &mut Receiver, s: &mut Stats|
            *r == receiver && *final(r) == receiver_after && *s == stats && *final(s)
                == counters_after && #[trigger] call_ensures(
                Receiver::on_datagram,
                (r, s, data, since_warning_nanos),
                delivery,
            ),
        data@.len() != receiver.pkt_len,
    ensures
        receiver_after == receiver,
        counters_after == stats,
        delivery == (Delivery::WrongSize { warn: since_warning_nanos > 1_000_000_000 }),
{
}

/// A packet that comes first, or whose number is ahead of the last one by 1 up to 999, is counted,
/// and those that are missing before it are counted as lost. However many are missing, its samples
/// are delivered: two bytes each, behind the twelve bytes of the header. Only a packet that is too
/// short for them delivers none.
pub proof fn law_packet_that_follows_is_delivered(
    receiver: Receiver,
    stats: Stats,
    data: &[u8],
    since_warning_nanos: u128,
    receiver_after: Receiver,
    counters_after: Stats,
    delivery: Delivery,
    id: i32,
)
    requires
        exists|r: &mut Receiver, s: &mut Stats|
            *r == receiver && *final(r) == receiver_after && *s == stats && *final(s)
                == counters_after && #[trigger] call_ensures(
                Receiver::on_datagram,
                (r, s, data, since_warning_nanos),
                delivery,
            ),
        12 <= data@.len() == receiver.pkt_len,
        (id - (data@[8] + 0x100 * data@[9] + 0x1_0000 * data@[10] + 0x100_0000 * data@[11]))
            % 0x1_0000_0000 == 0,
        receiver.last_pkt_id matches Some(last) ==> 1 <= (id - last) % 0x1_0000_0000 <= 999,
    ensures
        receiver_after.last_pkt_id == Some(id),
        receiver_after.pkt_len == receiver.pkt_len,
        receiver_after.sample_per_packet == receiver.sample_per_packet,
        counters_after.latest_pkt_id == id,
        (counters_after.received - (stats.received + 1)) % 0x1_0000_0000_0000_0000 == 0,
        receiver.last_pkt_id is None ==> counters_after.lost == stats.lost,
        receiver.last_pkt_id matches Some(last) ==> (counters_after.lost - (stats.lost + (id - last)
            % 0x1_0000_0000 - 1)) % 0x1_0000_0000_0000_0000 == 0,
        data@.len() >= 12 + 2 * receiver.sample_per_packet ==> {
            &&& delivery matches Delivery::Samples(samples)
            &&& samples@.len() == receiver.sample_per_packet
            &&& forall|i: int| #![trigger samples@[i]]
                0 <= i < samples@.len() ==> (samples@[i] - (data@[12 + 2 * i] + 256 * data@[13 + 2
                    * i])) % 0x1_0000 == 0
        },
        data@.len() < 12 + 2 * receiver.sample_per_packet ==> delivery is NoAudio,
{
    law_packet_number_is_its_four_bytes(data@, 8);
    assert(packet_id(data@) == id);
    law_wrapped_sum(stats.received + 1, 0);
    law_wrapped_sum(stats.lost as int, 0);
    if let Some(last) = receiver.last_pkt_id {
        let gap = (id - last) % 0x1_0000_0000 - 1;
        law_gap_is_counted(last, id, gap as nat);
        law_wrapped_sum(stats.lost + gap, 0);
    }
    if let Delivery::Samples(samples) = delivery {
        assert forall|i: int| #![trigger samples@[i]] 0 <= i < samples@.len() implies (samples@[i]
            - (data@[12 + 2 * i] + 256 * data@[13 + 2 * i])) % 0x1_0000 == 0 by {
            law_sample_is_its_two_bytes(data@, 12 + 2 * i);
        }
    }
}

/// A packet that comes again, comes late or is ahead by a thousand or more changes nothing and
/// delivers nothing.
pub proof fn law_packet_that_does_not_follow_changes_nothing(
    receiver: Receiver,
    stats: Stats,
    data: &[u8],
    since_warning_nanos: u128,
    receiver_after: Receiver,
    counters_after: Stats,
    delivery: Delivery,
    id: i32,
    last: i32,
)
    requires
        exists|r: &mut Receiver, s: &mut Stats|
            *r == receiver && *final(r) == receiver_after && *s == stats && *final(s)
                == counters_after && #[trigger] call_ensures(
                Receiver::on_datagram,
                (r, s, data, since_warning_nanos),
                delivery,
            ),
        12 <= data@.len() == receiver.pkt_len,
        (id - (data@[8] + 0x100 * data@[9] + 0x1_0000 * data@[10] + 0x100_0000 * data@[11]))
            % 0x1_0000_0000 == 0,
        receiver.last_pkt_id == Some(last),
        (id - last) % 0x1_0000_0000 == 0 || (id - last) % 0x1_0000_0000 >= 1000,
    ensures
        receiver_after == receiver,
        counters_after == stats,
        delivery is OutOfSequence,
{
    law_packet_number_is_its_four_bytes(data@, 8);
    assert(packet_id(data@) == id);
}

/// A receiver takes any datagram, as long as a packet has a whole header and memory can count to
/// the end of its first channel.
pub proof fn law_any_datagram_is_taken(receiver: Receiver, data: &[u8], since_warning_nanos: u128)
    requires
        data@.len() == receiver.pkt_len ==> 12 <= data@.len() && 12 + 2
            * receiver.sample_per_packet <= usize::MAX,
    ensures
        forall|r: &mut Receiver, s: &mut Stats|
            *r == receiver ==> #[trigger] call_requires(
                Receiver::on_datagram,
                (r, s, data, since_warning_nanos),
            ),
{
}

/// A new receiver has the sizes that it was made with and takes the first packet whatever its
/// number is.
pub proof fn law_new_receiver_has_heard_nothing(
    pkt_len: usize,
    sample_per_packet: usize,
    receiver: Receiver,
)
    requires
        call_ensures(Receiver::new, (pkt_len, sample_per_packet), receiver),
    ensures
        receiver.pkt_len == pkt_len,
        receiver.sample_per_packet == sample_per_packet,
        receiver.last_pkt_id is None,
{
}

/// The first channel is read from its bytes: as many samples as were asked for, each from the two
/// bytes that are its own.
pub proof fn law_first_channel_is_read(packet: &[u8], sample_per_packet: usize, samples: Vec<i16>)
    requires
        12 + 2 * sample_per_packet <= packet@.len(),
        call_ensures(read_channel0, (packet, sample_per_packet), samples),
    ensures
        samples@.len() == sample_per_packet,
        forall|i: int| #![trigger samples@[i]]
            0 <= i < samples@.len() ==> (samples@[i] - (packet@[12 + 2 * i] + 256 * packet@[13 + 2
                * i])) % 0x1_0000 == 0,
{
    assert forall|i: int| #![trigger samples@[i]] 0 <= i < samples@.len() implies (samples@[i] - (
    packet@[12 + 2 * i] + 256 * packet@[13 + 2 * i])) % 0x1_0000 == 0 by {
        law_sample_is_its_two_bytes(packet@, 12 + 2 * i);
    }
}

/// With a fixed port the client listens there and does not register; without one it listens on any
/// free port, which is what port 0 stands for, and registers, every two seconds. It listens on all
/// addresses.
pub proof fn law_fixed_port_needs_no_register(
    listen_port: Option<u16>,
    address: String,
    register: bool,
)
    requires
        call_ensures(local_bind, (listen_port,), address),
        call_ensures(uses_register, (listen_port,), register),
    ensures
        register <==> listen_port is None,
        address@.take(8) == seq!['0', '.', '0', '.', '0', '.', '0', ':'],
        listen_port matches Some(port) ==> is_decimal(address@.skip(8), port as int),
        listen_port is None ==> is_decimal(address@.skip(8), 0),
        REGISTER@ == "register"@,
        REGISTER_INTERVAL_SECS == 2,
{
    let port: nat = match listen_port {
        Some(port) => port as nat,
        None => 0,
    };
    reveal_strlit("0.0.0.0");
    law_decimal_reads_back(port);
    assert(address@.skip(8) =~= decimal(port));
}

} // verus!
