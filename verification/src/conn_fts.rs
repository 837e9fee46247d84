//! Connection-level features for TCP and UDP connections: duration, packet and byte counts,
//! inter-arrival times, and state history.

use vstd::prelude::*;

use crate::time::{nanos_between, Duration, Instant};

verus! {

/// The TCP flag that ends a direction.
pub const FIN: u8 = 0x01;

/// The TCP flag that opens a connection.
pub const SYN: u8 = 0x02;

/// The TCP flag that resets a connection.
pub const RST: u8 = 0x04;

/// The TCP flag that acknowledges.
pub const ACK: u8 = 0x10;

/// A transport-layer segment of a connection.
#[derive(Clone, Copy, Debug, PartialEq, Eq, Structural)]
pub struct L4Pdu {
    /// Whether the segment comes from the originator.
    pub dir: bool,
    /// When the segment was seen.
    pub ts: Instant,
    /// Length of the payload.
    pub length: usize,
    /// The TCP flags; zero for other protocols.
    pub flags: u8,
}

/// Tracks the start (first packet seen) and end (last packet seen) times of a connection.
#[derive(Clone, Copy, Debug, PartialEq, Eq, Structural)]
pub struct ConnDuration {
    /// When the first packet was seen.
    pub start_ts: Instant,
    /// When the last packet was seen.
    pub last_ts: Instant,
}

impl ConnDuration {
    /// The duration of a connection whose first packet is seen now.
    pub fn new(now: Instant) -> (r: Self)
        ensures
            r.start_ts == now,
            r.last_ts == now,
    {
        ConnDuration { start_ts: now, last_ts: now }
    }

    /// The times with one more segment.
    pub open spec fn reaching(self, pdu: L4Pdu) -> ConnDuration {
        ConnDuration { last_ts: pdu.ts, ..self }
    }

    /// The duration of the connection in milliseconds.
    pub fn duration_ms(&self) -> (r: u128)
        ensures
            r == nanos_between(self.start_ts, self.last_ts) as int / 1_000_000,
    {
        self.last_ts.since(self.start_ts).as_millis()
    }

    /// The duration of the connection.
    pub fn duration(&self) -> (r: Duration)
        ensures
            r.nanos == nanos_between(self.start_ts, self.last_ts),
    {
        self.last_ts.since(self.start_ts)
    }

    /// Takes note of a segment.
    pub fn update(&mut self, pdu: &L4Pdu)
        ensures
            *final(self) == old(self).reaching(*pdu),
    {
        self.last_ts = pdu.ts;
    }

    /// Nothing is let go when a subscription no longer needs its data.
    pub fn clear(&mut self)
        ensures
            *final(self) == *old(self),
    {
    }
}

/// The number of packets observed in a connection.
#[derive(Clone, Copy, Debug, PartialEq, Eq, Structural)]
pub struct PktCount {
    /// Packets from the originator.
    pub orig: usize,
    /// Packets from the responder.
    pub resp: usize,
}

impl PktCount {
    /// No packet counted yet; the first packet is counted when it is handed to `update`.
    pub fn new() -> (r: Self)
        ensures
            r.orig == 0,
            r.resp == 0,
    {
        PktCount { orig: 0, resp: 0 }
    }

    /// The counts with one more segment.
    pub open spec fn counting(self, pdu: L4Pdu) -> PktCount {
        if pdu.dir {
            PktCount { orig: (self.orig + 1) as usize, ..self }
        } else {
            PktCount { resp: (self.resp + 1) as usize, ..self }
        }
    }

    /// Packets in both directions.
    pub fn total(&self) -> (r: usize)
        requires
            self.orig + self.resp <= usize::MAX,
        ensures
            r == self.orig + self.resp,
    {
        self.orig + self.resp
    }

    /// Packets from the originator.
    pub fn orig(&self) -> (r: usize)
        ensures
            r == self.orig,
    {
        self.orig
    }

    /// Packets from the responder.
    pub fn resp(&self) -> (r: usize)
        ensures
            r == self.resp,
    {
        self.resp
    }

    /// Counts a segment for its direction.
    pub fn update(&mut self, pdu: &L4Pdu)
        requires
            pdu.dir ==> old(self).orig < usize::MAX,
            !pdu.dir ==> old(self).resp < usize::MAX,
        ensures
            *final(self) == old(self).counting(*pdu),
    {
        if pdu.dir {
            self.orig = self.orig + 1;
        } else {
            self.resp = self.resp + 1;
        }
    }

    /// Nothing is let go when a subscription no longer needs its data.
    pub fn clear(&mut self)
        ensures
            *final(self) == *old(self),
    {
    }
}

/// The number of bytes, excluding packet headers, in each flow of a connection.
#[derive(Clone, Copy, Debug, PartialEq, Eq, Structural)]
pub struct ByteCount {
    /// Bytes from the originator.
    pub orig: usize,
    /// Bytes from the responder.
    pub resp: usize,
}

impl ByteCount {
    /// No byte counted yet; the first packet is counted when it is handed to `update`.
    pub fn new() -> (r: Self)
        ensures
            r.orig == 0,
            r.resp == 0,
    {
        ByteCount { orig: 0, resp: 0 }
    }

    /// The counts with the payload of one more segment.
    pub open spec fn counting(self, pdu: L4Pdu) -> ByteCount {
        if pdu.dir {
            ByteCount { orig: (self.orig + pdu.length) as usize, ..self }
        } else {
            ByteCount { resp: (self.resp + pdu.length) as usize, ..self }
        }
    }

    /// Bytes in both directions.
    pub fn total(&self) -> (r: usize)
        requires
            self.orig + self.resp <= usize::MAX,
        ensures
            r == self.orig + self.resp,
    {
        self.orig + self.resp
    }

    /// Bytes from the originator.
    pub fn orig(&self) -> (r: usize)
        ensures
            r == self.orig,
    {
        self.orig
    }

    /// Bytes from the responder.
    pub fn resp(&self) -> (r: usize)
        ensures
            r == self.resp,
    {
        self.resp
    }

    /// Counts the payload of a segment for its direction.
    pub fn update(&mut self, pdu: &L4Pdu)
        requires
            pdu.dir ==> old(self).orig + pdu.length <= usize::MAX,
            !pdu.dir ==> old(self).resp + pdu.length <= usize::MAX,
        ensures
            *final(self) == old(self).counting(*pdu),
    {
        if pdu.dir {
            self.orig = self.orig + pdu.length;
        } else {
            self.resp = self.resp + pdu.length;
        }
    }

    /// Nothing is let go when a subscription no longer needs its data.
    pub fn clear(&mut self)
        ensures
            *final(self) == *old(self),
    {
    }
}

/// The whole microseconds in each of some spans.
pub open spec fn micros(spans: Seq<Duration>) -> Seq<int> {
    spans.map_values(|d: Duration| d.nanos as int / 1_000)
}

/// Whether `m` is one of some values and no other is smaller.
pub open spec fn is_least(vals: Seq<int>, m: int) -> bool {
    &&& vals.contains(m)
    &&& forall|i: int| 0 <= i < vals.len() ==> m <= #[trigger] vals[i]
}

/// Whether `m` is one of some values and no other is larger.
pub open spec fn is_greatest(vals: Seq<int>, m: int) -> bool {
    &&& vals.contains(m)
    &&& forall|i: int| 0 <= i < vals.len() ==> #[trigger] vals[i] <= m
}

/// Streaming inter-arrival statistics for one direction: count, least and greatest span. They are
/// zero when nothing was recorded.
#[derive(Clone, Copy, Debug, PartialEq, Eq, Structural)]
pub struct IatStats {
    count: u64,
    min_us: u128,
    max_us: u128,
}

impl IatStats {
    /// Number of spans recorded.
    pub closed spec fn recorded(self) -> nat {
        self.count as nat
    }

    /// Whether these are the statistics of some spans.
    pub closed spec fn describes(self, spans: Seq<Duration>) -> bool {
        &&& self.count == spans.len()
        &&& spans.len() == 0 ==> self.min_us == 0 && self.max_us == 0
        &&& spans.len() > 0 ==> is_least(micros(spans), self.min_us as int)
        &&& spans.len() > 0 ==> is_greatest(micros(spans), self.max_us as int)
    }

    /// The least and the greatest span in microseconds.
    pub closed spec fn bounds(self) -> (u128, u128) {
        (self.min_us, self.max_us)
    }

    /// The statistics of no spans.
    pub fn new() -> (r: Self)
        ensures
            r.describes(Seq::empty()),
            r.recorded() == 0,
    {
        IatStats { count: 0, min_us: 0, max_us: 0 }
    }

    /// Records a span.
    pub fn push(&mut self, dur: Duration)
        requires
            old(self).recorded() < u64::MAX,
        ensures
            final(self).recorded() == old(self).recorded() + 1,
            forall|spans: Seq<Duration>| #[trigger]
                old(self).describes(spans) ==> final(self).describes(spans.push(dur)),
    {
        let v: u128 = dur.as_micros();
        if self.count == 0 || v < self.min_us {
            self.min_us = v;
        }
        if self.count == 0 || v > self.max_us {
            self.max_us = v;
        }
        self.count = self.count + 1;
        proof {
            assert forall|spans: Seq<Duration>| #[trigger] old(self).describes(spans) implies
                self.describes(spans.push(dur)) by {
                let old_us = micros(spans);
                let new_us = micros(spans.push(dur));
                assert(new_us =~= old_us.push(v as int));
                assert(new_us[spans.len() as int] == v);
                if spans.len() > 0 {
                    let a = choose|i: int|
                        0 <= i < old_us.len() && old_us[i] == old(self).min_us as int;
                    let b = choose|i: int|
                        0 <= i < old_us.len() && old_us[i] == old(self).max_us as int;
                    assert(old_us.contains(old(self).min_us as int));
                    assert(old_us.contains(old(self).max_us as int));
                    assert(new_us[a] == old(self).min_us);
                    assert(new_us[b] == old(self).max_us);
                }
            }
        }
    }

    /// Forgets every span.
    pub fn clear(&mut self)
        ensures
            final(self).describes(Seq::empty()),
            final(self).recorded() == 0,
    {
        self.count = 0;
        self.min_us = 0;
        self.max_us = 0;
    }

    /// Number of spans recorded.
    pub fn count(&self) -> (r: u64)
        ensures
            r == self.recorded(),
    {
        self.count
    }

    /// The least and the greatest span in microseconds, cut to 64 bits; zero if no span was
    /// recorded.
    pub fn extremes(&self) -> (r: (u64, u64))
        ensures
            r == if self.recorded() == 0 {
                (0u64, 0u64)
            } else {
                (self.bounds().0 as u64, self.bounds().1 as u64)
            },
    {
        if self.count == 0 {
            return (0, 0);
        }
        (
            #[verifier::truncate]
            (self.min_us as u64),
            #[verifier::truncate]
            (self.max_us as u64),
        )
    }
}

/// The statistics of some spans tell their number and their extremes: the least span is among them
/// and not above the greatest.
pub proof fn law_iat_extremes(s: IatStats, spans: Seq<Duration>)
    requires
        s.describes(spans),
    ensures
        s.recorded() == spans.len(),
        spans.len() > 0 ==> is_least(micros(spans), s.bounds().0 as int),
        spans.len() > 0 ==> is_greatest(micros(spans), s.bounds().1 as int),
        s.bounds().0 <= s.bounds().1,
        spans.len() == 0 ==> s.bounds() == (0u128, 0u128),
{
    if spans.len() > 0 {
        assert(micros(spans)[0] >= s.bounds().0);
        assert(micros(spans)[0] <= s.bounds().1);
    }
}

/// Tracked data for packet inter-arrival times. Only running statistics are kept.
#[derive(Clone, Copy, Debug, PartialEq, Eq, Structural)]
pub struct InterArrivals {
    pkt_count_ctos: usize,
    pkt_count_stoc: usize,
    last_pkt_ctos: Instant,
    last_pkt_stoc: Instant,
    stats_ctos: IatStats,
    stats_stoc: IatStats,
}

/// What one direction of a connection has seen: number of packets, and when the last one came.
pub struct ArrivalModel {
    /// Number of packets.
    pub packets: nat,
    /// When the last packet came.
    pub last: Instant,
}

/// The spans between packets that come one after the other.
pub open spec fn gaps(arrivals: Seq<Instant>) -> Seq<Duration> {
    Seq::new(
        if arrivals.len() == 0 {
            0
        } else {
            (arrivals.len() - 1) as nat
        },
        |i: int| Duration { nanos: nanos_between(arrivals[i], arrivals[i + 1]) as u128 },
    )
}

impl InterArrivals {
    /// What one direction has seen; `true` stands for client to server.
    pub closed spec fn seen(self, dir: bool) -> ArrivalModel {
        if dir {
            ArrivalModel { packets: self.pkt_count_ctos as nat, last: self.last_pkt_ctos }
        } else {
            ArrivalModel { packets: self.pkt_count_stoc as nat, last: self.last_pkt_stoc }
        }
    }

    /// Whether one direction has seen packets at these times and none besides, and its statistics
    /// are those of the spans between them.
    pub open spec fn tracks(self, dir: bool, arrivals: Seq<Instant>) -> bool {
        &&& self.seen(dir).packets == arrivals.len()
        &&& arrivals.len() > 0 ==> self.seen(dir).last == arrivals.last()
        &&& self.stats(dir).describes(gaps(arrivals))
    }

    /// The statistics of one direction.
    pub closed spec fn stats(self, dir: bool) -> IatStats {
        if dir {
            self.stats_ctos
        } else {
            self.stats_stoc
        }
    }

    /// No packet seen yet.
    pub fn new_empty(now: Instant) -> (r: Self)
        ensures
            forall|dir: bool| (#[trigger] r.seen(dir)).packets == 0 && r.seen(dir).last == now,
            forall|dir: bool| (#[trigger] r.stats(dir)).describes(Seq::empty()),
            forall|dir: bool| (#[trigger] r.stats(dir)).recorded() == 0,
    {
        InterArrivals {
            pkt_count_ctos: 0,
            pkt_count_stoc: 0,
            last_pkt_ctos: now,
            last_pkt_stoc: now,
            stats_ctos: IatStats::new(),
            stats_stoc: IatStats::new(),
        }
    }

    /// No packet seen yet; the first packet is counted when it is handed to `update`.
    pub fn new(now: Instant) -> (r: Self)
        ensures
            forall|dir: bool| (#[trigger] r.seen(dir)).packets == 0 && r.seen(dir).last == now,
            forall|dir: bool| (#[trigger] r.stats(dir)).describes(Seq::empty()),
            forall|dir: bool| (#[trigger] r.stats(dir)).recorded() == 0,
    {
        Self::new_empty(now)
    }

    /// Takes note of a segment that comes now. From the second packet of a direction on, the span
    /// since the packet before is recorded, and returned.
    pub fn update(&mut self, pdu: &L4Pdu, now: Instant) -> (r: Option<Duration>)
        requires
            old(self).seen(pdu.dir).packets < usize::MAX,
            old(self).stats(pdu.dir).recorded() < u64::MAX,
        ensures
            final(self).seen(pdu.dir).packets == old(self).seen(pdu.dir).packets + 1,
            final(self).seen(pdu.dir).last == now,
            match r {
                Some(d) => {
                    &&& old(self).seen(pdu.dir).packets >= 1
                    &&& d.nanos == nanos_between(old(self).seen(pdu.dir).last, now)
                    &&& final(self).stats(pdu.dir).recorded() == old(self).stats(
                        pdu.dir,
                    ).recorded() + 1
                    &&& forall|spans: Seq<Duration>| #[trigger]
                        old(self).stats(pdu.dir).describes(spans) ==> final(self).stats(
                            pdu.dir,
                        ).describes(spans.push(d))
                },
                None => {
                    &&& old(self).seen(pdu.dir).packets == 0
                    &&& final(self).stats(pdu.dir) == old(self).stats(pdu.dir)
                },
            },
            final(self).seen(!pdu.dir) == old(self).seen(!pdu.dir),
            final(self).stats(!pdu.dir) == old(self).stats(!pdu.dir),
            forall|arrivals: Seq<Instant>| #[trigger]
                old(self).tracks(pdu.dir, arrivals) ==> final(self).tracks(
                    pdu.dir,
                    arrivals.push(now),
                ),
    {
        let r: Option<Duration> = self.take_note(pdu, now);
        proof {
            assert forall|arrivals: Seq<Instant>| #[trigger]
                old(self).tracks(pdu.dir, arrivals) implies self.tracks(
                pdu.dir,
                arrivals.push(now),
            ) by {
                let more = arrivals.push(now);
                match r {
                    Some(d) => {
                        assert(gaps(more) =~= gaps(arrivals).push(d));
                    },
                    None => {
                        assert(gaps(more) =~= gaps(arrivals));
                    },
                }
            }
        }
        r
    }

    /// Counts a segment that comes now, and records the span since the packet before.
    fn take_note(&mut self, pdu: &L4Pdu, now: Instant) -> (r: Option<Duration>)
        requires
            old(self).seen(pdu.dir).packets < usize::MAX,
            old(self).stats(pdu.dir).recorded() < u64::MAX,
        ensures
            final(self).seen(pdu.dir).packets == old(self).seen(pdu.dir).packets + 1,
            final(self).seen(pdu.dir).last == now,
            match r {
                Some(d) => {
                    &&& old(self).seen(pdu.dir).packets >= 1
                    &&& d.nanos == nanos_between(old(self).seen(pdu.dir).last, now)
                    &&& final(self).stats(pdu.dir).recorded() == old(self).stats(
                        pdu.dir,
                    ).recorded() + 1
                    &&& forall|spans: Seq<Duration>| #[trigger]
                        old(self).stats(pdu.dir).describes(spans) ==> final(self).stats(
                            pdu.dir,
                        ).describes(spans.push(d))
                },
                None => {
                    &&& old(self).seen(pdu.dir).packets == 0
                    &&& final(self).stats(pdu.dir) == old(self).stats(pdu.dir)
                },
            },
            final(self).seen(!pdu.dir) == old(self).seen(!pdu.dir),
            final(self).stats(!pdu.dir) == old(self).stats(!pdu.dir),
    {
        if pdu.dir {
            self.pkt_count_ctos = self.pkt_count_ctos + 1;
            let mut gap: Option<Duration> = None;
            if self.pkt_count_ctos > 1 {
                let d: Duration = now.since(self.last_pkt_ctos);
                self.stats_ctos.push(d);
                gap = Some(d);
            }
            self.last_pkt_ctos = now;
            gap
        } else {
            self.pkt_count_stoc = self.pkt_count_stoc + 1;
            let mut gap: Option<Duration> = None;
            if self.pkt_count_stoc > 1 {
                let d: Duration = now.since(self.last_pkt_stoc);
                self.stats_stoc.push(d);
                gap = Some(d);
            }
            self.last_pkt_stoc = now;
            gap
        }
    }

    /// Forgets the recorded spans of both directions. What was seen of the packets is kept, so the
    /// span to the next packet is still recorded.
    pub fn clear(&mut self)
        ensures
            forall|dir: bool| (#[trigger] final(self).stats(dir)).describes(Seq::empty()),
            forall|dir: bool| (#[trigger] final(self).stats(dir)).recorded() == 0,
            forall|dir: bool| #[trigger] final(self).seen(dir) == old(self).seen(dir),
    {
        self.stats_ctos.clear();
        self.stats_stoc.clear();
    }

    /// The statistics of one direction.
    pub fn direction(&self, dir: bool) -> (r: IatStats)
        ensures
            r == self.stats(dir),
    {
        if dir {
            self.stats_ctos
        } else {
            self.stats_stoc
        }
    }

    /// Whether another segment of a direction can be counted.
    pub fn can_update(&self, dir: bool) -> (r: bool)
        ensures
            r == (self.seen(dir).packets < usize::MAX && self.stats(dir).recorded() < u64::MAX),
    {
        if dir {
            self.pkt_count_ctos < usize::MAX && self.stats_ctos.count() < u64::MAX
        } else {
            self.pkt_count_stoc < usize::MAX && self.stats_stoc.count() < u64::MAX
        }
    }
}

/// Connection history.
///
/// A summary of the connection in the order the packets were observed, with letters encoded as
/// bytes. If the event comes from the originator, the letter is uppercase; if it comes from the
/// responder, the letter is lowercase.
/// - S: a pure SYN with only the SYN bit set (may have payload)
/// - H: a pure SYNACK with only the SYN and ACK bits set (may have payload)
/// - A: a pure ACK with only the ACK bit set and no payload
/// - D: segment contains non-zero payload length
/// - F: the segment has the FIN bit set (may have other flags and/or payload)
/// - R: segment has the RST bit set (may have other flags and/or payload)
///
/// Each letter is recorded a maximum of once in either direction. The letters of one segment are
/// recorded in the order above.
#[derive(Debug)]
pub struct ConnHistory {
    /// The letters.
    pub history: Vec<u8>,
}

/// The letter S, for a pure SYN.
pub const HIST_SYN: u8 = 0x53;

/// The letter H, for a pure SYNACK.
pub const HIST_SYNACK: u8 = 0x48;

/// The letter A, for a pure ACK.
pub const HIST_ACK: u8 = 0x41;

/// The letter D, for payload.
pub const HIST_DATA: u8 = 0x44;

/// The letter F, for a FIN.
pub const HIST_FIN: u8 = 0x46;

/// The letter R, for a RST.
pub const HIST_RST: u8 = 0x52;

/// The bit that turns an uppercase letter into a lowercase one.
pub const LOWER: u8 = 0x20;

/// The letters of a segment from the originator, in the order they are recorded.
pub open spec fn letters(pdu: L4Pdu) -> Seq<u8> {
    let s = if pdu.flags == SYN {
        seq![HIST_SYN]
    } else {
        Seq::empty()
    };
    let h = if pdu.flags == (SYN | ACK) {
        seq![HIST_SYNACK]
    } else {
        Seq::empty()
    };
    let a = if pdu.flags == ACK && pdu.length == 0 {
        seq![HIST_ACK]
    } else {
        Seq::empty()
    };
    let d = if pdu.length > 0 {
        seq![HIST_DATA]
    } else {
        Seq::empty()
    };
    let f = if pdu.flags & FIN != 0 {
        seq![HIST_FIN]
    } else {
        Seq::empty()
    };
    let r = if pdu.flags & RST != 0 {
        seq![HIST_RST]
    } else {
        Seq::empty()
    };
    s + h + a + d + f + r
}

/// A history with a letter recorded, unless it is there already.
pub open spec fn recorded(history: Seq<u8>, letter: u8) -> Seq<u8> {
    if history.contains(letter) {
        history
    } else {
        history.push(letter)
    }
}

/// A history with some letters recorded one after the other, each with some bits flipped.
pub open spec fn all_recorded(history: Seq<u8>, ls: Seq<u8>, mask: u8) -> Seq<u8>
    decreases ls.len(),
{
    if ls.len() == 0 {
        history
    } else {
        recorded(all_recorded(history, ls.drop_last(), mask), ls.last() ^ mask)
    }
}

/// A history after a segment.
pub open spec fn history_after(history: Seq<u8>, pdu: L4Pdu) -> Seq<u8> {
    all_recorded(
        history,
        letters(pdu),
        if pdu.dir {
            0
        } else {
            LOWER
        },
    )
}

impl ConnHistory {
    /// The history of a connection whose first packet is yet to be handed to `update`.
    pub fn new() -> (r: Self)
        ensures
            r.history@.len() == 0,
    {
        ConnHistory { history: Vec::new() }
    }

    /// Records a letter, unless it is there already.
    fn record(&mut self, letter: u8)
        ensures
            final(self).history@ == recorded(old(self).history@, letter),
    {
        let mut i: usize = 0;
        while i < self.history.len()
            invariant
                i <= self.history@.len(),
                *self == *old(self),
                forall|j: int| 0 <= j < i ==> self.history@[j] != letter,
            decreases self.history@.len() - i,
        {
            if self.history[i] == letter {
                return ;
            }
            i = i + 1;
        }
        self.history.push(letter);
    }

    /// Takes note of a segment.
    pub fn update(&mut self, pdu: &L4Pdu)
        ensures
            final(self).history@ == history_after(old(self).history@, *pdu),
    {
        let mask: u8 = if pdu.dir {
            0
        } else {
            LOWER
        };
        let ghost mut done: Seq<u8> = Seq::empty();
        let ghost before = self.history@;
        if pdu.flags == SYN {
            self.record(HIST_SYN ^ mask);
            proof {
                lemma_record(before, done, HIST_SYN, mask);
                done = done.push(HIST_SYN);
            }
        }
        if pdu.flags == SYN | ACK {
            self.record(HIST_SYNACK ^ mask);
            proof {
                lemma_record(before, done, HIST_SYNACK, mask);
                done = done.push(HIST_SYNACK);
            }
        }
        if pdu.flags == ACK && pdu.length == 0 {
            self.record(HIST_ACK ^ mask);
            proof {
                lemma_record(before, done, HIST_ACK, mask);
                done = done.push(HIST_ACK);
            }
        }
        if pdu.length > 0 {
            self.record(HIST_DATA ^ mask);
            proof {
                lemma_record(before, done, HIST_DATA, mask);
                done = done.push(HIST_DATA);
            }
        }
        if pdu.flags & FIN != 0 {
            self.record(HIST_FIN ^ mask);
            proof {
                lemma_record(before, done, HIST_FIN, mask);
                done = done.push(HIST_FIN);
            }
        }
        if pdu.flags & RST != 0 {
            self.record(HIST_RST ^ mask);
            proof {
                lemma_record(before, done, HIST_RST, mask);
                done = done.push(HIST_RST);
            }
        }
        assert(done =~= letters(*pdu));
    }

    /// Nothing is let go when a subscription no longer needs its data.
    pub fn clear(&mut self)
        ensures
            *final(self) == *old(self),
    {
    }
}

/// Recording one letter more.
proof fn lemma_record(history: Seq<u8>, ls: Seq<u8>, letter: u8, mask: u8)
    ensures
        all_recorded(history, ls.push(letter), mask) == recorded(
            all_recorded(history, ls, mask),
            letter ^ mask,
        ),
{
    assert(ls.push(letter).drop_last() =~= ls);
}

/// Recording letters keeps what is there, adds each of them and nothing else, and adds no letter
/// twice.
proof fn lemma_all_recorded(history: Seq<u8>, ls: Seq<u8>, mask: u8)
    requires
        history.no_duplicates(),
    ensures
        all_recorded(history, ls, mask).no_duplicates(),
        history.is_prefix_of(all_recorded(history, ls, mask)),
        forall|i: int|
            0 <= i < ls.len() ==> all_recorded(history, ls, mask).contains(#[trigger] ls[i] ^ mask),
        forall|c: u8| #[trigger]
            all_recorded(history, ls, mask).contains(c) ==> history.contains(c) || exists|i: int|
                0 <= i < ls.len() && c == #[trigger] ls[i] ^ mask,
    decreases ls.len(),
{
    if ls.len() > 0 {
        let less = all_recorded(history, ls.drop_last(), mask);
        let new = ls.last() ^ mask;
        let all = recorded(less, new);
        lemma_all_recorded(history, ls.drop_last(), mask);
        assert(all.contains(new)) by {
            if !less.contains(new) {
                assert(all[less.len() as int] == new);
            }
        }
        assert forall|i: int| 0 <= i < ls.len() implies all.contains(#[trigger] ls[i] ^ mask) by {
            if i < ls.len() - 1 {
                assert(ls.drop_last()[i] == ls[i]);
                assert(less.contains(ls.drop_last()[i] ^ mask));
                let j = choose|j: int| 0 <= j < less.len() && less[j] == ls[i] ^ mask;
                assert(all[j] == ls[i] ^ mask);
            }
        }
        assert forall|c: u8| #[trigger] all.contains(c) implies history.contains(c) || exists|i: int|
            0 <= i < ls.len() && c == #[trigger] ls[i] ^ mask by {
            if c == new {
                assert(ls[ls.len() - 1] ^ mask == c);
            } else {
                let j = choose|j: int| 0 <= j < all.len() && all[j] == c;
                assert(less[j] == c);
                assert(less.contains(c));
                if !history.contains(c) {
                    let i = choose|i: int|
                        0 <= i < ls.drop_last().len() && c == #[trigger] ls.drop_last()[i] ^ mask;
                    assert(ls[i] == ls.drop_last()[i]);
                    assert(c == ls[i] ^ mask);
                }
            }
        }
    }
}

/// Each letter is recorded at most once in either direction, and what was recorded stays, in the
/// order the packets were observed.
pub proof fn law_history_is_a_summary(history: Seq<u8>, pdu: L4Pdu)
    requires
        history.no_duplicates(),
    ensures
        history_after(history, pdu).no_duplicates(),
        history.is_prefix_of(history_after(history, pdu)),
{
    lemma_all_recorded(
        history,
        letters(pdu),
        if pdu.dir {
            0
        } else {
            LOWER
        },
    );
}

/// Whether a byte is an uppercase letter of the history.
pub open spec fn is_upper(c: u8) -> bool {
    c == HIST_SYN || c == HIST_SYNACK || c == HIST_ACK || c == HIST_DATA || c == HIST_FIN || c
        == HIST_RST
}

/// The case of a letter tells its direction: a segment from the originator adds only uppercase
/// letters, a segment from the responder only the same letters in lowercase, and every letter of
/// the segment is there afterwards.
pub proof fn law_case_tells_the_direction(history: Seq<u8>, pdu: L4Pdu, c: u8)
    requires
        history.no_duplicates(),
    ensures
        history_after(history, pdu).contains(c) && !history.contains(c) ==> if pdu.dir {
            is_upper(c)
        } else {
            c >= 32 && is_upper((c - 32) as u8)
        },
        pdu.dir && letters(pdu).contains(c) ==> history_after(history, pdu).contains(c),
        !pdu.dir && letters(pdu).contains(c) ==> history_after(history, pdu).contains(
            (c + 32) as u8,
        ),
{
    let ls = letters(pdu);
    let mask: u8 = if pdu.dir {
        0
    } else {
        LOWER
    };
    lemma_all_recorded(history, ls, mask);
    assert forall|i: int| 0 <= i < ls.len() implies is_upper(#[trigger] ls[i]) && (ls[i] ^ mask) == (
    if pdu.dir {
        ls[i] as int
    } else {
        ls[i] + 32
    }) by {
        let x = ls[i];
        assert(x ^ 0 == x) by (bit_vector);
        assert((x == 0x53 || x == 0x48 || x == 0x41 || x == 0x44 || x == 0x46 || x == 0x52) ==> x
            ^ 0x20 == x + 0x20) by (bit_vector);
    }
    if ls.contains(c) {
        let i = choose|i: int| 0 <= i < ls.len() && ls[i] == c;
        assert(history_after(history, pdu).contains(ls[i] ^ mask));
    }
}

/// The times after some segments.
pub open spec fn times_after(d: ConnDuration, pdus: Seq<L4Pdu>) -> ConnDuration
    decreases pdus.len(),
{
    if pdus.len() == 0 {
        d
    } else {
        times_after(d, pdus.drop_last()).reaching(pdus.last())
    }
}

/// A connection lasts from its first packet to its last one, whatever came between.
pub proof fn law_duration_is_first_to_last(now: Instant, pdus: Seq<L4Pdu>)
    ensures
        ({
            let d = times_after(ConnDuration { start_ts: now, last_ts: now }, pdus);
            &&& d.start_ts == now
            &&& pdus.len() == 0 ==> d.last_ts == now
            &&& pdus.len() > 0 ==> d.last_ts == pdus.last().ts
        }),
    decreases pdus.len(),
{
    if pdus.len() > 0 {
        law_duration_is_first_to_last(now, pdus.drop_last());
    }
}

/// The number of segments that come from one side.
pub open spec fn segments_from(pdus: Seq<L4Pdu>, dir: bool) -> nat
    decreases pdus.len(),
{
    if pdus.len() == 0 {
        0
    } else if pdus.last().dir == dir {
        segments_from(pdus.drop_last(), dir) + 1
    } else {
        segments_from(pdus.drop_last(), dir)
    }
}

/// The payload that comes from one side.
pub open spec fn payload_from(pdus: Seq<L4Pdu>, dir: bool) -> nat
    decreases pdus.len(),
{
    if pdus.len() == 0 {
        0
    } else if pdus.last().dir == dir {
        payload_from(pdus.drop_last(), dir) + pdus.last().length as nat
    } else {
        payload_from(pdus.drop_last(), dir)
    }
}

/// The packet counts after some segments.
pub open spec fn packets_after(c: PktCount, pdus: Seq<L4Pdu>) -> PktCount
    decreases pdus.len(),
{
    if pdus.len() == 0 {
        c
    } else {
        packets_after(c, pdus.drop_last()).counting(pdus.last())
    }
}

/// The byte counts after some segments.
pub open spec fn bytes_after(c: ByteCount, pdus: Seq<L4Pdu>) -> ByteCount
    decreases pdus.len(),
{
    if pdus.len() == 0 {
        c
    } else {
        bytes_after(c, pdus.drop_last()).counting(pdus.last())
    }
}

/// Every packet is counted once, for the side that it comes from, and so is its payload.
pub proof fn law_packets_and_bytes_are_counted(pdus: Seq<L4Pdu>)
    ensures
        segments_from(pdus, true) + segments_from(pdus, false) == pdus.len(),
        pdus.len() <= usize::MAX ==> {
            let c = packets_after(PktCount { orig: 0, resp: 0 }, pdus);
            c.orig == segments_from(pdus, true) && c.resp == segments_from(pdus, false)
        },
        payload_from(pdus, true) <= usize::MAX && payload_from(pdus, false) <= usize::MAX ==> {
            let b = bytes_after(ByteCount { orig: 0, resp: 0 }, pdus);
            b.orig == payload_from(pdus, true) && b.resp == payload_from(pdus, false)
        },
    decreases pdus.len(),
{
    if pdus.len() > 0 {
        law_packets_and_bytes_are_counted(pdus.drop_last());
    }
}

/// The statistics of a direction are those of the spans between its packets: as many as there are
/// packets but one, and the extremes are a least and a greatest span in microseconds.
pub proof fn law_arrivals_are_measured(s: InterArrivals, dir: bool, arrivals: Seq<Instant>)
    requires
        s.tracks(dir, arrivals),
    ensures
        arrivals.len() > 0 ==> s.stats(dir).recorded() == arrivals.len() - 1,
        arrivals.len() == 0 ==> s.stats(dir).recorded() == 0,
        forall|i: int|
            0 <= i < arrivals.len() - 1 && (#[trigger] arrivals[i]).nanos <= arrivals[i + 1].nanos
                ==> s.stats(dir).bounds().0 <= (arrivals[i + 1].nanos - arrivals[i].nanos) / 1_000
                <= s.stats(dir).bounds().1,
        arrivals.len() > 1 ==> exists|i: int|
            0 <= i < arrivals.len() - 1 && s.stats(dir).bounds().0 as int == nanos_between(
                #[trigger] arrivals[i],
                arrivals[i + 1],
            ) as int / 1_000,
        arrivals.len() > 1 ==> exists|i: int|
            0 <= i < arrivals.len() - 1 && s.stats(dir).bounds().1 as int == nanos_between(
                #[trigger] arrivals[i],
                arrivals[i + 1],
            ) as int / 1_000,
{
    let spans = gaps(arrivals);
    let us = micros(spans);
    law_iat_extremes(s.stats(dir), spans);
    assert forall|i: int| 0 <= i < spans.len() implies us[i] == nanos_between(
        #[trigger] arrivals[i],
        arrivals[i + 1],
    ) as int / 1_000 by {
        assert(spans[i].nanos == nanos_between(arrivals[i], arrivals[i + 1]));
    }
    if arrivals.len() > 1 {
        assert(us.contains(s.stats(dir).bounds().0 as int));
        assert(us.contains(s.stats(dir).bounds().1 as int));
        let a = choose|i: int| 0 <= i < us.len() && us[i] == s.stats(dir).bounds().0 as int;
        let b = choose|i: int| 0 <= i < us.len() && us[i] == s.stats(dir).bounds().1 as int;
        assert(us[a] == nanos_between(arrivals[a], arrivals[a + 1]) as int / 1_000);
        assert(us[b] == nanos_between(arrivals[b], arrivals[b + 1]) as int / 1_000);
    }
    assert forall|i: int|
        0 <= i < arrivals.len() - 1 && (#[trigger] arrivals[i]).nanos <= arrivals[i
            + 1].nanos implies s.stats(dir).bounds().0 <= (arrivals[i + 1].nanos
        - arrivals[i].nanos) / 1_000 <= s.stats(dir).bounds().1 by {
        assert(us[i] == (arrivals[i + 1].nanos - arrivals[i].nanos) / 1_000);
    }
}

/// A list holds what its parts hold.
proof fn lemma_concat_holds(a: Seq<u8>, b: Seq<u8>, c: u8)
    ensures
        (a + b).contains(c) <==> a.contains(c) || b.contains(c),
{
    if a.contains(c) {
        let i = choose|i: int| 0 <= i < a.len() && a[i] == c;
        assert((a + b)[i] == c);
    }
    if b.contains(c) {
        let i = choose|i: int| 0 <= i < b.len() && b[i] == c;
        assert((a + b)[a.len() + i] == c);
    }
    if (a + b).contains(c) {
        let i = choose|i: int| 0 <= i < (a + b).len() && (a + b)[i] == c;
        if i < a.len() {
            assert(a[i] == c);
        } else {
            assert(b[i - a.len()] == c);
        }
    }
}

/// A list of one letter, or of none, holds that letter or nothing.
proof fn lemma_one_letter(there: bool, letter: u8, c: u8)
    ensures
        (if there {
            seq![letter]
        } else {
            Seq::<u8>::empty()
        }).contains(c) <==> there && c == letter,
{
    assert(seq![letter][0] == letter);
}

/// Which letters a segment has.
proof fn lemma_letters(pdu: L4Pdu, c: u8)
    ensures
        letters(pdu).contains(c) <==> {
            ||| c == 0x53 && pdu.flags == 0x02
            ||| c == 0x48 && pdu.flags == 0x12
            ||| c == 0x41 && pdu.flags == 0x10 && pdu.length == 0
            ||| c == 0x44 && pdu.length != 0
            ||| c == 0x46 && pdu.flags % 2 == 1
            ||| c == 0x52 && (pdu.flags / 4) % 2 == 1
        },
{
    let fl = pdu.flags;
    assert(fl & 0x01 != 0 <==> fl % 2 == 1) by (bit_vector);
    assert(fl & 0x04 != 0 <==> (fl / 4) % 2 == 1) by (bit_vector);
    assert(0x02u8 | 0x10u8 == 0x12u8) by (bit_vector);
    let one = |there: bool, letter: u8|
        if there {
            seq![letter]
        } else {
            Seq::<u8>::empty()
        };
    let s = one(fl == SYN, HIST_SYN);
    let h = one(fl == (SYN | ACK), HIST_SYNACK);
    let a = one(fl == ACK && pdu.length == 0, HIST_ACK);
    let d = one(pdu.length > 0, HIST_DATA);
    let f = one(fl & FIN != 0, HIST_FIN);
    let r = one(fl & RST != 0, HIST_RST);
    assert(letters(pdu) =~= s + h + a + d + f + r);
    lemma_one_letter(fl == SYN, HIST_SYN, c);
    lemma_one_letter(fl == (SYN | ACK), HIST_SYNACK, c);
    lemma_one_letter(fl == ACK && pdu.length == 0, HIST_ACK, c);
    lemma_one_letter(pdu.length > 0, HIST_DATA, c);
    lemma_one_letter(fl & FIN != 0, HIST_FIN, c);
    lemma_one_letter(fl & RST != 0, HIST_RST, c);
    lemma_concat_holds(s, h, c);
    lemma_concat_holds(s + h, a, c);
    lemma_concat_holds(s + h + a, d, c);
    lemma_concat_holds(s + h + a + d, f, c);
    lemma_concat_holds(s + h + a + d + f, r, c);
}

/// Recording letters adds each of them and nothing else.
proof fn lemma_recorded_members(history: Seq<u8>, ls: Seq<u8>, mask: u8, c: u8)
    ensures
        all_recorded(history, ls, mask).contains(c) <==> history.contains(c) || ls.contains(
            c ^ mask,
        ),
    decreases ls.len(),
{
    if ls.len() > 0 {
        let less = ls.drop_last();
        let before = all_recorded(history, less, mask);
        let new = ls.last() ^ mask;
        lemma_recorded_members(history, less, mask, c);
        let x = ls.last();
        assert((x ^ mask) ^ mask == x && (c ^ mask) ^ mask == c) by (bit_vector);
        assert(ls =~= less + seq![x]);
        lemma_concat_holds(less, seq![x], c ^ mask);
        lemma_one_letter(true, x, c ^ mask);
        if !before.contains(new) {
            assert(before.push(new) =~= before + seq![new]);
            lemma_concat_holds(before, seq![new], c);
            lemma_one_letter(true, new, c);
        }
    }
}

/// What a segment adds to the history, letter by letter. After a segment from the originator the
/// history holds D whenever there is payload, whatever the flags; S if the flags are SYN alone, H if
/// they are SYN and ACK alone, A if they are ACK alone and there is no payload, F if FIN is set and R
/// if RST is set, whatever else. Under no other condition does a letter come in, and no other byte
/// ever does. From the responder it is the same in lowercase.
pub proof fn law_each_letter_has_its_condition(history: Seq<u8>, pdu: L4Pdu, c: u8)
    ensures
        ({
            let after = history_after(history, pdu);
            let case = if pdu.dir {
                0int
            } else {
                32
            };
            &&& history.contains(c) ==> after.contains(c)
            &&& !history.contains(c) ==> (after.contains(c) <==> {
                ||| c == 0x53 + case && pdu.flags == 0x02
                ||| c == 0x48 + case && pdu.flags == 0x12
                ||| c == 0x41 + case && pdu.flags == 0x10 && pdu.length == 0
                ||| c == 0x44 + case && pdu.length != 0
                ||| c == 0x46 + case && pdu.flags % 2 == 1
                ||| c == 0x52 + case && (pdu.flags / 4) % 2 == 1
            })
        }),
{
    let mask: u8 = if pdu.dir {
        0
    } else {
        LOWER
    };
    lemma_recorded_members(history, letters(pdu), mask, c);
    lemma_letters(pdu, c ^ mask);
    assert(c ^ 0 == c) by (bit_vector);
    assert((c ^ 0x20 == 0x53 <==> c == 0x73) && (c ^ 0x20 == 0x48 <==> c == 0x68) && (c ^ 0x20
        == 0x41 <==> c == 0x61) && (c ^ 0x20 == 0x44 <==> c == 0x64) && (c ^ 0x20 == 0x46 <==> c
        == 0x66) && (c ^ 0x20 == 0x52 <==> c == 0x72)) by (bit_vector);
}

/// Where a letter stands among those of one segment.
pub open spec fn rank(letter: u8) -> int {
    if letter == 0x53 || letter == 0x73 {
        0
    } else if letter == 0x48 || letter == 0x68 {
        1
    } else if letter == 0x41 || letter == 0x61 {
        2
    } else if letter == 0x44 || letter == 0x64 {
        3
    } else if letter == 0x46 || letter == 0x66 {
        4
    } else {
        5
    }
}

/// Recording letters that ascend in rank adds letters that ascend in rank.
proof fn lemma_recorded_ranks(history: Seq<u8>, ls: Seq<u8>, mask: u8)
    requires
        forall|i: int, j: int|
            0 <= i < j < ls.len() ==> rank(#[trigger] ls[i] ^ mask) < rank(#[trigger] ls[j] ^ mask),
    ensures
        history.len() <= all_recorded(history, ls, mask).len(),
        forall|i: int|
            history.len() <= i < all_recorded(history, ls, mask).len() ==> exists|k: int|
                0 <= k < ls.len() && #[trigger] all_recorded(history, ls, mask)[i]
                    == #[trigger] ls[k] ^ mask,
        forall|i: int, j: int|
            history.len() <= i < j < all_recorded(history, ls, mask).len() ==> rank(
                #[trigger] all_recorded(history, ls, mask)[i],
            ) < rank(#[trigger] all_recorded(history, ls, mask)[j]),
    decreases ls.len(),
{
    if ls.len() > 0 {
        let less = ls.drop_last();
        assert forall|i: int, j: int| 0 <= i < j < less.len() implies rank(
            #[trigger] less[i] ^ mask,
        ) < rank(#[trigger] less[j] ^ mask) by {
            assert(rank(ls[i] ^ mask) < rank(ls[j] ^ mask));
        }
        lemma_recorded_ranks(history, less, mask);
        let before = all_recorded(history, less, mask);
        let after = all_recorded(history, ls, mask);
        let last = ls.len() - 1;
        assert forall|i: int| history.len() <= i < after.len() implies exists|k: int|
            0 <= k < ls.len() && #[trigger] after[i] == #[trigger] ls[k] ^ mask by {
            if i < before.len() {
                let k = choose|k: int| 0 <= k < less.len() && before[i] == #[trigger] less[k] ^ mask;
                assert(after[i] == ls[k] ^ mask);
            } else {
                assert(after[i] == ls[last] ^ mask);
            }
        }
        assert forall|i: int, j: int| history.len() <= i < j < after.len() implies rank(
            #[trigger] after[i],
        ) < rank(#[trigger] after[j]) by {
            if j < before.len() {
                assert(rank(before[i]) < rank(before[j]));
            } else {
                let k = choose|k: int| 0 <= k < less.len() && before[i] == #[trigger] less[k] ^ mask;
                assert(rank(ls[k] ^ mask) < rank(ls[last] ^ mask));
            }
        }
    }
}

/// Flipping the case of a letter.
proof fn lemma_lowercase(x: u8)
    ensures
        x ^ 0 == x,
        (x == 0x53 || x == 0x48 || x == 0x41 || x == 0x44 || x == 0x46 || x == 0x52) ==> x ^ 0x20
            == x + 0x20,
{
    assert(x ^ 0 == x && ((x == 0x53 || x == 0x48 || x == 0x41 || x == 0x44 || x == 0x46 || x
        == 0x52) ==> x ^ 0x20 == x + 0x20)) by (bit_vector);
}

/// The letters that one segment adds stand in the order S, H, A, D, F, R.
pub proof fn law_letters_of_a_segment_in_order(history: Seq<u8>, pdu: L4Pdu, i: int, j: int)
    requires
        history.len() <= i < j < history_after(history, pdu).len(),
    ensures
        rank(history_after(history, pdu)[i]) < rank(history_after(history, pdu)[j]),
{
    let ls = letters(pdu);
    let mask: u8 = if pdu.dir {
        0
    } else {
        LOWER
    };
    assert forall|a: int, b: int| 0 <= a < b < ls.len() implies rank(#[trigger] ls[a] ^ mask)
        < rank(#[trigger] ls[b] ^ mask) by {
        let x = ls[a];
        let y = ls[b];
        lemma_letters(pdu, x);
        lemma_letters(pdu, y);
        assert(ls.contains(x) && ls.contains(y));
        lemma_lowercase(x);
        lemma_lowercase(y);
        assert(rank(x) < rank(y));
    }
    lemma_recorded_ranks(history, ls, mask);
}

} // verus!
