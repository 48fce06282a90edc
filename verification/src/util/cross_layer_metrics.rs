//! What is known of a path, from the statistics of its QUIC connection.

use crate::media::playback::Nanos;
use vstd::prelude::*;

verus! {

/// How many measurements are kept.
pub const MAX_HISTORY: usize = 100;

/// What is known of a path.
#[derive(Clone, Copy, Debug, PartialEq, Eq, Structural)]
pub struct CrossLayerMetrics {
    /// The least round-trip time of the last measurements.
    pub rtt_min: Nanos,
    pub rtt_current: Nanos,
    /// The congestion window in bytes.
    pub cwnd: u64,
    /// Bytes that have not been acknowledged.
    pub bytes_in_flight: u64,
    /// The size of a segment.
    pub mss: u32,
    /// How many packets are queued.
    pub queue_length: u32,
}

impl Default for CrossLayerMetrics {
    fn default() -> (r: CrossLayerMetrics)
        ensures
            r == (CrossLayerMetrics {
                rtt_min: 10_000_000,
                rtt_current: 50_000_000,
                cwnd: 10_000,
                bytes_in_flight: 0,
                mss: 1200,
                queue_length: 0,
            }),
    {
        CrossLayerMetrics {
            rtt_min: 10_000_000,
            rtt_current: 50_000_000,
            cwnd: 10_000,
            bytes_in_flight: 0,
            mss: 1200,
            queue_length: 0,
        }
    }
}

impl CrossLayerMetrics {
    /// How many whole segments the congestion window holds.
    pub fn packets_in_cwnd(&self) -> (r: u64)
        requires
            self.mss > 0,
        ensures
            r == self.cwnd as int / self.mss as int,
    {
        self.cwnd / self.mss as u64
    }

    /// How many segments a block takes.
    pub fn packets_needed(&self, block_size_bytes: u64) -> (r: u64)
        requires
            self.mss > 0,
            block_size_bytes + self.mss - 1 <= u64::MAX,
        ensures
            r == (block_size_bytes + self.mss - 1) / (self.mss as int),
            r * self.mss >= block_size_bytes,
            block_size_bytes > 0 ==> (r - 1) * self.mss < block_size_bytes,
    {
        let mss: u64 = self.mss as u64;
        let r: u64 = (block_size_bytes + (mss - 1)) / mss;
        proof {
            let n = block_size_bytes + mss - 1;
            let d = mss as int;
            vstd::arithmetic::div_mod::lemma_fundamental_div_mod(n, d);
            vstd::arithmetic::div_mod::lemma_mod_bound(n, d);
            assert(d * (n / d) == (n / d) * d) by (nonlinear_arith);
            assert((r - 1) * d == r * d - d) by (nonlinear_arith);
        }
        r
    }
}

/// The least of some round-trip times; where there are none, ten milliseconds.
pub open spec fn least(h: Seq<Nanos>) -> Nanos
    decreases h.len(),
{
    if h.len() == 0 {
        10_000_000
    } else if h.len() == 1 {
        h[0]
    } else {
        let m = least(h.drop_last());
        if h.last() < m {
            h.last()
        } else {
            m
        }
    }
}

/// A history with one more measurement, the oldest dropped where there are too many.
pub open spec fn remember<T>(h: Seq<T>, x: T) -> Seq<T> {
    if h.len() + 1 > MAX_HISTORY {
        h.push(x).skip(1)
    } else {
        h.push(x)
    }
}

/// What is known of a path, and the measurements behind it.
#[derive(Debug)]
pub struct CrossLayerManager {
    pub current_metrics: CrossLayerMetrics,
    pub rtt_history: Vec<Nanos>,
    /// Packets lost and packets sent, by measurement.
    pub loss_history: Vec<(u64, u64)>,
}

fn push_bounded<T>(h: &mut Vec<T>, x: T)
    ensures
        final(h)@ == remember(old(h)@, x),
{
    h.push(x);
    if h.len() > MAX_HISTORY {
        let _ = h.remove(0);
        assert(h@ == remember(old(h)@, x));
    }
}

fn find_least(h: &Vec<Nanos>) -> (r: Nanos)
    ensures
        r == least(h@),
{
    if h.len() == 0 {
        return 10_000_000;
    }
    let mut m: Nanos = h[0];
    let mut i: usize = 1;
    assert(h@.take(1).len() == 1);
    while i < h.len()
        invariant
            1 <= i <= h@.len(),
            m == least(h@.take(i as int)),
        decreases h@.len() - i,
    {
        assert(h@.take(i + 1).drop_last() == h@.take(i as int));
        if h[i] < m {
            m = h[i];
        }
        i = i + 1;
    }
    assert(h@.take(i as int) == h@);
    m
}

impl CrossLayerManager {
    /// No more is kept than is meant to be.
    pub open spec fn wf(&self) -> bool {
        self.rtt_history@.len() <= MAX_HISTORY && self.loss_history@.len() <= MAX_HISTORY
    }

    /// Nothing has been measured.
    pub open spec fn is_new(&self) -> bool {
        &&& self.current_metrics == (CrossLayerMetrics {
            rtt_min: 10_000_000,
            rtt_current: 50_000_000,
            cwnd: 10_000,
            bytes_in_flight: 0,
            mss: 1200,
            queue_length: 0,
        })
        &&& self.rtt_history@ == Seq::<Nanos>::empty()
        &&& self.loss_history@ == Seq::<(u64, u64)>::empty()
    }

    /// Whether `after` is what is known once these statistics have been taken in.
    /// Losses count only where something was sent.
    pub open spec fn updates_to(
        &self,
        after: CrossLayerManager,
        rtt: Nanos,
        cwnd: u64,
        bytes_in_flight: u64,
        packets_lost: u64,
        packets_sent: u64,
    ) -> bool {
        &&& after.rtt_history@ == remember(self.rtt_history@, rtt)
        &&& after.loss_history@ == (if packets_sent > 0 {
            remember(self.loss_history@, (packets_lost, packets_sent))
        } else {
            self.loss_history@
        })
        &&& after.current_metrics == (CrossLayerMetrics {
            rtt_min: least(remember(self.rtt_history@, rtt)),
            rtt_current: rtt,
            cwnd,
            bytes_in_flight,
            ..self.current_metrics
        })
    }

    /// Nothing has been measured.
    pub fn new() -> (r: CrossLayerManager)
        ensures
            r.wf(),
            r.is_new(),
    {
        CrossLayerManager {
            current_metrics: CrossLayerMetrics::default(),
            rtt_history: Vec::new(),
            loss_history: Vec::new(),
        }
    }

    /// Takes in the statistics of the connection. Losses count only where something
    /// was sent.
    pub fn update_from_quic(
        &mut self,
        rtt: Nanos,
        cwnd: u64,
        bytes_in_flight: u64,
        packets_lost: u64,
        packets_sent: u64,
    )
        requires
            old(self).wf(),
        ensures
            final(self).wf(),
            old(self).updates_to(
                *final(self),
                rtt,
                cwnd,
                bytes_in_flight,
                packets_lost,
                packets_sent,
            ),
    {
        push_bounded(&mut self.rtt_history, rtt);
        self.current_metrics.rtt_min = find_least(&self.rtt_history);
        self.current_metrics.rtt_current = rtt;
        self.current_metrics.cwnd = cwnd;
        self.current_metrics.bytes_in_flight = bytes_in_flight;
        if packets_sent > 0 {
            push_bounded(&mut self.loss_history, (packets_lost, packets_sent));
        }
    }

    /// What is known of the path.
    pub fn get_metrics(&self) -> (r: &CrossLayerMetrics)
        ensures
            *r == self.current_metrics,
    {
        &self.current_metrics
    }

    /// The present metrics, to be changed.
    pub fn get_metrics_mut(&mut self) -> (r: &mut CrossLayerMetrics)
        ensures
            *r == old(self).current_metrics,
            *final(self) == (CrossLayerManager { current_metrics: *final(r), ..*old(self) }),
    {
        &mut self.current_metrics
    }
}

/// The least round-trip time is one that was measured, and none that is remembered
/// is less.
pub proof fn least_is_the_minimum(h: Seq<Nanos>)
    requires
        h.len() > 0,
    ensures
        h.contains(least(h)),
        forall|i: int| 0 <= i < h.len() ==> least(h) <= h[i],
    decreases h.len(),
{
    if h.len() == 1 {
        assert(h[0] == least(h));
    } else {
        let d = h.drop_last();
        least_is_the_minimum(d);
        let j = choose|j: int| 0 <= j < d.len() && d[j] == least(d);
        assert(h[j] == least(d));
        assert(h[h.len() - 1] == h.last());
        assert forall|i: int| 0 <= i < h.len() implies least(h) <= h[i] by {
            if i < d.len() {
                assert(d[i] == h[i]);
            }
        }
    }
}

/// The last measurement is always remembered, with as many before it as there is
/// room for, in order.
pub proof fn history_keeps_the_latest<T>(h: Seq<T>, x: T)
    requires
        h.len() <= MAX_HISTORY,
    ensures
        remember(h, x).last() == x,
        remember(h, x).len() <= MAX_HISTORY,
        h.len() < MAX_HISTORY ==> remember(h, x) == h.push(x),
        h.len() == MAX_HISTORY ==> remember(h, x) == h.skip(1).push(x),
{
    if h.len() == MAX_HISTORY {
        assert(h.push(x).skip(1) == h.skip(1).push(x));
    }
}

/// The statistics of a connection at one time.
pub struct Measurement {
    pub rtt: Nanos,
    pub cwnd: u64,
    pub bytes_in_flight: u64,
    pub packets_lost: u64,
    pub packets_sent: u64,
}

/// Whether these are the states of a manager, from a new one on, as the measurements
/// are taken in one by one.
pub open spec fn is_history(states: Seq<CrossLayerManager>, taken: Seq<Measurement>) -> bool {
    &&& states.len() == taken.len() + 1
    &&& states[0].is_new()
    &&& forall|i: int|
        #![trigger taken[i]]
        0 <= i < taken.len() ==> states[i].updates_to(
            states[i + 1],
            taken[i].rtt,
            taken[i].cwnd,
            taken[i].bytes_in_flight,
            taken[i].packets_lost,
            taken[i].packets_sent,
        )
}

/// The last of these, as many as are kept.
pub open spec fn latest<T>(s: Seq<T>) -> Seq<T> {
    if s.len() > MAX_HISTORY {
        s.skip(s.len() - MAX_HISTORY)
    } else {
        s
    }
}

/// The round-trip times that were measured.
pub open spec fn round_trips(taken: Seq<Measurement>) -> Seq<Nanos> {
    taken.map_values(|m: Measurement| m.rtt)
}

/// The losses that were measured: those where something was sent.
pub open spec fn losses(taken: Seq<Measurement>) -> Seq<(u64, u64)> {
    taken.filter(|m: Measurement| m.packets_sent > 0).map_values(
        |m: Measurement| (m.packets_lost, m.packets_sent),
    )
}

proof fn lemma_latest<T>(s: Seq<T>, x: T)
    ensures
        remember(latest(s), x) == latest(s.push(x)),
{
    assert(remember(latest(s), x) =~= latest(s.push(x)));
}

proof fn lemma_losses(taken: Seq<Measurement>, m: Measurement)
    ensures
        losses(taken.push(m)) == (if m.packets_sent > 0 {
            losses(taken).push((m.packets_lost, m.packets_sent))
        } else {
            losses(taken)
        }),
{
    let sent = |m: Measurement| m.packets_sent > 0;
    reveal(Seq::filter);
    assert(taken.push(m).drop_last() =~= taken);
    assert(taken.push(m).filter(sent) == (if sent(m) {
        taken.filter(sent).push(m)
    } else {
        taken.filter(sent)
    }));
    assert(losses(taken.push(m)) =~= (if m.packets_sent > 0 {
        losses(taken).push((m.packets_lost, m.packets_sent))
    } else {
        losses(taken)
    }));
}

/// What is kept of the measurements are the last of them, a hundred at most, of the
/// losses the last that were measured while something was sent.
pub proof fn the_last_measurements_are_kept(
    states: Seq<CrossLayerManager>,
    taken: Seq<Measurement>,
)
    requires
        is_history(states, taken),
    ensures
        states.last().wf(),
        states.last().rtt_history@ == latest(round_trips(taken)),
        states.last().loss_history@ == latest(losses(taken)),
    decreases taken.len(),
{
    if taken.len() == 0 {
        reveal(Seq::filter);
        assert(round_trips(taken) =~= Seq::<Nanos>::empty());
        assert(losses(taken) =~= Seq::<(u64, u64)>::empty());
    } else {
        let before = taken.drop_last();
        let m = taken.last();
        assert(taken[taken.len() - 1] == m);
        assert forall|i: int| #![trigger before[i]] 0 <= i < before.len() implies
            states.drop_last()[i].updates_to(
            states.drop_last()[i + 1],
            before[i].rtt,
            before[i].cwnd,
            before[i].bytes_in_flight,
            before[i].packets_lost,
            before[i].packets_sent,
        ) by {
            assert(taken[i] == before[i]);
        }
        the_last_measurements_are_kept(states.drop_last(), before);
        assert(before.push(m) =~= taken);
        assert(round_trips(taken) =~= round_trips(before).push(m.rtt));
        lemma_latest(round_trips(before), m.rtt);
        lemma_losses(before, m);
        lemma_latest(losses(before), (m.packets_lost, m.packets_sent));
    }
}

/// Once anything has been measured, the present round-trip time is the last one that
/// was measured, and the least is the minimum of the last ones, a hundred at most.
pub proof fn the_least_is_of_the_last_measurements(
    states: Seq<CrossLayerManager>,
    taken: Seq<Measurement>,
)
    requires
        is_history(states, taken),
        taken.len() > 0,
    ensures
        ({
            let m = states.last().current_metrics;
            let last = latest(round_trips(taken));
            &&& m.rtt_current == taken.last().rtt
            &&& m.rtt_min <= m.rtt_current
            &&& last.contains(m.rtt_min)
            &&& forall|i: int| 0 <= i < last.len() ==> m.rtt_min <= last[i]
        }),
{
    the_last_measurements_are_kept(states, taken);
    assert(taken[taken.len() - 1] == taken.last());
    let last = latest(round_trips(taken));
    assert(states.last().current_metrics.rtt_min == least(last));
    least_is_the_minimum(last);
    assert(last[last.len() - 1] == taken.last().rtt);
}

/// One measurement becomes the present state of the path. What is not measured stays.
pub proof fn a_measurement_is_the_present(
    m: &mut CrossLayerManager,
    rtt: Nanos,
    cwnd: u64,
    bytes_in_flight: u64,
    packets_lost: u64,
    packets_sent: u64,
    r: &CrossLayerMetrics,
)
    requires
        call_ensures(
            CrossLayerManager::update_from_quic,
            (m, rtt, cwnd, bytes_in_flight, packets_lost, packets_sent),
            (),
        ),
        call_ensures(CrossLayerManager::get_metrics, (final(m),), r),
        old(m).rtt_history@.len() <= 100,
    ensures
        r.rtt_current == rtt,
        r.cwnd == cwnd,
        r.bytes_in_flight == bytes_in_flight,
        r.mss == old(m).current_metrics.mss,
        r.queue_length == old(m).current_metrics.queue_length,
        r.rtt_min <= rtt,
        final(m).rtt_history@.len() > 0 && final(m).rtt_history@.last() == rtt,
        packets_sent == 0 ==> final(m).loss_history@ == old(m).loss_history@,
        packets_sent > 0 ==> final(m).loss_history@.len() > 0 && final(m).loss_history@.last() == (
            packets_lost,
            packets_sent,
        ),
{
    let h = final(m).rtt_history@;
    least_is_the_minimum(h);
    assert(h[h.len() - 1] == rtt);
    if packets_sent > 0 {
        let l = final(m).loss_history@;
        assert(l[l.len() - 1] == (packets_lost, packets_sent));
    }
}

/// A block takes as many segments as hold it, and one fewer would not.
pub proof fn segments_hold_the_block(m: CrossLayerMetrics, size: u64, window: u64, needed: u64)
    requires
        call_ensures(CrossLayerMetrics::packets_in_cwnd, (&m,), window),
        call_ensures(CrossLayerMetrics::packets_needed, (&m, size), needed),
        m.mss > 0,
        size + m.mss - 1 <= u64::MAX,
    ensures
        window * m.mss <= m.cwnd < (window + 1) * m.mss,
        needed * m.mss >= size,
        size > 0 ==> (needed - 1) * m.mss < size,
        size == 0 ==> needed == 0,
{
    let d = m.mss as int;
    let c = m.cwnd as int;
    vstd::arithmetic::div_mod::lemma_fundamental_div_mod(c, d);
    vstd::arithmetic::div_mod::lemma_mod_bound(c, d);
    assert(d * (c / d) == (c / d) * d) by (nonlinear_arith);
    assert((window + 1) * d == window * d + d) by (nonlinear_arith);
    if size == 0 {
        assert((d - 1) / d == 0) by (nonlinear_arith)
            requires
                d > 0,
        ;
    }
}

/// Before anything is measured the path is supposed to have a round trip of fifty
/// milliseconds, ten at least, a window of ten thousand bytes and segments of 1200.
pub proof fn a_path_is_supposed_before_it_is_measured(m: CrossLayerManager, d: CrossLayerMetrics)
    requires
        call_ensures(CrossLayerManager::new, (), m),
        call_ensures(<CrossLayerMetrics as Default>::default, (), d),
    ensures
        d.rtt_current == 50 * 1_000_000 && d.rtt_min == 10 * 1_000_000,
        d.cwnd == 10_000 && d.bytes_in_flight == 0 && d.mss == 1200 && d.queue_length == 0,
        m.current_metrics == d,
        m.rtt_history@.len() == 0 && m.loss_history@.len() == 0,
{
}

/// What is changed of the present metrics is what they are from then on, and the
/// measurements stay.
pub proof fn metrics_can_be_changed_in_place(m: &mut CrossLayerManager, r: &mut CrossLayerMetrics)
    requires
        call_ensures(CrossLayerManager::get_metrics_mut, (m,), r),
    ensures
        *old(r) == old(m).current_metrics,
        final(m).current_metrics == *final(r),
        final(m).rtt_history@ == old(m).rtt_history@,
        final(m).loss_history@ == old(m).loss_history@,
{
}

} // verus!
