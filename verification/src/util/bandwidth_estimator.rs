//! The samples from which bandwidth is estimated.
//!
//! Bytes are counted until enough time has passed. What was counted and how long it
//! took then makes one sample, and the next begins.

use crate::media::playback::Nanos;
use crate::util::cross_layer_metrics::{CrossLayerManager, CrossLayerMetrics};
use vstd::prelude::*;

verus! {

/// No sample is taken over less than this.
pub const MIN_SAMPLE_INTERVAL: Nanos = 100_000_000;

/// So many bytes in so much time.
#[derive(Clone, Copy, Debug, PartialEq, Eq, Structural)]
pub struct Sample {
    pub bytes: u64,
    pub elapsed: Nanos,
}

/// The sample that is being taken, and what is known of the path, where that is
/// kept.
#[derive(Debug)]
pub struct BandwidthEstimator {
    pub bytes_since_last_sample: u64,
    pub last_sample_time: Nanos,
    pub cross_layer_manager: Option<CrossLayerManager>,
}

impl BandwidthEstimator {
    /// What is known of the path is in order.
    pub open spec fn wf(&self) -> bool {
        self.cross_layer_manager matches Some(m) ==> m.wf()
    }

    /// The start of the first sample.
    pub fn new(now: Nanos) -> (r: BandwidthEstimator)
        ensures
            r.wf(),
            r == (BandwidthEstimator {
                bytes_since_last_sample: 0,
                last_sample_time: now,
                cross_layer_manager: None,
            }),
    {
        BandwidthEstimator {
            bytes_since_last_sample: 0,
            last_sample_time: now,
            cross_layer_manager: None,
        }
    }

    /// The start of the first sample, with what is known of the path kept.
    pub fn with_cross_layer(now: Nanos) -> (r: BandwidthEstimator)
        ensures
            r.wf(),
            r.bytes_since_last_sample == 0,
            r.last_sample_time == now,
            r.cross_layer_manager matches Some(m) && m.is_new(),
    {
        BandwidthEstimator {
            bytes_since_last_sample: 0,
            last_sample_time: now,
            cross_layer_manager: Some(CrossLayerManager::new()),
        }
    }

    /// Takes in the statistics of the connection, where what is known of the path is
    /// kept.
    pub fn update_quic_metrics(
        &mut self,
        rtt: Nanos,
        cwnd: u64,
        bytes_in_flight: u64,
        packets_lost: u64,
        packets_sent: u64,
    )
        requires
            old(self).wf(),
        ensures
            final(self).wf(),
            final(self).bytes_since_last_sample == old(self).bytes_since_last_sample,
            final(self).last_sample_time == old(self).last_sample_time,
            match (old(self).cross_layer_manager, final(self).cross_layer_manager) {
                (Some(before), Some(after)) => before.updates_to(
                    after,
                    rtt,
                    cwnd,
                    bytes_in_flight,
                    packets_lost,
                    packets_sent,
                ),
                (None, None) => true,
                _ => false,
            },
    {
        if let Some(manager) = &mut self.cross_layer_manager {
            manager.update_from_quic(rtt, cwnd, bytes_in_flight, packets_lost, packets_sent);
        }
    }

    /// What is known of the path, where that is kept.
    pub fn cross_layer_metrics(&self) -> (r: Option<CrossLayerMetrics>)
        ensures
            r == (match self.cross_layer_manager {
                Some(m) => Some(m.current_metrics),
                None => None,
            }),
    {
        match &self.cross_layer_manager {
            Some(m) => Some(*m.get_metrics()),
            None => None,
        }
    }

    /// Counts bytes that have been sent or received.
    pub fn record_bytes(&mut self, bytes: u64)
        requires
            old(self).bytes_since_last_sample + bytes <= u64::MAX,
        ensures
            *final(self) == (BandwidthEstimator {
                bytes_since_last_sample: (old(self).bytes_since_last_sample + bytes) as u64,
                ..*old(self)
            }),
    {
        self.bytes_since_last_sample = self.bytes_since_last_sample + bytes;
    }

    /// The sample, once enough time has passed and something was counted. The next
    /// one then begins.
    pub fn update(&mut self, now: Nanos) -> (r: Option<Sample>)
        ensures
            ({
                let elapsed = if now >= old(self).last_sample_time {
                    now - old(self).last_sample_time
                } else {
                    0
                };
                if elapsed >= MIN_SAMPLE_INTERVAL && old(self).bytes_since_last_sample > 0 {
                    &&& r == Some(
                        Sample {
                            bytes: old(self).bytes_since_last_sample,
                            elapsed: elapsed as Nanos,
                        },
                    )
                    &&& *final(self) == (BandwidthEstimator {
                        bytes_since_last_sample: 0,
                        last_sample_time: now,
                        ..*old(self)
                    })
                } else {
                    r is None && *final(self) == *old(self)
                }
            }),
    {
        let elapsed: Nanos = if now >= self.last_sample_time {
            now - self.last_sample_time
        } else {
            0
        };
        if elapsed < MIN_SAMPLE_INTERVAL || self.bytes_since_last_sample == 0 {
            return None;
        }
        let sample = Sample { bytes: self.bytes_since_last_sample, elapsed };
        self.bytes_since_last_sample = 0;
        self.last_sample_time = now;
        Some(sample)
    }

    /// How many bytes have been counted since the last sample.
    pub fn bytes_since_last_sample(&self) -> (r: u64)
        ensures
            r == self.bytes_since_last_sample,
    {
        self.bytes_since_last_sample
    }

    /// Starts all over: nothing is counted, and nothing is known of the path where
    /// that is kept.
    pub fn reset(&mut self, now: Nanos)
        ensures
            final(self).wf(),
            final(self).bytes_since_last_sample == 0,
            final(self).last_sample_time == now,
            match final(self).cross_layer_manager {
                Some(m) => old(self).cross_layer_manager is Some && m.is_new(),
                None => old(self).cross_layer_manager is None,
            },
    {
        self.bytes_since_last_sample = 0;
        self.last_sample_time = now;
        if self.cross_layer_manager.is_some() {
            self.cross_layer_manager = Some(CrossLayerManager::new());
        }
    }
}

/// What happens to an estimator.
pub enum Step {
    Bytes(u64),
    Update(Nanos),
}

/// The bytes that are counted and the samples that come out, step by step.
pub open spec fn run(e: BandwidthEstimator, steps: Seq<Step>) -> (int, int)
    decreases steps.len(),
{
    if steps.len() == 0 {
        (0, 0)
    } else {
        match steps[0] {
            Step::Bytes(n) => {
                let (recorded, sampled) = run(
                    BandwidthEstimator {
                        bytes_since_last_sample: (e.bytes_since_last_sample + n) as u64,
                        ..e
                    },
                    steps.skip(1),
                );
                (recorded + n, sampled)
            },
            Step::Update(now) => if now >= e.last_sample_time && now - e.last_sample_time
                >= MIN_SAMPLE_INTERVAL && e.bytes_since_last_sample > 0 {
                let (recorded, sampled) = run(
                    BandwidthEstimator { bytes_since_last_sample: 0, last_sample_time: now, ..e },
                    steps.skip(1),
                );
                (recorded, sampled + e.bytes_since_last_sample)
            } else {
                run(e, steps.skip(1))
            },
        }
    }
}

/// What an estimator still counts after some steps.
pub open spec fn left_over(e: BandwidthEstimator, steps: Seq<Step>) -> int
    decreases steps.len(),
{
    if steps.len() == 0 {
        e.bytes_since_last_sample as int
    } else {
        match steps[0] {
            Step::Bytes(n) => left_over(
                BandwidthEstimator {
                    bytes_since_last_sample: (e.bytes_since_last_sample + n) as u64,
                    ..e
                },
                steps.skip(1),
            ),
            Step::Update(now) => if now >= e.last_sample_time && now - e.last_sample_time
                >= MIN_SAMPLE_INTERVAL && e.bytes_since_last_sample > 0 {
                left_over(
                    BandwidthEstimator { bytes_since_last_sample: 0, last_sample_time: now, ..e },
                    steps.skip(1),
                )
            } else {
                left_over(e, steps.skip(1))
            },
        }
    }
}

/// The bytes of some steps.
pub open spec fn all_bytes(steps: Seq<Step>) -> int
    decreases steps.len(),
{
    if steps.len() == 0 {
        0
    } else {
        all_bytes(steps.skip(1)) + (match steps[0] {
            Step::Bytes(n) => n as int,
            Step::Update(_) => 0,
        })
    }
}

proof fn lemma_bytes_are_not_negative(steps: Seq<Step>)
    ensures
        all_bytes(steps) >= 0,
    decreases steps.len(),
{
    if steps.len() > 0 {
        lemma_bytes_are_not_negative(steps.skip(1));
    }
}

/// No byte is counted twice and none is lost: what was counted is in the samples or
/// is still being counted.
pub proof fn samples_hold_all_bytes(e: BandwidthEstimator, steps: Seq<Step>)
    requires
        e.bytes_since_last_sample + all_bytes(steps) <= u64::MAX,
    ensures
        run(e, steps).0 == all_bytes(steps),
        e.bytes_since_last_sample + all_bytes(steps) == run(e, steps).1 + left_over(e, steps),
    decreases steps.len(),
{
    lemma_bytes_are_not_negative(steps);
    if steps.len() > 0 {
        lemma_bytes_are_not_negative(steps.skip(1));
        match steps[0] {
            Step::Bytes(n) => {
                samples_hold_all_bytes(
                    BandwidthEstimator {
                        bytes_since_last_sample: (e.bytes_since_last_sample + n) as u64,
                        ..e
                    },
                    steps.skip(1),
                );
            },
            Step::Update(now) => {
                if now >= e.last_sample_time && now - e.last_sample_time >= MIN_SAMPLE_INTERVAL
                    && e.bytes_since_last_sample > 0 {
                    samples_hold_all_bytes(
                        BandwidthEstimator { bytes_since_last_sample: 0, last_sample_time: now, ..e },
                        steps.skip(1),
                    );
                } else {
                    samples_hold_all_bytes(e, steps.skip(1));
                }
            },
        }
    }
}

/// Bytes that are recorded are counted on top of those before, and nothing else
/// changes.
pub proof fn bytes_are_counted(
    e: &mut BandwidthEstimator,
    bytes: u64,
    before: u64,
    after: u64,
)
    requires
        call_ensures(BandwidthEstimator::record_bytes, (e, bytes), ()),
        old(e).bytes_since_last_sample + bytes <= u64::MAX,
        call_ensures(BandwidthEstimator::bytes_since_last_sample, (old(e),), before),
        call_ensures(BandwidthEstimator::bytes_since_last_sample, (final(e),), after),
    ensures
        after == before + bytes,
        final(e).last_sample_time == old(e).last_sample_time,
        final(e).cross_layer_manager == old(e).cross_layer_manager,
{
}

/// A sample is taken exactly where a tenth of a second has passed since the last and
/// anything was counted. It holds all that was counted and all the time that passed,
/// and both start anew. Otherwise nothing changes.
pub proof fn a_sample_holds_all_since_the_last(
    e: &mut BandwidthEstimator,
    now: Nanos,
    r: Option<Sample>,
)
    requires
        call_ensures(BandwidthEstimator::update, (e, now), r),
    ensures
        r is Some == (now - old(e).last_sample_time >= 100_000_000
            && old(e).bytes_since_last_sample > 0),
        r matches Some(s) ==> s.bytes == old(e).bytes_since_last_sample && old(e).last_sample_time
            + s.elapsed == now && final(e).bytes_since_last_sample == 0 && final(e).last_sample_time
            == now,
        r is None ==> final(e).bytes_since_last_sample == old(e).bytes_since_last_sample
            && final(e).last_sample_time == old(e).last_sample_time,
        final(e).cross_layer_manager == old(e).cross_layer_manager,
{
}

/// Where what is known of the path is kept, the statistics of the connection are taken
/// in; where it is not, they are dropped. No bytes are touched.
pub proof fn statistics_are_taken_in_where_they_are_kept(
    e: &mut BandwidthEstimator,
    rtt: Nanos,
    cwnd: u64,
    bytes_in_flight: u64,
    packets_lost: u64,
    packets_sent: u64,
    r: Option<CrossLayerMetrics>,
)
    requires
        call_ensures(
            BandwidthEstimator::update_quic_metrics,
            (e, rtt, cwnd, bytes_in_flight, packets_lost, packets_sent),
            (),
        ),
        call_ensures(BandwidthEstimator::cross_layer_metrics, (final(e),), r),
    ensures
        r is Some == old(e).cross_layer_manager is Some,
        r matches Some(m) ==> m.rtt_current == rtt && m.cwnd == cwnd && m.bytes_in_flight
            == bytes_in_flight,
        final(e).bytes_since_last_sample == old(e).bytes_since_last_sample,
        final(e).last_sample_time == old(e).last_sample_time,
{
}

/// Starting all over is like a new estimator of the same kind.
pub proof fn starting_over_is_like_new(
    e: &mut BandwidthEstimator,
    now: Nanos,
    a: BandwidthEstimator,
    b: BandwidthEstimator,
    r: Option<CrossLayerMetrics>,
    ra: Option<CrossLayerMetrics>,
    rb: Option<CrossLayerMetrics>,
)
    requires
        call_ensures(BandwidthEstimator::reset, (e, now), ()),
        call_ensures(BandwidthEstimator::new, (now,), a),
        call_ensures(BandwidthEstimator::with_cross_layer, (now,), b),
        call_ensures(BandwidthEstimator::cross_layer_metrics, (final(e),), r),
        call_ensures(BandwidthEstimator::cross_layer_metrics, (&a,), ra),
        call_ensures(BandwidthEstimator::cross_layer_metrics, (&b,), rb),
    ensures
        final(e).bytes_since_last_sample == 0 && a.bytes_since_last_sample == 0
            && b.bytes_since_last_sample == 0,
        final(e).last_sample_time == now && a.last_sample_time == now && b.last_sample_time == now,
        ra is None,
        rb matches Some(m) && m.rtt_min == 10_000_000 && m.rtt_current == 50_000_000 && m.cwnd
            == 10_000 && m.bytes_in_flight == 0 && m.mss == 1200 && m.queue_length == 0,
        r == (if old(e).cross_layer_manager is Some {
            rb
        } else {
            ra
        }),
        final(e).cross_layer_manager matches Some(m) ==> m.rtt_history@.len() == 0
            && m.loss_history@.len() == 0,
{
}

} // verus!
