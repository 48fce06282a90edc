//! How well media plays: what is counted for each track.

use crate::media::playback::Nanos;
use crate::table::Table;
use vstd::prelude::*;

verus! {

/// What some lengths of time come to.
#[derive(Clone, Copy, Debug, PartialEq, Eq, Structural)]
pub struct DurationSummary {
    pub last: Nanos,
    pub mean: Nanos,
    pub min: Nanos,
    pub max: Nanos,
    pub samples: u64,
}

/// What is counted for a track.
#[derive(Clone, Copy, Debug, PartialEq, Eq, Structural)]
pub struct TrackStats {
    pub total_frames: u64,
    pub missing_frames: u64,
    pub decoder_dropped: u64,
    pub last_sequence: Option<u64>,
    pub last_render: Option<Nanos>,
    pub last_playback_position: Option<Nanos>,
    pub stall_events: u64,
    pub total_stall_time: Nanos,
    pub startup_delay: Option<Nanos>,
}

/// What a rendered frame adds to the averages of its track.
#[derive(Clone, Copy, Debug, PartialEq, Eq)]
pub struct FrameSamples {
    /// How long it took from capture to rendering.
    pub latency: Option<Nanos>,
    /// The time since the last frame was rendered, and the time that should have
    /// passed. How far they differ is the jitter.
    pub gaps: Option<(Nanos, Nanos)>,
}

/// What the lengths of time that are averaged for a track come to, where there are
/// any.
#[derive(Clone, Copy, Debug, PartialEq, Eq, Structural)]
pub struct Averages {
    pub frame_latency: Option<DurationSummary>,
    pub playback_jitter: Option<DurationSummary>,
    pub stall_duration: Option<DurationSummary>,
}

/// What is reported of a track, but for scores.
#[derive(Debug)]
pub struct TrackQoSReport {
    pub track: String,
    pub total_frames: u64,
    pub missing_frames: u64,
    pub decoder_dropped: u64,
    pub stall_events: u64,
    pub total_stall_time: Nanos,
    pub averages: Averages,
    pub startup_delay: Option<Nanos>,
}

/// What a [`TrackQoSReport`] holds.
#[verifier::ext_equal]
pub struct ReportView {
    pub track: Seq<char>,
    pub total_frames: u64,
    pub missing_frames: u64,
    pub decoder_dropped: u64,
    pub stall_events: u64,
    pub total_stall_time: Nanos,
    pub averages: Averages,
    pub startup_delay: Option<Nanos>,
}

impl View for TrackQoSReport {
    type V = ReportView;

    open spec fn view(&self) -> ReportView {
        ReportView {
            track: self.track@,
            total_frames: self.total_frames,
            missing_frames: self.missing_frames,
            decoder_dropped: self.decoder_dropped,
            stall_events: self.stall_events,
            total_stall_time: self.total_stall_time,
            averages: self.averages,
            startup_delay: self.startup_delay,
        }
    }
}

/// Nothing has been averaged.
pub open spec fn no_averages() -> Averages {
    Averages { frame_latency: None, playback_jitter: None, stall_duration: None }
}

/// Nothing has been counted.
pub open spec fn no_stats() -> TrackStats {
    TrackStats {
        total_frames: 0,
        missing_frames: 0,
        decoder_dropped: 0,
        last_sequence: None,
        last_render: None,
        last_playback_position: None,
        stall_events: 0,
        total_stall_time: 0,
        startup_delay: None,
    }
}

/// A sum that stops at the greatest number.
pub open spec fn saturating(a: u64, b: int) -> u64 {
    if a + b > u64::MAX {
        u64::MAX
    } else {
        (a + b) as u64
    }
}

/// How many frames are missing before a frame of this number.
pub open spec fn skipped(last: Option<u64>, sequence: u64) -> int {
    match last {
        Some(l) if sequence > l + 1 => sequence - l - 1,
        _ => 0,
    }
}

/// The time from one point to another, unless it runs backwards.
pub open spec fn forward(from: Nanos, to: Nanos) -> Option<Nanos> {
    if to >= from {
        Some((to - from) as Nanos)
    } else {
        None
    }
}

/// What is counted once a frame has been rendered.
pub open spec fn after_frame(
    s: TrackStats,
    sequence: u64,
    render: Nanos,
    position: Option<Nanos>,
) -> TrackStats {
    TrackStats {
        missing_frames: saturating(s.missing_frames, skipped(s.last_sequence, sequence)),
        total_frames: saturating(s.total_frames, 1),
        last_sequence: Some(sequence),
        last_render: Some(render),
        last_playback_position: match position {
            Some(p) => Some(p),
            None => s.last_playback_position,
        },
        ..s
    }
}

/// What a rendered frame adds to the averages.
pub open spec fn frame_samples(
    s: TrackStats,
    capture: Option<Nanos>,
    render: Nanos,
    position: Option<Nanos>,
) -> FrameSamples {
    FrameSamples {
        latency: match capture {
            Some(c) => forward(c, render),
            None => None,
        },
        gaps: match (s.last_render, position, s.last_playback_position) {
            (Some(prev), Some(pos), Some(prev_pos)) => match (
                forward(prev, render),
                forward(prev_pos, pos),
            ) {
                (Some(a), Some(b)) => Some((a, b)),
                _ => None,
            },
            _ => None,
        },
    }
}

fn saturate(a: u64, b: u64) -> (r: u64)
    ensures
        r == saturating(a, b as int),
{
    if b > u64::MAX - a {
        u64::MAX
    } else {
        a + b
    }
}

fn since(from: Nanos, to: Nanos) -> (r: Option<Nanos>)
    ensures
        r == forward(from, to),
{
    if to >= from {
        Some(to - from)
    } else {
        None
    }
}

impl Default for TrackStats {
    fn default() -> (r: TrackStats)
        ensures
            r == no_stats(),
    {
        TrackStats {
            total_frames: 0,
            missing_frames: 0,
            decoder_dropped: 0,
            last_sequence: None,
            last_render: None,
            last_playback_position: None,
            stall_events: 0,
            total_stall_time: 0,
            startup_delay: None,
        }
    }
}

/// What is counted for all tracks, and when it is reported.
#[derive(Debug)]
pub struct MediaQoSReporter {
    tracks: Table<String, TrackStats>,
    report_interval: Option<Nanos>,
    last_report: Nanos,
}

/// What a [`MediaQoSReporter`] holds.
#[verifier::ext_equal]
pub struct ReporterView {
    pub tracks: Map<Seq<char>, TrackStats>,
    pub report_interval: Option<Nanos>,
    pub last_report: Nanos,
}

impl View for MediaQoSReporter {
    type V = ReporterView;

    closed spec fn view(&self) -> ReporterView {
        ReporterView {
            tracks: self.tracks@,
            report_interval: self.report_interval,
            last_report: self.last_report,
        }
    }
}

impl ReporterView {
    /// What is counted for a track: nothing at first.
    pub open spec fn stats(self, track: Seq<char>) -> TrackStats {
        if self.tracks.contains_key(track) {
            self.tracks[track]
        } else {
            no_stats()
        }
    }

    /// The same with other counts for a track.
    pub open spec fn with(self, track: Seq<char>, s: TrackStats) -> ReporterView {
        ReporterView { tracks: self.tracks.insert(track, s), ..self }
    }

    /// What is reported of a track.
    pub open spec fn report(self, track: Seq<char>, averages: Averages) -> ReportView {
        let s = self.stats(track);
        ReportView {
            track,
            total_frames: s.total_frames,
            missing_frames: s.missing_frames,
            decoder_dropped: s.decoder_dropped,
            stall_events: s.stall_events,
            total_stall_time: s.total_stall_time,
            averages,
            startup_delay: s.startup_delay,
        }
    }

    /// What is reported of a track, with its averages looked up.
    pub open spec fn full_report(
        self,
        track: Seq<char>,
        averages: Map<Seq<char>, Averages>,
    ) -> ReportView {
        self.report(
            track,
            if averages.contains_key(track) {
                averages[track]
            } else {
                no_averages()
            },
        )
    }

    /// Whether these are the reports of all tracks, one of each.
    pub open spec fn is_snapshot(
        self,
        averages: Map<Seq<char>, Averages>,
        reports: Seq<ReportView>,
    ) -> bool {
        &&& forall|i: int, j: int|
            #![trigger reports[i], reports[j]]
            0 <= i < j < reports.len() ==> reports[i].track != reports[j].track
        &&& forall|i: int|
            #![trigger reports[i]]
            0 <= i < reports.len() ==> self.tracks.contains_key(reports[i].track) && reports[i]
                == self.full_report(reports[i].track, averages)
        &&& forall|t: Seq<char>|
            self.tracks.contains_key(t) ==> reports.contains(
                #[trigger] self.full_report(t, averages),
            )
    }

    /// What is counted once something has happened.
    pub open spec fn after(self, change: Change) -> ReporterView {
        match change {
            Change::Frame { track, sequence, render, position } => self.with(
                track,
                after_frame(self.stats(track), sequence, render, position),
            ),
            Change::DecoderDrop { track, dropped } => if dropped == 0 {
                self
            } else {
                self.with(
                    track,
                    TrackStats {
                        decoder_dropped: saturating(
                            self.stats(track).decoder_dropped,
                            dropped as int,
                        ),
                        ..self.stats(track)
                    },
                )
            },
            Change::Missing { track, count } => if count == 0 {
                self
            } else {
                self.with(
                    track,
                    TrackStats {
                        missing_frames: saturating(self.stats(track).missing_frames, count as int),
                        ..self.stats(track)
                    },
                )
            },
            Change::Stall { track, duration } => if duration == 0 {
                self
            } else {
                self.with(
                    track,
                    TrackStats {
                        stall_events: saturating(self.stats(track).stall_events, 1),
                        total_stall_time: (self.stats(track).total_stall_time + duration) as Nanos,
                        ..self.stats(track)
                    },
                )
            },
            Change::Startup { track, delay } => self.with(
                track,
                TrackStats {
                    startup_delay: match self.stats(track).startup_delay {
                        Some(d) => Some(d),
                        None => Some(delay),
                    },
                    ..self.stats(track)
                },
            ),
            Change::Score { track } => self.with(track, self.stats(track)),
            Change::ClearTrack { track } => ReporterView {
                tracks: self.tracks.remove(track),
                ..self
            },
            Change::ClearAll => ReporterView { tracks: Map::empty(), ..self },
        }
    }

    /// What is counted once all this has happened, one after the other.
    pub open spec fn after_all(self, changes: Seq<Change>) -> ReporterView
        decreases changes.len(),
    {
        if changes.len() == 0 {
            self
        } else {
            self.after_all(changes.drop_last()).after(changes.last())
        }
    }
}

/// What changes the counts.
pub enum Change {
    /// A frame has been rendered.
    Frame { track: Seq<char>, sequence: u64, render: Nanos, position: Option<Nanos> },
    /// The decoder has dropped frames.
    DecoderDrop { track: Seq<char>, dropped: u64 },
    /// Frames are known to be missing.
    Missing { track: Seq<char>, count: u64 },
    /// Playback has stalled.
    Stall { track: Seq<char>, duration: Nanos },
    /// Playback has started.
    Startup { track: Seq<char>, delay: Nanos },
    /// The picture has been scored.
    Score { track: Seq<char> },
    /// A track is forgotten.
    ClearTrack { track: Seq<char> },
    /// All tracks are forgotten.
    ClearAll,
}

impl Change {
    /// Whether this counts for a track: no frames and no time do not.
    pub open spec fn counts_for(self, name: Seq<char>) -> bool {
        match self {
            Change::Frame { track, .. } => track == name,
            Change::DecoderDrop { track, dropped } => track == name && dropped > 0,
            Change::Missing { track, count } => track == name && count > 0,
            Change::Stall { track, duration } => track == name && duration > 0,
            Change::Startup { track, .. } => track == name,
            Change::Score { track } => track == name,
            _ => false,
        }
    }

    /// Whether this forgets a track.
    pub open spec fn forgets(self, name: Seq<char>) -> bool {
        match self {
            Change::ClearTrack { track } => track == name,
            Change::ClearAll => true,
            _ => false,
        }
    }
}

/// Whether anything has been counted for a track since it was last forgotten.
pub open spec fn counted(changes: Seq<Change>, name: Seq<char>) -> bool {
    exists|i: int|
        #![trigger changes[i]]
        0 <= i < changes.len() && changes[i].counts_for(name) && forall|j: int|
            #![trigger changes[j]]
            i < j < changes.len() ==> !changes[j].forgets(name)
}

impl MediaQoSReporter {
    /// The table of tracks is in order.
    pub closed spec fn wf(&self) -> bool {
        self.tracks.wf()
    }

    /// A reporter that has counted nothing and reports whenever it is asked.
    pub fn new(now: Nanos) -> (r: MediaQoSReporter)
        ensures
            r.wf(),
            r@ == (ReporterView { tracks: Map::empty(), report_interval: None, last_report: now }),
    {
        MediaQoSReporter { tracks: Table::new(), report_interval: None, last_report: now }
    }

    /// A reporter that has counted nothing and reports no more often than this.
    pub fn with_report_interval(interval: Nanos, now: Nanos) -> (r: MediaQoSReporter)
        ensures
            r.wf(),
            r@ == (ReporterView {
                tracks: Map::empty(),
                report_interval: Some(interval),
                last_report: now,
            }),
    {
        MediaQoSReporter { tracks: Table::new(), report_interval: Some(interval), last_report: now }
    }

    /// Sets how often there is a report. The time to the next begins anew.
    pub fn set_report_interval(&mut self, interval: Option<Nanos>, now: Nanos)
        requires
            old(self).wf(),
        ensures
            final(self).wf(),
            final(self)@ == (ReporterView {
                report_interval: interval,
                last_report: now,
                ..old(self)@
            }),
    {
        self.report_interval = interval;
        self.last_report = now;
    }

    /// What is counted for a track.
    pub fn stats(&self, track: &String) -> (r: TrackStats)
        ensures
            r == self@.stats(track@),
    {
        match self.tracks.get(track) {
            Some(s) => *s,
            None => TrackStats::default(),
        }
    }

    fn put(&mut self, track: &String, s: TrackStats)
        requires
            old(self).wf(),
        ensures
            final(self).wf(),
            final(self)@ == old(self)@.with(track@, s),
    {
        let _ = self.tracks.insert(track.clone(), s);
    }

    /// The decoder has dropped frames.
    pub fn record_decoder_drop(&mut self, track: &String, dropped: u64)
        requires
            old(self).wf(),
        ensures
            final(self).wf(),
            final(self)@ == old(self)@.after(
                Change::DecoderDrop { track: track@, dropped },
            ),
    {
        if dropped == 0 {
            return;
        }
        let mut s: TrackStats = self.stats(track);
        s.decoder_dropped = saturate(s.decoder_dropped, dropped);
        self.put(track, s);
    }

    /// Frames are known to be missing.
    pub fn record_missing_frames(&mut self, track: &String, count: u64)
        requires
            old(self).wf(),
        ensures
            final(self).wf(),
            final(self)@ == old(self)@.after(
                Change::Missing { track: track@, count },
            ),
    {
        if count == 0 {
            return;
        }
        let mut s: TrackStats = self.stats(track);
        s.missing_frames = saturate(s.missing_frames, count);
        self.put(track, s);
    }

    /// A frame has been rendered.
    ///
    /// The numbers of the frames of a track grow: those that are left out are
    /// missing. `capture` is when the frame was produced, `position` where it stands
    /// in the playback.
    pub fn record_frame_rendered(
        &mut self,
        track: &String,
        sequence: u64,
        capture: Option<Nanos>,
        render: Nanos,
        position: Option<Nanos>,
    ) -> (r: FrameSamples)
        requires
            old(self).wf(),
            old(self)@.stats(track@).last_sequence != Some(u64::MAX),
        ensures
            final(self).wf(),
            final(self)@ == old(self)@.after(
                Change::Frame { track: track@, sequence, render, position },
            ),
            r == frame_samples(old(self)@.stats(track@), capture, render, position),
    {
        let mut s: TrackStats = self.stats(track);
        if let Some(last) = s.last_sequence {
            if sequence > last + 1 {
                s.missing_frames = saturate(s.missing_frames, sequence - last - 1);
            }
        }
        s.total_frames = saturate(s.total_frames, 1);
        s.last_sequence = Some(sequence);
        let latency: Option<Nanos> = match capture {
            Some(c) => since(c, render),
            None => None,
        };
        let mut gaps: Option<(Nanos, Nanos)> = None;
        if let Some(prev) = s.last_render {
            if let Some(render_gap) = since(prev, render) {
                if let (Some(pos), Some(prev_pos)) = (position, s.last_playback_position) {
                    if let Some(playback_gap) = since(prev_pos, pos) {
                        gaps = Some((render_gap, playback_gap));
                    }
                }
            }
        }
        s.last_render = Some(render);
        if let Some(pos) = position {
            s.last_playback_position = Some(pos);
        }
        self.put(track, s);
        FrameSamples { latency, gaps }
    }

    /// Playback has stalled. Whether that counts: it does unless it took no time.
    pub fn record_playback_stall(&mut self, track: &String, duration: Nanos) -> (r: bool)
        requires
            old(self).wf(),
            old(self)@.stats(track@).total_stall_time + duration <= u128::MAX,
        ensures
            final(self).wf(),
            r == (duration > 0),
            final(self)@ == old(self)@.after(
                Change::Stall { track: track@, duration },
            ),
    {
        if duration == 0 {
            return false;
        }
        let mut s: TrackStats = self.stats(track);
        s.stall_events = saturate(s.stall_events, 1);
        s.total_stall_time = s.total_stall_time + duration;
        self.put(track, s);
        true
    }

    /// Playback has started after this delay. The first delay of a track stays.
    pub fn record_startup_delay(&mut self, track: &String, delay: Nanos)
        requires
            old(self).wf(),
        ensures
            final(self).wf(),
            final(self)@ == old(self)@.after(
                Change::Startup { track: track@, delay },
            ),
    {
        let mut s: TrackStats = self.stats(track);
        if s.startup_delay.is_none() {
            s.startup_delay = Some(delay);
        }
        self.put(track, s);
    }

    /// The picture of a track has been scored. What the scores come to is kept apart.
    pub fn record_score(&mut self, track: &String)
        requires
            old(self).wf(),
        ensures
            final(self).wf(),
            final(self)@ == old(self)@.after(Change::Score { track: track@ }),
    {
        let s: TrackStats = self.stats(track);
        self.put(track, s);
    }

    /// What is reported of a track.
    pub fn report(&self, track: &String, averages: Averages) -> (r: TrackQoSReport)
        ensures
            r@ == self@.report(track@, averages),
    {
        let s: TrackStats = self.stats(track);
        TrackQoSReport {
            track: track.clone(),
            total_frames: s.total_frames,
            missing_frames: s.missing_frames,
            decoder_dropped: s.decoder_dropped,
            stall_events: s.stall_events,
            total_stall_time: s.total_stall_time,
            averages,
            startup_delay: s.startup_delay,
        }
    }

    /// The names of the tracks of which anything has been counted, each once.
    pub fn track_names(&self) -> (r: Vec<String>)
        requires
            self.wf(),
        ensures
            forall|i: int, j: int|
                0 <= i < j < r@.len() ==> (#[trigger] r@[i])@ != (#[trigger] r@[j])@,
            forall|i: int| 0 <= i < r@.len() ==> self@.tracks.contains_key((#[trigger] r@[i])@),
            forall|t: Seq<char>|
                self@.tracks.contains_key(t) ==> exists|i: int|
                    0 <= i < r@.len() && (#[trigger] r@[i])@ == t,
    {
        self.tracks.names()
    }

    /// The reports of all tracks, with the averages that are given for them.
    pub fn snapshot(&self, averages: &Table<String, Averages>) -> (r: Vec<TrackQoSReport>)
        requires
            self.wf(),
        ensures
            self@.is_snapshot(averages@, r@.map_values(|x: TrackQoSReport| x@)),
    {
        let names: Vec<String> = self.track_names();
        let mut out: Vec<TrackQoSReport> = Vec::new();
        let mut i: usize = 0;
        while i < names.len()
            invariant
                i <= names@.len(),
                out@.len() == i,
                forall|j: int|
                    #![trigger out@[j]]
                    0 <= j < i ==> out@[j]@ == self@.full_report(names@[j]@, averages@),
            decreases names@.len() - i,
        {
            let a: Averages = match averages.get(&names[i]) {
                Some(a) => *a,
                None => Averages { frame_latency: None, playback_jitter: None, stall_duration: None },
            };
            out.push(self.report(&names[i], a));
            i = i + 1;
        }
        proof {
            let reports = out@.map_values(|x: TrackQoSReport| x@);
            assert forall|j: int| #![trigger reports[j]] 0 <= j < reports.len() implies reports[j]
                == self@.full_report(names@[j]@, averages@) by {
                assert(reports[j] == out@[j]@);
            }
            assert forall|t: Seq<char>| self@.tracks.contains_key(t) implies reports.contains(
                #[trigger] self@.full_report(t, averages@),
            ) by {
                let k = choose|k: int| 0 <= k < names@.len() && (#[trigger] names@[k])@ == t;
                assert(reports[k] == self@.full_report(t, averages@));
            }
            assert forall|a: int, b: int|
                #![trigger reports[a], reports[b]]
                0 <= a < b < reports.len() implies reports[a].track != reports[b].track by {
                assert(names@[a]@ != names@[b]@);
            }
        }
        out
    }

    /// Whether there is a report now: whenever it is asked for, or once the interval
    /// has passed since the last one. The time to the next then begins anew.
    pub fn report_due(&mut self, now: Nanos) -> (r: bool)
        requires
            old(self).wf(),
        ensures
            final(self).wf(),
            match old(self)@.report_interval {
                None => r && final(self)@ == old(self)@,
                Some(interval) => {
                    let elapsed = if now >= old(self)@.last_report {
                        now - old(self)@.last_report
                    } else {
                        0
                    };
                    &&& r == (elapsed >= interval)
                    &&& final(self)@ == (if r {
                        ReporterView { last_report: now, ..old(self)@ }
                    } else {
                        old(self)@
                    })
                },
            },
    {
        match self.report_interval {
            None => true,
            Some(interval) => {
                let elapsed: Nanos = if now >= self.last_report {
                    now - self.last_report
                } else {
                    0
                };
                if elapsed < interval {
                    return false;
                }
                self.last_report = now;
                true
            },
        }
    }

    /// Forgets a track.
    pub fn clear_track(&mut self, track: &String)
        requires
            old(self).wf(),
        ensures
            final(self).wf(),
            final(self)@ == old(self)@.after(
                Change::ClearTrack { track: track@ },
            ),
    {
        let _ = self.tracks.remove(track);
    }

    /// Forgets all tracks.
    pub fn clear_all(&mut self)
        requires
            old(self).wf(),
        ensures
            final(self).wf(),
            final(self)@ == old(self)@.after(
                Change::ClearAll,
            ),
    {
        self.tracks = Table::new();
    }
}

/// The tracks of which anything is reported are those for which something has been
/// counted since they were last forgotten.
pub proof fn the_tracks_reported_are_those_counted(
    start: ReporterView,
    changes: Seq<Change>,
    name: Seq<char>,
)
    requires
        start.tracks == Map::<Seq<char>, TrackStats>::empty(),
    ensures
        start.after_all(changes).tracks.contains_key(name) == counted(changes, name),
    decreases changes.len(),
{
    if changes.len() > 0 {
        let before = changes.drop_last();
        let last = changes.last();
        let n = changes.len() - 1;
        the_tracks_reported_are_those_counted(start, before, name);
        assert(changes[n] == last);
        if last.counts_for(name) {
            assert(counted(changes, name));
        } else if last.forgets(name) {
            if counted(changes, name) {
                let i = choose|i: int|
                    #![trigger changes[i]]
                    0 <= i < changes.len() && changes[i].counts_for(name) && forall|j: int|
                        #![trigger changes[j]]
                        i < j < changes.len() ==> !changes[j].forgets(name);
                assert(i == n);
            }
        } else {
            if counted(before, name) {
                let i = choose|i: int|
                    #![trigger before[i]]
                    0 <= i < before.len() && before[i].counts_for(name) && forall|j: int|
                        #![trigger before[j]]
                        i < j < before.len() ==> !before[j].forgets(name);
                assert(changes[i] == before[i]);
                assert forall|j: int| #![trigger changes[j]] i < j < changes.len() implies
                    !changes[j].forgets(name) by {
                    if j < n {
                        assert(before[j] == changes[j]);
                    }
                }
                assert(counted(changes, name));
            }
            if counted(changes, name) {
                let i = choose|i: int|
                    #![trigger changes[i]]
                    0 <= i < changes.len() && changes[i].counts_for(name) && forall|j: int|
                        #![trigger changes[j]]
                        i < j < changes.len() ==> !changes[j].forgets(name);
                assert(before[i] == changes[i]);
                assert forall|j: int| #![trigger before[j]] i < j < before.len() implies
                    !before[j].forgets(name) by {
                    assert(before[j] == changes[j]);
                }
                assert(counted(before, name));
            }
        }
    }
}

/// Two snapshots with nothing in between hold the same reports, in whatever order.
pub proof fn snapshots_of_one_state_agree(
    v: ReporterView,
    averages: Map<Seq<char>, Averages>,
    a: Seq<ReportView>,
    b: Seq<ReportView>,
)
    requires
        v.is_snapshot(averages, a),
        v.is_snapshot(averages, b),
    ensures
        a.no_duplicates(),
        a.len() == b.len(),
        forall|r: ReportView| a.contains(r) == b.contains(r),
{
    lemma_snapshot_holds(v, averages, a, b);
    lemma_snapshot_holds(v, averages, b, a);
    a.unique_seq_to_set();
    b.unique_seq_to_set();
    assert(a.to_set() =~= b.to_set());
}

proof fn lemma_snapshot_holds(
    v: ReporterView,
    averages: Map<Seq<char>, Averages>,
    a: Seq<ReportView>,
    b: Seq<ReportView>,
)
    requires
        v.is_snapshot(averages, a),
        v.is_snapshot(averages, b),
    ensures
        a.no_duplicates(),
        forall|r: ReportView| a.contains(r) ==> b.contains(r),
{
    assert forall|i: int, j: int| 0 <= i < a.len() && 0 <= j < a.len() && i != j implies a[i]
        != a[j] by {
        if i < j {
            assert(a[i].track != a[j].track);
        } else {
            assert(a[j].track != a[i].track);
        }
    }
    assert forall|r: ReportView| a.contains(r) implies b.contains(r) by {
        let i = choose|i: int| 0 <= i < a.len() && a[i] == r;
        assert(a[i] == v.full_report(a[i].track, averages));
    }
}

/// Frames that come in order, one by one, leave nothing missing.
pub proof fn frames_in_order_miss_nothing(
    s: TrackStats,
    render: Nanos,
    position: Option<Nanos>,
    sequence: u64,
)
    requires
        s.last_sequence matches Some(l) ==> sequence <= l + 1,
    ensures
        after_frame(s, sequence, render, position).missing_frames == s.missing_frames,
{
}

/// Counts never go down.
pub proof fn counts_never_go_down(
    s: TrackStats,
    sequence: u64,
    render: Nanos,
    position: Option<Nanos>,
)
    ensures
        after_frame(s, sequence, render, position).total_frames >= s.total_frames,
        after_frame(s, sequence, render, position).missing_frames >= s.missing_frames,
{
}

/// Up to where counting stops, every frame between two numbers is either rendered
/// or missing.
pub proof fn every_frame_is_accounted_for(
    s: TrackStats,
    sequence: u64,
    render: Nanos,
    position: Option<Nanos>,
)
    requires
        s.last_sequence matches Some(l) && l < sequence,
        s.total_frames < u64::MAX,
        s.missing_frames + sequence <= u64::MAX,
    ensures
        ({
            let t = after_frame(s, sequence, render, position);
            (t.total_frames + t.missing_frames) - (s.total_frames + s.missing_frames) == sequence
                - s.last_sequence->Some_0
        }),
{
}

/// Frames that the decoder drops add up, and change nothing else of any track.
pub proof fn drops_add_up(
    q: &mut MediaQoSReporter,
    track: String,
    other: String,
    dropped: u64,
    s0: TrackStats,
    s1: TrackStats,
    u0: TrackStats,
    u1: TrackStats,
)
    requires
        call_ensures(MediaQoSReporter::record_decoder_drop, (q, &track, dropped), ()),
        call_ensures(MediaQoSReporter::stats, (old(q), &track), s0),
        call_ensures(MediaQoSReporter::stats, (final(q), &track), s1),
        call_ensures(MediaQoSReporter::stats, (old(q), &other), u0),
        call_ensures(MediaQoSReporter::stats, (final(q), &other), u1),
    ensures
        s0.decoder_dropped + dropped <= u64::MAX ==> s1.decoder_dropped == s0.decoder_dropped
            + dropped,
        s0.decoder_dropped + dropped > u64::MAX ==> s1.decoder_dropped == u64::MAX,
        s1.total_frames == s0.total_frames && s1.missing_frames == s0.missing_frames,
        s1.last_sequence == s0.last_sequence && s1.last_render == s0.last_render,
        s1.last_playback_position == s0.last_playback_position,
        s1.stall_events == s0.stall_events && s1.total_stall_time == s0.total_stall_time,
        s1.startup_delay == s0.startup_delay,
        other@ != track@ ==> u1 == u0,
{
}

/// Frames that are known to be missing add up, and change nothing else of any track.
pub proof fn missing_frames_add_up(
    q: &mut MediaQoSReporter,
    track: String,
    other: String,
    count: u64,
    s0: TrackStats,
    s1: TrackStats,
    u0: TrackStats,
    u1: TrackStats,
)
    requires
        call_ensures(MediaQoSReporter::record_missing_frames, (q, &track, count), ()),
        call_ensures(MediaQoSReporter::stats, (old(q), &track), s0),
        call_ensures(MediaQoSReporter::stats, (final(q), &track), s1),
        call_ensures(MediaQoSReporter::stats, (old(q), &other), u0),
        call_ensures(MediaQoSReporter::stats, (final(q), &other), u1),
    ensures
        s0.missing_frames + count <= u64::MAX ==> s1.missing_frames == s0.missing_frames + count,
        s0.missing_frames + count > u64::MAX ==> s1.missing_frames == u64::MAX,
        s1.total_frames == s0.total_frames && s1.decoder_dropped == s0.decoder_dropped,
        s1.last_sequence == s0.last_sequence && s1.last_render == s0.last_render,
        s1.last_playback_position == s0.last_playback_position,
        s1.stall_events == s0.stall_events && s1.total_stall_time == s0.total_stall_time,
        s1.startup_delay == s0.startup_delay,
        other@ != track@ ==> u1 == u0,
{
}

/// Stalls that take any time are counted and add up, and change nothing else of any
/// track.
pub proof fn stalls_add_up(
    q: &mut MediaQoSReporter,
    track: String,
    other: String,
    duration: Nanos,
    r: bool,
    s0: TrackStats,
    s1: TrackStats,
    u0: TrackStats,
    u1: TrackStats,
)
    requires
        call_ensures(MediaQoSReporter::record_playback_stall, (q, &track, duration), r),
        call_ensures(MediaQoSReporter::stats, (old(q), &track), s0),
        call_ensures(MediaQoSReporter::stats, (final(q), &track), s1),
        call_ensures(MediaQoSReporter::stats, (old(q), &other), u0),
        call_ensures(MediaQoSReporter::stats, (final(q), &other), u1),
        s0.total_stall_time + duration <= u128::MAX,
        s0.stall_events < u64::MAX,
    ensures
        r == (duration > 0),
        s1.total_stall_time == s0.total_stall_time + duration,
        s1.stall_events == s0.stall_events + (if duration > 0 {
            1int
        } else {
            0
        }),
        s1.total_frames == s0.total_frames && s1.missing_frames == s0.missing_frames,
        s1.decoder_dropped == s0.decoder_dropped,
        s1.last_sequence == s0.last_sequence && s1.last_render == s0.last_render,
        s1.last_playback_position == s0.last_playback_position,
        s1.startup_delay == s0.startup_delay,
        other@ != track@ ==> u1 == u0,
{
}

/// Only the first delay of a track counts, and it changes nothing else of any track.
pub proof fn the_first_delay_stays(
    q: &mut MediaQoSReporter,
    track: String,
    other: String,
    delay: Nanos,
    s0: TrackStats,
    s1: TrackStats,
    u0: TrackStats,
    u1: TrackStats,
)
    requires
        call_ensures(MediaQoSReporter::record_startup_delay, (q, &track, delay), ()),
        call_ensures(MediaQoSReporter::stats, (old(q), &track), s0),
        call_ensures(MediaQoSReporter::stats, (final(q), &track), s1),
        call_ensures(MediaQoSReporter::stats, (old(q), &other), u0),
        call_ensures(MediaQoSReporter::stats, (final(q), &other), u1),
    ensures
        s0.startup_delay is None ==> s1.startup_delay == Some(delay),
        s0.startup_delay is Some ==> s1.startup_delay == s0.startup_delay,
        s1.total_frames == s0.total_frames && s1.missing_frames == s0.missing_frames,
        s1.decoder_dropped == s0.decoder_dropped,
        s1.last_sequence == s0.last_sequence && s1.last_render == s0.last_render,
        s1.last_playback_position == s0.last_playback_position,
        s1.stall_events == s0.stall_events && s1.total_stall_time == s0.total_stall_time,
        other@ != track@ ==> u1 == u0,
{
}

/// A score counts nothing.
pub proof fn scores_count_nothing(
    q: &mut MediaQoSReporter,
    track: String,
    other: String,
    s0: TrackStats,
    s1: TrackStats,
    u0: TrackStats,
    u1: TrackStats,
)
    requires
        call_ensures(MediaQoSReporter::record_score, (q, &track), ()),
        call_ensures(MediaQoSReporter::stats, (old(q), &track), s0),
        call_ensures(MediaQoSReporter::stats, (final(q), &track), s1),
        call_ensures(MediaQoSReporter::stats, (old(q), &other), u0),
        call_ensures(MediaQoSReporter::stats, (final(q), &other), u1),
    ensures
        s1 == s0,
        other@ != track@ ==> u1 == u0,
{
}

/// A track that is forgotten starts with nothing again.
pub proof fn a_forgotten_track_starts_again(
    q: &mut MediaQoSReporter,
    track: String,
    other: String,
    s0: TrackStats,
    s1: TrackStats,
    u0: TrackStats,
    u1: TrackStats,
)
    requires
        call_ensures(MediaQoSReporter::clear_track, (q, &track), ()),
        call_ensures(MediaQoSReporter::stats, (old(q), &track), s0),
        call_ensures(MediaQoSReporter::stats, (final(q), &track), s1),
        call_ensures(MediaQoSReporter::stats, (old(q), &other), u0),
        call_ensures(MediaQoSReporter::stats, (final(q), &other), u1),
    ensures
        s1.total_frames == 0 && s1.missing_frames == 0 && s1.decoder_dropped == 0,
        s1.stall_events == 0 && s1.total_stall_time == 0,
        s1.last_sequence is None && s1.last_render is None && s1.last_playback_position is None,
        s1.startup_delay is None,
        other@ != track@ ==> u1 == u0,
{
}

/// A rendered frame is one frame more. All numbers between the last frame and this one
/// are missing; a frame that comes again or late makes nothing missing.
pub proof fn a_frame_is_one_more(
    q: &mut MediaQoSReporter,
    track: String,
    other: String,
    sequence: u64,
    capture: Option<Nanos>,
    render: Nanos,
    position: Option<Nanos>,
    r: FrameSamples,
    s0: TrackStats,
    s1: TrackStats,
    u0: TrackStats,
    u1: TrackStats,
)
    requires
        call_ensures(
            MediaQoSReporter::record_frame_rendered,
            (q, &track, sequence, capture, render, position),
            r,
        ),
        call_ensures(MediaQoSReporter::stats, (old(q), &track), s0),
        call_ensures(MediaQoSReporter::stats, (final(q), &track), s1),
        call_ensures(MediaQoSReporter::stats, (old(q), &other), u0),
        call_ensures(MediaQoSReporter::stats, (final(q), &other), u1),
        s0.total_frames < u64::MAX,
        s0.missing_frames + sequence <= u64::MAX,
        s0.last_sequence != Some(u64::MAX),
    ensures
        s1.total_frames == s0.total_frames + 1,
        s1.missing_frames == s0.missing_frames + (match s0.last_sequence {
            Some(l) if sequence > l => sequence - l - 1,
            _ => 0,
        }),
        s1.last_sequence == Some(sequence) && s1.last_render == Some(render),
        s1.last_playback_position == (if position is Some {
            position
        } else {
            s0.last_playback_position
        }),
        s1.decoder_dropped == s0.decoder_dropped,
        s1.stall_events == s0.stall_events && s1.total_stall_time == s0.total_stall_time,
        s1.startup_delay == s0.startup_delay,
        other@ != track@ ==> u1 == u0,
{
}

/// A frame is as late as the time from its capture to its rendering, where that does
/// not run backwards. It tells how far the frames are apart, as rendered and as they
/// should be, where the frame before told its place too and neither runs backwards.
pub proof fn a_frame_tells_its_delay_and_its_distance(
    q: &mut MediaQoSReporter,
    track: String,
    sequence: u64,
    capture: Option<Nanos>,
    render: Nanos,
    position: Option<Nanos>,
    s0: TrackStats,
    r: FrameSamples,
)
    requires
        call_ensures(
            MediaQoSReporter::record_frame_rendered,
            (q, &track, sequence, capture, render, position),
            r,
        ),
        call_ensures(MediaQoSReporter::stats, (old(q), &track), s0),
    ensures
        r.latency is Some == (capture matches Some(c) && c <= render),
        r.latency matches Some(l) ==> capture->Some_0 + l == render,
        r.gaps is Some == {
            &&& s0.last_render matches Some(l) && l <= render
            &&& s0.last_playback_position matches Some(p) && position matches Some(n) && p <= n
        },
        r.gaps matches Some((a, b)) ==> s0.last_render->Some_0 + a == render
            && s0.last_playback_position->Some_0 + b == position->Some_0,
{
}

/// Forgetting all tracks leaves none to report.
pub proof fn nothing_is_left_of_forgotten_tracks(
    q: &mut MediaQoSReporter,
    track: String,
    s: TrackStats,
    names: Vec<String>,
)
    requires
        call_ensures(MediaQoSReporter::clear_all, (q,), ()),
        call_ensures(MediaQoSReporter::stats, (final(q), &track), s),
        call_ensures(MediaQoSReporter::track_names, (final(q),), names),
    ensures
        s.total_frames == 0 && s.missing_frames == 0 && s.decoder_dropped == 0,
        s.stall_events == 0 && s.total_stall_time == 0 && s.startup_delay is None,
        s.last_sequence is None && s.last_render is None && s.last_playback_position is None,
        names@.len() == 0,
{
    if names@.len() > 0 {
        assert(final(q)@.tracks.contains_key(names@[0]@));
    }
}

/// A report holds the counts of its track, and the averages that it is given.
pub proof fn a_report_holds_the_counts(
    q: MediaQoSReporter,
    track: String,
    averages: Averages,
    s: TrackStats,
    r: TrackQoSReport,
)
    requires
        call_ensures(MediaQoSReporter::stats, (&q, &track), s),
        call_ensures(MediaQoSReporter::report, (&q, &track, averages), r),
    ensures
        r.track@ == track@,
        r.total_frames == s.total_frames && r.missing_frames == s.missing_frames,
        r.decoder_dropped == s.decoder_dropped,
        r.stall_events == s.stall_events && r.total_stall_time == s.total_stall_time,
        r.startup_delay == s.startup_delay,
        r.averages == averages,
{
}

/// Every track of which anything is known is in a snapshot once, with its counts and
/// its averages, and no other is.
pub proof fn a_snapshot_holds_every_track_once(
    q: MediaQoSReporter,
    averages: Table<String, Averages>,
    names: Vec<String>,
    track: String,
    s: TrackStats,
    a: Option<&Averages>,
    r: Vec<TrackQoSReport>,
    i: int,
    j: int,
)
    requires
        call_ensures(MediaQoSReporter::track_names, (&q,), names),
        call_ensures(MediaQoSReporter::snapshot, (&q, &averages), r),
        0 <= i < r@.len(),
        0 <= j < r@.len(),
        r@[i].track@ == track@,
        call_ensures(MediaQoSReporter::stats, (&q, &track), s),
        call_ensures(Table::<String, Averages>::get, (&averages, &track), a),
    ensures
        i != j ==> r@[j].track@ != track@,
        exists|k: int| 0 <= k < names@.len() && (#[trigger] names@[k])@ == track@,
        forall|k: int|
            0 <= k < names@.len() ==> exists|l: int|
                0 <= l < r@.len() && (#[trigger] r@[l]).track@ == (#[trigger] names@[k])@,
        r@[i].total_frames == s.total_frames && r@[i].missing_frames == s.missing_frames,
        r@[i].decoder_dropped == s.decoder_dropped && r@[i].stall_events == s.stall_events,
        r@[i].total_stall_time == s.total_stall_time && r@[i].startup_delay == s.startup_delay,
        r@[i].averages == (match a {
            Some(x) => *x,
            None => Averages { frame_latency: None, playback_jitter: None, stall_duration: None },
        }),
{
    let reports = r@.map_values(|x: TrackQoSReport| x@);
    assert(reports[i] == r@[i]@ && reports[j] == r@[j]@);
    if i < j {
        assert(reports[i].track != reports[j].track);
    } else if j < i {
        assert(reports[j].track != reports[i].track);
    }
    assert forall|k: int| 0 <= k < names@.len() implies exists|l: int|
        0 <= l < r@.len() && (#[trigger] r@[l]).track@ == (#[trigger] names@[k])@ by {
        let t = names@[k]@;
        assert(q@.tracks.contains_key(t));
        assert(reports.contains(q@.full_report(t, averages@)));
        let l = choose|l: int| 0 <= l < reports.len() && reports[l] == q@.full_report(t, averages@);
        assert(r@[l]@ == reports[l]);
        assert(r@[l].track@ == t);
    }
}

/// With an interval there is a report once it has passed since the last one, and no
/// sooner; then the time begins anew. Without one there always is.
pub proof fn reports_keep_their_distance(
    q: &mut MediaQoSReporter,
    interval: Nanos,
    now: Nanos,
    p: &mut MediaQoSReporter,
    then: Nanos,
    early: bool,
    next: &mut MediaQoSReporter,
    later: Nanos,
    late: bool,
)
    requires
        call_ensures(MediaQoSReporter::set_report_interval, (q, Some(interval), now), ()),
        *old(p) == *final(q),
        now <= then < now + interval,
        call_ensures(MediaQoSReporter::report_due, (p, then), early),
        *old(next) == *final(p),
        now + interval <= later,
        call_ensures(MediaQoSReporter::report_due, (next, later), late),
    ensures
        !early,
        late,
        final(next)@.last_report == later,
        final(next)@.tracks == old(q)@.tracks,
{
}

/// Without an interval a report is due whenever it is asked for, and nothing changes.
pub proof fn without_an_interval_reports_are_due(
    q: &mut MediaQoSReporter,
    now: Nanos,
    p: &mut MediaQoSReporter,
    then: Nanos,
    r: bool,
)
    requires
        call_ensures(MediaQoSReporter::set_report_interval, (q, None, now), ()),
        *old(p) == *final(q),
        call_ensures(MediaQoSReporter::report_due, (p, then), r),
    ensures
        r,
        final(p)@.tracks == old(q)@.tracks,
{
}

/// A reporter starts with nothing counted, and its first interval from the present.
pub proof fn a_reporter_starts_with_nothing(
    interval: Nanos,
    now: Nanos,
    track: String,
    a: MediaQoSReporter,
    b: MediaQoSReporter,
    s: TrackStats,
)
    requires
        call_ensures(MediaQoSReporter::new, (now,), a),
        call_ensures(MediaQoSReporter::with_report_interval, (interval, now), b),
        call_ensures(MediaQoSReporter::stats, (&b, &track), s),
    ensures
        a@.tracks == Map::<Seq<char>, TrackStats>::empty() && b@.tracks == a@.tracks,
        a@.report_interval is None && b@.report_interval == Some(interval),
        b@.last_report == now,
        s.total_frames == 0 && s.missing_frames == 0 && s.decoder_dropped == 0,
        s.stall_events == 0 && s.total_stall_time == 0 && s.startup_delay is None,
        s.last_sequence is None,
{
}

/// What some changes come to for a track, each counted by `amount`, since the track was
/// last forgotten.
pub open spec fn total(changes: Seq<Change>, name: Seq<char>, amount: spec_fn(Change) -> int) -> int
    decreases changes.len(),
{
    if changes.len() == 0 || changes.last().forgets(name) {
        0
    } else {
        total(changes.drop_last(), name, amount) + amount(changes.last())
    }
}

/// Whatever happens in between, the counts of a track are the sums of what was recorded
/// for it since it was last forgotten, up to where counting stops: the frames that the
/// decoder dropped, the frames that were rendered, the stalls, and the time they took.
pub proof fn counts_are_sums(start: ReporterView, changes: Seq<Change>, name: Seq<char>)
    requires
        start.tracks == Map::<Seq<char>, TrackStats>::empty(),
        forall|n: int|
            0 <= n <= changes.len() ==> total(
                #[trigger] changes.take(n),
                name,
                |c: Change|
                    match c {
                        Change::Stall { track, duration } if track == name => duration as int,
                        _ => 0,
                    },
            ) <= u128::MAX,
    ensures
        ({
            let s = start.after_all(changes).stats(name);
            let drops = total(
                changes,
                name,
                |c: Change|
                    match c {
                        Change::DecoderDrop { track, dropped } if track == name => dropped as int,
                        _ => 0,
                    },
            );
            let frames = total(
                changes,
                name,
                |c: Change|
                    match c {
                        Change::Frame { track, .. } if track == name => 1int,
                        _ => 0,
                    },
            );
            let stalls = total(
                changes,
                name,
                |c: Change|
                    match c {
                        Change::Stall { track, duration } if track == name && duration > 0 => 1int,
                        _ => 0,
                    },
            );
            let stalled = total(
                changes,
                name,
                |c: Change|
                    match c {
                        Change::Stall { track, duration } if track == name => duration as int,
                        _ => 0,
                    },
            );
            &&& drops >= 0 && frames >= 0 && stalls >= 0 && stalled >= 0
            &&& s.decoder_dropped == (if drops > u64::MAX {
                u64::MAX as int
            } else {
                drops
            })
            &&& s.total_frames == (if frames > u64::MAX {
                u64::MAX as int
            } else {
                frames
            })
            &&& s.stall_events == (if stalls > u64::MAX {
                u64::MAX as int
            } else {
                stalls
            })
            &&& s.total_stall_time == stalled
        }),
    decreases changes.len(),
{
    if changes.len() > 0 {
        let before = changes.drop_last();
        assert forall|n: int| 0 <= n <= before.len() implies total(
            #[trigger] before.take(n),
            name,
            |c: Change|
                match c {
                    Change::Stall { track, duration } if track == name => duration as int,
                    _ => 0,
                },
        ) <= u128::MAX by {
            assert(before.take(n) =~= changes.take(n));
        }
        assert(changes.take(changes.len() as int) =~= changes);
        counts_are_sums(start, before, name);
    }
}

} // verus!
