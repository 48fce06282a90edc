//! The subscriber's playback of one group: pairing each `moof` with its `mdat`,
//! and watching how smoothly the result plays.

use crate::bytes_be::{be32, read_be32};
use crate::media::boxes::{MDAT, MOOF};
use crate::media::fragment::{extract_media_timestamp, first_timestamp};
use crate::media::movie::parsed_moof;
use crate::media::paths::{get_sub_mdat_path, get_sub_moof_path, sub_mdat_path, sub_moof_path};
use crate::text::{
    chars_of, decimal, decimals_read_back, find, find_char, is_digit, number, parse_number,
};
use std::collections::HashMap;
use vstd::prelude::*;

verus! {

/// A point in time, in nanoseconds since the epoch of the clock, or a length of
/// time, in nanoseconds.
pub type Nanos = u128;

/// Half of the round-trip time that is supposed where the capture time of an
/// object is not known.
pub const ESTIMATED_DELAY: Nanos = 25_000_000;

/// How much later than expected a frame may come before playback has stalled.
pub const STALL_THRESHOLD: Nanos = 100_000_000;

/// How many frames lie between two reports.
pub const REPORT_FRAMES: u64 = 100;

/// The number of the track that plays where the name of the track has none.
pub const DEFAULT_TRACK: u32 = 1;

/// The number of a track: what stands before the first dot of its name.
pub open spec fn track_id_of(name: Seq<char>) -> u32 {
    match number(name.take(find(name, '.', 0)), u32::MAX as nat) {
        Some(n) => n as u32,
        None => DEFAULT_TRACK,
    }
}

/// The number of a track: what stands before the first dot of its name.
pub fn parse_track_id(name: &str) -> (r: u32)
    ensures
        r == track_id_of(name@),
{
    let t: Vec<char> = chars_of(name);
    let dot: usize = find_char(&t, '.', 0);
    assert(t@.subrange(0, dot as int) == name@.take(dot as int));
    match parse_number(&t, 0, dot, u32::MAX as u64) {
        Some(n) => n as u32,
        None => DEFAULT_TRACK,
    }
}

/// A `moof` that waits for its `mdat`.
#[derive(Debug)]
pub struct Pending {
    pub group_id: u64,
    pub object_id: u64,
    pub bytes: Vec<u8>,
    pub received_at: Nanos,
    pub media_timestamp: Option<u64>,
}

/// What a [`Pending`] holds.
#[verifier::ext_equal]
pub struct PendingView {
    pub group_id: u64,
    pub object_id: u64,
    pub bytes: Seq<u8>,
    pub received_at: Nanos,
    pub media_timestamp: Option<u64>,
}

impl View for Pending {
    type V = PendingView;

    open spec fn view(&self) -> PendingView {
        PendingView {
            group_id: self.group_id,
            object_id: self.object_id,
            bytes: self.bytes@,
            received_at: self.received_at,
            media_timestamp: self.media_timestamp,
        }
    }
}

/// An object of the group, as it arrived.
#[derive(Debug)]
pub struct Object {
    pub group_id: u64,
    pub object_id: u64,
    /// The size that was declared.
    pub size: usize,
    pub bytes: Vec<u8>,
    pub received_at: Nanos,
}

/// A `moof` and its `mdat`, put together.
#[derive(Debug)]
pub struct Frame {
    pub group_id: u64,
    pub object_id: u64,
    /// The bytes to be played.
    pub bytes: Vec<u8>,
    /// Where the `mdat` is saved.
    pub mdat_path: String,
    /// The `mdat` itself.
    pub mdat: Vec<u8>,
    pub received_at: Nanos,
}

/// What to do with an object.
#[derive(Debug)]
pub enum PlayStep {
    /// It is not of the declared size: report a missing frame.
    Missing,
    /// Nothing.
    Ignore,
    /// Save this `moof`.
    Hold { path: String },
    /// Save the `mdat`, play the frame, and report with [`Playback::rendered`].
    Play(Frame),
}

/// What there is to report once a frame has been played.
#[derive(Clone, Copy, Debug, PartialEq, Eq, Structural)]
pub struct RenderReport {
    /// The number of the frame.
    pub sequence: u64,
    /// When it was captured, as far as is known.
    pub capture: Option<Nanos>,
    /// How long it took from capture to here.
    pub latency: Option<Nanos>,
    /// By how much playback stalled before it.
    pub stall: Option<Nanos>,
    /// Whether it is the first frame.
    pub first: bool,
    /// Whether a report is due.
    pub snapshot: bool,
}

/// The playback of one group.
#[derive(Debug)]
pub struct Playback {
    pub track_id: u32,
    pub pending: Option<Pending>,
    pub last_render: Option<Nanos>,
    pub frame_sequence: u64,
    /// When each object was captured, in microseconds after the first.
    pub captures: HashMap<u64, u64>,
    /// When playback started.
    pub start: Nanos,
}

/// What a [`Playback`] holds.
#[verifier::ext_equal]
pub struct PlaybackView {
    pub track_id: u32,
    pub pending: Option<PendingView>,
    pub last_render: Option<Nanos>,
    pub frame_sequence: u64,
    pub captures: Map<u64, u64>,
    pub start: Nanos,
}

impl View for Playback {
    type V = PlaybackView;

    open spec fn view(&self) -> PlaybackView {
        PlaybackView {
            track_id: self.track_id,
            pending: match self.pending {
                Some(p) => Some(p@),
                None => None,
            },
            last_render: self.last_render,
            frame_sequence: self.frame_sequence,
            captures: self.captures@,
            start: self.start,
        }
    }
}

/// The decode time of the first track fragment of a `moof`; none where it cannot be
/// walked or parsed.
pub open spec fn media_timestamp_of(b: Seq<u8>) -> Option<u64> {
    match parsed_moof(b) {
        Some(m) => first_timestamp(m),
        None => None,
    }
}

/// Whether an object is taken for a `moof`.
pub open spec fn holds_moof(o: Object) -> bool {
    o.bytes@.len() == o.size && o.size >= 8 && be32(o.bytes@, 4) == MOOF
}

/// Whether an object is taken for an `mdat`.
pub open spec fn holds_mdat(o: Object) -> bool {
    o.bytes@.len() == o.size && o.size >= 8 && be32(o.bytes@, 4) == MDAT
}

impl PlaybackView {
    /// The state after an object.
    pub open spec fn after(self, o: Object) -> PlaybackView {
        if holds_moof(o) {
            PlaybackView {
                pending: Some(
                    PendingView {
                        group_id: o.group_id,
                        object_id: o.object_id,
                        bytes: o.bytes@,
                        received_at: o.received_at,
                        media_timestamp: media_timestamp_of(o.bytes@),
                    },
                ),
                ..self
            }
        } else if holds_mdat(o) {
            PlaybackView { pending: None, ..self }
        } else {
            self
        }
    }

    /// Whether `r` is what to do with an object.
    pub open spec fn step(self, o: Object, r: PlayStep) -> bool {
        if o.bytes@.len() != o.size {
            r == PlayStep::Missing
        } else if holds_moof(o) {
            r matches PlayStep::Hold { path } && path@ == sub_moof_path(o.group_id, o.object_id)
        } else if holds_mdat(o) && self.pending is Some {
            let p = self.pending->Some_0;
            &&& r matches PlayStep::Play(f)
            &&& f.group_id == p.group_id
            &&& f.object_id == p.object_id
            &&& f.bytes@ == p.bytes + o.bytes@
            &&& f.mdat_path@ == sub_mdat_path(p.group_id, p.object_id, self.track_id)
            &&& f.mdat@ == o.bytes@
            &&& f.received_at == p.received_at
        } else {
            r == PlayStep::Ignore
        }
    }

    /// What an object makes be played, in bytes.
    pub open spec fn plays(self, o: Object) -> Seq<u8> {
        match self.pending {
            Some(p) if holds_mdat(o) => p.bytes + o.bytes@,
            _ => Seq::empty(),
        }
    }

    /// The state after the first `n` objects of a group.
    pub open spec fn after_first(self, group: Seq<Object>, n: int) -> PlaybackView
        decreases n,
    {
        if n <= 0 {
            self
        } else {
            self.after_first(group, n - 1).after(group[n - 1])
        }
    }

    /// What the first `n` objects of a group make be played, in bytes.
    pub open spec fn played(self, group: Seq<Object>, n: int) -> Seq<u8>
        decreases n,
    {
        if n <= 0 {
            Seq::empty()
        } else {
            self.played(group, n - 1) + self.after_first(group, n - 1).plays(group[n - 1])
        }
    }

    /// When an object was captured: as the publisher's list says, counted from the
    /// start of playback; else half a supposed round trip before it arrived.
    pub open spec fn capture(self, object_id: u64, received_at: Nanos) -> Option<Nanos> {
        if self.captures.contains_key(object_id) {
            Some((self.start + self.captures[object_id] * 1000) as Nanos)
        } else if received_at >= ESTIMATED_DELAY {
            Some((received_at - ESTIMATED_DELAY) as Nanos)
        } else {
            None
        }
    }

    /// By how much playback stalled before a frame: where the gap since the last
    /// frame exceeds the expected gap by more than the threshold, the excess.
    pub open spec fn stall(self, rendered_at: Nanos, expected_gap: Nanos) -> Option<Nanos> {
        match self.last_render {
            None => None,
            Some(last) => {
                let gap = if rendered_at >= last {
                    rendered_at - last
                } else {
                    0
                };
                if gap > expected_gap + STALL_THRESHOLD {
                    Some((gap - expected_gap) as Nanos)
                } else {
                    None
                }
            },
        }
    }

    /// What there is to report of a frame.
    pub open spec fn report(
        self,
        object_id: u64,
        received_at: Nanos,
        rendered_at: Nanos,
        expected_gap: Nanos,
    ) -> RenderReport {
        let capture = self.capture(object_id, received_at);
        RenderReport {
            sequence: self.frame_sequence,
            capture,
            latency: match capture {
                Some(c) => Some(
                    if rendered_at >= c {
                        (rendered_at - c) as Nanos
                    } else {
                        0
                    },
                ),
                None => None,
            },
            stall: self.stall(rendered_at, expected_gap),
            first: self.frame_sequence == 0,
            snapshot: (self.frame_sequence + 1) % REPORT_FRAMES as int == 0,
        }
    }
}

fn elapsed(from: Nanos, to: Nanos) -> (r: Nanos)
    ensures
        r == (if to >= from {
            to - from
        } else {
            0
        }),
{
    if to >= from {
        to - from
    } else {
        0
    }
}

impl Playback {
    /// The playback of a group of the track of this name.
    pub fn new(track_name: &str, captures: HashMap<u64, u64>, start: Nanos) -> (r: Playback)
        ensures
            r@ == (PlaybackView {
                track_id: track_id_of(track_name@),
                pending: None,
                last_render: None,
                frame_sequence: 0,
                captures: captures@,
                start,
            }),
    {
        Playback {
            track_id: parse_track_id(track_name),
            pending: None,
            last_render: None,
            frame_sequence: 0,
            captures,
            start,
        }
    }

    /// Takes in an object and says what to do with it.
    pub fn receive(&mut self, object: Object) -> (r: PlayStep)
        ensures
            old(self)@.step(object, r),
            final(self)@ == old(self)@.after(object),
    {
        if object.bytes.len() != object.size {
            return PlayStep::Missing;
        }
        if object.bytes.len() < 8 {
            return PlayStep::Ignore;
        }
        let kind: u32 = read_be32(object.bytes.as_slice(), 4);
        if kind == MOOF {
            let media_timestamp: Option<u64> = extract_media_timestamp(object.bytes.as_slice());
            let path: String = get_sub_moof_path(object.group_id, object.object_id);
            self.pending = Some(
                Pending {
                    group_id: object.group_id,
                    object_id: object.object_id,
                    bytes: object.bytes,
                    received_at: object.received_at,
                    media_timestamp,
                },
            );
            return PlayStep::Hold { path };
        }
        if kind == MDAT {
            let waiting: Option<Pending> = self.pending.take();
            if let Some(moof) = waiting {
                let mdat_path: String = get_sub_mdat_path(
                    moof.group_id,
                    moof.object_id,
                    self.track_id,
                );
                let mut bytes: Vec<u8> = moof.bytes;
                bytes.extend_from_slice(object.bytes.as_slice());
                assert(bytes@ == moof@.bytes + object.bytes@);
                return PlayStep::Play(
                    Frame {
                        group_id: moof.group_id,
                        object_id: moof.object_id,
                        bytes,
                        mdat_path,
                        mdat: object.bytes,
                        received_at: moof.received_at,
                    },
                );
            }
        }
        PlayStep::Ignore
    }

    /// A frame has been played at `rendered_at`; it was expected `expected_gap`
    /// after the one before.
    pub fn rendered(
        &mut self,
        object_id: u64,
        received_at: Nanos,
        rendered_at: Nanos,
        expected_gap: Nanos,
    ) -> (r: RenderReport)
        requires
            old(self)@.frame_sequence < u64::MAX,
            old(self)@.start <= u128::MAX - u64::MAX * 1000,
            expected_gap <= u128::MAX - STALL_THRESHOLD,
        ensures
            r == old(self)@.report(object_id, received_at, rendered_at, expected_gap),
            final(self)@ == (PlaybackView {
                last_render: Some(rendered_at),
                frame_sequence: (old(self)@.frame_sequence + 1) as u64,
                ..old(self)@
            }),
    {
        broadcast use vstd::std_specs::hash::group_hash_axioms;

        let capture: Option<Nanos> = match self.captures.get(&object_id) {
            Some(micros) => Some(self.start + *micros as u128 * 1000),
            None => if received_at >= ESTIMATED_DELAY {
                Some(received_at - ESTIMATED_DELAY)
            } else {
                None
            },
        };
        let latency: Option<Nanos> = match capture {
            Some(c) => Some(elapsed(c, rendered_at)),
            None => None,
        };
        let sequence: u64 = self.frame_sequence;
        self.frame_sequence = sequence + 1;
        let stall: Option<Nanos> = match self.last_render {
            Some(last) => {
                let gap: Nanos = elapsed(last, rendered_at);
                if gap > expected_gap + STALL_THRESHOLD {
                    Some(gap - expected_gap)
                } else {
                    None
                }
            },
            None => None,
        };
        self.last_render = Some(rendered_at);
        RenderReport {
            sequence,
            capture,
            latency,
            stall,
            first: self.frame_sequence == 1,
            snapshot: self.frame_sequence % REPORT_FRAMES == 0,
        }
    }
}

/// A `moof` and the `mdat` behind it are played together: the bytes of the one,
/// then those of the other.
pub proof fn moof_and_mdat_are_joined(v: PlaybackView, moof: Object, mdat: Object, r: PlayStep)
    requires
        holds_moof(moof),
        holds_mdat(mdat),
        v.after(moof).step(mdat, r),
    ensures
        r matches PlayStep::Play(f) && f.bytes@ == moof.bytes@ + mdat.bytes@ && f.group_id
            == moof.group_id && f.object_id == moof.object_id,
        v.after(moof).after(mdat).pending is None,
{
}

/// An `mdat` without a `moof` before it is never played.
pub proof fn lone_mdat_is_not_played(v: PlaybackView, o: Object, r: PlayStep)
    requires
        v.pending is None,
        !holds_moof(o),
        v.step(o, r),
    ensures
        !(r is Play),
        v.after(o) == v,
{
}

/// Of two `moof`s in a row the second is the one that counts.
pub proof fn later_moof_replaces_earlier(v: PlaybackView, a: Object, b: Object)
    requires
        holds_moof(a),
        holds_moof(b),
    ensures
        v.after(a).after(b) == v.after(b),
{
}

/// Whether the `mdat` at `d` belongs to the `moof` at `m`: neither a `moof` nor an
/// `mdat` stands between them.
pub open spec fn pairs_with(group: Seq<Object>, m: int, d: int) -> bool {
    &&& 0 <= m < d < group.len()
    &&& holds_moof(group[m])
    &&& holds_mdat(group[d])
    &&& forall|k: int|
        #![trigger group[k]]
        m < k < d ==> !holds_moof(group[k]) && !holds_mdat(group[k])
}

/// The bytes of the `mdat` at `d` behind those of the `moof` it belongs to; nothing
/// where there is no such pair.
pub open spec fn pair_at(group: Seq<Object>, d: int) -> Seq<u8> {
    if exists|m: int| pairs_with(group, m, d) {
        let m = choose|m: int| pairs_with(group, m, d);
        group[m].bytes@ + group[d].bytes@
    } else {
        Seq::empty()
    }
}

/// All pairs among the first `n` objects of a group, in order.
pub open spec fn pairs(group: Seq<Object>, n: int) -> Seq<u8>
    decreases n,
{
    if n <= 0 {
        Seq::empty()
    } else {
        pairs(group, n - 1) + pair_at(group, n - 1)
    }
}

/// What a step plays is what the object makes be played, and no other step plays
/// anything.
pub proof fn a_step_plays_its_pair(v: PlaybackView, o: Object, r: PlayStep)
    requires
        v.step(o, r),
    ensures
        match r {
            PlayStep::Play(f) => v.plays(o) == f.bytes@,
            _ => v.plays(o) == Seq::<u8>::empty(),
        },
{
}

/// What waits after `n` objects is the last `moof`, unless an `mdat` came behind it.
proof fn lemma_waiting(v: PlaybackView, group: Seq<Object>, n: int) -> (m: int)
    requires
        v.pending is None,
        0 <= n <= group.len(),
    ensures
        match v.after_first(group, n).pending {
            Some(p) => {
                &&& 0 <= m < n
                &&& holds_moof(group[m])
                &&& p.bytes == group[m].bytes@
                &&& forall|k: int|
                    #![trigger group[k]]
                    m < k < n ==> !holds_moof(group[k]) && !holds_mdat(group[k])
            },
            None => {
                &&& -1 <= m < n
                &&& m >= 0 ==> holds_mdat(group[m])
                &&& forall|k: int| #![trigger group[k]] m < k < n ==> !holds_moof(group[k])
            },
        },
    decreases n,
{
    if n <= 0 {
        -1
    } else {
        let m = lemma_waiting(v, group, n - 1);
        let o = group[n - 1];
        if holds_moof(o) || holds_mdat(o) {
            n - 1
        } else {
            m
        }
    }
}

/// A group plays its pairs of `moof` and `mdat`, in order, and nothing else: a `moof`
/// or an `mdat` without the other never is played.
pub proof fn a_group_plays_its_pairs(v: PlaybackView, group: Seq<Object>, n: int)
    requires
        v.pending is None,
        0 <= n <= group.len(),
    ensures
        v.played(group, n) == pairs(group, n),
    decreases n,
{
    if n > 0 {
        a_group_plays_its_pairs(v, group, n - 1);
        let d = n - 1;
        let w = lemma_waiting(v, group, d);
        let before = v.after_first(group, d);
        if holds_mdat(group[d]) && before.pending is Some {
            assert(pairs_with(group, w, d));
            let m = choose|m: int| pairs_with(group, m, d);
            assert(m == w) by {
                assert(holds_moof(group[m]) && holds_moof(group[w]));
            }
        } else if exists|m: int| pairs_with(group, m, d) {
            let m = choose|m: int| pairs_with(group, m, d);
            assert(holds_moof(group[m]) && holds_mdat(group[d]));
            assert(false) by {
                if w >= 0 {
                    assert(holds_mdat(group[w]));
                }
            }
        }
        assert(before.plays(group[d]) == pair_at(group, d));
    }
}

/// A stall is always longer than the threshold.
pub proof fn stalls_exceed_the_threshold(v: PlaybackView, rendered_at: Nanos, expected_gap: Nanos)
    ensures
        v.stall(rendered_at, expected_gap) matches Some(s) ==> s > STALL_THRESHOLD,
{
}

/// Between two frames there is a stall exactly where the later one comes more than a
/// tenth of a second later than it was expected, whatever was expected. Its length is
/// by how much it comes too late.
pub proof fn a_stall_is_what_exceeds_the_expected_gap(
    p: &mut Playback,
    object_id: u64,
    received_at: Nanos,
    rendered_at: Nanos,
    expected_gap: Nanos,
    last: Nanos,
    r: RenderReport,
)
    requires
        call_ensures(
            Playback::rendered,
            (p, object_id, received_at, rendered_at, expected_gap),
            r,
        ),
        old(p).last_render == Some(last),
    ensures
        r.stall is Some == (rendered_at - last > expected_gap + 100_000_000),
        r.stall matches Some(s) ==> s == rendered_at - last - expected_gap,
        rendered_at <= last + expected_gap + 100_000_000 ==> r.stall is None,
{
}

/// Before the first frame nothing can stall. Each frame is the last one for the next.
pub proof fn the_first_frame_does_not_stall(
    p: &mut Playback,
    object_id: u64,
    received_at: Nanos,
    rendered_at: Nanos,
    expected_gap: Nanos,
    r: RenderReport,
)
    requires
        call_ensures(
            Playback::rendered,
            (p, object_id, received_at, rendered_at, expected_gap),
            r,
        ),
    ensures
        old(p).last_render is None ==> r.stall is None,
        final(p).last_render == Some(rendered_at),
{
}

/// Frames are numbered from zero, the first is reported as such, and every hundredth
/// asks for a snapshot. Reporting a frame changes nothing but this number and the time
/// of the last frame.
pub proof fn frames_are_numbered(
    p: &mut Playback,
    object_id: u64,
    received_at: Nanos,
    rendered_at: Nanos,
    expected_gap: Nanos,
    r: RenderReport,
)
    requires
        call_ensures(
            Playback::rendered,
            (p, object_id, received_at, rendered_at, expected_gap),
            r,
        ),
        old(p).frame_sequence < u64::MAX,
    ensures
        r.sequence == old(p).frame_sequence,
        final(p).frame_sequence == r.sequence + 1,
        r.first == (r.sequence == 0),
        r.snapshot == ((r.sequence + 1) % 100 == 0),
        final(p).track_id == old(p).track_id,
        final(p).start == old(p).start,
        final(p).captures@ == old(p).captures@,
        final(p)@.pending == old(p)@.pending,
{
}

/// An object in the publisher's list was captured so many microseconds after the start
/// of playback; any other a fortieth of a second before it arrived, if there was such
/// a time. The latency runs from there to the rendering, and is never negative.
pub proof fn latency_runs_from_the_capture(
    p: &mut Playback,
    object_id: u64,
    received_at: Nanos,
    rendered_at: Nanos,
    expected_gap: Nanos,
    r: RenderReport,
)
    requires
        call_ensures(
            Playback::rendered,
            (p, object_id, received_at, rendered_at, expected_gap),
            r,
        ),
        old(p).start <= u128::MAX - u64::MAX * 1000,
    ensures
        old(p).captures@.contains_key(object_id) ==> (r.capture matches Some(c) && c
            - old(p).start == 1000 * old(p).captures@[object_id]),
        !old(p).captures@.contains_key(object_id) && received_at >= 25_000_000 ==> (
        r.capture matches Some(c) && received_at - c == 25_000_000),
        !old(p).captures@.contains_key(object_id) && received_at < 25_000_000 ==> r.capture is None,
        r.latency is Some == (r.capture is Some),
        r.latency matches Some(l) ==> {
            &&& rendered_at >= r.capture->Some_0 ==> r.capture->Some_0 + l == rendered_at
            &&& rendered_at < r.capture->Some_0 ==> l == 0
        },
{
}

/// An object that is not of the size it declared is missing, and nothing else happens.
pub proof fn an_object_of_another_size_is_missing(p: &mut Playback, o: Object, r: PlayStep)
    requires
        call_ensures(Playback::receive, (p, o), r),
    ensures
        (r is Missing) == (o.bytes@.len() != o.size),
        r is Missing ==> final(p)@ == old(p)@,
{
}

/// A `moof` is held until its `mdat` comes, in place of an earlier one, with its place,
/// its bytes, when it arrived and what it says of its own time.
pub proof fn a_moof_is_held(
    p: &mut Playback,
    o: Object,
    b: &[u8],
    time: Option<u64>,
    path: String,
    r: PlayStep,
)
    requires
        call_ensures(Playback::receive, (p, o), r),
        o.bytes@.len() == o.size,
        o.bytes@.len() >= 8,
        o.bytes@[4] == 0x6d && o.bytes@[5] == 0x6f && o.bytes@[6] == 0x6f && o.bytes@[7] == 0x66,
        b@ == o.bytes@,
        call_ensures(extract_media_timestamp, (b,), time),
        call_ensures(get_sub_moof_path, (o.group_id, o.object_id), path),
    ensures
        r matches PlayStep::Hold { path: x } && x@ == path@,
        final(p)@.pending matches Some(held) && held.group_id == o.group_id && held.object_id
            == o.object_id && held.bytes == o.bytes@ && held.received_at == o.received_at
            && held.media_timestamp == time,
        final(p)@ == (PlaybackView { pending: final(p)@.pending, ..old(p)@ }),
{
}

/// An `mdat` is played behind the `moof` that waits for it, under the place of the
/// `moof` and as of when that arrived; then nothing waits. Without a `moof` it is
/// ignored.
pub proof fn an_mdat_is_played_behind_its_moof(p: &mut Playback, o: Object, path: String, r: PlayStep)
    requires
        call_ensures(Playback::receive, (p, o), r),
        o.bytes@.len() == o.size,
        o.bytes@.len() >= 8,
        o.bytes@[4] == 0x6d && o.bytes@[5] == 0x64 && o.bytes@[6] == 0x61 && o.bytes@[7] == 0x74,
        old(p)@.pending matches Some(m) ==> call_ensures(
            get_sub_mdat_path,
            (m.group_id, m.object_id, old(p).track_id),
            path,
        ),
    ensures
        match old(p)@.pending {
            Some(m) => {
                &&& r matches PlayStep::Play(f)
                &&& f.bytes@ == m.bytes + o.bytes@
                &&& f.mdat@ == o.bytes@
                &&& f.mdat_path@ == path@
                &&& f.group_id == m.group_id
                &&& f.object_id == m.object_id
                &&& f.received_at == m.received_at
            },
            None => r == PlayStep::Ignore,
        },
        final(p)@ == (PlaybackView { pending: None, ..old(p)@ }),
{
}

/// Anything else is ignored, and what waits goes on waiting.
pub proof fn other_objects_are_ignored(p: &mut Playback, o: Object, r: PlayStep)
    requires
        call_ensures(Playback::receive, (p, o), r),
        o.bytes@.len() == o.size,
        o.bytes@.len() < 8 || !(o.bytes@[4] == 0x6d && ((o.bytes@[5] == 0x6f && o.bytes@[6] == 0x6f
            && o.bytes@[7] == 0x66) || (o.bytes@[5] == 0x64 && o.bytes@[6] == 0x61 && o.bytes@[7]
            == 0x74))),
    ensures
        r == PlayStep::Ignore,
        final(p)@ == old(p)@,
{
}

/// Playback begins with nothing that waits and nothing that was rendered, with the list
/// of captures and the start that it is given.
pub proof fn playback_begins_empty(
    name: &str,
    captures: HashMap<u64, u64>,
    start: Nanos,
    id: u32,
    r: Playback,
)
    requires
        call_ensures(Playback::new, (name, captures, start), r),
        call_ensures(parse_track_id, (name,), id),
    ensures
        r.track_id == id,
        r.pending is None && r.last_render is None && r.frame_sequence == 0,
        r.captures@ == captures@ && r.start == start,
{
}

/// A track that is named by its number has that number, whatever follows the first
/// dot.
pub proof fn a_track_has_the_number_in_its_name(name: &str, id: u32, rest: Seq<char>, r: u32)
    requires
        call_ensures(parse_track_id, (name,), r),
        name@ == decimal(id as nat) + seq!['.'] + rest || name@ == decimal(id as nat),
    ensures
        r == id,
{
    decimals_read_back(id as nat);
    let d = decimal(id as nat);
    let n = d.len() as int;
    let t = name@;
    assert forall|k: int| 0 <= k < n implies t[k] != '.' by {
        assert(t[k] == d[k]);
    }
    lemma_dot(t, 0, n);
    assert(t.take(n) =~= d);
}

proof fn lemma_dot(t: Seq<char>, from: int, i: int)
    requires
        0 <= from <= i <= t.len(),
        i < t.len() ==> t[i] == '.',
        forall|k: int| from <= k < i ==> t[k] != '.',
    ensures
        find(t, '.', from) == i,
    decreases i - from,
{
    if from < i {
        assert(t[from] != '.');
        lemma_dot(t, from + 1, i);
    }
}

/// The number of a track is what stands before the first dot of its name, read as a number
/// of 32 bits; the first track has a name where that is none.
pub proof fn a_track_has_the_number_before_the_dot(
    name: &str,
    front: Vec<char>,
    rest: Seq<char>,
    n: Option<u64>,
    r: u32,
)
    requires
        call_ensures(parse_track_id, (name,), r),
        forall|k: int| 0 <= k < front@.len() ==> front@[k] != '.',
        name@ == front@ + seq!['.'] + rest || name@ == front@,
        call_ensures(parse_number, (&front, 0, front.len(), u32::MAX as u64), n),
    ensures
        n matches Some(x) ==> r == x,
        n is None ==> r == 1,
{
    let t = name@;
    let k = front@.len() as int;
    assert forall|i: int| 0 <= i < k implies t[i] != '.' by {
        assert(t[i] == front@[i]);
    }
    lemma_dot(t, 0, k);
    assert(t.take(k) =~= front@);
    assert(front@.subrange(0, k) =~= front@);
}

/// A name that starts with neither a digit nor a plus sign has no number: the track is
/// the first.
pub proof fn a_track_without_a_number_is_the_first(name: &str, r: u32)
    requires
        call_ensures(parse_track_id, (name,), r),
        name@.len() == 0 || (name@[0] != '+' && !('0' <= name@[0] <= '9')),
    ensures
        r == 1,
{
    let t = name@;
    let n = find(t, '.', 0);
    if t.len() > 0 {
        if t[0] == '.' {
            assert(t.take(0).len() == 0);
        } else {
            lemma_behind_first(t, 1);
            let d = t.take(n);
            assert(d[0] == t[0]);
            assert(!is_digit(d[0]));
        }
    }
}

proof fn lemma_behind_first(t: Seq<char>, from: int)
    requires
        0 <= from <= t.len(),
    ensures
        from <= find(t, '.', from) <= t.len(),
    decreases t.len() - from,
{
    if from < t.len() && t[from] != '.' {
        lemma_behind_first(t, from + 1);
    }
}

} // verus!
