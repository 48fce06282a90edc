//! The publisher: what becomes of each box of a fragmented MP4 stream.
//!
//! [`Media`] decides. Whoever runs it carries out what a [`Step`] says and
//! reports back which group and object the bytes went into.

use crate::buffer::{buffered, contents, from_vec, frozen};
use crate::media::atom::{atom_len, header_cut, next_atom, starts_with_box, AtomError};
use crate::media::boxes::{box_head, read_box_head, BoxHead, FTYP, MDAT, MOOF, MOOV};
use crate::media::catalog::{
    handler_type, media_track_name, select, selection, track_name, track_type, SelectionParam,
    SelectionView, TrackError, TrackType,
};
use crate::media::fragment::{
    first_timestamp, has_keyframe, sample_keyframe, sample_timestamp, Fragment,
};
use crate::media::movie::{parsed_moof, parsed_moov, read_moof, read_moov, Moof, Trak, TrafView};
use std::collections::HashMap;
use vstd::prelude::*;
use vstd::std_specs::iter::IteratorSpec;

verus! {

broadcast use vstd::std_specs::hash::group_hash_axioms;

/// The priority of a group of media.
pub const GROUP_PRIORITY: u8 = 127;

/// The name of the track that carries the initialization segment.
pub const INIT_TRACK: &'static str = "0.mp4";

/// The name of the track that carries the catalog.
pub const CATALOG_TRACK: &'static str = ".catalog";

/// The version of the catalog format.
pub const CATALOG_VERSION: u16 = 1;

/// The number of the streaming format in the catalog.
pub const STREAMING_FORMAT: u16 = 1;

/// The version of the streaming format.
pub const STREAMING_FORMAT_VERSION: &'static str = "0.2";

/// The render group of every track.
pub const RENDER_GROUP: u16 = 1;

/// A `moof` that has been published and waits for its `mdat`.
#[derive(Clone, Copy, Debug, PartialEq, Eq, Structural)]
pub struct PendingFragment {
    pub fragment: Fragment,
    pub moof_group_id: u64,
    pub moof_object_id: u64,
}

/// Where to put a `moof`.
#[derive(Clone, Copy, Debug, PartialEq, Eq, Structural)]
pub struct HeaderPlan {
    /// The open group to append to; without one, a new group is opened.
    pub group: Option<u64>,
    /// The priority of a new group.
    pub priority: u8,
    /// The size of the object.
    pub size: usize,
}

/// Where to put an `mdat`, and the `moof` it belongs to.
#[derive(Clone, Copy, Debug, PartialEq, Eq, Structural)]
pub struct DataPlan {
    pub group: u64,
    pub size: usize,
    pub pending: PendingFragment,
}

/// Why a stream cannot be published.
#[derive(Clone, Copy, Debug, PartialEq, Eq, Structural)]
pub enum MediaError {
    /// No box can be cut off the stream.
    Atom(AtomError),
    /// A box cannot be parsed, or cannot be read to an end.
    Box,
    /// A `moof` with another number of track fragments than one.
    MultipleTracks,
    /// A `moof` without a decode time.
    NoTimestamp,
    /// A `moov` before any `ftyp`.
    MissingFtyp,
    /// A track that cannot be published.
    Track(TrackError),
    /// A fragment of a track that the `moov` did not announce.
    UnknownTrack,
    /// A `moof` while another waits for its `mdat`.
    MultipleMoof,
    /// An `mdat` without a `moof`.
    MissingMoof,
    /// An `mdat` whose group has been closed.
    MissingCurrent,
}

/// A track that is being published.
#[derive(Clone, Copy, Debug, PartialEq, Eq, Structural)]
pub struct Track {
    /// The open group.
    pub current: Option<u64>,
    pub timescale: u64,
    pub handler: TrackType,
    pub pending: Option<PendingFragment>,
}

impl Track {
    /// A track with no open group.
    pub fn new(handler: TrackType, timescale: u64) -> (r: Track)
        ensures
            r == (Track { current: None, timescale, handler, pending: None }),
    {
        Track { current: None, timescale, handler, pending: None }
    }

    /// Where a `moof` of `size` bytes goes: into the open group, else into a new
    /// one.
    pub fn header(&self, size: usize) -> (r: HeaderPlan)
        ensures
            r == (HeaderPlan { group: self.current, priority: GROUP_PRIORITY, size }),
    {
        HeaderPlan { group: self.current, priority: GROUP_PRIORITY, size }
    }

    /// The `moof` of `fragment` went into this group as this object.
    pub fn header_done(&mut self, fragment: Fragment, group_id: u64, object_id: u64)
        ensures
            *final(self) == (Track {
                current: Some(group_id),
                pending: Some(
                    PendingFragment { fragment, moof_group_id: group_id, moof_object_id: object_id },
                ),
                ..*old(self)
            }),
    {
        self.current = Some(group_id);
        self.pending = Some(
            PendingFragment { fragment, moof_group_id: group_id, moof_object_id: object_id },
        );
    }

    /// Where an `mdat` of `size` bytes goes: behind its `moof`.
    ///
    /// Without a `moof` that waits for it, nowhere. The wait is over either way.
    pub fn data(&mut self, size: usize) -> (r: Result<Option<DataPlan>, MediaError>)
        ensures
            *final(self) == (Track { pending: None, ..*old(self) }),
            r == data_plan(*old(self), size),
    {
        let pending: PendingFragment = match self.pending {
            Some(p) => p,
            None => {
                return Ok(None);
            },
        };
        self.pending = None;
        match self.current {
            Some(group) => Ok(Some(DataPlan { group, size, pending })),
            None => Err(MediaError::MissingCurrent),
        }
    }

    /// Closes the open group.
    pub fn end_group(&mut self)
        ensures
            *final(self) == ended(*old(self)),
    {
        self.current = None;
    }
}

/// A track with its group closed.
pub open spec fn ended(t: Track) -> Track {
    Track { current: None, ..t }
}

/// Where an `mdat` goes.
pub open spec fn data_plan(t: Track, size: usize) -> Result<Option<DataPlan>, MediaError> {
    match t.pending {
        None => Ok(None),
        Some(pending) => match t.current {
            Some(group) => Ok(Some(DataPlan { group, size, pending })),
            None => Err(MediaError::MissingCurrent),
        },
    }
}

/// A track that is about to be published.
#[derive(Debug)]
pub struct TrackPlan {
    pub id: u32,
    pub name: String,
    pub timescale: u64,
    pub handler: TrackType,
    pub selection: SelectionParam,
}

/// What a [`TrackPlan`] holds.
#[verifier::ext_equal]
pub struct TrackPlanView {
    pub id: u32,
    pub name: Seq<char>,
    pub timescale: u64,
    pub handler: TrackType,
    pub selection: SelectionView,
}

impl View for TrackPlan {
    type V = TrackPlanView;

    open spec fn view(&self) -> TrackPlanView {
        TrackPlanView {
            id: self.id,
            name: self.name@,
            timescale: self.timescale,
            handler: self.handler,
            selection: self.selection@,
        }
    }
}

/// Everything that follows from a `moov`.
#[derive(Debug)]
pub struct SetupPlan {
    /// The initialization segment: the `ftyp` and the `moov`.
    pub init: bytes::Bytes,
    /// The time scales to be saved, by track.
    pub timescales: Vec<(u32, u64)>,
    /// The tracks to be created, in order.
    pub tracks: Vec<TrackPlan>,
    /// What stops the work after them.
    pub error: Option<TrackError>,
}

/// The time scale of track `id`: that of the first track with this number.
pub open spec fn timescale_of(traks: Seq<Trak>, id: u32, from: int) -> u64
    decreases traks.len() - from,
{
    if from >= traks.len() {
        0
    } else if traks[from].head.track_id == id {
        traks[from].head.timescale as u64
    } else {
        timescale_of(traks, id, from + 1)
    }
}

/// What is planned for the track at `k`.
pub open spec fn track_plan(traks: Seq<Trak>, k: int) -> Result<TrackPlanView, TrackError> {
    let t = traks[k];
    match track_type(t.head.handler) {
        None => Err(TrackError::Handler),
        Some(handler) => match selection(t.head.track_id, t.stsd) {
            Err(e) => Err(e),
            Ok(selection) => Ok(
                TrackPlanView {
                    id: t.head.track_id,
                    name: track_name(t.head.track_id),
                    timescale: timescale_of(traks, t.head.track_id, 0),
                    handler,
                    selection,
                },
            ),
        },
    }
}

/// How many tracks are planned before the first that cannot be published.
pub open spec fn planned(traks: Seq<Trak>, from: int) -> int
    decreases traks.len() - from,
{
    if from >= traks.len() || track_plan(traks, from) is Err {
        from
    } else {
        planned(traks, from + 1)
    }
}

/// Whether `s` is the plan that follows from these tracks.
pub open spec fn is_setup(s: SetupPlan, ftyp: Seq<u8>, raw: Seq<u8>, traks: Seq<Trak>) -> bool {
    let n = planned(traks, 0);
    &&& frozen(s.init) == ftyp + raw
    &&& s.tracks@.len() == n
    &&& forall|k: int|
        0 <= k < n ==> track_plan(traks, k) == Ok::<TrackPlanView, TrackError>(
            (#[trigger] s.tracks@[k])@,
        )
    &&& s.error == (if n < traks.len() {
        Some(track_plan(traks, n)->Err_0)
    } else {
        None
    })
    &&& s.timescales@.len() == (if n < traks.len() {
        n + 1
    } else {
        n
    })
    &&& forall|k: int|
        0 <= k < s.timescales@.len() ==> #[trigger] s.timescales@[k] == (
            traks[k].head.track_id,
            timescale_of(traks, traks[k].head.track_id, 0),
        )
}

/// The time scale of the first track with this number.
pub fn track_timescale(traks: &Vec<Trak>, id: u32) -> (r: u64)
    requires
        exists|k: int| 0 <= k < traks@.len() && (#[trigger] traks@[k]).head.track_id == id,
    ensures
        r == timescale_of(traks@, id, 0),
{
    let mut k: usize = 0;
    while k < traks.len()
        invariant
            k <= traks@.len(),
            timescale_of(traks@, id, 0) == timescale_of(traks@, id, k as int),
        decreases traks@.len() - k,
    {
        if traks[k].head.track_id == id {
            return traks[k].head.timescale as u64;
        }
        k = k + 1;
    }
    0
}

/// Plans what follows from a `moov`.
pub fn setup(ftyp: &[u8], raw: &[u8], traks: &Vec<Trak>) -> (r: SetupPlan)
    ensures
        is_setup(r, ftyp@, raw@, traks@),
{
    let mut init: Vec<u8> = Vec::new();
    init.extend_from_slice(ftyp);
    init.extend_from_slice(raw);
    assert(init@ == ftyp@ + raw@);
    let mut timescales: Vec<(u32, u64)> = Vec::new();
    let mut tracks: Vec<TrackPlan> = Vec::new();
    let mut k: usize = 0;
    while k < traks.len()
        invariant
            k <= traks@.len(),
            tracks@.len() == k,
            timescales@.len() == k,
            init@ == ftyp@ + raw@,
            planned(traks@, 0) == planned(traks@, k as int),
            forall|j: int|
                0 <= j < k ==> track_plan(traks@, j) == Ok::<TrackPlanView, TrackError>(
                    (#[trigger] tracks@[j])@,
                ),
            forall|j: int|
                0 <= j < k ==> #[trigger] timescales@[j] == (
                    traks@[j].head.track_id,
                    timescale_of(traks@, traks@[j].head.track_id, 0),
                ),
        decreases traks@.len() - k,
    {
        let id: u32 = traks[k].head.track_id;
        assert(traks@[k as int].head.track_id == id);
        let timescale: u64 = track_timescale(traks, id);
        timescales.push((id, timescale));
        let handler: TrackType = match handler_type(traks[k].head.handler) {
            Some(h) => h,
            None => {
                return SetupPlan {
                    init: from_vec(init),
                    timescales,
                    tracks,
                    error: Some(TrackError::Handler),
                };
            },
        };
        let stsd = traks[k].stsd;
        match select(id, &stsd) {
            Ok(selection) => {
                tracks.push(
                    TrackPlan { id, name: media_track_name(id), timescale, handler, selection },
                );
            },
            Err(e) => {
                return SetupPlan { init: from_vec(init), timescales, tracks, error: Some(e) };
            },
        }
        k = k + 1;
    }
    SetupPlan { init: from_vec(init), timescales, tracks, error: None }
}

/// The publisher of one broadcast.
#[derive(Debug)]
pub struct Media {
    tracks: HashMap<u64, Track>,
    ftyp: Option<bytes::Bytes>,
    moov: bool,
    current: Option<u32>,
}

/// What a [`Media`] holds: the tracks by number, the `ftyp` box, whether the
/// `moov` has been dealt with, and the track whose `moof` waits for an `mdat`.
#[verifier::ext_equal]
pub struct MediaView {
    pub tracks: Map<u64, Track>,
    pub ftyp: Option<Seq<u8>>,
    pub moov: bool,
    pub current: Option<u32>,
}

impl View for Media {
    type V = MediaView;

    closed spec fn view(&self) -> MediaView {
        MediaView {
            tracks: self.tracks@,
            ftyp: match self.ftyp {
                Some(f) => Some(frozen(f)),
                None => None,
            },
            moov: self.moov,
            current: self.current,
        }
    }
}

/// What to do with the first box of the stream.
#[derive(Debug)]
pub enum Step {
    /// It has not arrived in full.
    Incomplete,
    /// Nothing.
    Skipped,
    /// Publish the initialization segment, the tracks and the catalog.
    Setup(SetupPlan),
    /// Publish a `moof` on this track and report with [`Media::header_done`].
    Header { track: u32, raw: bytes::Bytes, fragment: Fragment, plan: HeaderPlan },
    /// Publish an `mdat`, where there is a plan for it.
    Data { track: u32, raw: bytes::Bytes, data: Option<DataPlan> },
}

/// All tracks with their groups closed.
pub open spec fn all_ended(tracks: Map<u64, Track>) -> Map<u64, Track> {
    tracks.map_values(|t: Track| ended(t))
}

/// The fragment that a parsed `moof` describes, where it describes one.
pub open spec fn fragment_of(m: Seq<TrafView>, now_us: u64) -> Result<Fragment, MediaError> {
    if m.len() != 1 {
        Err(MediaError::MultipleTracks)
    } else {
        match first_timestamp(m) {
            None => Err(MediaError::NoTimestamp),
            Some(timestamp) => Ok(
                Fragment {
                    track: m[0].track_id,
                    timestamp,
                    keyframe: has_keyframe(m),
                    capture_us: now_us,
                },
            ),
        }
    }
}

/// The fragment in a `moof` box.
pub open spec fn read_fragment(atom: Seq<u8>, now_us: u64) -> Result<Fragment, MediaError> {
    match parsed_moof(atom) {
        None => Err(MediaError::Box),
        Some(m) => fragment_of(m, now_us),
    }
}

impl MediaView {
    /// The tracks once a fragment has come in: a key frame of a video closes the
    /// groups of all tracks.
    pub open spec fn tracks_at(self, f: Fragment) -> Map<u64, Track> {
        if f.keyframe && self.tracks.contains_key(f.track as u64) && self.tracks[f.track as u64].handler
            == TrackType::Video {
            all_ended(self.tracks)
        } else {
            self.tracks
        }
    }

    /// The state after a fragment.
    pub open spec fn after_fragment(self, f: Fragment) -> MediaView {
        if self.tracks.contains_key(f.track as u64) && self.current is None {
            MediaView { tracks: self.tracks_at(f), current: Some(f.track), ..self }
        } else {
            MediaView { tracks: self.tracks_at(f), ..self }
        }
    }

    /// Whether `r` is what becomes of the `moof` box of a fragment.
    pub open spec fn fragment_step(
        self,
        f: Fragment,
        atom: Seq<u8>,
        r: Result<Step, MediaError>,
    ) -> bool {
        if !self.tracks.contains_key(f.track as u64) {
            r == Err::<Step, MediaError>(MediaError::UnknownTrack)
        } else if self.current is Some {
            r == Err::<Step, MediaError>(MediaError::MultipleMoof)
        } else {
            &&& r matches Ok(Step::Header { track, raw, fragment, plan })
            &&& track == f.track
            &&& frozen(raw) == atom
            &&& fragment == f
            &&& plan == (HeaderPlan {
                group: self.tracks_at(f)[f.track as u64].current,
                priority: GROUP_PRIORITY,
                size: atom.len() as usize,
            })
        }
    }

    /// The state after a box.
    pub open spec fn after(self, atom: Seq<u8>, now_us: u64) -> MediaView {
        match box_head(atom, 0) {
            None => self,
            Some(h) => if h.name == FTYP {
                if self.ftyp is Some {
                    self
                } else {
                    MediaView { ftyp: Some(atom), ..self }
                }
            } else if h.name == MOOF {
                match read_fragment(atom, now_us) {
                    Ok(f) => self.after_fragment(f),
                    Err(_) => self,
                }
            } else if h.name == MDAT {
                match self.current {
                    None => self,
                    Some(t) => if self.tracks.contains_key(t as u64) {
                        MediaView {
                            current: None,
                            tracks: self.tracks.insert(
                                t as u64,
                                Track { pending: None, ..self.tracks[t as u64] },
                            ),
                            ..self
                        }
                    } else {
                        MediaView { current: None, ..self }
                    },
                }
            } else {
                self
            },
        }
    }

    /// Whether `r` is what becomes of a box.
    pub open spec fn step(self, atom: Seq<u8>, now_us: u64, r: Result<Step, MediaError>) -> bool {
        match box_head(atom, 0) {
            None => r == Err::<Step, MediaError>(MediaError::Box),
            Some(h) => if h.name == MOOV {
                if self.moov {
                    r == Ok::<Step, MediaError>(Step::Skipped)
                } else {
                    match parsed_moov(atom) {
                        None => r == Err::<Step, MediaError>(MediaError::Box),
                        Some(traks) => match self.ftyp {
                            None => r == Err::<Step, MediaError>(MediaError::MissingFtyp),
                            Some(ftyp) => r matches Ok(Step::Setup(plan)) && is_setup(
                                plan,
                                ftyp,
                                atom,
                                traks,
                            ),
                        },
                    }
                }
            } else if h.name == MOOF {
                match read_fragment(atom, now_us) {
                    Err(e) => r == Err::<Step, MediaError>(e),
                    Ok(f) => self.fragment_step(f, atom, r),
                }
            } else if h.name == MDAT {
                match self.current {
                    None => r == Err::<Step, MediaError>(MediaError::MissingMoof),
                    Some(t) => if !self.tracks.contains_key(t as u64) {
                        r == Err::<Step, MediaError>(MediaError::UnknownTrack)
                    } else {
                        match data_plan(self.tracks[t as u64], atom.len() as usize) {
                            Err(e) => r == Err::<Step, MediaError>(e),
                            Ok(p) => {
                                &&& r matches Ok(Step::Data { track, raw, data })
                                &&& track == t
                                &&& frozen(raw) == atom
                                &&& data == p
                            },
                        }
                    },
                }
            } else {
                r == Ok::<Step, MediaError>(Step::Skipped)
            },
        }
    }
}

/// The numbers of the tracks, each once.
fn numbers(tracks: &HashMap<u64, Track>) -> (r: Vec<u64>)
    ensures
        r@.no_duplicates(),
        forall|k: u64| #[trigger] r@.contains(k) == tracks@.dom().contains(k),
{
    let mut out: Vec<u64> = Vec::new();
    let ghost all = tracks.keys().remaining();
    for k in it: tracks.keys()
        invariant
            it.seq() == all,
            out@.len() == it.index(),
            forall|j: int| 0 <= j < out@.len() ==> out@[j] == *all[j],
    {
        out.push(*k);
    }
    proof {
        assert(out@ =~= all.unref());
    }
    out
}

impl Media {
    /// A publisher that has seen nothing yet.
    pub fn new() -> (r: Media)
        ensures
            r@ == (MediaView { tracks: Map::empty(), ftyp: None, moov: false, current: None }),
    {
        Media { tracks: HashMap::new(), ftyp: None, moov: false, current: None }
    }

    /// Closes the groups of all tracks.
    pub fn reset(&mut self)
        ensures
            final(self)@ == (MediaView { tracks: all_ended(old(self)@.tracks), ..old(self)@ }),
    {
        let keys: Vec<u64> = numbers(&self.tracks);
        let mut i: usize = 0;
        let ghost start = self.tracks@;
        while i < keys.len()
            invariant
                i <= keys@.len(),
                self.tracks@.dom() == start.dom(),
                keys@.no_duplicates(),
                forall|k: u64| #[trigger] keys@.contains(k) == start.dom().contains(k),
                forall|j: int|
                    0 <= j < i ==> self.tracks@[#[trigger] keys@[j]] == ended(start[keys@[j]]),
                forall|j: int|
                    i <= j < keys@.len() ==> self.tracks@[#[trigger] keys@[j]] == start[keys@[j]],
                self.ftyp == old(self).ftyp,
                self.moov == old(self).moov,
                self.current == old(self).current,
            decreases keys@.len() - i,
        {
            let k: u64 = keys[i];
            assert(keys@.contains(k));
            if let Some(t) = self.tracks.get(&k) {
                let mut t: Track = *t;
                t.end_group();
                let _ = self.tracks.insert(k, t);
            }
            assert(self.tracks@.dom() =~= start.dom());
            i = i + 1;
        }
        proof {
            assert forall|k: u64| start.dom().contains(k) implies #[trigger] self.tracks@[k]
                == ended(start[k]) by {
                assert(keys@.contains(k));
                let j = choose|j: int| 0 <= j < keys@.len() && keys@[j] == k;
                assert(self.tracks@[keys@[j]] == ended(start[keys@[j]]));
            }
            assert(self.tracks@ =~= all_ended(start));
        }
    }

    /// The track of a plan has been created.
    pub fn add_track(&mut self, plan: &TrackPlan)
        ensures
            final(self)@ == (MediaView {
                tracks: old(self)@.tracks.insert(
                    plan@.id as u64,
                    Track {
                        current: None,
                        timescale: plan@.timescale,
                        handler: plan@.handler,
                        pending: None,
                    },
                ),
                ..old(self)@
            }),
    {
        let _ = self.tracks.insert(plan.id as u64, Track::new(plan.handler, plan.timescale));
    }

    /// Everything that follows from the `moov` has been published.
    pub fn setup_done(&mut self)
        ensures
            final(self)@ == (MediaView { moov: true, ..old(self)@ }),
    {
        self.moov = true;
    }

    /// The `moof` of `fragment` went into this group as this object.
    pub fn header_done(&mut self, fragment: Fragment, group_id: u64, object_id: u64)
        requires
            old(self)@.tracks.contains_key(fragment.track as u64),
        ensures
            final(self)@ == (MediaView {
                tracks: old(self)@.tracks.insert(
                    fragment.track as u64,
                    Track {
                        current: Some(group_id),
                        pending: Some(
                            PendingFragment {
                                fragment,
                                moof_group_id: group_id,
                                moof_object_id: object_id,
                            },
                        ),
                        ..old(self)@.tracks[fragment.track as u64]
                    },
                ),
                ..old(self)@
            }),
    {
        if let Some(t) = self.tracks.get(&(fragment.track as u64)) {
            let mut t: Track = *t;
            t.header_done(fragment, group_id, object_id);
            let _ = self.tracks.insert(fragment.track as u64, t);
        }
    }

    /// The time scale of a track.
    pub fn timescale(&self, track: u32) -> (r: Option<u64>)
        ensures
            r == (if self@.tracks.contains_key(track as u64) {
                Some(self@.tracks[track as u64].timescale)
            } else {
                None
            }),
    {
        match self.tracks.get(&(track as u64)) {
            Some(t) => Some(t.timescale),
            None => None,
        }
    }

    fn moov(&mut self, atom: &bytes::Bytes) -> (r: Result<Step, MediaError>)
        requires
            box_head(frozen(*atom), 0) is Some,
            box_head(frozen(*atom), 0)->Some_0.name == MOOV,
        ensures
            final(self)@ == old(self)@,
            old(self)@.step(frozen(*atom), 0, r),
    {
        if self.moov {
            return Ok(Step::Skipped);
        }
        let raw: &[u8] = contents(atom);
        let traks: Vec<Trak> = match read_moov(raw) {
            Some(traks) => traks,
            None => {
                return Err(MediaError::Box);
            },
        };
        match &self.ftyp {
            None => Err(MediaError::MissingFtyp),
            Some(ftyp) => Ok(Step::Setup(setup(contents(ftyp), raw, &traks))),
        }
    }

    fn moof(&mut self, atom: bytes::Bytes, now_us: u64) -> (r: Result<Step, MediaError>)
        requires
            box_head(frozen(atom), 0) is Some,
            box_head(frozen(atom), 0)->Some_0.name == MOOF,
        ensures
            final(self)@ == old(self)@.after(frozen(atom), now_us),
            old(self)@.step(frozen(atom), now_us, r),
    {
        let raw: &[u8] = contents(&atom);
        let size: usize = raw.len();
        let moof: Moof = match read_moof(raw) {
            Some(m) => m,
            None => {
                return Err(MediaError::Box);
            },
        };
        if moof.trafs.len() == 1 && sample_timestamp(&moof).is_none() {
            return Err(MediaError::NoTimestamp);
        }
        let fragment: Fragment = match Fragment::new(&moof, now_us) {
            Some(f) => f,
            None => {
                return Err(MediaError::MultipleTracks);
            },
        };
        assert(read_fragment(frozen(atom), now_us) == Ok::<Fragment, MediaError>(fragment));
        let track: Track = match self.tracks.get(&(fragment.track as u64)) {
            Some(t) => *t,
            None => {
                return Err(MediaError::UnknownTrack);
            },
        };
        if fragment.keyframe && track.handler == TrackType::Video {
            self.reset();
        }
        if self.current.is_some() {
            return Err(MediaError::MultipleMoof);
        }
        self.current = Some(fragment.track);
        match self.tracks.get(&(fragment.track as u64)) {
            Some(t) => {
                let plan: HeaderPlan = t.header(size);
                Ok(Step::Header { track: fragment.track, raw: atom, fragment, plan })
            },
            None => Err(MediaError::UnknownTrack),
        }
    }

    fn mdat(&mut self, atom: bytes::Bytes) -> (r: Result<Step, MediaError>)
        requires
            box_head(frozen(atom), 0) is Some,
            box_head(frozen(atom), 0)->Some_0.name == MDAT,
        ensures
            final(self)@ == old(self)@.after(frozen(atom), 0),
            old(self)@.step(frozen(atom), 0, r),
    {
        let size: usize = contents(&atom).len();
        let track: u32 = match self.current {
            Some(t) => t,
            None => {
                return Err(MediaError::MissingMoof);
            },
        };
        self.current = None;
        let mut t: Track = match self.tracks.get(&(track as u64)) {
            Some(t) => *t,
            None => {
                return Err(MediaError::UnknownTrack);
            },
        };
        let plan: Result<Option<DataPlan>, MediaError> = t.data(size);
        let _ = self.tracks.insert(track as u64, t);
        match plan {
            Ok(data) => Ok(Step::Data { track, raw: atom, data }),
            Err(e) => Err(e),
        }
    }

    /// Takes the first box off the stream and says what to do with it.
    ///
    /// `now_us` is the present, in microseconds of Unix time.
    pub fn parse_atom(&mut self, buf: &mut bytes::BytesMut, now_us: u64) -> (r: Result<
        Step,
        MediaError,
    >)
        requires
            !header_cut(buffered(*old(buf))),
        ensures
            match atom_len(buffered(*old(buf))) {
                Err(e) => {
                    &&& r == Err::<Step, MediaError>(MediaError::Atom(e))
                    &&& final(self)@ == old(self)@
                    &&& buffered(*final(buf)) == buffered(*old(buf))
                },
                Ok(None) => {
                    &&& r == Ok::<Step, MediaError>(Step::Incomplete)
                    &&& final(self)@ == old(self)@
                    &&& buffered(*final(buf)) == buffered(*old(buf))
                },
                Ok(Some(n)) => {
                    &&& old(self)@.step(buffered(*old(buf)).take(n), now_us, r)
                    &&& final(self)@ == old(self)@.after(buffered(*old(buf)).take(n), now_us)
                    &&& buffered(*final(buf)) == buffered(*old(buf)).skip(n)
                },
            },
    {
        let atom: bytes::Bytes = match next_atom(buf) {
            Err(e) => {
                return Err(MediaError::Atom(e));
            },
            Ok(None) => {
                return Ok(Step::Incomplete);
            },
            Ok(Some(atom)) => atom,
        };
        let head: BoxHead = match read_box_head(contents(&atom), 0) {
            Some(h) => h,
            None => {
                return Err(MediaError::Box);
            },
        };
        if head.name == FTYP {
            if self.ftyp.is_none() {
                self.ftyp = Some(atom);
            }
            Ok(Step::Skipped)
        } else if head.name == MOOV {
            self.moov(&atom)
        } else if head.name == MOOF {
            self.moof(atom, now_us)
        } else if head.name == MDAT {
            self.mdat(atom)
        } else {
            Ok(Step::Skipped)
        }
    }
}

/// A key frame of a video starts a new group.
pub proof fn video_keyframe_opens_a_group(
    v: MediaView,
    f: Fragment,
    atom: Seq<u8>,
    r: Result<Step, MediaError>,
)
    requires
        v.fragment_step(f, atom, r),
        f.keyframe,
        v.tracks.contains_key(f.track as u64),
        v.tracks[f.track as u64].handler == TrackType::Video,
    ensures
        r matches Ok(s) ==> (s matches Step::Header { plan, .. } && plan.group is None),
        forall|k: u64|
            v.tracks.contains_key(k) ==> #[trigger] v.after_fragment(f).tracks[k] == ended(v.tracks[k]),
{
}

/// An `mdat` goes behind its `moof`: into the same group, under the identity
/// that was reported for the `moof`.
pub proof fn mdat_follows_its_moof(
    v: MediaView,
    f: Fragment,
    group_id: u64,
    object_id: u64,
    mdat: Seq<u8>,
    now_us: u64,
    r: Result<Step, MediaError>,
)
    requires
        v.tracks.contains_key(f.track as u64),
        v.current is None,
        box_head(mdat, 0) is Some,
        box_head(mdat, 0)->Some_0.name == MDAT,
        ({
            let w = v.after_fragment(f);
            let t = Track {
                current: Some(group_id),
                pending: Some(
                    PendingFragment {
                        fragment: f,
                        moof_group_id: group_id,
                        moof_object_id: object_id,
                    },
                ),
                ..w.tracks[f.track as u64]
            };
            (MediaView { tracks: w.tracks.insert(f.track as u64, t), ..w }).step(mdat, now_us, r)
        }),
    ensures
        r matches Ok(s) && (s matches Step::Data { track, raw, data } && track == f.track && frozen(
            raw,
        ) == mdat && data == Some(
            DataPlan {
                group: group_id,
                size: mdat.len() as usize,
                pending: PendingFragment {
                    fragment: f,
                    moof_group_id: group_id,
                    moof_object_id: object_id,
                },
            },
        )),
{
}

/// Only the first `ftyp` and the first `moov` count.
pub proof fn later_headers_are_skipped(
    v: MediaView,
    atom: Seq<u8>,
    now_us: u64,
    r: Result<Step, MediaError>,
)
    requires
        box_head(atom, 0) matches Some(h) && ((h.name == FTYP && v.ftyp is Some) || (h.name == MOOV
            && v.moov)),
        v.step(atom, now_us, r),
    ensures
        r == Ok::<Step, MediaError>(Step::Skipped),
        v.after(atom, now_us) == v,
{
}

/// A box of any other type than `ftyp`, `moov`, `moof` and `mdat` is passed over: it
/// comes off the stream, and nothing else happens.
pub proof fn other_boxes_are_passed_over(
    media: &mut Media,
    buf: &mut bytes::BytesMut,
    now_us: u64,
    n: int,
    name: Seq<u8>,
    r: Result<Step, MediaError>,
)
    requires
        call_ensures(Media::parse_atom, (media, buf, now_us), r),
        starts_with_box(buffered(*old(buf)), n, name),
        name != seq![0x66u8, 0x74, 0x79, 0x70],
        name != seq![0x6du8, 0x6f, 0x6f, 0x76],
        name != seq![0x6du8, 0x6f, 0x6f, 0x66],
        name != seq![0x6du8, 0x64, 0x61, 0x74],
    ensures
        r == Ok::<Step, MediaError>(Step::Skipped),
        final(media)@ == old(media)@,
        buffered(*final(buf)) == buffered(*old(buf)).skip(n),
{
    let b = buffered(*old(buf));
    lemma_name(b, n, name);
    let h = box_head(b.take(n), 0)->Some_0;
    if h.name == FTYP {
        assert(name =~= seq![0x66u8, 0x74, 0x79, 0x70]);
    }
    if h.name == MOOV {
        assert(name =~= seq![0x6du8, 0x6f, 0x6f, 0x76]);
    }
    if h.name == MOOF {
        assert(name =~= seq![0x6du8, 0x6f, 0x6f, 0x66]);
    }
    if h.name == MDAT {
        assert(name =~= seq![0x6du8, 0x64, 0x61, 0x74]);
    }
}

proof fn lemma_name(b: Seq<u8>, n: int, name: Seq<u8>)
    requires
        starts_with_box(b, n, name),
    ensures
        atom_len(b) == Ok::<Option<int>, AtomError>(Some(n)),
        box_head(b.take(n), 0) is Some,
        box_head(b.take(n), 0)->Some_0.name == name[0] * 16777216 + name[1] * 65536 + name[2] * 256
            + name[3],
{
    let c = b.take(n);
    assert forall|i: int| 0 <= i < n implies c[i] == b[i] by {}
}

/// The first `ftyp` is kept as it is, a later one is passed over. Neither touches the
/// tracks.
pub proof fn the_first_file_type_is_kept(
    media: &mut Media,
    buf: &mut bytes::BytesMut,
    now_us: u64,
    n: int,
    r: Result<Step, MediaError>,
)
    requires
        call_ensures(Media::parse_atom, (media, buf, now_us), r),
        starts_with_box(buffered(*old(buf)), n, seq![0x66u8, 0x74, 0x79, 0x70]),
    ensures
        r == Ok::<Step, MediaError>(Step::Skipped),
        buffered(*final(buf)) == buffered(*old(buf)).skip(n),
        final(media)@.ftyp == (match old(media)@.ftyp {
            Some(first) => Some(first),
            None => Some(buffered(*old(buf)).take(n)),
        }),
        final(media)@.tracks == old(media)@.tracks,
        final(media)@.moov == old(media)@.moov,
        final(media)@.current == old(media)@.current,
{
    lemma_name(buffered(*old(buf)), n, seq![0x66u8, 0x74, 0x79, 0x70]);
}

/// The first `moov` that can be read makes a plan out of the `ftyp` before it and its
/// own bytes. Without a `ftyp` it is refused; once it has been dealt with, later ones
/// are passed over. None changes the state by itself.
pub proof fn the_first_movie_is_planned(
    media: &mut Media,
    buf: &mut bytes::BytesMut,
    now_us: u64,
    n: int,
    r: Result<Step, MediaError>,
)
    requires
        call_ensures(Media::parse_atom, (media, buf, now_us), r),
        starts_with_box(buffered(*old(buf)), n, seq![0x6du8, 0x6f, 0x6f, 0x76]),
    ensures
        buffered(*final(buf)) == buffered(*old(buf)).skip(n),
        final(media)@ == old(media)@,
        ({
            let raw = buffered(*old(buf)).take(n);
            &&& old(media)@.moov ==> r == Ok::<Step, MediaError>(Step::Skipped)
            &&& !old(media)@.moov && parsed_moov(raw) is None ==> r == Err::<Step, MediaError>(
                MediaError::Box,
            )
            &&& !old(media)@.moov && parsed_moov(raw) is Some && old(media)@.ftyp is None ==> r
                == Err::<Step, MediaError>(MediaError::MissingFtyp)
            &&& !old(media)@.moov && parsed_moov(raw) is Some ==> (old(media)@.ftyp matches Some(
                ftyp,
            ) ==> (r matches Ok(Step::Setup(plan)) && frozen(plan.init) == ftyp + raw
                && plan.tracks@.len() + (if plan.error is Some {
                1int
            } else {
                0
            }) == plan.timescales@.len()))
        }),
{
    lemma_name(buffered(*old(buf)), n, seq![0x6du8, 0x6f, 0x6f, 0x76]);
    let raw = buffered(*old(buf)).take(n);
    if let Some(traks) = parsed_moov(raw) {
        lemma_planned(traks, 0);
    }
}

proof fn lemma_planned(traks: Seq<Trak>, from: int)
    requires
        0 <= from <= traks.len(),
    ensures
        from <= planned(traks, from) <= traks.len(),
        planned(traks, from) < traks.len() ==> track_plan(traks, planned(traks, from)) is Err,
        forall|k: int| from <= k < planned(traks, from) ==> #[trigger] track_plan(traks, k) is Ok,
    decreases traks.len() - from,
{
    if from < traks.len() && track_plan(traks, from) is Ok {
        lemma_planned(traks, from + 1);
    }
}

proof fn lemma_timescale(traks: Seq<Trak>, id: u32, from: int, k: int)
    requires
        0 <= from <= k < traks.len(),
        traks[k].head.track_id == id,
        forall|j: int| from <= j < k ==> (#[trigger] traks[j]).head.track_id != id,
    ensures
        timescale_of(traks, id, from) == traks[k].head.timescale,
    decreases k - from,
{
    if from < k {
        assert(traks[from].head.track_id != id);
        lemma_timescale(traks, id, from + 1, k);
    }
}

/// The tracks of a movie are planned in their order, up to the first that cannot be
/// published: each under its number, with its kind, its name and its description.
/// Only that one stops the work, and it tells why.
pub proof fn tracks_are_planned_in_order(
    ftyp: &[u8],
    raw: &[u8],
    traks: Vec<Trak>,
    r: SetupPlan,
    k: int,
    kind: Option<TrackType>,
    description: Result<SelectionParam, TrackError>,
)
    requires
        call_ensures(setup, (ftyp, raw, &traks), r),
        0 <= k < traks@.len(),
        call_ensures(handler_type, (traks@[k].head.handler,), kind),
        call_ensures(select, (traks@[k].head.track_id, &traks@[k].stsd), description),
    ensures
        frozen(r.init) == ftyp@ + raw@,
        r.error is None ==> r.tracks@.len() == traks@.len(),
        r.error is Some ==> r.tracks@.len() < traks@.len(),
        k < r.tracks@.len() ==> {
            let t = r.tracks@[k];
            &&& t.id == traks@[k].head.track_id
            &&& t.name@ == track_name(t.id)
            &&& Some(t.handler) == kind
            &&& description matches Ok(d) && t.selection@ == d@
            &&& r.timescales@[k] == (t.id, t.timescale)
        },
        k == r.tracks@.len() ==> r.error == (match kind {
            None => Some(TrackError::Handler),
            Some(_) => match description {
                Ok(_) => None,
                Err(e) => Some(e),
            },
        }) && r.error is Some,
{
    lemma_planned(traks@, 0);
    if k < r.tracks@.len() {
        assert(track_plan(traks@, k) == Ok::<TrackPlanView, TrackError>(r.tracks@[k]@));
        assert(r.timescales@[k] == (
            traks@[k].head.track_id,
            timescale_of(traks@, traks@[k].head.track_id, 0),
        ));
    }
}

/// The time scale of a track is its own, or that of the first track with its number.
pub proof fn a_track_has_the_first_time_scale_of_its_number(
    traks: Vec<Trak>,
    id: u32,
    r: u64,
    k: int,
)
    requires
        call_ensures(track_timescale, (&traks, id), r),
        0 <= k < traks@.len(),
        traks@[k].head.track_id == id,
        forall|j: int| 0 <= j < k ==> (#[trigger] traks@[j]).head.track_id != id,
    ensures
        r == traks@[k].head.timescale,
        timescale_of(traks@, id, 0) == traks@[k].head.timescale,
{
    lemma_timescale(traks@, id, 0, k);
}

/// A track that has been created can be found under its number, with its time scale,
/// and has neither an open group nor a `moof` that waits. The others are untouched.
pub proof fn a_created_track_is_found(
    media: &mut Media,
    plan: TrackPlan,
    other: u64,
    track: u32,
    r: Option<u64>,
)
    requires
        call_ensures(Media::add_track, (media, &plan), ()),
        call_ensures(Media::timescale, (final(media), track), r),
    ensures
        r == (if track == plan.id {
            Some(plan.timescale)
        } else if old(media)@.tracks.contains_key(track as u64) {
            Some(old(media)@.tracks[track as u64].timescale)
        } else {
            None
        }),
        final(media)@.tracks[plan.id as u64].handler == plan.handler,
        final(media)@.tracks[plan.id as u64].current is None,
        final(media)@.tracks[plan.id as u64].pending is None,
        other != plan.id ==> final(media)@.tracks.contains_key(other)
            == old(media)@.tracks.contains_key(other) && final(media)@.tracks[other]
            == old(media)@.tracks[other],
        final(media)@.ftyp == old(media)@.ftyp && final(media)@.moov == old(media)@.moov
            && final(media)@.current == old(media)@.current,
{
}

/// A `moof` of a known track, while no other waits, is to be published as it came: on
/// that track, with its decode time and the time of capture, in the open group of the
/// track. A key frame of a video closes the open groups of all tracks before.
pub proof fn a_fragment_is_published_on_its_track(
    media: &mut Media,
    buf: &mut bytes::BytesMut,
    now_us: u64,
    n: int,
    m: Seq<TrafView>,
    key: bool,
    moof: Moof,
    other: u64,
    r: Result<Step, MediaError>,
)
    requires
        call_ensures(Media::parse_atom, (media, buf, now_us), r),
        starts_with_box(buffered(*old(buf)), n, seq![0x6du8, 0x6f, 0x6f, 0x66]),
        parsed_moof(buffered(*old(buf)).take(n)) == Some(m),
        moof@ == m,
        call_ensures(sample_keyframe, (&moof,), key),
        m.len() == 1,
        m[0].base_media_decode_time is Some,
        old(media)@.tracks.contains_key(m[0].track_id as u64),
        old(media)@.current is None,
        old(media)@.tracks.contains_key(other),
        n <= usize::MAX,
    ensures
        buffered(*final(buf)) == buffered(*old(buf)).skip(n),
        ({
            let id = m[0].track_id as u64;
            let opens = key && old(media)@.tracks[id].handler == TrackType::Video;
            &&& r matches Ok(Step::Header { track, raw, fragment, plan })
            &&& track == m[0].track_id
            &&& frozen(raw) == buffered(*old(buf)).take(n)
            &&& fragment.track == m[0].track_id
            &&& Some(fragment.timestamp) == m[0].base_media_decode_time
            &&& fragment.keyframe == key
            &&& fragment.capture_us == now_us
            &&& plan.size == n
            &&& plan.priority == 127
            &&& plan.group == (if opens {
                None
            } else {
                old(media)@.tracks[id].current
            })
            &&& final(media)@.current == Some(m[0].track_id)
            &&& final(media)@.tracks.dom() == old(media)@.tracks.dom()
            &&& final(media)@.tracks[other].current == (if opens {
                None
            } else {
                old(media)@.tracks[other].current
            })
            &&& final(media)@.tracks[other].pending == old(media)@.tracks[other].pending
            &&& final(media)@.tracks[other].timescale == old(media)@.tracks[other].timescale
            &&& final(media)@.tracks[other].handler == old(media)@.tracks[other].handler
            &&& final(media)@.ftyp == old(media)@.ftyp && final(media)@.moov == old(media)@.moov
        }),
{
    lemma_name(buffered(*old(buf)), n, seq![0x6du8, 0x6f, 0x6f, 0x66]);
    assert(buffered(*old(buf)).take(n).len() == n);
}

/// A `moof` is refused, each time for its own reason: it cannot be read, it does not
/// belong to one track, it has no decode time, its track is not known, or another
/// `moof` still waits.
pub proof fn fragments_are_refused_for_a_reason(
    media: &mut Media,
    buf: &mut bytes::BytesMut,
    now_us: u64,
    n: int,
    r: Result<Step, MediaError>,
)
    requires
        call_ensures(Media::parse_atom, (media, buf, now_us), r),
        starts_with_box(buffered(*old(buf)), n, seq![0x6du8, 0x6f, 0x6f, 0x66]),
    ensures
        buffered(*final(buf)) == buffered(*old(buf)).skip(n),
        match parsed_moof(buffered(*old(buf)).take(n)) {
            None => r == Err::<Step, MediaError>(MediaError::Box) && final(media)@ == old(media)@,
            Some(m) => {
                &&& m.len() != 1 ==> r == Err::<Step, MediaError>(MediaError::MultipleTracks)
                    && final(media)@ == old(media)@
                &&& m.len() == 1 && m[0].base_media_decode_time is None ==> r == Err::<
                    Step,
                    MediaError,
                >(MediaError::NoTimestamp) && final(media)@ == old(media)@
                &&& m.len() == 1 && m[0].base_media_decode_time is Some
                    && !old(media)@.tracks.contains_key(m[0].track_id as u64) ==> r == Err::<
                    Step,
                    MediaError,
                >(MediaError::UnknownTrack) && final(media)@ == old(media)@
                &&& m.len() == 1 && m[0].base_media_decode_time is Some
                    && old(media)@.tracks.contains_key(m[0].track_id as u64)
                    && old(media)@.current is Some ==> r == Err::<Step, MediaError>(
                    MediaError::MultipleMoof,
                ) && final(media)@.current == old(media)@.current
            },
        },
{
    lemma_name(buffered(*old(buf)), n, seq![0x6du8, 0x6f, 0x6f, 0x66]);
}

/// Once a `moof` has been published, its group is the open group of its track, and the
/// `mdat` that follows goes there, as it came, under the place of the `moof`. Then
/// nothing waits any longer, and the group stays open.
pub proof fn the_data_of_a_fragment_follows_it(
    media: &mut Media,
    fragment: Fragment,
    group_id: u64,
    object_id: u64,
    next: &mut Media,
    buf: &mut bytes::BytesMut,
    now_us: u64,
    n: int,
    r: Result<Step, MediaError>,
)
    requires
        call_ensures(Media::header_done, (media, fragment, group_id, object_id), ()),
        old(media)@.tracks.contains_key(fragment.track as u64),
        old(media)@.current == Some(fragment.track),
        old(next)@ == final(media)@,
        call_ensures(Media::parse_atom, (next, buf, now_us), r),
        starts_with_box(buffered(*old(buf)), n, seq![0x6du8, 0x64, 0x61, 0x74]),
        n <= usize::MAX,
    ensures
        buffered(*final(buf)) == buffered(*old(buf)).skip(n),
        ({
            let id = fragment.track as u64;
            &&& final(media)@.tracks[id].current == Some(group_id)
            &&& r matches Ok(Step::Data { track, raw, data: Some(plan) })
            &&& track == fragment.track
            &&& frozen(raw) == buffered(*old(buf)).take(n)
            &&& plan.group == group_id
            &&& plan.size == n
            &&& plan.pending.fragment == fragment
            &&& plan.pending.moof_group_id == group_id
            &&& plan.pending.moof_object_id == object_id
            &&& final(next)@.current is None
            &&& final(next)@.tracks[id].pending is None
            &&& final(next)@.tracks[id].current == Some(group_id)
            &&& final(next)@.tracks[id].timescale == old(media)@.tracks[id].timescale
            &&& final(next)@.tracks[id].handler == old(media)@.tracks[id].handler
            &&& final(next)@.tracks.remove(id) == old(media)@.tracks.remove(id)
            &&& final(next)@.ftyp == old(media)@.ftyp && final(next)@.moov == old(media)@.moov
        }),
{
    lemma_name(buffered(*old(buf)), n, seq![0x6du8, 0x64, 0x61, 0x74]);
    assert(buffered(*old(buf)).take(n).len() == n);
    let id = fragment.track as u64;
    assert(final(next)@.tracks.remove(id) =~= old(media)@.tracks.remove(id));
}

/// An `mdat` that no `moof` announced is refused. One whose track is not known is
/// refused too, as is one whose group has been closed; where the `moof` was not
/// reported, there is no plan for it. Nothing waits afterwards.
pub proof fn data_without_a_place_is_not_published(
    media: &mut Media,
    buf: &mut bytes::BytesMut,
    now_us: u64,
    n: int,
    r: Result<Step, MediaError>,
)
    requires
        call_ensures(Media::parse_atom, (media, buf, now_us), r),
        starts_with_box(buffered(*old(buf)), n, seq![0x6du8, 0x64, 0x61, 0x74]),
    ensures
        buffered(*final(buf)) == buffered(*old(buf)).skip(n),
        final(media)@.current is None,
        match old(media)@.current {
            None => r == Err::<Step, MediaError>(MediaError::MissingMoof) && final(media)@
                == old(media)@,
            Some(t) => {
                let known = old(media)@.tracks.contains_key(t as u64);
                let before = old(media)@.tracks[t as u64];
                &&& !known ==> r == Err::<Step, MediaError>(MediaError::UnknownTrack)
                &&& known && before.pending is None ==> (r matches Ok(
                    Step::Data { track, raw, data },
                ) && track == t && data is None && frozen(raw) == buffered(*old(buf)).take(n))
                &&& known && before.pending is Some && before.current is None ==> r == Err::<
                    Step,
                    MediaError,
                >(MediaError::MissingCurrent)
            },
        },
{
    lemma_name(buffered(*old(buf)), n, seq![0x6du8, 0x64, 0x61, 0x74]);
}

/// Closing all groups leaves no track with an open one, and changes nothing else of
/// any track.
pub proof fn a_reset_closes_every_group(media: &mut Media, k: u64)
    requires
        call_ensures(Media::reset, (media,), ()),
    ensures
        final(media)@.tracks.contains_key(k) == old(media)@.tracks.contains_key(k),
        old(media)@.tracks.contains_key(k) ==> {
            let (was, is) = (old(media)@.tracks[k], final(media)@.tracks[k]);
            &&& is.current is None
            &&& is.pending == was.pending
            &&& is.timescale == was.timescale
            &&& is.handler == was.handler
        },
        final(media)@.ftyp == old(media)@.ftyp,
        final(media)@.moov == old(media)@.moov,
        final(media)@.current == old(media)@.current,
{
}

/// A track puts a `moof` into its open group, or opens one; behind it goes the `mdat`,
/// once.
pub proof fn a_track_keeps_its_group_open(
    track: &mut Track,
    fragment: Fragment,
    group_id: u64,
    object_id: u64,
    next: &mut Track,
    size: usize,
    plan: HeaderPlan,
    r: Result<Option<DataPlan>, MediaError>,
)
    requires
        call_ensures(Track::header, (old(track), size), plan),
        call_ensures(Track::header_done, (track, fragment, group_id, object_id), ()),
        *old(next) == *final(track),
        call_ensures(Track::data, (next, size), r),
    ensures
        plan.group == old(track).current && plan.size == size && plan.priority == 127,
        final(track).current == Some(group_id),
        r matches Ok(Some(p)) && p.group == group_id && p.size == size && p.pending.fragment
            == fragment && p.pending.moof_group_id == group_id && p.pending.moof_object_id
            == object_id,
        final(next).pending is None,
        final(next).current == Some(group_id),
        final(next).timescale == old(track).timescale && final(next).handler == old(track).handler,
{
}

/// A publisher starts with nothing seen, and a track with no group; the movie is planned
/// once it has been set up, and only the group of a track is closed with it.
pub proof fn publishing_starts_with_nothing(
    m: Media,
    handler: TrackType,
    timescale: u64,
    t: Track,
    n: &mut Media,
    u: &mut Track,
)
    requires
        call_ensures(Media::new, (), m),
        call_ensures(Track::new, (handler, timescale), t),
        call_ensures(Media::setup_done, (n,), ()),
        call_ensures(Track::end_group, (u,), ()),
    ensures
        m@.tracks.dom() == Set::<u64>::empty(),
        m@.ftyp is None && m@.current is None && !m@.moov,
        t.current is None && t.pending is None,
        t.timescale == timescale && t.handler == handler,
        final(n)@.moov,
        final(n)@.tracks == old(n)@.tracks && final(n)@.ftyp == old(n)@.ftyp && final(n)@.current
            == old(n)@.current,
        final(u).current is None,
        final(u).timescale == old(u).timescale && final(u).handler == old(u).handler && final(
            u).pending == old(u).pending,
{
}

} // verus!
