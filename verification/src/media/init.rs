//! The subscriber's start: the initialization segment and the track to play.

use crate::bytes_be::{be32, be64, read_be32, read_be64};
use crate::media::boxes::MOOV;
use crate::media::catalog::{media_track_name, track_name};
use crate::media::movie::{parsed_moov, read_moov, Trak};
use crate::media::paths::{get_init_path, init_path};
use vstd::prelude::*;
use vstd::slice::slice_subrange;

verus! {

/// A box read from the front of a byte string, and where the next begins.
pub struct Atom {
    pub bytes: Vec<u8>,
    pub next: usize,
}

/// The lesser of a claimed end and the end of the bytes.
pub open spec fn clip(b: Seq<u8>, end: int) -> int {
    if end < b.len() {
        end
    } else {
        b.len() as int
    }
}

/// The box at `at` and where the next begins; nothing where the header is not
/// complete or its size is impossible.
///
/// A size of zero takes the rest of the bytes. A box that is cut short is taken as
/// far as it goes. Of an extended header only the first eight bytes are kept.
pub open spec fn atom_at(b: Seq<u8>, at: int) -> Option<(Seq<u8>, int)> {
    if at + 8 > b.len() {
        None
    } else {
        let size = be32(b, at);
        if size == 0 {
            Some((b.skip(at), b.len() as int))
        } else if size == 1 {
            if at + 16 > b.len() {
                None
            } else {
                let end = clip(b, at + be64(b, at + 8));
                Some((b.subrange(at, at + 8) + b.subrange(at + 16, end), end))
            }
        } else if size < 8 {
            None
        } else {
            let end = clip(b, at + size);
            Some((b.subrange(at, end), end))
        }
    }
}

/// Whether the extended size at `at`, if there is one, covers its own header.
pub open spec fn extended_sound(b: Seq<u8>, at: int) -> bool {
    at + 16 <= b.len() && be32(b, at) == 1 ==> be64(b, at + 8) >= 16
}

/// Whether that holds of every box from `at` on.
pub open spec fn all_sound(b: Seq<u8>, at: int) -> bool
    decreases b.len() - at,
{
    &&& extended_sound(b, at)
    &&& match atom_at(b, at) {
        Some((_, next)) => if at < next {
            all_sound(b, next)
        } else {
            true
        },
        None => true,
    }
}

/// The boxes from `at` on, one behind the other.
pub open spec fn joined(b: Seq<u8>, at: int) -> Seq<u8>
    decreases b.len() - at,
{
    match atom_at(b, at) {
        Some((atom, next)) if at < next <= b.len() => atom + joined(b, next),
        _ => Seq::empty(),
    }
}

/// The last `moov` box from `at` on; `seen` where there is none.
pub open spec fn last_moov(b: Seq<u8>, at: int, seen: Option<Seq<u8>>) -> Option<Seq<u8>>
    decreases b.len() - at,
{
    match atom_at(b, at) {
        Some((atom, next)) if at < next <= b.len() => last_moov(
            b,
            next,
            if be32(atom, 4) == MOOV {
                Some(atom)
            } else {
                seen
            },
        ),
        _ => seen,
    }
}

/// Reads the box at `at`.
pub fn read_atom(b: &[u8], at: usize) -> (r: Option<Atom>)
    requires
        at <= b.len(),
        extended_sound(b@, at as int),
    ensures
        r is Some == (atom_at(b@, at as int) is Some),
        r matches Some(a) ==> atom_at(b@, at as int) == Some((a.bytes@, a.next as int)) && at + 8
            <= a.next <= b@.len() && a.bytes@.len() >= 8,
{
    let len: usize = b.len();
    if len - at < 8 {
        return None;
    }
    let size: u32 = read_be32(b, at);
    let mut bytes: Vec<u8> = Vec::new();
    if size == 0 {
        bytes.extend_from_slice(slice_subrange(b, at, len));
        assert(bytes@ == b@.skip(at as int));
        return Some(Atom { bytes, next: len });
    }
    if size == 1 {
        if len - at < 16 {
            return None;
        }
        let large: u64 = read_be64(b, at + 8);
        let end: usize = if large < (len - at) as u64 {
            at + large as usize
        } else {
            len
        };
        bytes.extend_from_slice(slice_subrange(b, at, at + 8));
        bytes.extend_from_slice(slice_subrange(b, at + 16, end));
        assert(bytes@ == b@.subrange(at as int, at + 8) + b@.subrange(at + 16, end as int));
        return Some(Atom { bytes, next: end });
    }
    if size < 8 {
        return None;
    }
    let end: usize = if (size as u64) < (len - at) as u64 {
        at + size as usize
    } else {
        len
    };
    bytes.extend_from_slice(slice_subrange(b, at, end));
    assert(bytes@ == b@.subrange(at as int, end as int));
    Some(Atom { bytes, next: end })
}

/// Whether every extended size covers its own header.
pub fn is_sound(b: &[u8]) -> (r: bool)
    ensures
        r == all_sound(b@, 0),
{
    let mut at: usize = 0;
    loop
        invariant
            at <= b@.len(),
            all_sound(b@, 0) == all_sound(b@, at as int),
        decreases b@.len() - at,
    {
        if b.len() - at >= 16 && read_be32(b, at) == 1 && read_be64(b, at + 8) < 16 {
            return false;
        }
        match read_atom(b, at) {
            Some(a) => {
                at = a.next;
            },
            None => {
                return true;
            },
        }
    }
}

/// The initialization segment: all its boxes, and the last `moov` among them.
pub fn split_init(b: &[u8]) -> (r: (Vec<u8>, Option<Vec<u8>>))
    requires
        all_sound(b@, 0),
    ensures
        r.0@ == joined(b@, 0),
        (match r.1 {
            Some(m) => Some(m@),
            None => None,
        }) == last_moov(b@, 0, None),
{
    let mut init: Vec<u8> = Vec::new();
    let mut moov: Option<Vec<u8>> = None;
    let mut at: usize = 0;
    assert(init@ + joined(b@, 0) =~= joined(b@, 0));
    loop
        invariant
            at <= b@.len(),
            all_sound(b@, at as int),
            joined(b@, 0) == init@ + joined(b@, at as int),
            last_moov(b@, 0, None) == last_moov(
                b@,
                at as int,
                match moov {
                    Some(m) => Some(m@),
                    None => None,
                },
            ),
        decreases b@.len() - at,
    {
        match read_atom(b, at) {
            Some(a) => {
                let ghost was = init@;
                init.extend_from_slice(a.bytes.as_slice());
                assert(was + (a.bytes@ + joined(b@, a.next as int)) =~= init@ + joined(
                    b@,
                    a.next as int,
                ));
                at = a.next;
                if read_be32(a.bytes.as_slice(), 4) == MOOV {
                    moov = Some(a.bytes);
                }
            },
            None => {
                assert(init@ + joined(b@, at as int) =~= init@);
                return (init, moov);
            },
        }
    }
}

/// The first track with AVC video.
pub open spec fn video_track(traks: Seq<Trak>, from: int) -> Option<u32>
    decreases traks.len() - from,
{
    if from >= traks.len() {
        None
    } else if traks[from].stsd.avc1 is Some {
        Some(traks[from].head.track_id)
    } else {
        video_track(traks, from + 1)
    }
}

/// A file to be written with the initialization segment, under the name of the
/// track that it starts.
#[derive(Debug)]
pub struct InitFile {
    pub path: String,
    pub track: String,
}

/// What the subscriber does with the initialization segment.
#[derive(Debug)]
pub struct InitPlan {
    /// The bytes of every file.
    pub init: Vec<u8>,
    /// One file for each track.
    pub files: Vec<InitFile>,
    /// The name of the one track to be played.
    pub video: Option<String>,
}

/// Why there is nothing to play.
#[derive(Clone, Copy, Debug, PartialEq, Eq, Structural)]
pub enum InitError {
    /// There is no `moov` box.
    NoMoov,
    /// The `moov` cannot be parsed, or cannot be read to an end.
    Box,
}

/// Whether `p` is the plan for these bytes and tracks.
pub open spec fn is_init_plan(p: InitPlan, b: Seq<u8>, traks: Seq<Trak>) -> bool {
    &&& p.init@ == joined(b, 0)
    &&& p.files@.len() == traks.len()
    &&& forall|k: int|
        #![trigger p.files@[k]]
        0 <= k < traks.len() ==> p.files@[k].path@ == init_path(traks[k].head.track_id)
            && p.files@[k].track@ == track_name(traks[k].head.track_id)
    &&& (match p.video {
        Some(name) => Some(name@),
        None => None,
    }) == (match video_track(traks, 0) {
        Some(id) => Some(track_name(id)),
        None => None,
    })
}

fn find_video(traks: &Vec<Trak>) -> (r: Option<String>)
    ensures
        (match r {
            Some(name) => Some(name@),
            None => None,
        }) == (match video_track(traks@, 0) {
            Some(id) => Some(track_name(id)),
            None => None,
        }),
{
    let mut k: usize = 0;
    while k < traks.len()
        invariant
            k <= traks@.len(),
            video_track(traks@, 0) == video_track(traks@, k as int),
        decreases traks@.len() - k,
    {
        if traks[k].stsd.avc1.is_some() {
            return Some(media_track_name(traks[k].head.track_id));
        }
        k = k + 1;
    }
    None
}

/// Plans the start of playback from the tracks of the `moov`.
pub fn plan_init(init: Vec<u8>, traks: &Vec<Trak>, b: &[u8]) -> (r: InitPlan)
    requires
        init@ == joined(b@, 0),
    ensures
        is_init_plan(r, b@, traks@),
{
    let mut files: Vec<InitFile> = Vec::new();
    let mut k: usize = 0;
    while k < traks.len()
        invariant
            k <= traks@.len(),
            files@.len() == k,
            forall|j: int|
                #![trigger files@[j]]
                0 <= j < k ==> files@[j].path@ == init_path(traks@[j].head.track_id)
                    && files@[j].track@ == track_name(traks@[j].head.track_id),
        decreases traks@.len() - k,
    {
        let id: u32 = traks[k].head.track_id;
        files.push(InitFile { path: get_init_path(id), track: media_track_name(id) });
        k = k + 1;
    }
    InitPlan { init, files, video: find_video(traks) }
}

/// Plans the start of playback from the bytes of the initialization segment.
pub fn read_init(b: &[u8]) -> (r: Result<InitPlan, InitError>)
    requires
        all_sound(b@, 0),
    ensures
        match last_moov(b@, 0, None) {
            None => r == Err::<InitPlan, InitError>(InitError::NoMoov),
            Some(moov) => match parsed_moov(moov) {
                None => r == Err::<InitPlan, InitError>(InitError::Box),
                Some(traks) => r matches Ok(p) && is_init_plan(p, b@, traks),
            },
        },
{
    let (init, moov) = split_init(b);
    let moov: Vec<u8> = match moov {
        Some(m) => m,
        None => {
            return Err(InitError::NoMoov);
        },
    };
    match read_moov(moov.as_slice()) {
        Some(traks) => Ok(plan_init(init, &traks, b)),
        None => Err(InitError::Box),
    }
}

/// Without extended headers, what is saved is the segment itself, byte for byte,
/// up to where it can be read.
pub proof fn plain_boxes_are_kept(b: Seq<u8>, at: int)
    requires
        0 <= at <= b.len(),
        forall|i: int|
            #![trigger atom_at(b, i)]
            at <= i < b.len() && atom_at(b, i) is Some ==> be32(b, i) != 1,
    ensures
        exists|end: int|
            at <= end <= b.len() && joined(b, at) == b.subrange(at, end) && #[trigger] atom_at(
                b,
                end,
            ) is None,
    decreases b.len() - at,
{
    match atom_at(b, at) {
        Some((atom, next)) if at < next <= b.len() => {
            plain_boxes_are_kept(b, next);
            let end = choose|end: int|
                next <= end <= b.len() && joined(b, next) == b.subrange(next, end)
                    && #[trigger] atom_at(b, end) is None;
            assert(atom == b.subrange(at, next));
            assert(b.subrange(at, next) + b.subrange(next, end) == b.subrange(at, end));
            assert(joined(b, at) == b.subrange(at, end));
            assert(atom_at(b, end) is None);
        },
        _ => {
            assert(b.subrange(at, at) == Seq::<u8>::empty());
            assert(joined(b, at) == b.subrange(at, at));
        },
    }
}

/// A whole box is read as it stands, and the next begins where it ends. Of one with a
/// long size only that size is left out. A box that claims more than there is, or
/// claims to go to the end, is taken as far as the bytes go.
pub proof fn boxes_are_read_one_behind_the_other(b: &[u8], at: usize, r: Option<Atom>)
    requires
        call_ensures(read_atom, (b, at), r),
        at + 16 <= b@.len(),
    ensures
        ({
            let i = at as int;
            let len = b@.len() as int;
            let short = b@[i] * 16777216 + b@[i + 1] * 65536 + b@[i + 2] * 256 + b@[i + 3];
            let long = (b@[i + 8] * 16777216 + b@[i + 9] * 65536 + b@[i + 10] * 256 + b@[i + 11])
                * 4294967296 + b@[i + 12] * 16777216 + b@[i + 13] * 65536 + b@[i + 14] * 256 + b@[i
                + 15];
            &&& short >= 8 && at + short <= len ==> (r matches Some(a) && a.bytes@ == b@.subrange(
                i,
                i + short,
            ) && a.next == at + short)
            &&& short == 0 || (short >= 8 && at + short > len) ==> (r matches Some(a) && a.bytes@
                == b@.skip(i) && a.next == len)
            &&& short == 1 && 16 <= long && at + long <= len ==> (r matches Some(a) && a.bytes@
                == b@.subrange(i, i + 8) + b@.subrange(i + 16, i + long) && a.next == at + long)
            &&& short == 1 && at + long > len ==> (r matches Some(a) && a.bytes@ == b@.subrange(
                i,
                i + 8,
            ) + b@.skip(i + 16) && a.next == len)
            &&& 1 < short < 8 ==> r is None
        }),
{
    let i = at as int;
    assert(b@.subrange(i, b@.len() as int) =~= b@.skip(i));
    assert(b@.subrange(i + 16, b@.len() as int) =~= b@.skip(i + 16));
}

/// Fewer bytes than a header hold no box.
pub proof fn a_box_needs_its_header(b: &[u8], at: usize, r: Option<Atom>)
    requires
        call_ensures(read_atom, (b, at), r),
        at + 8 > b@.len(),
    ensures
        r is None,
{
}

/// The segment is its boxes, in order: the first one, then those behind it.
pub proof fn a_segment_is_its_boxes(b: Seq<u8>, at: int)
    requires
        0 <= at,
    ensures
        match atom_at(b, at) {
            Some((atom, next)) => at < next <= b.len() ==> joined(b, at) == atom + joined(b, next),
            None => joined(b, at) == Seq::<u8>::empty(),
        },
{
}

/// Of all `moov` boxes the last is taken: one behind the first box, if there is any,
/// else the first box, if it is one.
pub proof fn the_last_movie_is_taken(b: Seq<u8>, at: int, atom: Seq<u8>, next: int)
    requires
        atom_at(b, at) == Some((atom, next)),
        at < next <= b.len(),
        atom.len() >= 8,
    ensures
        last_moov(b, at, None) == (if last_moov(b, next, None) is Some {
            last_moov(b, next, None)
        } else if atom[4] == 0x6d && atom[5] == 0x6f && atom[6] == 0x6f && atom[7] == 0x76 {
            Some(atom)
        } else {
            None
        }),
{
    lemma_seen(b, next, atom);
}

proof fn lemma_seen(b: Seq<u8>, at: int, seen: Seq<u8>)
    ensures
        last_moov(b, at, Some(seen)) == (if last_moov(b, at, None) is Some {
            last_moov(b, at, None)
        } else {
            Some(seen)
        }),
    decreases b.len() - at,
{
    if let Some((atom, next)) = atom_at(b, at) {
        if at < next <= b.len() {
            lemma_seen(b, next, seen);
            lemma_seen(b, next, atom);
        }
    }
}

/// The track that is played is the first with AVC video, under its name; without one
/// there is none.
pub proof fn the_first_video_is_played(
    init: Vec<u8>,
    traks: Vec<Trak>,
    b: &[u8],
    k: int,
    r: InitPlan,
    name: String,
)
    requires
        call_ensures(plan_init, (init, &traks, b), r),
        0 <= k <= traks@.len(),
        forall|j: int| 0 <= j < k ==> (#[trigger] traks@[j]).stsd.avc1 is None,
        k < traks@.len() ==> traks@[k].stsd.avc1 is Some && call_ensures(
            media_track_name,
            (traks@[k].head.track_id,),
            name,
        ),
    ensures
        k == traks@.len() ==> r.video is None,
        k < traks@.len() ==> (r.video matches Some(v) && v@ == name@),
{
    lemma_first_video(traks@, 0, k);
}

proof fn lemma_first_video(traks: Seq<Trak>, from: int, k: int)
    requires
        0 <= from <= k <= traks.len(),
        forall|j: int| from <= j < k ==> (#[trigger] traks[j]).stsd.avc1 is None,
        k < traks.len() ==> traks[k].stsd.avc1 is Some,
    ensures
        video_track(traks, from) == (if k < traks.len() {
            Some(traks[k].head.track_id)
        } else {
            None
        }),
    decreases k - from,
{
    if from < k {
        assert(traks[from].stsd.avc1 is None);
        lemma_first_video(traks, from + 1, k);
    }
}

/// For each track a file is written under its number, in the order of the tracks, with
/// the whole segment.
pub proof fn every_track_gets_a_file(
    init: Vec<u8>,
    traks: Vec<Trak>,
    b: &[u8],
    k: int,
    r: InitPlan,
    path: String,
    name: String,
)
    requires
        init@ == joined(b@, 0),
        call_ensures(plan_init, (init, &traks, b), r),
        0 <= k < traks@.len(),
        call_ensures(get_init_path, (traks@[k].head.track_id,), path),
        call_ensures(media_track_name, (traks@[k].head.track_id,), name),
    ensures
        r.init@ == init@,
        r.files@.len() == traks@.len(),
        r.files@[k].path@ == path@,
        r.files@[k].track@ == name@,
{
}

/// Without a `moov` there is nothing to play, nor with one that cannot be read; else
/// the plan is made of the whole segment.
pub proof fn a_start_needs_a_movie(
    b: &[u8],
    parts: (Vec<u8>, Option<Vec<u8>>),
    r: Result<InitPlan, InitError>,
)
    requires
        call_ensures(split_init, (b,), parts),
        call_ensures(read_init, (b,), r),
    ensures
        parts.1 is None ==> r == Err::<InitPlan, InitError>(InitError::NoMoov),
        parts.1 matches Some(m) ==> (match parsed_moov(m@) {
            None => r == Err::<InitPlan, InitError>(InitError::Box),
            Some(traks) => r matches Ok(p) && p.init@ == parts.0@ && p.files@.len() == traks.len(),
        }),
{
}

/// A segment is sound where no box in it claims a long size that does not cover its own
/// header; one that does, wherever boxes lead to it, makes it unsound.
pub proof fn a_long_size_covers_its_header(b: &[u8], r: bool, starts: Seq<int>, k: int)
    requires
        call_ensures(is_sound, (b,), r),
        starts.len() > 0,
        starts[0] == 0,
        forall|i: int|
            0 <= i < starts.len() - 1 ==> #[trigger] starts[i] + 8 <= b@.len() && starts[i] + be32(
                b@,
                starts[i],
            ) == starts[i + 1] && be32(b@, starts[i]) >= 8 && starts[i + 1] <= b@.len(),
        k == starts.last(),
    ensures
        k + 16 <= b@.len() && be32(b@, k) == 1 && be64(b@, k + 8) < 16 ==> !r,
        k + 8 > b@.len() ==> r,
{
    lemma_sound_from(b@, starts, 0);
}

/// Boxes that are sound lead to the next.
proof fn lemma_sound_from(b: Seq<u8>, starts: Seq<int>, i: int)
    requires
        0 <= i < starts.len(),
        starts[0] >= 0,
        forall|i: int|
            0 <= i < starts.len() - 1 ==> #[trigger] starts[i] + 8 <= b.len() && starts[i] + be32(
                b,
                starts[i],
            ) == starts[i + 1] && be32(b, starts[i]) >= 8 && starts[i + 1] <= b.len(),
    ensures
        all_sound(b, starts[i]) == all_sound(b, starts.last()),
    decreases starts.len() - i,
{
    if i < starts.len() - 1 {
        let at = starts[i];
        lemma_sound_from(b, starts, i + 1);
        assert(atom_at(b, at) is Some);
        assert(atom_at(b, at)->Some_0.1 == starts[i + 1]);
    }
}

} // verus!
