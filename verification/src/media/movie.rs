//! What the publisher and the subscriber read out of `moof` and `moov` boxes.
//!
//! The boxes are parsed by the `mp4` crate. The types here hold, as plain values,
//! the fields that the rest of the library looks at.

use crate::media::boxes::{box_head, box_walkable, check_box, read_box_head, BoxHead, Container};
use mp4::ReadBox;
use std::io::Cursor;
use vstd::prelude::*;

verus! {

/// A track run: the samples of a fragment.
#[derive(Debug)]
pub struct Trun {
    pub version: u8,
    pub flags: u32,
    pub sample_count: u32,
    pub first_sample_flags: Option<u32>,
    pub sample_durations: Vec<u32>,
    pub sample_flags: Vec<u32>,
    pub sample_cts: Vec<u32>,
}

/// What a [`Trun`] holds.
#[verifier::ext_equal]
pub struct TrunView {
    pub version: u8,
    pub flags: u32,
    pub sample_count: u32,
    pub first_sample_flags: Option<u32>,
    pub sample_durations: Seq<u32>,
    pub sample_flags: Seq<u32>,
    pub sample_cts: Seq<u32>,
}

impl View for Trun {
    type V = TrunView;

    open spec fn view(&self) -> TrunView {
        TrunView {
            version: self.version,
            flags: self.flags,
            sample_count: self.sample_count,
            first_sample_flags: self.first_sample_flags,
            sample_durations: self.sample_durations@,
            sample_flags: self.sample_flags@,
            sample_cts: self.sample_cts@,
        }
    }
}

/// A track fragment.
#[derive(Debug)]
pub struct Traf {
    pub track_id: u32,
    pub default_sample_duration: Option<u32>,
    pub default_sample_flags: Option<u32>,
    pub base_media_decode_time: Option<u64>,
    pub trun: Option<Trun>,
}

/// What a [`Traf`] holds.
#[verifier::ext_equal]
pub struct TrafView {
    pub track_id: u32,
    pub default_sample_duration: Option<u32>,
    pub default_sample_flags: Option<u32>,
    pub base_media_decode_time: Option<u64>,
    pub trun: Option<TrunView>,
}

impl View for Traf {
    type V = TrafView;

    open spec fn view(&self) -> TrafView {
        TrafView {
            track_id: self.track_id,
            default_sample_duration: self.default_sample_duration,
            default_sample_flags: self.default_sample_flags,
            base_media_decode_time: self.base_media_decode_time,
            trun: match self.trun {
                Some(t) => Some(t@),
                None => None,
            },
        }
    }
}

/// A movie fragment: the track fragments of a `moof` box.
#[derive(Debug)]
pub struct Moof {
    pub trafs: Vec<Traf>,
}

impl View for Moof {
    type V = Seq<TrafView>;

    open spec fn view(&self) -> Seq<TrafView> {
        self.trafs@.map_values(|t: Traf| t@)
    }
}

/// The identity of a track: its number, its time scale and the four characters
/// of its handler.
#[derive(Clone, Copy, Debug, PartialEq, Eq, Structural)]
pub struct TrakHead {
    pub track_id: u32,
    pub timescale: u32,
    pub handler: u32,
}

/// The parameters of an `avc1` sample entry.
#[derive(Clone, Copy, Debug, PartialEq, Eq, Structural)]
pub struct Avc1 {
    pub profile: u8,
    pub constraints: u8,
    pub level: u8,
    pub width: u16,
    pub height: u16,
}

/// The decoder configuration in an `esds` box.
#[derive(Clone, Copy, Debug, PartialEq, Eq, Structural)]
pub struct Esds {
    pub object_type: u8,
    pub profile: u8,
    pub max_bitrate: u32,
    pub avg_bitrate: u32,
}

/// The parameters of an `mp4a` sample entry.
#[derive(Clone, Copy, Debug, PartialEq, Eq, Structural)]
pub struct Mp4a {
    pub channels: u16,
    pub samplerate: u16,
    pub esds: Option<Esds>,
}

/// The sample description of a track.
#[derive(Clone, Copy, Debug, PartialEq, Eq, Structural)]
pub struct Stsd {
    pub avc1: Option<Avc1>,
    pub hev1: bool,
    pub mp4a: Option<Mp4a>,
    pub vp09: bool,
}

/// A track of a movie.
#[derive(Clone, Copy, Debug, PartialEq, Eq, Structural)]
pub struct Trak {
    pub head: TrakHead,
    pub stsd: Stsd,
}

/// Each run lists the durations of all its samples or of none.
pub open spec fn durations_match(m: Seq<TrafView>) -> bool {
    forall|i: int|
        #![trigger m[i]]
        0 <= i < m.len() ==> (m[i].trun matches Some(t) ==> t.sample_durations.len() == 0
            || t.sample_durations.len() == t.sample_count)
}

/// `mp4::MoovBox`, a parsed `moov` box.
#[verifier::external_type_specification]
#[verifier::external_body]
pub struct ExMoovBox(mp4::MoovBox);

/// The track fragments that `mp4::MoofBox::read_box` finds in a `moof` box whose
/// contents begin at `head` and whose header gave `size`, or nothing where it
/// returns an error.
pub uninterp spec fn moof_of(b: Seq<u8>, head: int, size: int) -> Option<Seq<TrafView>>;

/// The tracks that `mp4::MoovBox::read_box` finds in a `moov` box whose contents
/// begin at `head` and whose header gave `size`, or nothing where it returns an
/// error.
pub uninterp spec fn moov_of(b: Seq<u8>, head: int, size: int) -> Option<
    (Seq<TrakHead>, Seq<Stsd>),
>;

/// The tracks that a parsed `moov` box holds: the identity of each.
pub uninterp spec fn moov_heads(m: mp4::MoovBox) -> Seq<TrakHead>;

/// The tracks that a parsed `moov` box holds: the sample description of each.
pub uninterp spec fn moov_stsds(m: mp4::MoovBox) -> Seq<Stsd>;

/// Calls `mp4::MoofBox::read_box` on the contents of the box at the start of `b`.
///
/// The result is a function of the bytes. The reader returns on every box that
/// can be walked. A run lists the durations of all its samples or of none.
#[verifier::external_body]
fn call_read_moof(b: &[u8], h: BoxHead) -> (r: Option<Moof>)
    requires
        b.len() <= 0x4000_0000_0000_0000,
        box_head(b@, 0) == Some(h),
        box_walkable(b@, Container::Moof, h),
    ensures
        (match r {
            Some(m) => Some(m@),
            None => None,
        }) == moof_of(b@, h.head as int, h.size as int),
        r matches Some(m) ==> durations_match(m@),
{
    let mut reader = Cursor::new(b);
    reader.set_position(h.head);
    let trafs = mp4::MoofBox::read_box(&mut reader, h.size).ok()?.trafs;
    Some(Moof { trafs: trafs.into_iter().map(|t| Traf {
        track_id: t.tfhd.track_id, default_sample_duration: t.tfhd.default_sample_duration,
        default_sample_flags: t.tfhd.default_sample_flags,
        base_media_decode_time: t.tfdt.map(|d| d.base_media_decode_time),
        trun: t.trun.map(|r| Trun {
            version: r.version, flags: r.flags, sample_count: r.sample_count,
            first_sample_flags: r.first_sample_flags, sample_durations: r.sample_durations,
            sample_flags: r.sample_flags, sample_cts: r.sample_cts,
        }),
    }).collect() })
}

/// Calls `mp4::MoovBox::read_box` on the contents of the box at the start of `b`.
///
/// The tracks found are a function of the bytes. The reader returns on every box
/// that can be walked, where walking takes the same way through the boxes: behind a
/// `meta` it goes on where the last box in it ended, behind any other box where that
/// box ends by its header.
#[verifier::external_body]
fn call_read_moov(b: &[u8], h: BoxHead) -> (r: Option<mp4::MoovBox>)
    requires
        b.len() <= 0x4000_0000_0000_0000,
        box_head(b@, 0) == Some(h),
        box_walkable(b@, Container::Moov, h),
    ensures
        (match r {
            Some(m) => Some((moov_heads(m), moov_stsds(m))),
            None => None,
        }) == moov_of(b@, h.head as int, h.size as int),
        r matches Some(m) ==> moov_heads(m).len() == moov_stsds(m).len(),
{
    let mut reader = Cursor::new(b);
    reader.set_position(h.head);
    mp4::MoovBox::read_box(&mut reader, h.size).ok()
}

/// Takes the identities of the tracks out of the fields of an `mp4::MoovBox`.
#[verifier::external_body]
fn call_moov_heads(m: &mp4::MoovBox) -> (r: Vec<TrakHead>)
    ensures
        r@ == moov_heads(*m),
{
    let heads = m.traks.iter().map(|t| TrakHead {
        track_id: t.tkhd.track_id,
        timescale: t.mdia.mdhd.timescale,
        handler: u32::from_be_bytes(t.mdia.hdlr.handler_type.value),
    });
    heads.collect()
}

/// Takes the sample descriptions of the tracks out of the fields of an
/// `mp4::MoovBox`; a sample rate is the whole part of its fixed-point number.
#[verifier::external_body]
fn call_moov_stsds(m: mp4::MoovBox) -> (r: Vec<Stsd>)
    ensures
        r@ == moov_stsds(m),
{
    m.traks.into_iter().map(|t| t.mdia.minf.stbl.stsd).map(|s| Stsd {
        avc1: s.avc1.map(|a| Avc1 {
            profile: a.avcc.avc_profile_indication, constraints: a.avcc.profile_compatibility,
            level: a.avcc.avc_level_indication, width: a.width, height: a.height,
        }),
        hev1: s.hev1.is_some(),
        mp4a: s.mp4a.map(|a| Mp4a {
            channels: a.channelcount, samplerate: a.samplerate.value(),
            esds: a.esds.map(|e| e.es_desc.dec_config).map(|d| Esds {
                object_type: d.object_type_indication, profile: d.dec_specific.profile,
                max_bitrate: d.max_bitrate, avg_bitrate: d.avg_bitrate,
            }),
        }),
        vp09: s.vp09.is_some(),
    }).collect()
}

/// Whether the box at the start of `b` can be walked as a `kind`, if there is a
/// box. Otherwise a reader fails, breaks off or never comes to an end of it.
pub open spec fn readable(b: Seq<u8>, kind: Container) -> bool {
    &&& b.len() <= 0x4000_0000_0000_0000
    &&& (box_head(b, 0) matches Some(h) ==> box_walkable(b, kind, h))
}

/// The track fragments of the `moof` box at the start of `b`; nothing where it
/// has no header, cannot be walked or cannot be parsed.
pub open spec fn parsed_moof(b: Seq<u8>) -> Option<Seq<TrafView>> {
    match box_head(b, 0) {
        Some(h) if readable(b, Container::Moof) => moof_of(b, h.head as int, h.size as int),
        _ => None,
    }
}

/// The tracks of the `moov` box at the start of `b`; nothing where it has no
/// header, cannot be walked or cannot be parsed.
pub open spec fn parsed_moov(b: Seq<u8>) -> Option<Seq<Trak>> {
    match box_head(b, 0) {
        Some(h) if readable(b, Container::Moov) => match moov_of(b, h.head as int, h.size as int) {
            Some((heads, stsds)) => Some(
                Seq::new(heads.len(), |i: int| Trak { head: heads[i], stsd: stsds[i] }),
            ),
            None => None,
        },
        _ => None,
    }
}

/// Whether [`readable`] holds.
pub fn is_readable(b: &[u8], kind: Container) -> (r: bool)
    ensures
        r == readable(b@, kind),
{
    if b.len() as u64 > 0x4000_0000_0000_0000 {
        return false;
    }
    match read_box_head(b, 0) {
        Some(h) => check_box(b, kind, &h),
        None => true,
    }
}

/// Parses the `moof` box at the start of `b`.
pub fn read_moof(b: &[u8]) -> (r: Option<Moof>)
    ensures
        (match r {
            Some(m) => Some(m@),
            None => None,
        }) == parsed_moof(b@),
        r matches Some(m) ==> durations_match(m@),
{
    if !is_readable(b, Container::Moof) {
        return None;
    }
    match read_box_head(b, 0) {
        Some(h) => call_read_moof(b, h),
        None => None,
    }
}

/// Parses the `moov` box at the start of `b`.
pub fn read_moov(b: &[u8]) -> (r: Option<Vec<Trak>>)
    ensures
        (match r {
            Some(m) => Some(m@),
            None => None,
        }) == parsed_moov(b@),
{
    if !is_readable(b, Container::Moov) {
        return None;
    }
    let h: BoxHead = match read_box_head(b, 0) {
        Some(h) => h,
        None => {
            return None;
        },
    };
    let m: mp4::MoovBox = match call_read_moov(b, h) {
        Some(m) => m,
        None => {
            return None;
        },
    };
    let heads: Vec<TrakHead> = call_moov_heads(&m);
    let stsds: Vec<Stsd> = call_moov_stsds(m);
    let mut traks: Vec<Trak> = Vec::new();
    let mut i: usize = 0;
    while i < heads.len()
        invariant
            i <= heads@.len(),
            heads@.len() == stsds@.len(),
            traks@.len() == i,
            forall|j: int|
                0 <= j < i ==> #[trigger] traks@[j] == (Trak { head: heads@[j], stsd: stsds@[j] }),
        decreases heads@.len() - i,
    {
        traks.push(Trak { head: heads[i], stsd: stsds[i] });
        i = i + 1;
    }
    assert(traks@ == Seq::new(heads@.len(), |i: int| Trak { head: heads@[i], stsd: stsds@[i] }));
    Some(traks)
}

/// What is read of a box is what the parser makes of it, where the box can be walked: without
/// a header, or where it cannot be walked, nothing is read. Each track has its identity and
/// its description in one place.
pub proof fn what_can_be_walked_is_parsed(
    b: &[u8],
    moof: Option<Moof>,
    moov: Option<Vec<Trak>>,
    of_moof: bool,
    of_moov: bool,
    h: Option<BoxHead>,
    i: int,
)
    requires
        call_ensures(read_moof, (b,), moof),
        call_ensures(read_moov, (b,), moov),
        call_ensures(is_readable, (b, Container::Moof), of_moof),
        call_ensures(is_readable, (b, Container::Moov), of_moov),
        call_ensures(read_box_head, (b, 0usize), h),
    ensures
        h is None ==> moof is None && moov is None,
        !of_moof ==> moof is None,
        !of_moov ==> moov is None,
        h matches Some(h) ==> of_moof ==> (match moof_of(b@, h.head as int, h.size as int) {
            Some(v) => moof matches Some(m) && m@ == v,
            None => moof is None,
        }),
        h matches Some(h) ==> of_moov ==> (match moov_of(b@, h.head as int, h.size as int) {
            Some((heads, stsds)) => moov matches Some(m) && m@.len() == heads.len() && (0 <= i
                < heads.len() ==> m@[i].head == heads[i] && m@[i].stsd == stsds[i]),
            None => moov is None,
        }),
{
}

/// A box is readable where it can be walked, whatever the bytes up to the greatest length
/// are; without a header there is nothing that could not be.
pub proof fn readable_is_what_can_be_walked(
    b: &[u8],
    kind: Container,
    r: bool,
    h: Option<BoxHead>,
    walked: bool,
)
    requires
        call_ensures(is_readable, (b, kind), r),
        call_ensures(read_box_head, (b, 0usize), h),
        b@.len() <= 4611686018427387904,
        h matches Some(x) ==> call_ensures(check_box, (b, kind, &x), walked),
    ensures
        h is None ==> r,
        h is Some ==> r == walked,
{
}

} // verus!
