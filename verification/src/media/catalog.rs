//! The catalog of a broadcast: how each track is coded and how to pick one.

use crate::media::movie::{Avc1, Esds, Stsd};
use crate::text::{decimal, decimals_read_back, hex2, push_decimal, push_hex2, upper_hex2};
use vstd::prelude::*;
use vstd::string::StringExecFns;

verus! {

/// What kind of media a track carries.
#[derive(Clone, Copy, Debug, PartialEq, Eq, Structural)]
pub enum TrackType {
    Video,
    Audio,
    Subtitle,
}

/// Why a track cannot be published.
#[derive(Clone, Copy, Debug, PartialEq, Eq, Structural)]
pub enum TrackError {
    /// The handler is neither video nor audio nor subtitles.
    Handler,
    /// HEVC is not supported.
    Hevc,
    /// An `mp4a` entry without an `esds` box.
    MissingEsds,
    /// VP9 is not supported.
    Vp9,
    /// No known codec, for the track of this number.
    UnknownCodec(u32),
}

/// By what a player picks a track.
#[derive(Debug)]
pub struct SelectionParam {
    pub codec: String,
    pub width: Option<u32>,
    pub height: Option<u32>,
    pub channel_config: Option<String>,
    pub samplerate: Option<u32>,
    pub bitrate: Option<u32>,
}

/// What a [`SelectionParam`] holds.
#[verifier::ext_equal]
pub struct SelectionView {
    pub codec: Seq<char>,
    pub width: Option<u32>,
    pub height: Option<u32>,
    pub channel_config: Option<Seq<char>>,
    pub samplerate: Option<u32>,
    pub bitrate: Option<u32>,
}

impl View for SelectionParam {
    type V = SelectionView;

    open spec fn view(&self) -> SelectionView {
        SelectionView {
            codec: self.codec@,
            width: self.width,
            height: self.height,
            channel_config: match self.channel_config {
                Some(c) => Some(c@),
                None => None,
            },
            samplerate: self.samplerate,
            bitrate: self.bitrate,
        }
    }
}

/// The kind of track that a handler stands for: `vide`, `soun` or `sbtl`.
pub open spec fn track_type(handler: u32) -> Option<TrackType> {
    if handler == 0x7669_6465 {
        Some(TrackType::Video)
    } else if handler == 0x736f_756e {
        Some(TrackType::Audio)
    } else if handler == 0x7362_746c {
        Some(TrackType::Subtitle)
    } else {
        None
    }
}

/// The kind of track that a handler stands for.
pub fn handler_type(handler: u32) -> (r: Option<TrackType>)
    ensures
        r == track_type(handler),
{
    if handler == 0x7669_6465 {
        Some(TrackType::Video)
    } else if handler == 0x736f_756e {
        Some(TrackType::Audio)
    } else if handler == 0x7362_746c {
        Some(TrackType::Subtitle)
    } else {
        None
    }
}

/// The codec string of an AVC track: profile, constraints and level in hexadecimal.
pub open spec fn avc1_string(a: Avc1) -> Seq<char> {
    "avc1."@ + upper_hex2(a.profile) + upper_hex2(a.constraints) + upper_hex2(a.level)
}

/// The codec string of an AAC track: object type and audio profile.
pub open spec fn mp4a_string(e: Esds) -> Seq<char> {
    "mp4a."@ + hex2(e.object_type) + "."@ + decimal(e.profile as nat)
}

/// The larger of the two bit rates, if either is known.
pub open spec fn best_bitrate(e: Esds) -> Option<u32> {
    let b = if e.max_bitrate >= e.avg_bitrate {
        e.max_bitrate
    } else {
        e.avg_bitrate
    };
    if b > 0 {
        Some(b)
    } else {
        None
    }
}

/// How the catalog describes a track.
pub open spec fn selection(id: u32, s: Stsd) -> Result<SelectionView, TrackError> {
    if s.avc1 is Some {
        let a = s.avc1->Some_0;
        Ok(
            SelectionView {
                codec: avc1_string(a),
                width: Some(a.width as u32),
                height: Some(a.height as u32),
                channel_config: None,
                samplerate: None,
                bitrate: None,
            },
        )
    } else if s.hev1 {
        Err(TrackError::Hevc)
    } else if s.mp4a is Some {
        let a = s.mp4a->Some_0;
        match a.esds {
            None => Err(TrackError::MissingEsds),
            Some(e) => Ok(
                SelectionView {
                    codec: mp4a_string(e),
                    width: None,
                    height: None,
                    channel_config: Some(decimal(a.channels as nat)),
                    samplerate: Some(a.samplerate as u32),
                    bitrate: best_bitrate(e),
                },
            ),
        }
    } else if s.vp09 {
        Err(TrackError::Vp9)
    } else {
        Err(TrackError::UnknownCodec(id))
    }
}

/// `rfc6381_codec::Codec::avc1` and the text of what it returns: the three numbers,
/// two upper-case hexadecimal digits each, behind `avc1.`.
#[verifier::external_body]
fn call_avc1(profile: u8, constraints: u8, level: u8) -> (r: String)
    ensures
        r@ == "avc1."@ + upper_hex2(profile) + upper_hex2(constraints) + upper_hex2(level),
{
    rfc6381_codec::Codec::avc1(profile, constraints, level).to_string()
}

fn mp4a_codec(e: &Esds) -> (r: String)
    ensures
        r@ == mp4a_string(*e),
{
    let mut s: String = String::from_str("mp4a.");
    push_hex2(&mut s, e.object_type);
    s.append(".");
    push_decimal(&mut s, e.profile as u64);
    s
}

/// How the catalog describes a track.
pub fn select(id: u32, s: &Stsd) -> (r: Result<SelectionParam, TrackError>)
    ensures
        (match r {
            Ok(p) => Ok(p@),
            Err(e) => Err(e),
        }) == selection(id, *s),
{
    if let Some(a) = s.avc1 {
        let codec: String = call_avc1(a.profile, a.constraints, a.level);
        return Ok(
            SelectionParam {
                codec,
                width: Some(a.width as u32),
                height: Some(a.height as u32),
                channel_config: None,
                samplerate: None,
                bitrate: None,
            },
        );
    }
    if s.hev1 {
        return Err(TrackError::Hevc);
    }
    if let Some(a) = s.mp4a {
        return match a.esds {
            None => Err(TrackError::MissingEsds),
            Some(e) => {
                let mut channels: String = String::new();
                push_decimal(&mut channels, a.channels as u64);
                assert(channels@ == decimal(a.channels as nat));
                let best: u32 = if e.max_bitrate >= e.avg_bitrate {
                    e.max_bitrate
                } else {
                    e.avg_bitrate
                };
                Ok(
                    SelectionParam {
                        codec: mp4a_codec(&e),
                        width: None,
                        height: None,
                        channel_config: Some(channels),
                        samplerate: Some(a.samplerate as u32),
                        bitrate: if best > 0 {
                            Some(best)
                        } else {
                            None
                        },
                    },
                )
            },
        };
    }
    if s.vp09 {
        return Err(TrackError::Vp9);
    }
    Err(TrackError::UnknownCodec(id))
}

/// The name of the track that carries the media of track `id`.
pub open spec fn track_name(id: u32) -> Seq<char> {
    decimal(id as nat) + ".m4s"@
}

/// The name of the track that carries the media of track `id`.
pub fn media_track_name(id: u32) -> (r: String)
    ensures
        r@ == track_name(id),
{
    let mut s: String = String::new();
    push_decimal(&mut s, id as u64);
    s.append(".m4s");
    assert(s@ == track_name(id));
    s
}

/// Tracks of the handlers `vide`, `soun` and `sbtl` are video, audio and subtitles; no
/// other handler is any of them.
pub proof fn handlers_are_told_by_their_letters(handler: u32, r: Option<TrackType>)
    requires
        call_ensures(handler_type, (handler,), r),
    ensures
        (r == Some(TrackType::Video)) == (handler == 0x76 * 16777216 + 0x69 * 65536 + 0x64 * 256
            + 0x65),
        (r == Some(TrackType::Audio)) == (handler == 0x73 * 16777216 + 0x6f * 65536 + 0x75 * 256
            + 0x6e),
        (r == Some(TrackType::Subtitle)) == (handler == 0x73 * 16777216 + 0x62 * 65536 + 0x74 * 256
            + 0x6c),
{
}

/// A track with an AVC entry is described by it alone: the codec by profile,
/// constraints and level, in this order, and the size of the picture.
pub proof fn avc_tracks_are_described(id: u32, s: Stsd, r: Result<SelectionParam, TrackError>)
    requires
        call_ensures(select, (id, &s), r),
        s.avc1 is Some,
    ensures
        r matches Ok(p) && {
            let a = s.avc1->Some_0;
            &&& p.codec@ == "avc1."@ + upper_hex2(a.profile) + upper_hex2(a.constraints)
                + upper_hex2(a.level)
            &&& p.width == Some(a.width as u32)
            &&& p.height == Some(a.height as u32)
            &&& p.channel_config is None && p.samplerate is None && p.bitrate is None
        },
{
}

/// An AAC track is described by its channels, its sample rate and the larger of its bit
/// rates, where that is known.
pub proof fn aac_tracks_are_described(id: u32, s: Stsd, r: Result<SelectionParam, TrackError>)
    requires
        call_ensures(select, (id, &s), r),
        s.avc1 is None,
        !s.hev1,
        s.mp4a matches Some(a) && a.esds is Some,
    ensures
        r matches Ok(p) && {
            let a = s.mp4a->Some_0;
            let e = a.esds->Some_0;
            &&& p.codec@ == "mp4a."@ + hex2(e.object_type) + "."@ + decimal(e.profile as nat)
            &&& p.channel_config matches Some(c) && c@ == decimal(a.channels as nat)
            &&& p.samplerate == Some(a.samplerate as u32)
            &&& p.width is None && p.height is None
            &&& p.bitrate is None == (e.max_bitrate == 0 && e.avg_bitrate == 0)
            &&& p.bitrate matches Some(b) ==> b >= e.max_bitrate && b >= e.avg_bitrate && (b
                == e.max_bitrate || b == e.avg_bitrate)
        },
{
}

/// A track that cannot be described is refused for its own reason, and only such a
/// track is refused.
pub proof fn tracks_are_refused_for_a_reason(id: u32, s: Stsd, r: Result<SelectionParam, TrackError>)
    requires
        call_ensures(select, (id, &s), r),
    ensures
        r is Ok == (s.avc1 is Some || (!s.hev1 && (s.mp4a matches Some(a) && a.esds is Some))),
        s.avc1 is None && s.hev1 ==> r == Err::<SelectionParam, TrackError>(TrackError::Hevc),
        s.avc1 is None && !s.hev1 && (s.mp4a matches Some(a) && a.esds is None) ==> r == Err::<
            SelectionParam,
            TrackError,
        >(TrackError::MissingEsds),
        s.avc1 is None && !s.hev1 && s.mp4a is None && s.vp09 ==> r == Err::<
            SelectionParam,
            TrackError,
        >(TrackError::Vp9),
        s.avc1 is None && !s.hev1 && s.mp4a is None && !s.vp09 ==> r == Err::<
            SelectionParam,
            TrackError,
        >(TrackError::UnknownCodec(id)),
{
}

/// The name of a track is its number in decimal and `.m4s`, so two tracks never share a
/// name.
pub proof fn track_names_are_distinct(a: u32, b: u32, x: String, y: String)
    requires
        call_ensures(media_track_name, (a,), x),
        call_ensures(media_track_name, (b,), y),
    ensures
        x@ == decimal(a as nat) + ".m4s"@,
        (x@ == y@) == (a == b),
{
    decimals_read_back(a as nat);
    decimals_read_back(b as nat);
    reveal_strlit(".m4s");
    if x@ == y@ {
        assert(x@.len() - 4 == decimal(a as nat).len());
        assert(decimal(a as nat) =~= x@.take(x@.len() - 4));
        assert(decimal(b as nat) =~= y@.take(y@.len() - 4));
    }
}

} // verus!
