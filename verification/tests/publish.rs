use bytes::BytesMut;
use moq::media::atom::{is_header_cut, next_atom, AtomError};
use moq::media::catalog::{
    handler_type, media_track_name, select, TrackError, TrackType,
};
use moq::media::fragment::Fragment;
use moq::media::movie::{Avc1, Esds, Mp4a, Stsd};
use moq::media::publish::{
    Media, MediaError, Step, Track, CATALOG_TRACK, CATALOG_VERSION, GROUP_PRIORITY, INIT_TRACK,
    RENDER_GROUP, STREAMING_FORMAT, STREAMING_FORMAT_VERSION,
};
use mp4::WriteBox;

fn plain(name: &[u8; 4], body: &[u8]) -> Vec<u8> {
    let mut b = ((body.len() + 8) as u32).to_be_bytes().to_vec();
    b.extend_from_slice(name);
    b.extend_from_slice(body);
    b
}

fn full(name: &[u8; 4], version: u8, flags: u32, words: &[u32]) -> Vec<u8> {
    let mut body = ((version as u32) << 24 | flags).to_be_bytes().to_vec();
    for w in words {
        body.extend_from_slice(&w.to_be_bytes());
    }
    plain(name, &body)
}

fn traf(track: u32, time: Option<u64>, flags: u32) -> Vec<u8> {
    let mut body = full(b"tfhd", 0, 0, &[track]);
    if let Some(t) = time {
        body.extend_from_slice(&full(b"tfdt", 1, 0, &[(t >> 32) as u32, t as u32]));
    }
    body.extend_from_slice(&full(b"trun", 0, 0x4, &[1, flags]));
    plain(b"traf", &body)
}

fn moof(track: u32, time: Option<u64>, flags: u32) -> Vec<u8> {
    let mut body = full(b"mfhd", 0, 0, &[1]);
    body.extend_from_slice(&traf(track, time, flags));
    plain(b"moof", &body)
}

const KEY: u32 = 0x0200_0000;
const DELTA: u32 = 0x0101_0000;

fn movie(handlers: &[&[u8; 4]]) -> Vec<u8> {
    let mut m = mp4::MoovBox::default();
    for (i, h) in handlers.iter().enumerate() {
        m.traks.push(Default::default());
        let t = &mut m.traks[i];
        t.tkhd.track_id = i as u32 + 1;
        t.mdia.mdhd.timescale = 90000 + i as u32;
        t.mdia.hdlr.handler_type = mp4::FourCC { value: **h };
        t.mdia.minf.stbl.stco = Some(Default::default());
        if *h == b"vide" {
            t.mdia.minf.stbl.stsd.avc1 = Some(Default::default());
            let a = t.mdia.minf.stbl.stsd.avc1.as_mut().unwrap();
            a.width = 1280;
            a.height = 720;
            a.avcc.avc_profile_indication = 0x64;
            a.avcc.profile_compatibility = 0x00;
            a.avcc.avc_level_indication = 0x1f;
        } else {
            t.mdia.minf.stbl.stsd.mp4a = Some(Default::default());
            let a = t.mdia.minf.stbl.stsd.mp4a.as_mut().unwrap();
            a.channelcount = 2;
            a.samplerate = mp4::FixedPointU16::new(48000);
            a.esds = Some(Default::default());
            let d = &mut a.esds.as_mut().unwrap().es_desc.dec_config;
            d.object_type_indication = 0x40;
            d.dec_specific.profile = 2;
            d.max_bitrate = 128000;
            d.avg_bitrate = 96000;
        }
    }
    let mut b = Vec::new();
    m.write_box(&mut b).unwrap();
    b
}

fn feed(media: &mut Media, b: &[u8]) -> Result<Step, MediaError> {
    let mut buf = BytesMut::from(b);
    let r = media.parse_atom(&mut buf, 77);
    assert!(buf.is_empty());
    r
}

fn started() -> Media {
    let mut media = Media::new();
    let ftyp = plain(b"ftyp", b"isom\0\0\0\0");
    assert!(matches!(feed(&mut media, &ftyp), Ok(Step::Skipped)));
    match feed(&mut media, &movie(&[b"vide", b"soun"])) {
        Ok(Step::Setup(plan)) => {
            assert_eq!(plan.error, None);
            for t in &plan.tracks {
                media.add_track(t);
            }
            media.setup_done();
        }
        other => panic!("{:?}", other),
    }
    media
}

#[test]
fn boxes_are_cut_off_once_they_are_complete() {
    let mut buf = BytesMut::from(&[0u8, 0, 0][..]);
    assert_eq!(next_atom(&mut buf), Ok(None));
    buf.extend_from_slice(&[10, b'f', b'r', b'e', b'e', 1]);
    assert_eq!(next_atom(&mut buf), Ok(None));
    buf.extend_from_slice(&[2, 3]);
    let atom = next_atom(&mut buf).unwrap().unwrap();
    assert_eq!(atom.to_vec(), vec![0, 0, 0, 10, b'f', b'r', b'e', b'e', 1, 2]);
    assert_eq!(buf.to_vec(), vec![3]);
}

#[test]
fn extended_sizes_are_read() {
    let mut b = vec![0, 0, 0, 1, b'f', b'r', b'e', b'e', 0, 0, 0, 0, 0, 0, 0, 17];
    assert!(!is_header_cut(&BytesMut::from(&b[..])));
    assert!(is_header_cut(&BytesMut::from(&b[..15])));
    assert!(!is_header_cut(&BytesMut::from(&b[..7])));
    assert_eq!(next_atom(&mut BytesMut::from(&b[..])), Ok(None));
    b.push(5);
    let mut buf = BytesMut::from(&b[..]);
    assert_eq!(next_atom(&mut buf).unwrap().unwrap().to_vec(), b);
    assert!(buf.is_empty());
}

#[test]
fn impossible_sizes_are_refused() {
    let mut buf = BytesMut::from(&[0u8, 0, 0, 0, b'm', b'd', b'a', b't'][..]);
    assert_eq!(next_atom(&mut buf), Err(AtomError::ToEnd));
    let mut buf = BytesMut::from(&[0u8, 0, 0, 7, b'm', b'd', b'a', b't'][..]);
    assert_eq!(next_atom(&mut buf), Err(AtomError::Size(7)));
    let mut buf =
        BytesMut::from(&[0u8, 0, 0, 1, b'm', b'd', b'a', b't', 0, 0, 0, 0, 0, 0, 0, 15][..]);
    assert_eq!(next_atom(&mut buf), Err(AtomError::ExtendedSize(15)));
    assert_eq!(buf.len(), 16);
}

#[test]
fn a_movie_becomes_a_plan() {
    let mut media = Media::new();
    let ftyp = plain(b"ftyp", b"isom\0\0\0\0");
    let moov = movie(&[b"vide", b"soun"]);
    feed(&mut media, &ftyp).unwrap();
    let plan = match feed(&mut media, &moov) {
        Ok(Step::Setup(plan)) => plan,
        other => panic!("{:?}", other),
    };
    let mut init = ftyp.clone();
    init.extend_from_slice(&moov);
    assert_eq!(plan.init.to_vec(), init);
    assert_eq!(plan.timescales, vec![(1, 90000), (2, 90001)]);
    assert_eq!(plan.error, None);
    let v = &plan.tracks[0];
    assert_eq!((v.id, v.name.as_str(), v.timescale), (1, "1.m4s", 90000));
    assert_eq!(v.handler, TrackType::Video);
    assert_eq!(v.selection.codec, "avc1.64001F");
    assert_eq!(v.selection.width, Some(1280));
    assert_eq!(v.selection.height, Some(720));
    let a = &plan.tracks[1];
    assert_eq!((a.id, a.name.as_str(), a.timescale), (2, "2.m4s", 90001));
    assert_eq!(a.handler, TrackType::Audio);
    assert_eq!(a.selection.codec, "mp4a.40.2");
    assert_eq!(a.selection.channel_config.as_deref(), Some("2"));
    assert_eq!(a.selection.samplerate, Some(48000));
    assert_eq!(a.selection.bitrate, Some(128000));
}

#[test]
fn a_movie_stops_at_the_first_track_that_cannot_be_published() {
    let mut media = Media::new();
    feed(&mut media, &plain(b"ftyp", b"isom")).unwrap();
    match feed(&mut media, &movie(&[b"vide", b"text", b"soun"])) {
        Ok(Step::Setup(plan)) => {
            assert_eq!(plan.error, Some(TrackError::Handler));
            assert_eq!(plan.tracks.len(), 1);
            assert_eq!(plan.timescales.len(), 2);
        }
        other => panic!("{:?}", other),
    }
}

#[test]
fn a_movie_needs_a_file_type() {
    let mut media = Media::new();
    assert_eq!(
        feed(&mut media, &movie(&[b"vide"])).unwrap_err(),
        MediaError::MissingFtyp
    );
}

#[test]
fn a_movie_that_cannot_be_parsed_is_refused() {
    let mut media = Media::new();
    feed(&mut media, &plain(b"ftyp", b"isom")).unwrap();
    assert_eq!(feed(&mut media, &plain(b"moov", b"")).unwrap_err(), MediaError::Box);
    assert_eq!(
        feed(&mut media, &plain(b"moov", &[0, 0, 0, 0, b't', b'r', b'a', b'k'])).unwrap_err(),
        MediaError::Box
    );
}

#[test]
fn only_the_first_headers_count() {
    let mut media = started();
    assert!(matches!(feed(&mut media, &movie(&[b"soun"])), Ok(Step::Skipped)));
    assert!(matches!(feed(&mut media, &plain(b"ftyp", b"mp42")), Ok(Step::Skipped)));
    assert_eq!(media.timescale(1), Some(90000));
    assert_eq!(media.timescale(3), None);
}

#[test]
fn an_mdat_follows_its_moof() {
    let mut media = started();
    let head = moof(1, Some(3000), KEY);
    let fragment = match feed(&mut media, &head) {
        Ok(Step::Header { track, raw, fragment, plan }) => {
            assert_eq!(track, 1);
            assert_eq!(raw.to_vec(), head);
            assert_eq!(plan.group, None);
            assert_eq!(plan.priority, GROUP_PRIORITY);
            assert_eq!(plan.size, head.len());
            fragment
        }
        other => panic!("{:?}", other),
    };
    assert_eq!(fragment, Fragment { track: 1, timestamp: 3000, keyframe: true, capture_us: 77 });
    media.header_done(fragment, 5, 0);
    let body = plain(b"mdat", &[1, 2, 3]);
    match feed(&mut media, &body) {
        Ok(Step::Data { track, raw, data }) => {
            let data = data.unwrap();
            assert_eq!(track, 1);
            assert_eq!(raw.to_vec(), body);
            assert_eq!(data.group, 5);
            assert_eq!(data.size, body.len());
            assert_eq!(data.pending.fragment, fragment);
            assert_eq!(data.pending.moof_group_id, 5);
            assert_eq!(data.pending.moof_object_id, 0);
        }
        other => panic!("{:?}", other),
    }
    match feed(&mut media, &moof(1, Some(6000), DELTA)) {
        Ok(Step::Header { fragment, plan, .. }) => {
            assert!(!fragment.keyframe);
            assert_eq!(plan.group, Some(5));
        }
        other => panic!("{:?}", other),
    }
}

#[test]
fn a_key_frame_of_a_video_closes_all_groups() {
    let mut media = started();
    for (track, key, group) in [(2, KEY, 9), (1, DELTA, 4)] {
        match feed(&mut media, &moof(track, Some(0), key)) {
            Ok(Step::Header { fragment, plan, .. }) => {
                assert_eq!(plan.group, None);
                media.header_done(fragment, group, 1);
            }
            other => panic!("{:?}", other),
        }
        feed(&mut media, &plain(b"mdat", &[0])).unwrap();
    }
    match feed(&mut media, &moof(2, Some(0), KEY)) {
        Ok(Step::Header { fragment, plan, .. }) => {
            assert_eq!(plan.group, Some(9));
            media.header_done(fragment, 9, 3);
        }
        other => panic!("{:?}", other),
    }
    feed(&mut media, &plain(b"mdat", &[0])).unwrap();
    match feed(&mut media, &moof(1, Some(0), KEY)) {
        Ok(Step::Header { fragment, plan, .. }) => {
            assert_eq!(plan.group, None);
            media.header_done(fragment, 5, 0);
        }
        other => panic!("{:?}", other),
    }
    feed(&mut media, &plain(b"mdat", &[0])).unwrap();
    match feed(&mut media, &moof(2, Some(0), DELTA)) {
        Ok(Step::Header { plan, .. }) => assert_eq!(plan.group, None),
        other => panic!("{:?}", other),
    }
}

#[test]
fn fragments_out_of_order_are_refused() {
    let mut media = started();
    assert_eq!(
        feed(&mut media, &plain(b"mdat", &[1])).unwrap_err(),
        MediaError::MissingMoof
    );
    assert_eq!(
        feed(&mut media, &moof(7, Some(0), KEY)).unwrap_err(),
        MediaError::UnknownTrack
    );
    feed(&mut media, &moof(2, Some(0), DELTA)).unwrap();
    assert_eq!(
        feed(&mut media, &moof(2, Some(0), DELTA)).unwrap_err(),
        MediaError::MultipleMoof
    );
    match feed(&mut media, &plain(b"mdat", &[1])) {
        Ok(Step::Data { data, .. }) => assert!(data.is_none()),
        other => panic!("{:?}", other),
    }
}

#[test]
fn a_group_that_is_closed_takes_no_mdat() {
    let mut media = started();
    match feed(&mut media, &moof(2, Some(0), DELTA)) {
        Ok(Step::Header { fragment, .. }) => media.header_done(fragment, 1, 0),
        other => panic!("{:?}", other),
    }
    media.reset();
    assert_eq!(
        feed(&mut media, &plain(b"mdat", &[1])).unwrap_err(),
        MediaError::MissingCurrent
    );
}

#[test]
fn fragments_that_say_too_little_or_too_much_are_refused() {
    let mut media = started();
    assert_eq!(
        feed(&mut media, &moof(1, None, KEY)).unwrap_err(),
        MediaError::NoTimestamp
    );
    let mut body = full(b"mfhd", 0, 0, &[1]);
    body.extend_from_slice(&traf(1, Some(0), KEY));
    body.extend_from_slice(&traf(2, Some(0), KEY));
    let b = plain(b"moof", &body);
    assert_eq!(feed(&mut media, &b).unwrap_err(), MediaError::MultipleTracks);
    assert_eq!(feed(&mut media, &plain(b"moof", b"")).unwrap_err(), MediaError::Box);
    let bad = plain(b"moof", &[0, 0, 0, 0, b't', b'r', b'a', b'f']);
    assert_eq!(feed(&mut media, &bad).unwrap_err(), MediaError::Box);
}

#[test]
fn a_box_that_is_not_there_yet_is_waited_for() {
    let mut media = Media::new();
    let b = plain(b"ftyp", b"isom");
    let mut buf = BytesMut::from(&b[..9]);
    assert!(matches!(media.parse_atom(&mut buf, 0), Ok(Step::Incomplete)));
    assert_eq!(buf.len(), 9);
    let mut buf = BytesMut::from(&[0u8, 0, 0, 2, 0, 0, 0, 0][..]);
    assert_eq!(
        media.parse_atom(&mut buf, 0).unwrap_err(),
        MediaError::Atom(AtomError::Size(2))
    );
}

#[test]
fn tracks_keep_their_group_until_it_ends() {
    let mut t = Track::new(TrackType::Video, 90000);
    assert_eq!(t.header(10).group, None);
    let f = Fragment { track: 1, timestamp: 0, keyframe: true, capture_us: 0 };
    t.header_done(f, 3, 2);
    assert_eq!(t.header(10).group, Some(3));
    assert_eq!(t.data(4).unwrap().unwrap().group, 3);
    assert_eq!(t.data(4).unwrap(), None);
    t.header_done(f, 3, 4);
    t.end_group();
    assert_eq!(t.data(4), Err(MediaError::MissingCurrent));
}

#[test]
fn codecs_are_named() {
    let none = Stsd { avc1: None, hev1: false, mp4a: None, vp09: false };
    let avc = Avc1 { profile: 0x4d, constraints: 0x40, level: 0x28, width: 1920, height: 1080 };
    assert_eq!(
        select(1, &Stsd { avc1: Some(avc), ..none }).unwrap().codec,
        "avc1.4D4028"
    );
    let esds = Esds { object_type: 0x40, profile: 5, max_bitrate: 0, avg_bitrate: 0 };
    let aac = Mp4a { channels: 6, samplerate: 44100, esds: Some(esds) };
    let s = select(1, &Stsd { mp4a: Some(aac), ..none }).unwrap();
    assert_eq!(s.codec, "mp4a.40.5");
    assert_eq!(s.channel_config.as_deref(), Some("6"));
    assert_eq!(s.samplerate, Some(44100));
    assert_eq!(s.bitrate, None);
    assert_eq!(s.width, None);
    assert_eq!(
        select(1, &Stsd { hev1: true, ..none }).unwrap_err(),
        TrackError::Hevc
    );
    assert_eq!(
        select(1, &Stsd { mp4a: Some(Mp4a { esds: None, ..aac }), ..none }).unwrap_err(),
        TrackError::MissingEsds
    );
    assert_eq!(
        select(1, &Stsd { vp09: true, ..none }).unwrap_err(),
        TrackError::Vp9
    );
    assert_eq!(select(9, &none).unwrap_err(), TrackError::UnknownCodec(9));
}

#[test]
fn handlers_are_told_apart() {
    assert_eq!(handler_type(u32::from_be_bytes(*b"vide")), Some(TrackType::Video));
    assert_eq!(handler_type(u32::from_be_bytes(*b"soun")), Some(TrackType::Audio));
    assert_eq!(handler_type(u32::from_be_bytes(*b"sbtl")), Some(TrackType::Subtitle));
    assert_eq!(handler_type(u32::from_be_bytes(*b"text")), None);
}

#[test]
fn names_of_tracks() {
    assert_eq!(media_track_name(0), "0.m4s");
    assert_eq!(media_track_name(4294967295), "4294967295.m4s");
    assert_eq!(INIT_TRACK, "0.mp4");
    assert_eq!(CATALOG_TRACK, ".catalog");
    assert_eq!(CATALOG_VERSION, 1);
    assert_eq!(STREAMING_FORMAT, 1);
    assert_eq!(STREAMING_FORMAT_VERSION, "0.2");
    assert_eq!(RENDER_GROUP, 1);
}

#[test]
fn a_fragment_has_a_time_in_milliseconds() {
    let f = Fragment { track: 1, timestamp: 90045, keyframe: true, capture_us: 0 };
    assert_eq!(f.timestamp(90000), 1000);
    assert_eq!(f.timestamp(1000), 90045);
}
