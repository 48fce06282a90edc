use std::collections::HashMap;

use moq::media::boxes::{read_box_head, BoxHead, Container};
use moq::media::fragment::{
    extract_media_timestamp, fragment_timing, parse_fragment_timing, sample_keyframe,
    sample_timestamp, FragmentTiming, TimingError,
};
use moq::media::init::{is_sound, read_atom, read_init, split_init, InitError};
use moq::media::manifest::parse_captures;
use moq::media::movie::{is_readable, read_moof, Moof, Traf, Trun};
use moq::media::paths::{
    get_init_path, get_pub_manifest_path, get_pub_mdat_path, get_pub_moof_path,
    get_sub_manifest_path, get_sub_mdat_path, get_sub_moof_path,
};
use moq::media::playback::{parse_track_id, Object, PlayStep, Playback};
use moq::media::timescales::{get_timescale, load_timescales, save_timescale, DEFAULT_TIMESCALE};
use mp4::WriteBox;

fn plain(name: &[u8; 4], body: &[u8]) -> Vec<u8> {
    let mut b = ((body.len() + 8) as u32).to_be_bytes().to_vec();
    b.extend_from_slice(name);
    b.extend_from_slice(body);
    b
}

fn full(name: &[u8; 4], version: u8, flags: u32, words: &[u32]) -> Vec<u8> {
    let mut body = ((version as u32) << 24 | flags).to_be_bytes().to_vec();
    for w in words {
        body.extend_from_slice(&w.to_be_bytes());
    }
    plain(name, &body)
}

fn moof(time: u64, durations: &[u32], offsets: &[u32], version: u8) -> Vec<u8> {
    let mut run = vec![durations.len() as u32];
    for (d, o) in durations.iter().zip(offsets) {
        run.push(*d);
        run.push(*o);
    }
    let mut traf = full(b"tfhd", 0, 0, &[1]);
    traf.extend_from_slice(&full(b"tfdt", 1, 0, &[(time >> 32) as u32, time as u32]));
    traf.extend_from_slice(&full(b"trun", version, 0x900, &run));
    let mut body = full(b"mfhd", 0, 0, &[1]);
    body.extend_from_slice(&plain(b"traf", &traf));
    plain(b"moof", &body)
}

fn traf(trun: Option<Trun>) -> Traf {
    Traf {
        track_id: 1,
        default_sample_duration: None,
        default_sample_flags: None,
        base_media_decode_time: Some(100),
        trun,
    }
}

fn trun(sample_count: u32) -> Trun {
    Trun {
        version: 0,
        flags: 0,
        sample_count,
        first_sample_flags: None,
        sample_durations: vec![],
        sample_flags: vec![],
        sample_cts: vec![],
    }
}

fn object(object_id: u64, bytes: Vec<u8>) -> Object {
    Object { group_id: 7, object_id, size: bytes.len(), bytes, received_at: 1_000_000_000 }
}

#[test]
fn key_frames_are_found_by_their_flags() {
    let flagged = |first: Option<u32>, flags: Vec<u32>, default: Option<u32>, count: u32| Moof {
        trafs: vec![Traf {
            default_sample_flags: default,
            ..traf(Some(Trun {
                first_sample_flags: first,
                sample_flags: flags,
                ..trun(count)
            }))
        }],
    };
    assert!(sample_keyframe(&flagged(Some(0x0200_0000), vec![], None, 1)));
    assert!(!sample_keyframe(&flagged(Some(0x0201_0000), vec![], None, 1)));
    assert!(!sample_keyframe(&flagged(Some(0x0200_0000), vec![], None, 0)));
    assert!(sample_keyframe(&flagged(None, vec![0x0101_0000, 0x0200_0000], None, 2)));
    assert!(sample_keyframe(&flagged(None, vec![0x0101_0000], Some(0x0200_0000), 2)));
    assert!(!sample_keyframe(&flagged(Some(0), vec![0x0200_0000], None, 1)));
    assert!(!sample_keyframe(&Moof { trafs: vec![traf(None)] }));
    assert!(!sample_keyframe(&Moof { trafs: vec![] }));
}

#[test]
fn the_first_track_gives_the_time() {
    assert_eq!(sample_timestamp(&Moof { trafs: vec![traf(None)] }), Some(100));
    assert_eq!(sample_timestamp(&Moof { trafs: vec![] }), None);
    let b = moof(4711, &[10], &[0], 0);
    assert_eq!(extract_media_timestamp(&b), Some(4711));
    assert_eq!(extract_media_timestamp(&b[..20]), None);
    assert_eq!(extract_media_timestamp(&[]), None);
}

#[test]
fn fragments_start_and_end_by_durations_and_offsets() {
    let b = moof(1000, &[10, 20, 30], &[5, 0, 40], 0);
    assert_eq!(
        parse_fragment_timing(&b),
        Ok(FragmentTiming { start: 1000, end: 1000 + 60 + 40 })
    );
    let b = moof(1000, &[10, 20], &[0xffff_fff6, 4], 1);
    assert_eq!(
        parse_fragment_timing(&b),
        Ok(FragmentTiming { start: 990, end: 1000 + 30 + 4 })
    );
    let b = moof(1000, &[10, 20], &[0xffff_fff6, 4], 0);
    assert_eq!(
        parse_fragment_timing(&b),
        Ok(FragmentTiming { start: 1004, end: 1030 + 0xffff_fff6 })
    );
}

#[test]
fn the_default_duration_counts_for_each_sample() {
    let m = Moof {
        trafs: vec![Traf { default_sample_duration: Some(512), ..traf(Some(trun(3))) }],
    };
    assert_eq!(fragment_timing(&m), Ok(FragmentTiming { start: 100, end: 1636 }));
    let m = Moof { trafs: vec![traf(Some(trun(3)))] };
    assert_eq!(fragment_timing(&m), Ok(FragmentTiming { start: 100, end: 100 }));
}

#[test]
fn all_that_a_fragment_says_is_read() {
    let mut traf = full(b"tfhd", 0, 0x28, &[6, 500, 0x0101_0000]);
    traf.extend_from_slice(&full(b"tfdt", 0, 0, &[30]));
    traf.extend_from_slice(&full(b"trun", 1, 0xf05, &[1, 99, 0x0200_0000, 3, 77, 8, 0xffff_ffff]));
    let mut body = full(b"mfhd", 0, 0, &[1]);
    body.extend_from_slice(&plain(b"traf", &traf));
    let m = read_moof(&plain(b"moof", &body)).unwrap();
    assert_eq!(m.trafs.len(), 1);
    let t = &m.trafs[0];
    assert_eq!(t.track_id, 6);
    assert_eq!(t.default_sample_duration, Some(500));
    assert_eq!(t.default_sample_flags, Some(0x0101_0000));
    assert_eq!(t.base_media_decode_time, Some(30));
    let r = t.trun.as_ref().unwrap();
    assert_eq!((r.version, r.flags, r.sample_count), (1, 0xf05, 1));
    assert_eq!(r.first_sample_flags, Some(0x0200_0000));
    assert_eq!(r.sample_durations, vec![3]);
    assert_eq!(r.sample_flags, vec![8]);
    assert_eq!(r.sample_cts, vec![0xffff_ffff]);
    assert_eq!(fragment_timing(&m), Ok(FragmentTiming { start: 29, end: 32 }));
}

#[test]
fn timing_that_cannot_be_told() {
    assert_eq!(fragment_timing(&Moof { trafs: vec![] }), Err(TimingError::NoTraf));
    let m = Moof { trafs: vec![Traf { base_media_decode_time: None, ..traf(None) }] };
    assert_eq!(fragment_timing(&m), Err(TimingError::NoTfdt));
    let m = Moof {
        trafs: vec![Traf {
            base_media_decode_time: Some(i64::MAX as u64),
            default_sample_duration: Some(1),
            ..traf(Some(trun(1)))
        }],
    };
    assert_eq!(fragment_timing(&m), Err(TimingError::OutOfRange));
    assert_eq!(parse_fragment_timing(&plain(b"moof", b"")), Err(TimingError::Box));
}

#[test]
fn box_headers_are_read() {
    let b = plain(b"mdat", &[1, 2]);
    assert_eq!(read_box_head(&b, 0), Some(BoxHead { name: 0x6d64_6174, size: 10, head: 8 }));
    assert_eq!(read_box_head(&b, 3), None);
    let b = [0, 0, 0, 1, b'm', b'd', b'a', b't', 0, 0, 0, 0, 0, 0, 0, 20];
    assert_eq!(read_box_head(&b, 0), Some(BoxHead { name: 0x6d64_6174, size: 12, head: 16 }));
    let b = [0, 0, 0, 1, b'm', b'd', b'a', b't', 0, 0, 0, 0, 0, 0, 0, 15];
    assert_eq!(read_box_head(&b, 0), None);
}

#[test]
fn boxes_that_would_be_read_for_ever_are_told_apart() {
    let good = moof(0, &[1], &[0], 0);
    assert!(is_readable(&good, Container::Moof));
    assert_eq!(read_moof(&good).unwrap().trafs[0].track_id, 1);
    let bad = plain(b"moof", &plain(b"traf", &[0, 0, 0, 0, b'f', b'r', b'e', b'e']));
    assert!(!is_readable(&bad, Container::Moof));
    assert!(read_moof(&bad).is_none());
    assert_eq!(extract_media_timestamp(&bad), None);
    assert_eq!(parse_fragment_timing(&bad), Err(TimingError::Box));
}

/// A box with a 64-bit header that claims `more` bytes beyond those it holds.
fn long(name: &[u8; 4], body: &[u8], more: u64) -> Vec<u8> {
    let mut b = long_claim(16 + body.len() as u64 + more, name);
    b.extend_from_slice(body);
    b
}

#[test]
fn a_run_that_claims_more_than_it_lists_is_read() {
    let more = 5 << 30;
    let mut run = Vec::new();
    for word in [0x100u32, 2, 10, 11] {
        run.extend_from_slice(&word.to_be_bytes());
    }
    let mut traf = full(b"tfhd", 0, 0, &[1]);
    traf.extend_from_slice(&full(b"tfdt", 1, 0, &[0, 9]));
    traf.extend_from_slice(&long(b"trun", &run, more));
    let mut body = full(b"mfhd", 0, 0, &[1]);
    body.extend_from_slice(&long(b"traf", &traf, more));
    let b = long(b"moof", &body, more);
    assert!(is_readable(&b, Container::Moof));
    let m = read_moof(&b).unwrap();
    assert_eq!(m.trafs[0].trun.as_ref().unwrap().sample_durations, vec![10, 11]);
    assert_eq!(extract_media_timestamp(&b), Some(9));
    assert_eq!(parse_fragment_timing(&b), Ok(FragmentTiming { start: 9, end: 30 }));
}

#[test]
fn what_is_loaded_has_to_be_there() {
    let few = full(b"trun", 0, 0x100, &[1, 7]);
    assert!(is_readable(&plain(b"traf", &few), Container::Traf));
    let many = full(b"trun", 0, 0x100, &[1 << 30, 7]);
    assert!(!is_readable(&plain(b"traf", &many), Container::Traf));
    let none = full(b"trun", 0, 0, &[1 << 30]);
    assert!(is_readable(&plain(b"traf", &none), Container::Traf));
    for name in [b"stts", b"ctts", b"stss", b"stsc", b"stco", b"co64"] {
        let few = full(name, 0, 0, &[1, 1, 1, 1]);
        assert!(is_readable(&plain(b"stbl", &few), Container::Stbl));
        let many = full(name, 0, 0, &[1 << 30, 1, 1, 1]);
        assert!(!is_readable(&plain(b"stbl", &many), Container::Stbl));
    }
    assert!(!is_readable(&plain(b"stbl", &full(b"stsz", 0, 0, &[0, 1 << 30])), Container::Stbl));
    assert!(is_readable(&plain(b"stbl", &full(b"stsz", 0, 0, &[4, 1 << 30])), Container::Stbl));
    let edits = plain(b"edts", &full(b"elst", 0, 0, &[1 << 30]));
    assert!(!is_readable(&plain(b"trak", &edits), Container::Trak));
    let edits = plain(b"edts", &full(b"elst", 0, 0, &[1, 1, 1, 1]));
    assert!(is_readable(&plain(b"trak", &edits), Container::Trak));
    assert!(is_readable(&plain(b"mdia", &hdlr(b"vide")), Container::Mdia));
    // The last byte of a name is not read.
    let mut cut = plain(b"mdia", &hdlr(b"vide"));
    cut.pop();
    assert!(is_readable(&cut, Container::Mdia));
    cut.pop();
    assert!(!is_readable(&cut, Container::Mdia));
}

/// A `dinf` with a `dref` that counts so many boxes, holds the bytes given and claims
/// `more`.
fn dinf(count: u32, boxes: &[u8], more: u64) -> Vec<u8> {
    let mut body = vec![0; 4];
    body.extend_from_slice(&count.to_be_bytes());
    body.extend_from_slice(boxes);
    long(b"dinf", &long(b"dref", &body, more), more)
}

#[test]
fn the_addresses_of_the_data_have_to_be_there() {
    let near = full(b"url ", 0, 1, &[]);
    let far = long(b"url ", &[0; 4], 5 << 30);
    assert!(is_readable(&dinf(1, &near, 0), Container::Dinf));
    assert!(is_readable(&dinf(1, &near, 6 << 30), Container::Dinf));
    assert!(!is_readable(&dinf(1, &far, 6 << 30), Container::Dinf));
    assert!(is_readable(&dinf(1, &far, 0), Container::Dinf));
    let both: Vec<u8> = [near.as_slice(), far.as_slice()].concat();
    assert!(is_readable(&dinf(1, &both, 6 << 30), Container::Dinf));
    assert!(!is_readable(&dinf(2, &both, 6 << 30), Container::Dinf));
    // A box of no length is counted as often as it has to be.
    assert!(is_readable(&dinf(u32::MAX, &claim(0, b"free"), 0), Container::Dinf));
}

/// A `moov` with nothing in it but the box given, so that a reader fails in the end.
fn moov_of(inside: &[u8]) -> Vec<u8> {
    plain(b"moov", inside)
}

/// A `hdlr` with the handler given and an empty name.
fn hdlr(handler: &[u8; 4]) -> Vec<u8> {
    let mut body = vec![0; 8];
    body.extend_from_slice(handler);
    body.extend_from_slice(&[0; 13]);
    plain(b"hdlr", &body)
}

/// A `meta` that holds a `hdlr` and then the bytes given.
fn meta(handler: &[u8; 4], rest: &[u8]) -> Vec<u8> {
    let mut body = vec![0; 4];
    body.extend_from_slice(&hdlr(handler));
    body.extend_from_slice(rest);
    plain(b"meta", &body)
}

/// A header alone, that claims the size given.
fn claim(size: u32, name: &[u8; 4]) -> Vec<u8> {
    let mut b = size.to_be_bytes().to_vec();
    b.extend_from_slice(name);
    b
}

/// A header alone, that claims the 64-bit size given.
fn long_claim(size: u64, name: &[u8; 4]) -> Vec<u8> {
    let mut b = claim(1, name);
    b.extend_from_slice(&size.to_be_bytes());
    b
}

#[test]
fn behind_a_meta_the_walk_goes_on_where_its_last_box_ends() {
    let mut inside = meta(b"mdir", &claim(40, b"free"));
    assert_eq!(inside.len(), 53);
    inside.extend_from_slice(&plain(b"free", &[0; 52]));
    let b = moov_of(&inside);
    assert_eq!(b.len(), 121);
    assert!(!is_readable(&b, Container::Moov));
    assert_eq!(read_init(&b).unwrap_err(), InitError::Box);
    // Where the box ends with the `meta`, so does the walk through it.
    let mut inside = meta(b"mdir", &claim(8, b"free"));
    inside.extend_from_slice(&plain(b"free", &[0; 52]));
    let b = moov_of(&inside);
    assert!(is_readable(&b, Container::Moov));
    assert_eq!(read_init(&b).unwrap_err(), InitError::Box);
}

#[test]
fn a_meta_can_be_walked_as_far_as_its_handler_asks() {
    // Boxes that nobody reads are stepped over, whatever they claim: one of four bytes,
    // and one that starts in the middle of it.
    let tiny = [0, 0, 0, 4, b'f', b'r', b'e', b'e', 0, 0, 0, 0];
    let short = moov_of(&meta(b"mdir", &tiny));
    assert!(is_readable(&short, Container::Moov));
    let long = moov_of(&meta(b"mdir", &long_claim(1 << 40, b"free")));
    assert!(is_readable(&long, Container::Moov));
    assert_eq!(read_init(&long).unwrap_err(), InitError::Box);
    // With another handler they are taken into memory.
    let short = moov_of(&meta(b"none", &tiny));
    assert!(!is_readable(&short, Container::Moov));
    let long = moov_of(&meta(b"none", &long_claim(1 << 40, b"free")));
    assert!(!is_readable(&long, Container::Moov));
    let some = moov_of(&meta(b"none", &plain(b"free", &[1])));
    assert!(is_readable(&some, Container::Moov));
    assert_eq!(read_init(&some).unwrap_err(), InitError::Box);
    // A list is walked where there is one to be read.
    let list = plain(b"ilst", &claim(0, b"free"));
    assert!(!is_readable(&moov_of(&meta(b"mdir", &list)), Container::Moov));
    assert!(is_readable(&moov_of(&meta(b"none", &list)), Container::Moov));
    assert!(!is_readable(&meta(b"mdir", &list), Container::Meta));
    // Without a handler the reader gives up.
    let mut none = vec![0; 4];
    none.extend_from_slice(&list);
    assert!(is_readable(&moov_of(&plain(b"meta", &none)), Container::Moov));
}

#[test]
fn a_long_box_that_is_stepped_over_is_no_hindrance() {
    let mut b = long_claim(1 << 41, b"moov");
    b.extend_from_slice(&long_claim(1 << 40, b"free"));
    assert!(is_readable(&b, Container::Moov));
    assert_eq!(read_init(&b).unwrap_err(), InitError::Box);
    let mut b = long_claim(1 << 41, b"moov");
    b.extend_from_slice(&long_claim(u64::MAX, b"free"));
    assert!(is_readable(&b, Container::Moov));
    let mut b = long_claim(u64::MAX, b"moov");
    b.extend_from_slice(&long_claim(u64::MAX, b"free"));
    assert!(!is_readable(&b, Container::Moov));
}

fn movie(video: &[u32], audio: &[u32]) -> Vec<u8> {
    let mut m = mp4::MoovBox::default();
    for id in audio.iter().chain(video) {
        m.traks.push(Default::default());
        let t = m.traks.last_mut().unwrap();
        t.tkhd.track_id = *id;
        t.mdia.minf.stbl.stco = Some(Default::default());
        if video.contains(id) {
            t.mdia.minf.stbl.stsd.avc1 = Some(Default::default());
        } else {
            t.mdia.minf.stbl.stsd.mp4a = Some(Default::default());
        }
    }
    let mut b = Vec::new();
    m.write_box(&mut b).unwrap();
    b
}

#[test]
fn the_first_video_is_played() {
    let mut b = plain(b"ftyp", b"isom");
    b.extend_from_slice(&movie(&[5, 6], &[1]));
    assert!(is_sound(&b));
    let plan = read_init(&b).unwrap();
    assert_eq!(plan.init, b);
    assert_eq!(plan.video.as_deref(), Some("5.m4s"));
    let files: Vec<(&str, &str)> =
        plan.files.iter().map(|f| (f.path.as_str(), f.track.as_str())).collect();
    assert_eq!(
        files,
        vec![
            ("tmp/init_track1.mp4", "1.m4s"),
            ("tmp/init_track5.mp4", "5.m4s"),
            ("tmp/init_track6.mp4", "6.m4s"),
        ]
    );
}

#[test]
fn without_video_nothing_is_played() {
    let plan = read_init(&movie(&[], &[1])).unwrap();
    assert_eq!(plan.video, None);
    assert_eq!(plan.files.len(), 1);
}

#[test]
fn a_start_that_cannot_be_used() {
    assert_eq!(read_init(&plain(b"ftyp", b"isom")).unwrap_err(), InitError::NoMoov);
    assert_eq!(read_init(&plain(b"moov", b"")).unwrap_err(), InitError::Box);
    let bad = plain(b"moov", &[0, 0, 0, 0, b't', b'r', b'a', b'k']);
    assert_eq!(read_init(&bad).unwrap_err(), InitError::Box);
}

#[test]
fn the_last_movie_counts() {
    let mut b = movie(&[1], &[]);
    b.extend_from_slice(&movie(&[2], &[]));
    assert_eq!(read_init(&b).unwrap().video.as_deref(), Some("2.m4s"));
}

#[test]
fn boxes_at_the_end_are_taken_as_far_as_they_go() {
    let mut b = plain(b"free", &[1]);
    b.extend_from_slice(&[0, 0, 0, 99, b'f', b'r', b'e', b'e', 7]);
    let (init, moov) = split_init(&b);
    assert_eq!(init, b);
    assert_eq!(moov, None);
    let a = read_atom(&b, 9).unwrap();
    assert_eq!(a.bytes, b[9..].to_vec());
    assert_eq!(a.next, b.len());
    let rest = [0, 0, 0, 0, b'm', b'd', b'a', b't', 1, 2];
    assert_eq!(read_atom(&rest, 0).unwrap().bytes, rest.to_vec());
    assert!(read_atom(&[0, 0, 0, 7, b'm', b'd', b'a', b't'], 0).is_none());
    assert!(read_atom(&rest, 5).is_none());
}

#[test]
fn an_extended_size_is_not_kept() {
    let b = [0, 0, 0, 1, b'f', b'r', b'e', b'e', 0, 0, 0, 0, 0, 0, 0, 18, 8, 9];
    assert!(is_sound(&b));
    let a = read_atom(&b, 0).unwrap();
    assert_eq!(a.bytes, vec![0, 0, 0, 1, b'f', b'r', b'e', b'e', 8, 9]);
    let small = [0, 0, 0, 1, b'f', b'r', b'e', b'e', 0, 0, 0, 0, 0, 0, 0, 8];
    assert!(!is_sound(&small));
}

#[test]
fn paths_of_saved_parts() {
    assert_eq!(get_pub_moof_path(3, 14), "tmp/pub_moof_g3_o14.bin");
    assert_eq!(get_pub_mdat_path(3, 14, 2), "tmp/pub_mdat_g3_o14_track2.bin");
    assert_eq!(get_pub_manifest_path(2), "tmp/pub_manifest_track2.txt");
    assert_eq!(get_sub_moof_path(3, 14), "tmp/sub/sub_moof_g3_o14.bin");
    assert_eq!(get_sub_mdat_path(3, 14, 2), "tmp/sub/sub_mdat_g3_o14_track2.bin");
    assert_eq!(get_sub_manifest_path(2), "tmp/sub/sub_manifest_track2.txt");
    assert_eq!(get_init_path(10), "tmp/init_track10.mp4");
}

#[test]
fn captures_are_counted_from_the_first() {
    let text = "0|4|1|0.000000|0.042000|5000\r\n\
                0|6|1|0.042000|0.042000|7500\n\
                too|short\n\
                0|x|1|0|0|9000\n\
                0|8|1|0|0|+4000|more\n\
                0|6|1|0|0|8000";
    let m = parse_captures(text);
    assert_eq!(m, HashMap::from([(4, 0), (6, 3000), (8, 0)]));
    assert!(parse_captures("").is_empty());
    assert!(parse_captures("0|1|2|3|4|18446744073709551616").is_empty());
}

#[test]
fn tracks_are_numbered_by_their_names() {
    assert_eq!(parse_track_id("12.m4s"), 12);
    assert_eq!(parse_track_id("12"), 12);
    assert_eq!(parse_track_id("+3.m4s"), 3);
    assert_eq!(parse_track_id("video.m4s"), 1);
    assert_eq!(parse_track_id("4294967296.m4s"), 1);
    assert_eq!(parse_track_id(""), 1);
}

#[test]
fn a_moof_and_its_mdat_are_played_together() {
    let mut p = Playback::new("2.m4s", HashMap::new(), 0);
    let head = moof(0, &[1], &[0], 0);
    let body = plain(b"mdat", &[1, 2, 3]);
    match p.receive(object(4, head.clone())) {
        PlayStep::Hold { path } => assert_eq!(path, "tmp/sub/sub_moof_g7_o4.bin"),
        other => panic!("{:?}", other),
    }
    match p.receive(object(5, body.clone())) {
        PlayStep::Play(f) => {
            let mut all = head;
            all.extend_from_slice(&body);
            assert_eq!(f.bytes, all);
            assert_eq!((f.group_id, f.object_id), (7, 4));
            assert_eq!(f.mdat, body);
            assert_eq!(f.mdat_path, "tmp/sub/sub_mdat_g7_o4_track2.bin");
            assert_eq!(f.received_at, 1_000_000_000);
        }
        other => panic!("{:?}", other),
    }
    assert!(p.pending.is_none());
    assert!(matches!(p.receive(object(6, body)), PlayStep::Ignore));
}

#[test]
fn the_later_of_two_moofs_counts() {
    let mut p = Playback::new("1.m4s", HashMap::new(), 0);
    p.receive(object(4, moof(0, &[1], &[0], 0)));
    p.receive(object(6, moof(9, &[1], &[0], 0)));
    assert_eq!(p.pending.as_ref().unwrap().media_timestamp, Some(9));
    match p.receive(object(7, plain(b"mdat", &[]))) {
        PlayStep::Play(f) => assert_eq!(f.object_id, 6),
        other => panic!("{:?}", other),
    }
}

#[test]
fn objects_of_another_size_are_missing() {
    let mut p = Playback::new("1.m4s", HashMap::new(), 0);
    let mut o = object(1, plain(b"moof", &[]));
    o.size = 9;
    assert!(matches!(p.receive(o), PlayStep::Missing));
    assert!(matches!(p.receive(object(1, vec![1, 2, 3])), PlayStep::Ignore));
    assert!(matches!(p.receive(object(1, plain(b"free", &[]))), PlayStep::Ignore));
}

#[test]
fn frames_are_reported() {
    let start = 10_000_000_000;
    let mut p = Playback::new("1.m4s", HashMap::from([(4, 2_000)]), start);
    let r = p.rendered(4, 0, start + 5_000_000, 0);
    assert_eq!(r.sequence, 0);
    assert_eq!(r.capture, Some(start + 2_000_000));
    assert_eq!(r.latency, Some(3_000_000));
    assert_eq!(r.stall, None);
    assert!(r.first);
    assert!(!r.snapshot);
    let r = p.rendered(5, start, start + 5_000_000 + 142_000_000, 42_000_000);
    assert_eq!(r.capture, Some(start - 25_000_000));
    assert_eq!(r.stall, None);
    assert!(!r.first);
    let r = p.rendered(6, 1, start + 5_000_000 + 142_000_000 + 142_000_001, 42_000_000);
    assert_eq!(r.capture, None);
    assert_eq!(r.latency, None);
    assert_eq!(r.stall, Some(100_000_001));
    for _ in 3..99 {
        assert!(!p.rendered(9, 0, start, 0).snapshot);
    }
    assert!(p.rendered(9, 0, start, 0).snapshot);
}

#[test]
fn a_group_plays_its_pairs_and_nothing_else() {
    let endless = plain(b"moof", &plain(b"traf", &[0, 0, 0, 0, b'f', b'r', b'e', b'e']));
    let good = moof(3, &[1], &[0], 0);
    let data = |x: u8| plain(b"mdat", &[x]);
    let group = vec![
        data(1),
        good.clone(),
        endless.clone(),
        plain(b"free", &[]),
        data(2),
        data(3),
        good.clone(),
        data(4),
        good.clone(),
    ];
    let mut p = Playback::new("5.m4s", HashMap::new(), 0);
    let mut out = Vec::new();
    for (i, bytes) in group.into_iter().enumerate() {
        if let PlayStep::Play(f) = p.receive(object(i as u64, bytes)) {
            out.extend_from_slice(&f.bytes);
        }
    }
    let want = [endless, data(2), good, data(4)].concat();
    assert_eq!(out, want);
}

#[test]
fn time_scales_are_saved_and_found() {
    let text = save_timescale(None, 1, 90000);
    let text = save_timescale(Some(&text), 2, 48000);
    let text = save_timescale(Some(&text), 1, 24);
    let m = load_timescales(Some(&text));
    assert_eq!(m, HashMap::from([(1, 24), (2, 48000)]));
    assert_eq!(get_timescale(&m, 2), 48000);
    assert_eq!(get_timescale(&m, 3), DEFAULT_TIMESCALE);
    assert_eq!(DEFAULT_TIMESCALE, 24000);
}

#[test]
fn time_scales_that_do_not_parse_are_forgotten() {
    assert_eq!(save_timescale(Some("{"), 1, 7), "{\n  \"1\": 7\n}");
    assert!(load_timescales(Some("[]")).is_empty());
    assert!(load_timescales(None).is_empty());
    let wide = save_timescale(None, 1, 1 << 40);
    assert!(load_timescales(Some(&wide)).is_empty());
    assert_eq!(load_timescales(Some("{\"3\": 5}")), HashMap::from([(3, 5)]));
}
