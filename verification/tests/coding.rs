use bytes::BytesMut;
use moq::coding::error::{DecodeError, EncodeError};
use moq::coding::params::Params;
use moq::coding::tuple::Tuple;
use moq::coding::wire::{Cursor, Decode, Encode};
use moq::session::reader::{DecodeStep, Reader};
use moq::session::writer::{Progress, Writer, MAX_CHUNK};

fn written<T: Encode>(v: &T) -> Vec<u8> {
    let mut w = BytesMut::new();
    assert_eq!(v.encode(&mut w), Ok(()));
    w.to_vec()
}

fn read<T: Decode>(b: &[u8]) -> (Result<T, DecodeError>, usize) {
    let mut c = Cursor::new(b);
    let r = T::decode(&mut c);
    let n = c.position();
    (r, n)
}

#[test]
fn numbers_take_one_two_four_or_eight_bytes() {
    assert_eq!(written(&0u64), vec![0x00]);
    assert_eq!(written(&37u64), vec![0x25]);
    assert_eq!(written(&63u64), vec![0x3f]);
    assert_eq!(written(&64u64), vec![0x40, 0x40]);
    assert_eq!(written(&15293u64), vec![0x7b, 0xbd]);
    assert_eq!(written(&16384u64), vec![0x80, 0x00, 0x40, 0x00]);
    assert_eq!(written(&494878333u64), vec![0x9d, 0x7f, 0x3e, 0x7d]);
    assert_eq!(
        written(&151288809941952652u64),
        vec![0xc2, 0x19, 0x7c, 0x5e, 0xff, 0x14, 0xe8, 0x8c]
    );
}

#[test]
fn numbers_of_more_than_62_bits_cannot_be_written() {
    let mut w = BytesMut::new();
    assert_eq!((1u64 << 62).encode(&mut w), Err(EncodeError::BoundsExceeded));
    assert!(w.is_empty());
    assert_eq!(((1u64 << 62) - 1).encode(&mut w), Ok(()));
    assert_eq!(w.to_vec(), vec![0xff; 8]);
}

#[test]
fn numbers_read_back_and_leave_what_follows() {
    for x in [0u64, 1, 63, 64, 16383, 16384, (1 << 30) - 1, 1 << 30, (1 << 62) - 1] {
        let mut b = written(&x);
        let n = b.len();
        b.extend_from_slice(&[1, 2, 3]);
        assert_eq!(read::<u64>(&b), (Ok(x), n));
    }
}

#[test]
fn numbers_in_part_ask_for_the_rest() {
    assert_eq!(read::<u64>(&[]).0, Err(DecodeError::More(1)));
    assert_eq!(read::<u64>(&[0x40]).0, Err(DecodeError::More(1)));
    assert_eq!(read::<u64>(&[0x80, 0]).0, Err(DecodeError::More(2)));
    assert_eq!(read::<u64>(&[0xc0]).0, Err(DecodeError::More(7)));
}

#[test]
fn a_byte_is_itself() {
    assert_eq!(written(&200u8), vec![200]);
    assert_eq!(read::<u8>(&[200, 1]), (Ok(200), 1));
    assert_eq!(read::<u8>(&[]).0, Err(DecodeError::More(1)));
}

#[test]
fn texts_stand_behind_their_length() {
    let s = String::from("h\u{e9}");
    assert_eq!(written(&s), vec![3, 0x68, 0xc3, 0xa9]);
    assert_eq!(read::<String>(&[3, 0x68, 0xc3, 0xa9, 9]), (Ok(s), 4));
    assert_eq!(read::<String>(&[3, 0x68]).0, Err(DecodeError::More(2)));
    assert_eq!(read::<String>(&[2, 0xff, 0xfe]).0, Err(DecodeError::InvalidString));
}

#[test]
fn tuples_read_back() {
    let t = Tuple::from_utf8_path("a/bc//d");
    assert_eq!(
        t.fields,
        vec![b"a".to_vec(), b"bc".to_vec(), b"".to_vec(), b"d".to_vec()]
    );
    let b = written(&t);
    assert_eq!(b, vec![4, 1, 0x61, 2, 0x62, 0x63, 0, 1, 0x64]);
    let (r, n) = read::<Tuple>(&b);
    assert_eq!(n, b.len());
    assert!(r.unwrap().same(&t));
    assert!(matches!(read::<Tuple>(&b[..5]).0, Err(DecodeError::More(1))));
}

#[test]
fn tuples_are_the_same_field_by_field() {
    let t = Tuple::from_utf8_path("a/b");
    assert!(t.same(&t.copy()));
    assert!(!t.same(&Tuple::from_utf8_path("ab")));
    assert!(!t.same(&Tuple::from_utf8_path("a/b/")));
    assert!(!t.same(&Tuple::new()));
}

#[test]
fn parameters_are_set_and_taken() {
    let mut p = Params::new();
    assert_eq!(p.set(100, 1500), Ok(()));
    assert_eq!(p.set(7, 1), Ok(()));
    assert_eq!(p.set(100, 5), Ok(()));
    assert!(p.has(100));
    assert_eq!(p.entries, vec![(100, vec![5]), (7, vec![1])]);
    let q = p.copy();
    assert_eq!(written(&q), vec![2, 0x40, 0x64, 1, 5, 7, 1, 1]);
    assert_eq!(p.get(100), Ok(Some(5)));
    assert!(!p.has(100));
    assert_eq!(p.get(100), Ok(None));
    assert_eq!(q.entries.len(), 2);
    assert_eq!(p.set(1, 1 << 62), Err(EncodeError::BoundsExceeded));
}

#[test]
fn parameters_read_back_and_stand_once() {
    let b = [2, 3, 1, 9, 4, 0];
    let (r, n) = read::<Params>(&b);
    assert_eq!(n, 6);
    assert_eq!(r.unwrap().entries, vec![(3, vec![9]), (4, vec![])]);
    assert_eq!(read::<Params>(&[2, 3, 1, 9, 3, 0]).0.unwrap_err(), DecodeError::DuplicateParameter);
    assert_eq!(read::<Params>(&[1, 3, 2, 9]).0.unwrap_err(), DecodeError::More(1));
}

#[test]
fn a_value_is_decoded_once_all_of_it_has_arrived() {
    let mut r = Reader::new();
    assert!(matches!(r.decode::<u64>(), DecodeStep::Need(1)));
    r.received(&[0x80, 0x00]);
    assert!(matches!(r.decode::<u64>(), DecodeStep::Need(4)));
    assert_eq!(r.len(), 2);
    assert_eq!(r.ended(4), DecodeError::More(2));
    r.received(&[0x40, 0x00, 0x07]);
    assert!(matches!(r.decode::<u64>(), DecodeStep::Value(16384)));
    assert_eq!(r.len(), 1);
    assert_eq!(r.done(), Some(false));
    assert!(matches!(r.decode::<u64>(), DecodeStep::Value(7)));
    assert_eq!(r.done(), None);
}

#[test]
fn a_value_that_fails_uses_up_nothing() {
    let mut r = Reader::new();
    r.received(&[1, 0xff]);
    assert!(matches!(
        r.decode::<String>(),
        DecodeStep::Failed(DecodeError::InvalidString)
    ));
    assert_eq!(r.len(), 2);
}

#[test]
fn chunks_come_from_what_has_arrived() {
    let mut r = Reader::new();
    assert!(r.read_chunk(4).is_none());
    r.received(&[1, 2, 3, 4, 5]);
    assert_eq!(r.read_chunk(2).unwrap().to_vec(), vec![1, 2]);
    assert_eq!(r.read_chunk(9).unwrap().to_vec(), vec![3, 4, 5]);
    assert!(r.read_chunk(9).is_none());
}

#[test]
fn a_writer_hands_out_whole_values() {
    let mut w = Writer::new();
    assert_eq!(w.encode(&64u64).unwrap().to_vec(), vec![0x40, 0x40]);
    assert_eq!(w.encode(&1u64).unwrap().to_vec(), vec![1]);
    assert_eq!(w.encode(&(1u64 << 62)).unwrap_err(), EncodeError::BoundsExceeded);
    assert_eq!(w.encode(&2u64).unwrap().to_vec(), vec![2]);
}

#[test]
fn writes_are_cut_and_cover_everything() {
    assert_eq!(MAX_CHUNK, 16384);
    let mut p = Progress::new(40000);
    let mut taken = Vec::new();
    while let Some((from, to)) = p.next() {
        assert!(to - from <= MAX_CHUNK);
        let n = (to - from).min(9000);
        taken.push((from, from + n));
        p.wrote(n);
    }
    assert_eq!(
        taken,
        vec![(0, 9000), (9000, 18000), (18000, 27000), (27000, 36000), (36000, 40000)]
    );
    assert_eq!(Progress::new(40000).next(), Some((0, 16384)));
    assert_eq!(Progress::new(0).next(), None);
}
