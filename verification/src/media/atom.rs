//! Cutting a byte stream into top-level boxes.

use crate::buffer::{buffered, chunk, copy_to_bytes, frozen};
use crate::bytes_be::{be32, be64, read_be32, read_be64};
use vstd::prelude::*;

verus! {

/// Why no box can be cut off a stream.
#[derive(Clone, Copy, Debug, PartialEq, Eq, Structural)]
pub enum AtomError {
    /// A box that extends to the end of the file.
    ToEnd,
    /// A size too small to cover the header.
    Size(u64),
    /// An extended size too small to cover the header.
    ExtendedSize(u64),
}

/// Whether the stream breaks off inside an extended header.
pub open spec fn header_cut(b: Seq<u8>) -> bool {
    8 <= b.len() < 16 && be32(b, 0) == 1
}

/// The size that the first box of a stream claims. It takes a whole header.
pub open spec fn claimed_size(b: Seq<u8>) -> Result<int, AtomError> {
    let size = be32(b, 0);
    if size == 0 {
        Err(AtomError::ToEnd)
    } else if size == 1 {
        if be64(b, 8) < 16 {
            Err(AtomError::ExtendedSize(be64(b, 8) as u64))
        } else {
            Ok(be64(b, 8))
        }
    } else if size < 8 {
        Err(AtomError::Size(size as u64))
    } else {
        Ok(size)
    }
}

/// The length of the first box of a stream, once it has arrived in full.
pub open spec fn atom_len(b: Seq<u8>) -> Result<Option<int>, AtomError> {
    if b.len() < 8 {
        Ok(None)
    } else {
        match claimed_size(b) {
            Err(e) => Err(e),
            Ok(n) => if b.len() < n {
                Ok(None)
            } else {
                Ok(Some(n))
            },
        }
    }
}

/// Takes the first box off the front of `buf`, once it has arrived in full.
///
/// Nothing is taken where the box is not complete or its size is impossible.
pub fn next_atom(buf: &mut bytes::BytesMut) -> (r: Result<Option<bytes::Bytes>, AtomError>)
    requires
        !header_cut(buffered(*old(buf))),
    ensures
        match atom_len(buffered(*old(buf))) {
            Err(e) => r == Err::<Option<bytes::Bytes>, AtomError>(e) && buffered(*final(buf))
                == buffered(*old(buf)),
            Ok(None) => r == Ok::<Option<bytes::Bytes>, AtomError>(None) && buffered(*final(buf))
                == buffered(*old(buf)),
            Ok(Some(n)) => {
                &&& r matches Ok(Some(atom))
                &&& frozen(atom) == buffered(*old(buf)).take(n)
                &&& buffered(*final(buf)) == buffered(*old(buf)).skip(n)
            },
        },
{
    let len: usize = chunk(buf).len();
    if len < 8 {
        return Ok(None);
    }
    let size: u32 = read_be32(chunk(buf), 0);
    let size: u64 = if size == 0 {
        return Err(AtomError::ToEnd);
    } else if size == 1 {
        let size_ext: u64 = read_be64(chunk(buf), 8);
        if size_ext < 16 {
            return Err(AtomError::ExtendedSize(size_ext));
        }
        size_ext
    } else if size < 8 {
        return Err(AtomError::Size(size as u64));
    } else {
        size as u64
    };
    if (len as u64) < size {
        return Ok(None);
    }
    Ok(Some(copy_to_bytes(buf, size as usize)))
}

/// Whether the stream breaks off inside an extended header.
pub fn is_header_cut(buf: &bytes::BytesMut) -> (r: bool)
    ensures
        r == header_cut(buffered(*buf)),
{
    let b: &[u8] = chunk(buf);
    8 <= b.len() && b.len() < 16 && read_be32(b, 0) == 1
}

/// No byte is lost or moved: the box and what is left make up the stream.
pub proof fn atom_and_rest(b: Seq<u8>, n: int)
    requires
        atom_len(b) == Ok::<Option<int>, AtomError>(Some(n)),
    ensures
        8 <= n <= b.len(),
        b.take(n) + b.skip(n) == b,
{
}

/// What follows a complete box does not change where it ends.
pub proof fn atom_len_is_stable(b: Seq<u8>, more: Seq<u8>)
    requires
        !header_cut(b),
        atom_len(b) != Ok::<Option<int>, AtomError>(None),
    ensures
        atom_len(b + more) == atom_len(b),
{
    let c = b + more;
    if b.len() >= 8 {
        assert(be32(c, 0) == be32(b, 0));
        if be32(b, 0) == 1 {
            assert(be64(c, 8) == be64(b, 8));
        }
    }
}

/// Whether a stream starts with a whole box of `n` bytes whose type is `name`: its
/// size stands in four bytes before the type, or, behind the number one there, in
/// eight bytes after it.
pub open spec fn starts_with_box(b: Seq<u8>, n: int, name: Seq<u8>) -> bool {
    &&& 8 <= n <= b.len()
    &&& name == seq![b[4], b[5], b[6], b[7]]
    &&& {
        ||| b[0] * 16777216 + b[1] * 65536 + b[2] * 256 + b[3] == n
        ||| 16 <= n && b[0] == 0 && b[1] == 0 && b[2] == 0 && b[3] == 1 && (b[8] * 16777216 + b[9]
            * 65536 + b[10] * 256 + b[11]) * 4294967296 + b[12] * 16777216 + b[13] * 65536 + b[14]
            * 256 + b[15] == n
    }
}

/// A whole box comes off the stream, that box and nothing else, and what follows it
/// stays.
pub proof fn whole_boxes_come_off(
    buf: &mut bytes::BytesMut,
    n: int,
    name: Seq<u8>,
    r: Result<Option<bytes::Bytes>, AtomError>,
)
    requires
        call_ensures(next_atom, (buf,), r),
        starts_with_box(buffered(*old(buf)), n, name),
    ensures
        r matches Ok(Some(atom)) && frozen(atom) == buffered(*old(buf)).take(n),
        buffered(*final(buf)) == buffered(*old(buf)).skip(n),
{
}

/// A box that has arrived in part, header or contents, stays on the stream, and there
/// is no error.
pub proof fn parts_of_boxes_stay(
    buf: &mut bytes::BytesMut,
    all: Seq<u8>,
    n: int,
    name: Seq<u8>,
    r: Result<Option<bytes::Bytes>, AtomError>,
)
    requires
        call_ensures(next_atom, (buf,), r),
        starts_with_box(all, n, name),
        buffered(*old(buf)).len() < n,
        buffered(*old(buf)) == all.take(buffered(*old(buf)).len() as int),
        buffered(*old(buf)).len() < 8 || buffered(*old(buf)).len() >= 16 || all[3] != 1 || all[2]
            != 0 || all[1] != 0 || all[0] != 0,
    ensures
        r == Ok::<Option<bytes::Bytes>, AtomError>(None),
        buffered(*final(buf)) == buffered(*old(buf)),
{
    let b = buffered(*old(buf));
    if b.len() >= 8 {
        assert forall|i: int| 0 <= i < b.len() implies b[i] == all[i] by {}
    }
}

/// A size that cannot cover its own header is an error that tells the size, and
/// nothing comes off the stream.
pub proof fn impossible_sizes_are_errors(
    buf: &mut bytes::BytesMut,
    r: Result<Option<bytes::Bytes>, AtomError>,
)
    requires
        call_ensures(next_atom, (buf,), r),
        buffered(*old(buf)).len() >= 16,
    ensures
        ({
            let b = buffered(*old(buf));
            let short = b[0] * 16777216 + b[1] * 65536 + b[2] * 256 + b[3];
            let long = (b[8] * 16777216 + b[9] * 65536 + b[10] * 256 + b[11]) * 4294967296 + b[12]
                * 16777216 + b[13] * 65536 + b[14] * 256 + b[15];
            &&& short == 0 ==> r == Err::<Option<bytes::Bytes>, AtomError>(AtomError::ToEnd)
            &&& 1 < short < 8 ==> r == Err::<Option<bytes::Bytes>, AtomError>(
                AtomError::Size(short as u64),
            )
            &&& short == 1 && long < 16 ==> r == Err::<Option<bytes::Bytes>, AtomError>(
                AtomError::ExtendedSize(long as u64),
            )
            &&& r is Err ==> buffered(*final(buf)) == b && (short < 8 && (short == 1 ==> long < 16))
        }),
{
}

/// A header is cut where its size is written in sixteen bytes and not all are there.
pub proof fn a_long_header_takes_sixteen_bytes(buf: &bytes::BytesMut, r: bool)
    requires
        call_ensures(is_header_cut, (buf,), r),
    ensures
        ({
            let b = buffered(*buf);
            r == (b.len() >= 8 && b[0] == 0 && b[1] == 0 && b[2] == 0 && b[3] == 1 && b.len() < 16)
        }),
{
}

} // verus!
