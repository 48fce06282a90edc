//! The box structure of an MP4 file.

use crate::media::atom::starts_with_box;
use crate::bytes_be::{be32, be64, read_be32, read_be64};
use vstd::prelude::*;

verus! {

/// `ftyp`
pub const FTYP: u32 = 0x6674_7970;

/// `moov`
pub const MOOV: u32 = 0x6d6f_6f76;

/// `moof`
pub const MOOF: u32 = 0x6d6f_6f66;

/// `mdat`
pub const MDAT: u32 = 0x6d64_6174;

/// `traf`
pub const TRAF: u32 = 0x7472_6166;

/// `trak`
pub const TRAK: u32 = 0x7472_616b;

/// `mdia`
pub const MDIA: u32 = 0x6d64_6961;

/// `minf`
pub const MINF: u32 = 0x6d69_6e66;

/// `dinf`
pub const DINF: u32 = 0x6469_6e66;

/// `stbl`
pub const STBL: u32 = 0x7374_626c;

/// `mvex`
pub const MVEX: u32 = 0x6d76_6578;

/// `udta`
pub const UDTA: u32 = 0x7564_7461;

/// `meta`
pub const META: u32 = 0x6d65_7461;

/// `hdlr`
pub const HDLR: u32 = 0x6864_6c72;

/// `ilst`
pub const ILST: u32 = 0x696c_7374;

/// `data`
pub const DATA: u32 = 0x6461_7461;

/// `trun`
pub const TRUN: u32 = 0x7472_756e;

/// `edts`
pub const EDTS: u32 = 0x6564_7473;

/// `dref`
pub const DREF: u32 = 0x6472_6566;

/// `stsd`
pub const STSD: u32 = 0x7374_7364;

/// `stts`
pub const STTS: u32 = 0x7374_7473;

/// `ctts`
pub const CTTS: u32 = 0x6374_7473;

/// `stss`
pub const STSS: u32 = 0x7374_7373;

/// `stsc`
pub const STSC: u32 = 0x7374_7363;

/// `stsz`
pub const STSZ: u32 = 0x7374_737a;

/// `stco`
pub const STCO: u32 = 0x7374_636f;

/// `co64`
pub const CO64: u32 = 0x636f_3634;

/// `elst`
pub const ELST: u32 = 0x656c_7374;

/// `url `
pub const URL: u32 = 0x7572_6c20;

/// The handler of a `meta` that holds an `ilst`: `mdir`.
pub const MDIR: u32 = 0x6d64_6972;

/// The title item of an `ilst`.
pub const ITEM_NAME: u32 = 0xa96e_616d;

/// The year item of an `ilst`.
pub const ITEM_DAY: u32 = 0xa964_6179;

/// `covr`
pub const ITEM_COVER: u32 = 0x636f_7672;

/// `desc`
pub const ITEM_DESC: u32 = 0x6465_7363;

/// The header of a box: its type, its own length, and the size of the box
/// counted from eight bytes before its contents.
#[derive(Clone, Copy, Debug, PartialEq, Eq, Structural)]
pub struct BoxHead {
    pub name: u32,
    pub size: u64,
    pub head: u64,
}

/// The header of the box at `at`.
///
/// Four bytes of size and four of type; a size of one says that eight bytes of
/// size follow. There is none where the bytes end too early, or where the long
/// size is too small to cover the header itself.
pub open spec fn box_head(b: Seq<u8>, at: int) -> Option<BoxHead> {
    if at < 0 || at + 8 > b.len() {
        None
    } else if be32(b, at) != 1 {
        Some(BoxHead { name: be32(b, at + 4) as u32, size: be32(b, at) as u64, head: 8 })
    } else if at + 16 > b.len() || 1 <= be64(b, at + 8) < 16 {
        None
    } else {
        Some(
            BoxHead {
                name: be32(b, at + 4) as u32,
                size: (if be64(b, at + 8) == 0 {
                    0
                } else {
                    be64(b, at + 8) - 8
                }) as u64,
                head: 16,
            },
        )
    }
}

impl BoxHead {
    /// The length of the box, header and all.
    pub open spec fn len(self) -> int {
        self.head - 8 + self.size
    }
}

/// Reads the header of the box at `at`.
pub fn read_box_head(b: &[u8], at: usize) -> (r: Option<BoxHead>)
    ensures
        r == box_head(b@, at as int),
{
    let len: usize = b.len();
    if at > len || len - at < 8 {
        return None;
    }
    let size: u32 = read_be32(b, at);
    let name: u32 = read_be32(b, at + 4);
    if size != 1 {
        return Some(BoxHead { name, size: size as u64, head: 8 });
    }
    if len - at < 16 {
        return None;
    }
    let large: u64 = read_be64(b, at + 8);
    if large == 0 {
        Some(BoxHead { name, size: 0, head: 16 })
    } else if large < 16 {
        None
    } else {
        Some(BoxHead { name, size: large - 8, head: 16 })
    }
}

/// A header tells the type and the length of its box, however the size is written.
pub proof fn a_header_tells_type_and_length(b: &[u8], at: usize, n: int, r: Option<BoxHead>)
    requires
        call_ensures(read_box_head, (b, at), r),
        at <= b@.len(),
        starts_with_box(b@.skip(at as int), n, b@.subrange(at + 4, at + 8)),
    ensures
        r matches Some(h) && h.len() == n && h.name == b@[at + 4] * 16777216 + b@[at + 5] * 65536
            + b@[at + 6] * 256 + b@[at + 7] && (h.head == 8 || h.head == 16) && h.head <= n,
{
}

/// Without eight bytes there is no header, nor without the eight of a long size, nor
/// where that size is too small for the header.
pub proof fn a_header_needs_its_bytes(b: &[u8], at: usize, r: Option<BoxHead>)
    requires
        call_ensures(read_box_head, (b, at), r),
    ensures
        at + 8 > b@.len() ==> r is None,
        r matches Some(h) ==> at + h.head <= b@.len() && (h.head == 16) == (b@[at as int] == 0
            && b@[at + 1] == 0 && b@[at + 2] == 0 && b@[at + 3] == 1) && (h.head == 16 ==> h.len()
            == 8 || h.len() >= 16),
{
}

/// The boxes whose contents are boxes.
#[derive(Clone, Copy, Debug, PartialEq, Eq, Structural)]
pub enum Container {
    Moof,
    Traf,
    Moov,
    Trak,
    Mdia,
    Minf,
    Dinf,
    Stbl,
    Mvex,
    Udta,
    Meta,
    Ilst,
    Item,
}

impl Container {
    /// How deep containers nest below this one, at most.
    pub open spec fn depth(self) -> nat {
        match self {
            Container::Moov => 6,
            Container::Trak => 5,
            Container::Mdia => 4,
            Container::Udta => 4,
            Container::Minf => 3,
            Container::Meta => 3,
            Container::Ilst => 1,
            Container::Moof => 1,
            _ => 0,
        }
    }

    /// The container that a box of type `name` is inside this one.
    pub open spec fn inner(self, name: u32) -> Option<Container> {
        match self {
            Container::Moof => if name == TRAF {
                Some(Container::Traf)
            } else {
                None
            },
            Container::Moov => if name == TRAK {
                Some(Container::Trak)
            } else if name == MVEX {
                Some(Container::Mvex)
            } else if name == META {
                Some(Container::Meta)
            } else if name == UDTA {
                Some(Container::Udta)
            } else {
                None
            },
            Container::Trak => if name == META {
                Some(Container::Meta)
            } else if name == MDIA {
                Some(Container::Mdia)
            } else {
                None
            },
            Container::Mdia => if name == MINF {
                Some(Container::Minf)
            } else {
                None
            },
            Container::Minf => if name == DINF {
                Some(Container::Dinf)
            } else if name == STBL {
                Some(Container::Stbl)
            } else {
                None
            },
            Container::Udta => if name == META {
                Some(Container::Meta)
            } else {
                None
            },
            Container::Ilst => if name == ITEM_NAME || name == ITEM_DAY || name == ITEM_COVER || name
                == ITEM_DESC {
                Some(Container::Item)
            } else {
                None
            },
            _ => None,
        }
    }

    /// The container that a box of type `name` is inside this one.
    pub fn get_inner(self, name: u32) -> (r: Option<Container>)
        ensures
            r == self.inner(name),
    {
        match self {
            Container::Moof if name == TRAF => Some(Container::Traf),
            Container::Moov if name == TRAK => Some(Container::Trak),
            Container::Moov if name == MVEX => Some(Container::Mvex),
            Container::Moov if name == META => Some(Container::Meta),
            Container::Moov if name == UDTA => Some(Container::Udta),
            Container::Trak if name == META => Some(Container::Meta),
            Container::Trak if name == MDIA => Some(Container::Mdia),
            Container::Mdia if name == MINF => Some(Container::Minf),
            Container::Minf if name == DINF => Some(Container::Dinf),
            Container::Minf if name == STBL => Some(Container::Stbl),
            Container::Udta if name == META => Some(Container::Meta),
            Container::Ilst if name == ITEM_NAME || name == ITEM_DAY || name == ITEM_COVER || name
                == ITEM_DESC => Some(Container::Item),
            _ => None,
        }
    }
}

/// Where the boxes inside a `meta` begin, given where its contents do.
///
/// There are four bytes of version and flags before them, or they start with the
/// `hdlr` at once. A reader fails where it finds neither.
pub open spec fn meta_first(b: Seq<u8>, body: int) -> Option<int> {
    if body + 4 > b.len() {
        None
    } else if be32(b, body) == 0 {
        Some(body + 4)
    } else if body + 8 <= b.len() && be32(b, body + 4) == HDLR {
        Some(body)
    } else {
        None
    }
}

/// Whether the entries can be there whose number stands at `at`, if that is there:
/// each takes four bytes at least.
pub open spec fn countable(b: Seq<u8>, at: int) -> bool {
    at + 4 <= b.len() ==> be32(b, at) * 4 <= b.len()
}

/// Whether the samples of a `trun` can be there, if anything is said of each.
pub open spec fn run_loadable(b: Seq<u8>, body: int) -> bool {
    body + 8 <= b.len() && b[body + 2] & 0x0f != 0 ==> countable(b, body + 4)
}

/// Whether the `elst` in an `edts` can be read over, and its entries can be there.
pub open spec fn edits_loadable(b: Seq<u8>, body: int, size: int) -> bool {
    match box_head(b, body) {
        Some(e) if e.size <= size && e.name == ELST => {
            &&& body + e.len() <= u64::MAX
            &&& countable(b, body + e.head + 4)
        },
        _ => true,
    }
}

/// Whether the addresses in a `dref` can be there, from the box at `at` on, of which
/// there are `count`. One that is longer than its header is read but for its last
/// byte. A box of no length is read over and over, until all have been counted.
pub open spec fn refs_loadable(b: Seq<u8>, at: int, end: int, size: int, count: int) -> bool
    decreases count,
{
    if count <= 0 {
        true
    } else {
        match box_head(b, at) {
            Some(h) if h.size <= size => {
                &&& at + h.len() <= u64::MAX
                &&& h.name == URL && h.size > 12 ==> at + h.len() <= b.len() + 1
                &&& h.len() == 0 || at + h.len() >= end || refs_loadable(
                    b,
                    at + h.len(),
                    end,
                    size,
                    count - 1,
                )
            },
            _ => true,
        }
    }
}

/// Whether the table or the description in a box of a `stbl` can be there.
pub open spec fn table_loadable(b: Seq<u8>, body: int, h: BoxHead) -> bool {
    if h.name == STTS || h.name == CTTS || h.name == STSS || h.name == STSC || h.name == STCO
        || h.name == CO64 {
        countable(b, body + 4)
    } else if h.name == STSZ {
        body + 8 <= b.len() && be32(b, body + 4) == 0 ==> countable(b, body + 8)
    } else if h.name == STSD {
        match box_head(b, body + 8) {
            Some(e) if e.size <= h.size => b.len() + e.size <= u64::MAX,
            _ => true,
        }
    } else {
        true
    }
}

/// Whether what a reader of a `kind` takes into memory of the box at `at` can be
/// there. Where it is not, a reader fails; before that it may ask for more memory
/// than there is.
pub open spec fn loadable(b: Seq<u8>, kind: Container, at: int, h: BoxHead) -> bool {
    let body = at + h.head;
    match kind {
        Container::Traf => h.name == TRUN ==> run_loadable(b, body),
        Container::Trak => h.name == EDTS ==> edits_loadable(b, body, h.size as int),
        Container::Mdia => h.name == HDLR ==> at + h.len() <= b.len() + 1,
        Container::Meta => h.name == HDLR ==> at + h.len() <= b.len() + 1,
        Container::Dinf => h.name == DREF && body + 8 <= b.len() && body < at + h.len()
            ==> refs_loadable(b, body + 8, at + h.len(), h.size as int, be32(b, body + 4) as int),
        Container::Stbl => table_loadable(b, body, h),
        Container::Item => h.name == DATA ==> 16 <= h.size && at + h.len() <= b.len(),
        _ => true,
    }
}

/// Whether a reader of a `kind` can step over the box at `at` and take into memory
/// what it takes: the box is longer than nothing, its end has a number of 64 bits,
/// and what is loaded can be there.
pub open spec fn steppable(b: Seq<u8>, kind: Container, at: int, h: BoxHead) -> bool {
    &&& 0 < h.len()
    &&& at + h.len() <= u64::MAX
    &&& loadable(b, kind, at, h)
}

/// Whether a reader can step over the boxes of a `meta` from `at` until it is at or
/// behind `end`, or fails. No box is held against the `meta` in size.
pub open spec fn meta_moves(b: Seq<u8>, at: int, end: int) -> bool
    decreases
            (if at < end {
                end - at
            } else {
                0
            }),
{
    if at >= end {
        true
    } else {
        match box_head(b, at) {
            None => true,
            Some(h) => steppable(b, Container::Meta, at, h) && meta_moves(b, at + h.len(), end),
        }
    }
}

/// Where a reader is once it has stepped over the boxes of a `meta` from `at`: where
/// the last of them ends, at `end` or behind it. Nowhere where it fails.
pub open spec fn meta_stop(b: Seq<u8>, at: int, end: int) -> Option<int>
    decreases
            (if at < end {
                end - at
            } else {
                0
            }),
{
    if at >= end {
        Some(at)
    } else {
        match box_head(b, at) {
            None => None,
            Some(h) => if 0 < h.len() {
                meta_stop(b, at + h.len(), end)
            } else {
                None
            },
        }
    }
}

/// The handler that the boxes of a `meta` from `at` name: that of the last `hdlr`,
/// else the one that was found before.
pub open spec fn meta_handler(b: Seq<u8>, at: int, end: int, found: Option<u32>) -> Option<u32>
    decreases
            (if at < end {
                end - at
            } else {
                0
            }),
{
    if at >= end {
        found
    } else {
        match box_head(b, at) {
            None => found,
            Some(h) => if 0 < h.len() {
                meta_handler(b, at + h.len(), end, handler_at(b, at, h, found))
            } else {
                found
            },
        }
    }
}

/// The handler that the box at `at` names, if it is a `hdlr`; else the one that was
/// found before.
pub open spec fn handler_at(b: Seq<u8>, at: int, h: BoxHead, found: Option<u32>) -> Option<u32> {
    if h.name == HDLR && at + h.head + 12 <= b.len() {
        Some(be32(b, at + h.head + 8) as u32)
    } else {
        found
    }
}

/// Whether a reader can take the boxes of a `meta` from `at` into memory, as it does
/// where it does not know the handler: all but the `hdlr`.
pub open spec fn parts_loadable(b: Seq<u8>, at: int, end: int) -> bool
    decreases
            (if at < end {
                end - at
            } else {
                0
            }),
{
    if at >= end {
        true
    } else {
        match box_head(b, at) {
            None => true,
            Some(h) => {
                &&& 0 < h.len()
                &&& h.name == HDLR || 8 <= h.size && at + h.len() <= b.len()
                &&& parts_loadable(b, at + h.len(), end)
            },
        }
    }
}

/// Where a reader goes on behind a `meta` whose contents begin at `body`: where the
/// last box in it ends, though that be behind the `meta`. Nowhere where it fails.
pub open spec fn meta_end(b: Seq<u8>, body: int, end: int) -> Option<int> {
    match meta_first(b, body) {
        None => None,
        Some(first) => match meta_handler(b, first, end, None) {
            None => None,
            Some(_) => meta_stop(b, first, end),
        },
    }
}

/// Where a reader of a `kind` goes on behind the box at `at`. Nowhere where it fails.
pub open spec fn behind(b: Seq<u8>, kind: Container, at: int, h: BoxHead) -> Option<int> {
    if kind.inner(h.name) == Some(Container::Meta) {
        meta_end(b, at + h.head, at + h.len())
    } else {
        Some(at + h.len())
    }
}

/// Whether the boxes inside a `meta` can be walked.
///
/// A reader goes over them once in search of the `hdlr`, and fails without one. Then
/// it goes over them again: it walks the `ilst`s where the handler is `mdir`, else it
/// takes all into memory.
pub open spec fn meta_walkable(b: Seq<u8>, body: int, end: int) -> bool
    decreases 3nat, 0int,
{
    match meta_first(b, body) {
        None => true,
        Some(first) => {
            &&& meta_moves(b, first, end)
            &&& match (meta_stop(b, first, end), meta_handler(b, first, end, None)) {
                (Some(_), Some(handler)) => if handler == MDIR {
                    lists_walkable(b, first, end)
                } else {
                    parts_loadable(b, first, end)
                },
                _ => true,
            }
        },
    }
}

/// Whether each `ilst` among the boxes of a `meta` from `at` can be walked.
pub open spec fn lists_walkable(b: Seq<u8>, at: int, end: int) -> bool
    decreases
            2nat,
            (if at < end {
                end - at
            } else {
                0
            }),
{
    if at >= end {
        true
    } else {
        match box_head(b, at) {
            None => true,
            Some(h) => {
                &&& 0 < h.len()
                &&& h.name == ILST ==> walkable(
                    b,
                    Container::Ilst,
                    at + h.head,
                    at + h.len(),
                    h.size as int,
                )
                &&& lists_walkable(b, at + h.len(), end)
            },
        }
    }
}

/// Whether the boxes of a container from `at` to `end` can be walked one by one,
/// at every level, up to the place where a reader fails because the bytes end
/// or because a box claims to be larger than the container.
///
/// What this rules out is a box of size zero, on which the walk would never move
/// on, and a box to be taken into memory that cannot be there.
pub open spec fn walkable(b: Seq<u8>, kind: Container, at: int, end: int, size: int) -> bool
    decreases
            kind.depth(),
            (if at < end {
                end - at
            } else {
                0
            }),
{
    if at >= end {
        true
    } else {
        match box_head(b, at) {
            None => true,
            Some(h) => if h.size > size {
                true
            } else if !steppable(b, kind, at, h) {
                false
            } else {
                proof {
                    lemma_behind(b, kind, at, h);
                }
                &&& match kind.inner(h.name) {
                    None => true,
                    Some(Container::Meta) => meta_walkable(b, at + h.head, at + h.len()),
                    Some(k) => walkable(b, k, at + h.head, at + h.len(), h.size as int),
                }
                &&& match behind(b, kind, at, h) {
                    None => true,
                    Some(next) => walkable(b, kind, next, end, size),
                }
            },
        }
    }
}

/// Stepping over boxes never goes back.
proof fn lemma_meta_stop(b: Seq<u8>, at: int, end: int)
    ensures
        meta_stop(b, at, end) matches Some(p) ==> p >= at,
    decreases
            (if at < end {
                end - at
            } else {
                0
            }),
{
    if at < end {
        match box_head(b, at) {
            Some(h) => if 0 < h.len() {
                lemma_meta_stop(b, at + h.len(), end);
            },
            None => {},
        }
    }
}

/// A reader that steps over a box moves on.
pub proof fn lemma_behind(b: Seq<u8>, kind: Container, at: int, h: BoxHead)
    requires
        box_head(b, at) == Some(h),
        0 < h.len(),
    ensures
        behind(b, kind, at, h) matches Some(p) ==> p > at,
{
    match meta_first(b, at + h.head) {
        Some(first) => lemma_meta_stop(b, first, at + h.len()),
        None => {},
    }
}

/// Whether the box at the start of `b`, headed by `h`, can be walked.
pub open spec fn box_walkable(b: Seq<u8>, kind: Container, h: BoxHead) -> bool {
    if kind == Container::Meta {
        meta_walkable(b, h.head as int, h.len())
    } else {
        walkable(b, kind, h.head as int, h.len(), h.size as int)
    }
}

fn find_meta_first(b: &[u8], body: usize) -> (r: Option<u64>)
    requires
        body <= b.len(),
        b.len() <= 0x4000_0000_0000_0000,
    ensures
        r is Some == (meta_first(b@, body as int) is Some),
        r matches Some(f) ==> meta_first(b@, body as int) == Some(f as int),
{
    let len: usize = b.len();
    if len - body < 4 {
        None
    } else if read_be32(b, body) == 0 {
        Some(body as u64 + 4)
    } else if len - body >= 8 && read_be32(b, body + 4) == HDLR {
        Some(body as u64)
    } else {
        None
    }
}

/// Reads the header of the box at `at`, wherever that is.
fn read_head_at(b: &[u8], at: u64) -> (r: Option<BoxHead>)
    ensures
        r == box_head(b@, at as int),
        r is Some ==> at + 8 <= b.len() && 8 <= r->Some_0.head <= 16 && at + r->Some_0.head
            <= b.len(),
{
    if at > b.len() as u64 {
        return None;
    }
    read_box_head(b, at as usize)
}

fn is_countable(b: &[u8], at: u64) -> (r: bool)
    ensures
        r == countable(b@, at as int),
{
    let len: u64 = b.len() as u64;
    if at > len || len - at < 4 {
        return true;
    }
    read_be32(b, at as usize) as u64 * 4 <= b.len() as u64
}

fn check_run(b: &[u8], body: usize) -> (r: bool)
    requires
        b.len() <= 0x4000_0000_0000_0000,
        body <= b.len(),
    ensures
        r == run_loadable(b@, body as int),
{
    b.len() - body < 8 || b[body + 2] & 0x0f == 0 || is_countable(b, body as u64 + 4)
}

fn check_edits(b: &[u8], body: usize, size: u64) -> (r: bool)
    requires
        b.len() <= 0x4000_0000_0000_0000,
        body <= b.len(),
    ensures
        r == edits_loadable(b@, body as int, size as int),
{
    match read_box_head(b, body) {
        Some(e) => e.size > size || e.name != ELST || (e.size <= u64::MAX - body as u64 - (e.head
            - 8) && is_countable(b, body as u64 + e.head + 4)),
        None => true,
    }
}

fn check_refs(b: &[u8], first: usize, end: u64, size: u64, count: u32) -> (r: bool)
    requires
        b.len() <= 0x4000_0000_0000_0000,
    ensures
        r == refs_loadable(b@, first as int, end as int, size as int, count as int),
{
    let mut at: u64 = first as u64;
    let mut left: u32 = count;
    while left > 0
        invariant
            b.len() <= 0x4000_0000_0000_0000,
            refs_loadable(b@, first as int, end as int, size as int, count as int)
                == refs_loadable(b@, at as int, end as int, size as int, left as int),
        decreases left,
    {
        let h: BoxHead = match read_head_at(b, at) {
            None => {
                return true;
            },
            Some(h) => h,
        };
        if h.size > size {
            return true;
        }
        if h.size > u64::MAX - at - (h.head - 8) {
            return false;
        }
        let next: u64 = at + (h.head - 8) + h.size;
        if h.name == URL && h.size > 12 && next > b.len() as u64 + 1 {
            return false;
        }
        if next == at || next >= end {
            return true;
        }
        at = next;
        left = left - 1;
    }
    true
}

fn check_table(b: &[u8], body: usize, h: &BoxHead) -> (r: bool)
    requires
        b.len() <= 0x4000_0000_0000_0000,
        body <= b.len(),
    ensures
        r == table_loadable(b@, body as int, *h),
{
    let name: u32 = h.name;
    if name == STTS || name == CTTS || name == STSS || name == STSC || name == STCO || name == CO64 {
        is_countable(b, body as u64 + 4)
    } else if name == STSZ {
        b.len() - body < 8 || read_be32(b, body + 4) != 0 || is_countable(b, body as u64 + 8)
    } else if name == STSD {
        match read_head_at(b, body as u64 + 8) {
            Some(e) => e.size > h.size || e.size <= u64::MAX - b.len() as u64,
            None => true,
        }
    } else {
        true
    }
}

fn is_loadable(b: &[u8], kind: Container, at: usize, h: &BoxHead) -> (r: bool)
    requires
        b.len() <= 0x4000_0000_0000_0000,
        8 <= h.head <= 16,
        at + h.head <= b.len(),
        at + h.len() <= u64::MAX,
    ensures
        r == loadable(b@, kind, at as int, *h),
{
    let body: usize = at + h.head as usize;
    let end: u64 = at as u64 + (h.head - 8) + h.size;
    let name: u32 = h.name;
    match kind {
        Container::Traf => name != TRUN || check_run(b, body),
        Container::Trak => name != EDTS || check_edits(b, body, h.size),
        Container::Mdia => name != HDLR || end <= b.len() as u64 + 1,
        Container::Meta => name != HDLR || end <= b.len() as u64 + 1,
        Container::Dinf => {
            if name != DREF || b.len() - body < 8 || body as u64 >= end {
                return true;
            }
            check_refs(b, body + 8, end, h.size, read_be32(b, body + 4))
        },
        Container::Stbl => check_table(b, body, h),
        Container::Item => name != DATA || (h.size >= 16 && end <= b.len() as u64),
        _ => true,
    }
}

fn is_steppable(b: &[u8], kind: Container, at: usize, h: &BoxHead) -> (r: bool)
    requires
        b.len() <= 0x4000_0000_0000_0000,
        8 <= h.head <= 16,
        at + h.head <= b.len(),
    ensures
        r == steppable(b@, kind, at as int, *h),
{
    if h.head == 8 && h.size == 0 || h.size > u64::MAX - at as u64 - (h.head - 8) {
        return false;
    }
    is_loadable(b, kind, at, h)
}

fn check_parts(b: &[u8], first: u64, end: u64) -> (r: bool)
    requires
        b.len() <= 0x4000_0000_0000_0000,
        meta_moves(b@, first as int, end as int),
    ensures
        r == parts_loadable(b@, first as int, end as int),
{
    let mut at: u64 = first;
    while at < end
        invariant
            b.len() <= 0x4000_0000_0000_0000,
            meta_moves(b@, at as int, end as int),
            parts_loadable(b@, first as int, end as int) == parts_loadable(
                b@,
                at as int,
                end as int,
            ),
        decreases
            (if at < end {
                end - at
            } else {
                0
            }),
    {
        let h: BoxHead = match read_head_at(b, at) {
            None => {
                return true;
            },
            Some(h) => h,
        };
        let next: u64 = at + (h.head - 8) + h.size;
        if h.name != HDLR && (h.size < 8 || next > b.len() as u64) {
            return false;
        }
        at = next;
    }
    true
}

fn check_lists(b: &[u8], first: u64, end: u64) -> (r: bool)
    requires
        b.len() <= 0x4000_0000_0000_0000,
        meta_moves(b@, first as int, end as int),
    ensures
        r == lists_walkable(b@, first as int, end as int),
    decreases 2nat,
{
    let mut at: u64 = first;
    while at < end
        invariant
            b.len() <= 0x4000_0000_0000_0000,
            meta_moves(b@, at as int, end as int),
            lists_walkable(b@, first as int, end as int) == lists_walkable(
                b@,
                at as int,
                end as int,
            ),
        decreases
            (if at < end {
                end - at
            } else {
                0
            }),
    {
        let h: BoxHead = match read_head_at(b, at) {
            None => {
                return true;
            },
            Some(h) => h,
        };
        let next: u64 = at + (h.head - 8) + h.size;
        if h.name == ILST && !check_walk(b, Container::Ilst, at + h.head, next, h.size) {
            return false;
        }
        at = next;
    }
    true
}

/// Whether the boxes of a `meta` can be walked, and where a reader goes on behind
/// them.
fn check_meta(b: &[u8], body: usize, end: u64) -> (r: (bool, Option<u64>))
    requires
        b.len() <= 0x4000_0000_0000_0000,
        body <= b.len(),
    ensures
        r.0 == meta_walkable(b@, body as int, end as int),
        r.0 ==> (match r.1 {
            Some(p) => meta_end(b@, body as int, end as int) == Some(p as int),
            None => meta_end(b@, body as int, end as int) is None,
        }),
    decreases 3nat,
{
    let first: u64 = match find_meta_first(b, body) {
        Some(f) => f,
        None => {
            return (true, None);
        },
    };
    let mut at: u64 = first;
    let mut found: Option<u32> = None;
    while at < end
        invariant
            b.len() <= 0x4000_0000_0000_0000,
            meta_first(b@, body as int) == Some(first as int),
            meta_moves(b@, first as int, end as int) == meta_moves(b@, at as int, end as int),
            meta_stop(b@, first as int, end as int) == meta_stop(b@, at as int, end as int),
            meta_handler(b@, first as int, end as int, None) == meta_handler(
                b@,
                at as int,
                end as int,
                found,
            ),
        decreases
            (if at < end {
                end - at
            } else {
                0
            }),
    {
        let h: BoxHead = match read_head_at(b, at) {
            None => {
                return (true, None);
            },
            Some(h) => h,
        };
        if !is_steppable(b, Container::Meta, at as usize, &h) {
            return (false, None);
        }
        let contents: usize = at as usize + h.head as usize;
        if h.name == HDLR && b.len() - contents >= 12 {
            found = Some(read_be32(b, contents + 8));
        }
        at = at + (h.head - 8) + h.size;
    }
    match found {
        None => (true, None),
        Some(handler) => {
            let ok: bool = if handler == MDIR {
                check_lists(b, first, end)
            } else {
                check_parts(b, first, end)
            };
            (ok, Some(at))
        },
    }
}

#[verifier::spinoff_prover]
#[verifier::rlimit(40)]
fn check_walk(b: &[u8], kind: Container, first: u64, end: u64, size: u64) -> (r: bool)
    requires
        b.len() <= 0x4000_0000_0000_0000,
    ensures
        r == walkable(b@, kind, first as int, end as int, size as int),
    decreases kind.depth(),
{
    let mut at: u64 = first;
    while at < end
        invariant
            b.len() <= 0x4000_0000_0000_0000,
            walkable(b@, kind, first as int, end as int, size as int) == walkable(
                b@,
                kind,
                at as int,
                end as int,
                size as int,
            ),
        decreases
            (if at < end {
                end - at
            } else {
                0
            }),
    {
        let h: BoxHead = match read_head_at(b, at) {
            None => {
                return true;
            },
            Some(h) => h,
        };
        if h.size > size {
            return true;
        }
        if !is_steppable(b, kind, at as usize, &h) {
            return false;
        }
        proof {
            lemma_behind(b@, kind, at as int, h);
        }
        let after: u64 = at + (h.head - 8) + h.size;
        let mut next: u64 = after;
        match kind.get_inner(h.name) {
            Some(Container::Meta) => {
                let (ok, p): (bool, Option<u64>) = check_meta(
                    b,
                    at as usize + h.head as usize,
                    after,
                );
                if !ok {
                    return false;
                }
                match p {
                    Some(p) => {
                        next = p;
                    },
                    None => {
                        return true;
                    },
                }
            },
            Some(k) => {
                if !check_walk(b, k, at + h.head, after, h.size) {
                    return false;
                }
            },
            None => {},
        }
        at = next;
    }
    true
}

/// Whether the box at the start of `b`, headed by `h`, can be walked.
pub fn check_box(b: &[u8], kind: Container, h: &BoxHead) -> (r: bool)
    requires
        b.len() <= 0x4000_0000_0000_0000,
        8 <= h.head <= b.len(),
        h.len() <= u64::MAX,
    ensures
        r == box_walkable(b@, kind, *h),
{
    let end: u64 = h.head - 8 + h.size;
    match kind {
        Container::Meta => check_meta(b, h.head as usize, end).0,
        _ => check_walk(b, kind, h.head, end, h.size),
    }
}

/// The four letters of a type, as a number.
pub open spec fn letters(a: char, b: char, c: char, d: char) -> int {
    a as int * 16777216 + b as int * 65536 + c as int * 256 + d as int
}

/// Which boxes hold boxes, by their types: fragments of tracks in a fragment of the movie;
/// tracks, defaults, metadata and user data in the movie; metadata and media in a track;
/// and so on down to the tables of samples.
pub proof fn boxes_nest_by_their_types(kind: Container, name: u32, r: Option<Container>)
    requires
        call_ensures(Container::get_inner, (kind, name), r),
    ensures
        r == Some(Container::Traf) <==> kind == Container::Moof && name == letters('t', 'r', 'a', 'f'),
        r == Some(Container::Trak) <==> kind == Container::Moov && name == letters('t', 'r', 'a', 'k'),
        r == Some(Container::Mvex) <==> kind == Container::Moov && name == letters('m', 'v', 'e', 'x'),
        r == Some(Container::Udta) <==> kind == Container::Moov && name == letters('u', 'd', 't', 'a'),
        r == Some(Container::Meta) <==> (kind == Container::Moov || kind == Container::Trak || kind
            == Container::Udta) && name == letters('m', 'e', 't', 'a'),
        r == Some(Container::Mdia) <==> kind == Container::Trak && name == letters('m', 'd', 'i', 'a'),
        r == Some(Container::Minf) <==> kind == Container::Mdia && name == letters('m', 'i', 'n', 'f'),
        r == Some(Container::Dinf) <==> kind == Container::Minf && name == letters('d', 'i', 'n', 'f'),
        r == Some(Container::Stbl) <==> kind == Container::Minf && name == letters('s', 't', 'b', 'l'),
        r == Some(Container::Item) <==> kind == Container::Ilst && (name == letters(
            '\u{a9}',
            'n',
            'a',
            'm',
        ) || name == letters('\u{a9}', 'd', 'a', 'y') || name == letters('c', 'o', 'v', 'r') || name
            == letters('d', 'e', 's', 'c')),
        r != Some(Container::Moof) && r != Some(Container::Moov) && r != Some(Container::Ilst),
{
}

/// Whether the table, the samples or the description that the box at `at` tells of fit into
/// the bytes.
pub open spec fn told_of(b: Seq<u8>, at: int, h: BoxHead) -> bool {
    let body = at + h.head;
    &&& h.name == TRUN || h.name == STTS || h.name == CTTS || h.name == STSS || h.name == STSC
        || h.name == STCO || h.name == CO64 ==> body + 8 <= b.len() && be32(b, body + 4) * 4
        <= b.len()
    &&& h.name == STSZ ==> body + 12 <= b.len() && be32(b, body + 8) * 4 <= b.len()
    &&& h.name == STSD ==> (box_head(b, body + 8) matches Some(e) && body + 8 + e.len() <= b.len())
    &&& h.name == EDTS ==> (box_head(b, body) matches Some(e) && body + e.len() <= b.len() && be32(
        b,
        body + e.head + 4,
    ) * 4 <= b.len())
    &&& h.name == DREF ==> body + 8 <= b.len() && be32(b, body + 4) <= 1 && (box_head(b, body + 8)
        matches Some(e) ==> body + 8 + e.len() <= b.len())
}

/// Whether whole boxes fill the place from `at` to `end` one behind the other, and so on
/// inside the containers among them, and all that they tell of fits. None of them is a
/// `meta`.
pub open spec fn whole(b: Seq<u8>, kind: Container, at: int, end: int, size: int) -> bool
    decreases
            kind.depth(),
            (if at < end {
                end - at
            } else {
                0
            }),
{
    at == end || (at < end && match box_head(b, at) {
        None => false,
        Some(h) => {
            &&& h.head <= h.len()
            &&& at + h.len() <= end
            &&& at + h.len() <= b.len()
            &&& h.size <= size
            &&& told_of(b, at, h)
            &&& match kind.inner(h.name) {
                None => true,
                Some(Container::Meta) => false,
                Some(k) => whole(b, k, at + h.head, at + h.len(), h.size as int),
            }
            &&& whole(b, kind, at + h.len(), end, size)
        },
    })
}

/// A box that whole boxes fill, and the boxes inside it, is readable.
pub proof fn whole_boxes_can_be_walked(b: &[u8], kind: Container, h: BoxHead, r: bool)
    requires
        call_ensures(check_box, (b, kind, &h), r),
        kind != Container::Meta && kind != Container::Ilst && kind != Container::Item,
        box_head(b@, 0) == Some(h),
        b@.len() <= 0x4000_0000_0000_0000,
        whole(b@, kind, h.head as int, h.len(), h.size as int),
    ensures
        r,
{
    lemma_whole(b@, kind, h.head as int, h.len(), h.size as int);
}

proof fn lemma_whole(b: Seq<u8>, kind: Container, at: int, end: int, size: int)
    requires
        kind != Container::Meta && kind != Container::Ilst && kind != Container::Item,
        b.len() <= 0x4000_0000_0000_0000,
        at >= 0,
        whole(b, kind, at, end, size),
    ensures
        walkable(b, kind, at, end, size),
    decreases
            kind.depth(),
            (if at < end {
                end - at
            } else {
                0
            }),
{
    if at < end {
        let h = box_head(b, at)->Some_0;
        let body = at + h.head;
        reveal_with_fuel(refs_loadable, 2);
        assert(loadable(b, kind, at, h));
        if let Some(k) = kind.inner(h.name) {
            lemma_whole(b, k, body, at + h.len(), h.size as int);
        }
        lemma_whole(b, kind, at + h.len(), end, size);
    }
}

/// A container with a box of no length at its front cannot be walked.
pub proof fn a_box_of_no_length_is_never_passed(
    b: &[u8],
    kind: Container,
    h: BoxHead,
    first: BoxHead,
    r: bool,
)
    requires
        call_ensures(check_box, (b, kind, &h), r),
        kind != Container::Meta,
        h.head < h.len(),
        box_head(b@, h.head as int) == Some(first),
        first.size <= h.size,
        first.len() == 0,
    ensures
        !r,
{
}

/// A container with a box at its front that tells of more entries than the bytes can hold,
/// at four bytes each, cannot be walked.
pub proof fn entries_that_cannot_be_there_are_not_walked(
    b: &[u8],
    kind: Container,
    h: BoxHead,
    first: BoxHead,
    r: bool,
)
    requires
        call_ensures(check_box, (b, kind, &h), r),
        h.head < h.len(),
        box_head(b@, h.head as int) == Some(first),
        first.size <= h.size,
        h.head + first.head + 8 <= b@.len(),
        be32(b@, h.head + first.head + 4) * 4 > b@.len(),
        kind == Container::Traf && first.name == letters('t', 'r', 'u', 'n') && b@[h.head
            + first.head + 2] & 0x0f != 0 || kind == Container::Stbl && (first.name == letters(
            's',
            't',
            't',
            's',
        ) || first.name == letters('c', 't', 't', 's') || first.name == letters('s', 't', 's', 's')
            || first.name == letters('s', 't', 's', 'c') || first.name == letters(
            's',
            't',
            'c',
            'o',
        ) || first.name == letters('c', 'o', '6', '4')),
    ensures
        !r,
{
}

/// The boxes of a `meta` begin behind four bytes of zero, or else at once with its `hdlr`. One
/// that holds a whole `hdlr` can be walked; where the first box in it has no length it cannot.
/// Without either front there is nothing to be walked.
pub proof fn a_meta_begins_with_its_handler(
    b: &[u8],
    h: BoxHead,
    first: int,
    handler: BoxHead,
    r: bool,
)
    requires
        call_ensures(check_box, (b, Container::Meta, &h), r),
        b@.len() <= 0x4000_0000_0000_0000,
        8 <= h.head,
        h.head + 8 <= b@.len(),
        first == (if be32(b@, h.head as int) == 0 {
            h.head + 4
        } else {
            h.head as int
        }),
        box_head(b@, first) == Some(handler),
        first < h.len(),
    ensures
        handler.name == letters('h', 'd', 'l', 'r') && first + handler.len() == h.len()
            && handler.head + 12 <= handler.len() && h.len() <= b@.len() ==> r,
        (first == h.head + 4 || handler.name == letters('h', 'd', 'l', 'r')) && handler.len() == 0
            ==> !r,
        first == h.head && handler.name != letters('h', 'd', 'l', 'r') && be32(b@, h.head + 4)
            != letters('h', 'd', 'l', 'r') ==> r,
{
    reveal_with_fuel(meta_moves, 2);
    reveal_with_fuel(meta_stop, 2);
    reveal_with_fuel(meta_handler, 2);
    reveal_with_fuel(lists_walkable, 2);
    reveal_with_fuel(parts_loadable, 2);
}

} // verus!
