//! Fragments of a track: when they play and whether a viewer can start at them.

use crate::media::movie::{
    durations_match, parsed_moof, read_moof, Moof, Traf, TrafView, Trun, TrunView,
};
use vstd::prelude::*;

verus! {

/// The flag of a track run that says that it lists composition offsets.
pub const FLAG_SAMPLE_CTS: u32 = 0x800;

/// Whether the flags of a sample mark a key frame: it depends on no other sample
/// and is a sync sample.
pub open spec fn key_flags(flags: u32) -> bool {
    flags / 0x100_0000 % 4 == 2 && flags / 0x1_0000 % 2 == 0
}

/// The flags of sample `i`: those that the run gives for its first sample, else
/// those that it lists, else the default of the track fragment, else none.
pub open spec fn flags_of(t: TrafView, run: TrunView, i: int) -> u32 {
    if i == 0 && run.first_sample_flags is Some {
        run.first_sample_flags->Some_0
    } else if i < run.sample_flags.len() {
        run.sample_flags[i]
    } else {
        match t.default_sample_flags {
            Some(f) => f,
            None => 0,
        }
    }
}

/// Whether sample `i` of a track fragment is a key frame.
pub open spec fn key_sample(t: TrafView, i: int) -> bool {
    t.trun matches Some(run) && 0 <= i < run.sample_count && key_flags(flags_of(t, run, i))
}

/// Whether a movie fragment holds a key frame, looking no further than the first
/// track fragment without a run.
pub open spec fn has_keyframe(m: Seq<TrafView>) -> bool {
    exists|j: int, i: int|
        0 <= j < m.len() && (forall|k: int| 0 <= k <= j ==> (#[trigger] m[k]).trun is Some)
            && #[trigger] key_sample(m[j], i)
}

/// The decode time of the first track fragment.
pub open spec fn first_timestamp(m: Seq<TrafView>) -> Option<u64> {
    if m.len() == 0 {
        None
    } else {
        m[0].base_media_decode_time
    }
}

fn is_key_flags(flags: u32) -> (r: bool)
    ensures
        r == key_flags(flags),
{
    let keyframe: bool = (flags >> 24) & 0x3 == 0x2;
    let non_sync: bool = (flags >> 16) & 0x1 == 0x1;
    assert((flags >> 24) & 0x3 == flags / 0x100_0000 % 4) by (bit_vector);
    assert((flags >> 16) & 0x1 == flags / 0x1_0000 % 2) by (bit_vector);
    keyframe && !non_sync
}

fn run_has_key(t: &Traf, run: &Trun) -> (r: bool)
    requires
        t.trun == Some(*run),
    ensures
        r == exists|i: int| key_sample(t@, i),
{
    let default_flags: u32 = match t.default_sample_flags {
        Some(f) => f,
        None => 0,
    };
    let mut i: u32 = 0;
    while i < run.sample_count
        invariant
            t.trun == Some(*run),
            i <= run.sample_count,
            default_flags == (match t.default_sample_flags {
                Some(f) => f,
                None => 0u32,
            }),
            forall|j: int| 0 <= j < i ==> !key_sample(t@, j),
        decreases run.sample_count - i,
    {
        let mut flags: u32 = if (i as usize) < run.sample_flags.len() {
            run.sample_flags[i as usize]
        } else {
            default_flags
        };
        if i == 0 {
            if let Some(f) = run.first_sample_flags {
                flags = f;
            }
        }
        assert(flags == flags_of(t@, run@, i as int));
        if is_key_flags(flags) {
            assert(key_sample(t@, i as int));
            return true;
        }
        i = i + 1;
    }
    false
}

/// Whether a movie fragment holds a key frame.
pub fn sample_keyframe(moof: &Moof) -> (r: bool)
    ensures
        r == has_keyframe(moof@),
{
    let mut j: usize = 0;
    while j < moof.trafs.len()
        invariant
            j <= moof.trafs@.len(),
            forall|k: int| 0 <= k < j ==> (#[trigger] moof@[k]).trun is Some,
            forall|k: int, i: int| 0 <= k < j ==> !#[trigger] key_sample(moof@[k], i),
        decreases moof.trafs@.len() - j,
    {
        let traf: &Traf = &moof.trafs[j];
        assert(moof@[j as int] == traf@);
        match &traf.trun {
            None => {
                assert(moof@[j as int].trun is None);
                return false;
            },
            Some(run) => {
                if run_has_key(traf, run) {
                    let ghost i = choose|i: int| key_sample(traf@, i);
                    assert(key_sample(moof@[j as int], i));
                    return true;
                }
            },
        }
        j = j + 1;
    }
    false
}

/// The decode time of the first track fragment.
pub fn sample_timestamp(moof: &Moof) -> (r: Option<u64>)
    ensures
        r == first_timestamp(moof@),
{
    if moof.trafs.len() == 0 {
        None
    } else {
        assert(moof@[0] == moof.trafs@[0]@);
        moof.trafs[0].base_media_decode_time
    }
}

/// The decode time of the first track fragment of a `moof` box.
pub fn extract_media_timestamp(moof_buf: &[u8]) -> (r: Option<u64>)
    ensures
        r == (match parsed_moof(moof_buf@) {
            Some(m) => first_timestamp(m),
            None => None,
        }),
{
    match read_moof(moof_buf) {
        Some(moof) => sample_timestamp(&moof),
        None => None,
    }
}

/// A fragment on its way to the network.
#[derive(Clone, Copy, Debug, PartialEq, Eq, Structural)]
pub struct Fragment {
    /// The number of its track.
    pub track: u32,
    /// Its decode time, in the units of the track.
    pub timestamp: u64,
    /// Whether a viewer can start here.
    pub keyframe: bool,
    /// When it was captured, in microseconds of Unix time.
    pub capture_us: u64,
}

impl Fragment {
    /// The fragment that a parsed `moof` box describes.
    ///
    /// A fragment belongs to one track: with none, or with more than one, there
    /// is no fragment.
    pub fn new(moof: &Moof, capture_us: u64) -> (r: Option<Fragment>)
        requires
            moof@.len() == 1 ==> first_timestamp(moof@) is Some,
        ensures
            r == (if moof@.len() == 1 {
                Some(
                    Fragment {
                        track: moof@[0].track_id,
                        timestamp: first_timestamp(moof@)->Some_0,
                        keyframe: has_keyframe(moof@),
                        capture_us,
                    },
                )
            } else {
                None
            }),
    {
        if moof.trafs.len() != 1 {
            return None;
        }
        assert(moof@[0] == moof.trafs@[0]@);
        match sample_timestamp(moof) {
            Some(timestamp) => Some(
                Fragment {
                    track: moof.trafs[0].track_id,
                    timestamp,
                    keyframe: sample_keyframe(moof),
                    capture_us,
                },
            ),
            None => None,
        }
    }

    /// When the fragment plays, in milliseconds, rounded down.
    pub fn timestamp(&self, timescale: u64) -> (r: u64)
        requires
            timescale > 0,
            1000 * self.timestamp <= u64::MAX,
        ensures
            r == (1000 * self.timestamp) / (timescale as int),
    {
        1000 * self.timestamp / timescale
    }
}

/// When a fragment starts and ends, in the units of its track.
#[derive(Clone, Copy, Debug, PartialEq, Eq, Structural)]
pub struct FragmentTiming {
    pub start: i64,
    pub end: i64,
}

/// Why the timing of a fragment is not known.
#[derive(Clone, Copy, Debug, PartialEq, Eq, Structural)]
pub enum TimingError {
    /// The box cannot be walked or parsed.
    Box,
    /// There is no track fragment.
    NoTraf,
    /// The track fragment has no decode time.
    NoTfdt,
    /// The times do not fit in 64 bits.
    OutOfRange,
}

/// The sum of the durations of the samples.
pub open spec fn sum(d: Seq<u32>) -> nat
    decreases d.len(),
{
    if d.len() == 0 {
        0
    } else {
        sum(d.drop_last()) + d.last() as nat
    }
}

/// How long the samples of a track fragment last: the durations that the run
/// lists, else the default for each sample.
pub open spec fn total_duration(t: TrafView) -> nat {
    match t.trun {
        None => 0,
        Some(run) => if run.sample_durations.len() > 0 {
            sum(run.sample_durations)
        } else {
            match t.default_sample_duration {
                Some(d) => d as nat * run.sample_count as nat,
                None => 0,
            }
        },
    }
}

/// A composition offset: signed in version 1 of the run.
pub open spec fn offset(run: TrunView, i: int) -> int {
    if run.version == 1 && run.sample_cts[i] >= 0x8000_0000 {
        run.sample_cts[i] - 0x1_0000_0000
    } else {
        run.sample_cts[i] as int
    }
}

/// Whether a run gives composition offsets.
pub open spec fn has_offsets(run: TrunView) -> bool {
    run.flags & FLAG_SAMPLE_CTS != 0 && run.sample_cts.len() > 0
}

/// The least composition offset among the first `n` samples.
pub open spec fn least_offset(run: TrunView, n: int) -> int
    decreases n,
{
    if n <= 1 {
        offset(run, 0)
    } else {
        let l = least_offset(run, n - 1);
        if offset(run, n - 1) < l {
            offset(run, n - 1)
        } else {
            l
        }
    }
}

/// The greatest composition offset among the first `n` samples.
pub open spec fn greatest_offset(run: TrunView, n: int) -> int
    decreases n,
{
    if n <= 1 {
        offset(run, 0)
    } else {
        let g = greatest_offset(run, n - 1);
        if offset(run, n - 1) > g {
            offset(run, n - 1)
        } else {
            g
        }
    }
}

/// The least and the greatest composition offset of a track fragment; zero
/// without offsets.
pub open spec fn offset_range(t: TrafView) -> (int, int) {
    match t.trun {
        Some(run) if has_offsets(run) => (
            least_offset(run, run.sample_cts.len() as int),
            greatest_offset(run, run.sample_cts.len() as int),
        ),
        _ => (0, 0),
    }
}

/// A 64-bit number read as signed.
pub open spec fn signed(n: int) -> int {
    if n >= 0x8000_0000_0000_0000 {
        n - 0x1_0000_0000_0000_0000
    } else {
        n
    }
}

/// The start and the end of a track fragment: its decode time shifted by the
/// least offset; its decode time and duration shifted by the greatest.
pub open spec fn timing(t: TrafView, base: int) -> (int, int) {
    let (least, greatest) = offset_range(t);
    (signed(base) + least, signed(base) + signed(total_duration(t) as int) + greatest)
}

/// Whether every step of [`timing`] stays within 64 bits.
pub open spec fn timing_fits(t: TrafView, base: int) -> bool {
    let (start, end) = timing(t, base);
    let (least, greatest) = offset_range(t);
    &&& i64::MIN <= start <= i64::MAX
    &&& i64::MIN <= end - greatest <= i64::MAX
    &&& i64::MIN <= end <= i64::MAX
}

proof fn lemma_sum_bound(d: Seq<u32>)
    ensures
        sum(d) <= d.len() * 0xffff_ffff,
    decreases d.len(),
{
    if d.len() > 0 {
        lemma_sum_bound(d.drop_last());
        assert(d.len() * 0xffff_ffff == (d.len() - 1) * 0xffff_ffff + 0xffff_ffff)
            by (nonlinear_arith);
    }
}

proof fn lemma_sum_grows(d: Seq<u32>, n: int)
    requires
        0 <= n <= d.len(),
    ensures
        sum(d.take(n)) <= sum(d),
    decreases d.len() - n,
{
    if n < d.len() {
        assert(d.take(n + 1).drop_last() == d.take(n));
        lemma_sum_grows(d, n + 1);
    } else {
        assert(d.take(n) == d);
    }
}

fn sum_durations(d: &Vec<u32>) -> (r: u64)
    requires
        d@.len() <= u32::MAX,
    ensures
        r == sum(d@),
{
    let mut total: u64 = 0;
    let mut i: usize = 0;
    while i < d.len()
        invariant
            i <= d@.len(),
            d@.len() <= u32::MAX,
            total == sum(d@.take(i as int)),
        decreases d@.len() - i,
    {
        proof {
            assert(d@.take(i + 1).drop_last() == d@.take(i as int));
            lemma_sum_grows(d@, i + 1);
            lemma_sum_bound(d@);
        }
        total = total + d[i] as u64;
        i = i + 1;
    }
    assert(d@.take(i as int) == d@);
    total
}

fn read_total_duration(t: &Traf) -> (r: u64)
    requires
        t.trun matches Some(run) ==> run.sample_durations@.len() <= u32::MAX,
    ensures
        r == total_duration(t@),
{
    match &t.trun {
        None => 0,
        Some(run) => if run.sample_durations.len() > 0 {
            sum_durations(&run.sample_durations)
        } else {
            match t.default_sample_duration {
                Some(d) => {
                    let n: u32 = run.sample_count;
                    assert(d * n <= 0xffff_ffff * 0xffff_ffff) by (nonlinear_arith)
                        requires
                            0 <= d <= 0xffff_ffff,
                            0 <= n <= 0xffff_ffff,
                    ;
                    d as u64 * n as u64
                },
                None => 0,
            }
        },
    }
}

fn read_offset(run: &Trun, i: usize) -> (r: i64)
    requires
        i < run.sample_cts@.len(),
    ensures
        r == offset(run@, i as int),
{
    let cts: u32 = run.sample_cts[i];
    if run.version == 1 && cts >= 0x8000_0000 {
        cts as i64 - 0x1_0000_0000
    } else {
        cts as i64
    }
}

fn read_offset_range(t: &Traf) -> (r: (i64, i64))
    ensures
        r.0 == offset_range(t@).0,
        r.1 == offset_range(t@).1,
        -0x8000_0000 <= r.0 <= r.1 <= 0xffff_ffff,
{
    match &t.trun {
        Some(run) => {
            if run.flags & FLAG_SAMPLE_CTS != 0 && run.sample_cts.len() > 0 {
                let mut least: i64 = read_offset(run, 0);
                let mut greatest: i64 = least;
                let mut i: usize = 1;
                while i < run.sample_cts.len()
                    invariant
                        1 <= i <= run.sample_cts@.len(),
                        least == least_offset(run@, i as int),
                        greatest == greatest_offset(run@, i as int),
                        -0x8000_0000 <= least <= greatest <= 0xffff_ffff,
                    decreases run.sample_cts@.len() - i,
                {
                    let o: i64 = read_offset(run, i);
                    if o < least {
                        least = o;
                    }
                    if o > greatest {
                        greatest = o;
                    }
                    i = i + 1;
                }
                (least, greatest)
            } else {
                (0, 0)
            }
        },
        None => (0, 0),
    }
}

fn to_signed(n: u64) -> (r: i128)
    ensures
        r == signed(n as int),
{
    if n >= 0x8000_0000_0000_0000 {
        n as i128 - 0x1_0000_0000_0000_0000
    } else {
        n as i128
    }
}

/// The timing of a parsed movie fragment: that of its first track fragment.
pub open spec fn moof_timing(m: Seq<TrafView>) -> Result<FragmentTiming, TimingError> {
    if m.len() == 0 {
        Err(TimingError::NoTraf)
    } else {
        match m[0].base_media_decode_time {
            None => Err(TimingError::NoTfdt),
            Some(base) => if timing_fits(m[0], base as int) {
                let (start, end) = timing(m[0], base as int);
                Ok(FragmentTiming { start: start as i64, end: end as i64 })
            } else {
                Err(TimingError::OutOfRange)
            },
        }
    }
}

/// The timing of a parsed movie fragment.
pub fn fragment_timing(moof: &Moof) -> (r: Result<FragmentTiming, TimingError>)
    requires
        durations_match(moof@),
    ensures
        r == moof_timing(moof@),
{
    if moof.trafs.len() == 0 {
        return Err(TimingError::NoTraf);
    }
    let traf: &Traf = &moof.trafs[0];
    assert(moof@[0] == traf@);
    let base: u64 = match traf.base_media_decode_time {
        Some(base) => base,
        None => {
            return Err(TimingError::NoTfdt);
        },
    };
    let total: u64 = read_total_duration(traf);
    let (least, greatest) = read_offset_range(traf);
    let start: i128 = to_signed(base) + least as i128;
    let middle: i128 = to_signed(base) + to_signed(total);
    let end: i128 = middle + greatest as i128;
    let low: i128 = i64::MIN as i128;
    let high: i128 = i64::MAX as i128;
    if low <= start && start <= high && low <= middle && middle <= high && low <= end && end <= high {
        Ok(FragmentTiming { start: start as i64, end: end as i64 })
    } else {
        Err(TimingError::OutOfRange)
    }
}

/// The timing of the fragment in a `moof` box.
pub open spec fn buffer_timing(b: Seq<u8>) -> Result<FragmentTiming, TimingError> {
    match parsed_moof(b) {
        Some(m) => moof_timing(m),
        None => Err(TimingError::Box),
    }
}

/// The timing of the fragment in a `moof` box, whatever follows the box.
pub fn parse_fragment_timing(buf: &[u8]) -> (r: Result<FragmentTiming, TimingError>)
    ensures
        r == buffer_timing(buf@),
{
    match read_moof(buf) {
        Some(moof) => fragment_timing(&moof),
        None => Err(TimingError::Box),
    }
}

/// Every composition offset lies between the least and the greatest.
pub proof fn offsets_are_bounds(run: TrunView, n: int, i: int)
    requires
        0 <= i < n <= run.sample_cts.len(),
    ensures
        least_offset(run, n) <= offset(run, i) <= greatest_offset(run, n),
    decreases n,
{
    if n > 1 && i < n - 1 {
        offsets_are_bounds(run, n - 1, i);
    } else if n > 1 {
        assert(i == n - 1);
    }
}

/// A fragment whose times are below half of the 64-bit range never ends before it
/// starts.
pub proof fn fragment_does_not_end_early(t: TrafView, base: int)
    requires
        0 <= base < 0x4000_0000_0000_0000,
        total_duration(t) < 0x4000_0000_0000_0000,
    ensures
        timing(t, base).0 <= timing(t, base).1,
{
    match t.trun {
        Some(run) => {
            if has_offsets(run) {
                offsets_are_bounds(run, run.sample_cts.len() as int, 0);
            }
        },
        None => {},
    }
}

/// Whether a track fragment says that sample `i` has the flags `f`: first of all by
/// the flags that its run gives for the first sample, then by the list of the run,
/// then by its default.
pub open spec fn says_flags(t: TrafView, i: int, f: u32) -> bool {
    &&& t.trun matches Some(run) && 0 <= i < run.sample_count
    &&& {
        ||| i == 0 && t.trun->Some_0.first_sample_flags == Some(f)
        ||| (i > 0 || t.trun->Some_0.first_sample_flags is None) && i
            < t.trun->Some_0.sample_flags.len() && t.trun->Some_0.sample_flags[i] == f
        ||| (i > 0 || t.trun->Some_0.first_sample_flags is None) && i
            >= t.trun->Some_0.sample_flags.len() && t.default_sample_flags == Some(f)
    }
}

proof fn lemma_key_bits(f: u32)
    ensures
        key_flags(f) == ((f >> 24) & 3 == 2 && (f >> 16) & 1 == 0),
{
    assert((f >> 24) & 3 == f / 0x100_0000 % 4) by (bit_vector);
    assert((f >> 16) & 1 == f / 0x1_0000 % 2) by (bit_vector);
}

/// A sample that depends on no other and is a sync sample, by the flags that are said
/// of it, makes the fragment one with a key frame, wherever those flags stand: as
/// long as every track fragment up to its own has a run.
pub proof fn a_key_sample_makes_a_key_frame(moof: Moof, j: int, i: int, f: u32, r: bool)
    requires
        call_ensures(sample_keyframe, (&moof,), r),
        0 <= j < moof@.len(),
        forall|k: int| 0 <= k <= j ==> (#[trigger] moof@[k]).trun is Some,
        says_flags(moof@[j], i, f),
        (f >> 24) & 3 == 2,
        (f >> 16) & 1 == 0,
    ensures
        r,
{
    lemma_key_bits(f);
    assert(key_sample(moof@[j], i));
}

/// A fragment has a key frame only by a sample that depends on no other and is a sync
/// sample, by the flags that are said of it.
pub proof fn a_key_frame_is_a_key_sample(moof: Moof, r: bool) -> (w: (int, int, u32))
    requires
        call_ensures(sample_keyframe, (&moof,), r),
        r,
    ensures
        0 <= w.0 < moof@.len(),
        forall|k: int| 0 <= k <= w.0 ==> (#[trigger] moof@[k]).trun is Some,
        says_flags(moof@[w.0], w.1, w.2),
        (w.2 >> 24) & 3 == 2,
        (w.2 >> 16) & 1 == 0,
{
    let (j, i) = choose|j: int, i: int|
        0 <= j < moof@.len() && (forall|k: int| 0 <= k <= j ==> (#[trigger] moof@[k]).trun is Some)
            && #[trigger] key_sample(moof@[j], i);
    let run = moof@[j].trun->Some_0;
    let f = flags_of(moof@[j], run, i);
    lemma_key_bits(f);
    assert(!key_flags(0));
    (j, i, f)
}

/// Where a run says nothing of its samples, the default of the track fragment decides.
pub proof fn the_default_decides_where_the_run_is_silent(moof: Moof, r: bool)
    requires
        call_ensures(sample_keyframe, (&moof,), r),
        moof@.len() == 1,
        moof@[0].trun matches Some(run) && run.sample_count > 0 && run.first_sample_flags is None
            && run.sample_flags.len() == 0,
    ensures
        r == (moof@[0].default_sample_flags matches Some(f) && (f >> 24) & 3 == 2 && (f >> 16) & 1
            == 0),
{
    let t = moof@[0];
    if r {
        let w = a_key_frame_is_a_key_sample(moof, r);
    }
    if let Some(f) = t.default_sample_flags {
        if (f >> 24) & 3 == 2 && (f >> 16) & 1 == 0 {
            assert(says_flags(t, 0, f));
            a_key_sample_makes_a_key_frame(moof, 0, 0, f, r);
        }
    }
}

/// A fragment belongs to the one track fragment of its box, has its decode time and is
/// a key frame where that is one.
pub proof fn a_fragment_is_that_of_its_box(
    moof: Moof,
    capture_us: u64,
    r: Option<Fragment>,
    key: bool,
    time: Option<u64>,
)
    requires
        call_ensures(Fragment::new, (&moof, capture_us), r),
        call_ensures(sample_keyframe, (&moof,), key),
        call_ensures(sample_timestamp, (&moof,), time),
        moof@.len() == 1 ==> moof@[0].base_media_decode_time is Some,
    ensures
        r is Some == (moof@.len() == 1),
        r matches Some(f) ==> f.track == moof@[0].track_id && Some(f.timestamp)
            == moof@[0].base_media_decode_time && f.keyframe == key && f.capture_us == capture_us,
        time == (if moof@.len() > 0 {
            moof@[0].base_media_decode_time
        } else {
            None
        }),
{
}

/// The time of a fragment in milliseconds is the last whole one that is not later.
pub proof fn milliseconds_are_rounded_down(f: Fragment, timescale: u64, r: u64)
    requires
        call_ensures(Fragment::timestamp, (&f, timescale), r),
        timescale > 0,
        1000 * f.timestamp <= u64::MAX,
    ensures
        r * timescale <= 1000 * f.timestamp,
        1000 * f.timestamp < (r + 1) * timescale,
{
    let n = 1000 * f.timestamp;
    let d = timescale as int;
    vstd::arithmetic::div_mod::lemma_fundamental_div_mod(n, d);
    vstd::arithmetic::div_mod::lemma_mod_bound(n, d);
    assert(d * (n / d) == (n / d) * d) by (nonlinear_arith);
    assert((r + 1) * d == r * d + d) by (nonlinear_arith);
}

/// Another sample of a run makes the fragment end later by as much as it lasts, and
/// changes nothing else. A run that lists no durations counts its samples, each of
/// the default length, none where there is no default.
pub proof fn samples_last_one_after_the_other(t: TrafView, d: u32)
    requires
        t.trun is Some,
    ensures
        ({
            let run = t.trun->Some_0;
            let longer = TrafView {
                trun: Some(TrunView { sample_durations: run.sample_durations.push(d), ..run }),
                ..t
            };
            let empty = TrafView {
                trun: Some(TrunView { sample_durations: Seq::empty(), ..run }),
                ..t
            };
            &&& run.sample_durations.len() > 0 ==> total_duration(longer) == total_duration(t) + d
            &&& run.sample_durations.len() == 0 ==> total_duration(longer) == d
            &&& total_duration(empty) == run.sample_count * (match t.default_sample_duration {
                Some(each) => each as int,
                None => 0,
            })
        }),
{
    let run = t.trun->Some_0;
    let ds = run.sample_durations;
    reveal_with_fuel(sum, 2);
    assert(ds.push(d).drop_last() == ds);
    let n = run.sample_count as int;
    if let Some(each) = t.default_sample_duration {
        let e = each as int;
        assert(e * n == n * e) by (nonlinear_arith);
    }
}

/// A fragment starts at its decode time, shifted by the least of its composition
/// offsets, and ends at its decode time and its duration, shifted by the greatest. An
/// offset of a run of version one is signed.
pub proof fn a_fragment_plays_from_its_least_offset_to_its_greatest(
    moof: Moof,
    base: u64,
    r: Result<FragmentTiming, TimingError>,
)
    requires
        call_ensures(fragment_timing, (&moof,), r),
        moof@.len() > 0,
        moof@[0].base_media_decode_time == Some(base),
        base < 0x4000_0000_0000_0000,
        total_duration(moof@[0]) < 0x2000_0000_0000_0000,
    ensures
        r is Ok,
        ({
            let start = r->Ok_0.start - base;
            let end = r->Ok_0.end - base - total_duration(moof@[0]);
            match moof@[0].trun {
                Some(run) if run.flags & 0x800 != 0 && run.sample_cts.len() > 0 => {
                    &&& forall|i: int|
                        0 <= i < run.sample_cts.len() ==> start <= (if run.version == 1
                            && #[trigger] run.sample_cts[i] >= 0x8000_0000 {
                            run.sample_cts[i] - 0x1_0000_0000
                        } else {
                            run.sample_cts[i] as int
                        }) <= end
                    &&& exists|i: int|
                        0 <= i < run.sample_cts.len() && start == (if run.version == 1
                            && #[trigger] run.sample_cts[i] >= 0x8000_0000 {
                            run.sample_cts[i] - 0x1_0000_0000
                        } else {
                            run.sample_cts[i] as int
                        })
                    &&& exists|i: int|
                        0 <= i < run.sample_cts.len() && end == (if run.version == 1
                            && #[trigger] run.sample_cts[i] >= 0x8000_0000 {
                            run.sample_cts[i] - 0x1_0000_0000
                        } else {
                            run.sample_cts[i] as int
                        })
                },
                _ => start == 0 && end == 0,
            }
        }),
{
    let t = moof@[0];
    if let Some(run) = t.trun {
        if has_offsets(run) {
            let n = run.sample_cts.len() as int;
            assert forall|i: int| 0 <= i < n implies least_offset(run, n) <= offset(run, i)
                <= greatest_offset(run, n) && offset(run, i) == (if run.version == 1
                && #[trigger] run.sample_cts[i] >= 0x8000_0000 {
                run.sample_cts[i] - 0x1_0000_0000
            } else {
                run.sample_cts[i] as int
            }) by {
                offsets_are_bounds(run, n, i);
            }
            let l = lemma_least_is_met(run, n);
            let g = lemma_greatest_is_met(run, n);
            assert(run.sample_cts[l] >= 0 && run.sample_cts[g] >= 0);
        }
    }
}

proof fn lemma_least_is_met(run: TrunView, n: int) -> (i: int)
    requires
        0 < n <= run.sample_cts.len(),
    ensures
        0 <= i < n,
        least_offset(run, n) == offset(run, i),
    decreases n,
{
    if n <= 1 {
        0
    } else {
        let i = lemma_least_is_met(run, n - 1);
        if offset(run, n - 1) < least_offset(run, n - 1) {
            n - 1
        } else {
            i
        }
    }
}

proof fn lemma_greatest_is_met(run: TrunView, n: int) -> (i: int)
    requires
        0 < n <= run.sample_cts.len(),
    ensures
        0 <= i < n,
        greatest_offset(run, n) == offset(run, i),
    decreases n,
{
    if n <= 1 {
        0
    } else {
        let i = lemma_greatest_is_met(run, n - 1);
        if offset(run, n - 1) > greatest_offset(run, n - 1) {
            n - 1
        } else {
            i
        }
    }
}

/// Where a fragment cannot be timed, the error tells why: there is no track fragment,
/// or it has no decode time. Times that do fit in 64 bits are no error.
pub proof fn untimed_fragments_are_told_apart(
    moof: Moof,
    r: Result<FragmentTiming, TimingError>,
)
    requires
        call_ensures(fragment_timing, (&moof,), r),
    ensures
        (r == Err::<FragmentTiming, TimingError>(TimingError::NoTraf)) == (moof@.len() == 0),
        (r == Err::<FragmentTiming, TimingError>(TimingError::NoTfdt)) == (moof@.len() > 0
            && moof@[0].base_media_decode_time is None),
        r != Err::<FragmentTiming, TimingError>(TimingError::Box),
{
}

/// What is read from a buffer is what is read from the box at its start, and a buffer
/// without such a box has neither time nor timing.
pub proof fn buffers_are_read_as_their_box(
    b: &[u8],
    moof: Option<Moof>,
    time: Option<u64>,
    timing: Result<FragmentTiming, TimingError>,
)
    requires
        call_ensures(read_moof, (b,), moof),
        call_ensures(extract_media_timestamp, (b,), time),
        call_ensures(parse_fragment_timing, (b,), timing),
    ensures
        moof is None ==> time is None && timing == Err::<FragmentTiming, TimingError>(
            TimingError::Box,
        ),
        moof matches Some(m) ==> {
            &&& time == (if m@.len() > 0 {
                m@[0].base_media_decode_time
            } else {
                None
            })
            &&& timing == moof_timing(m@)
            &&& timing != Err::<FragmentTiming, TimingError>(TimingError::Box)
        },
{
}

/// The composition offset that a run lists for sample `i`, signed in version one.
pub open spec fn composition(run: TrunView, i: int) -> int {
    if run.version == 1 && run.sample_cts[i] >= 0x8000_0000 {
        run.sample_cts[i] - 0x1_0000_0000
    } else {
        run.sample_cts[i] as int
    }
}

/// The timing is the exact one, of a decode time and a duration taken as signed numbers of
/// 64 bits: where the start, the end or the end before its shift is no such number, and only
/// there, the fragment is out of range.
pub proof fn only_times_beyond_64_bits_are_out_of_range(
    moof: Moof,
    base: u64,
    total: u64,
    least: int,
    greatest: int,
    r: Result<FragmentTiming, TimingError>,
)
    requires
        call_ensures(fragment_timing, (&moof,), r),
        moof@.len() > 0,
        moof@[0].base_media_decode_time == Some(base),
        total == total_duration(moof@[0]),
        match moof@[0].trun {
            Some(run) if run.flags & 0x800 != 0 && run.sample_cts.len() > 0 => {
                &&& forall|i: int|
                    0 <= i < run.sample_cts.len() ==> least <= #[trigger] composition(run, i)
                        <= greatest
                &&& exists|i: int| 0 <= i < run.sample_cts.len() && #[trigger] composition(run, i)
                    == least
                &&& exists|i: int| 0 <= i < run.sample_cts.len() && #[trigger] composition(run, i)
                    == greatest
            },
            _ => least == 0 && greatest == 0,
        },
    ensures
        ({
            let b = if base <= i64::MAX {
                base as int
            } else {
                base - 0x1_0000_0000_0000_0000
            };
            let d = if total <= i64::MAX {
                total as int
            } else {
                total - 0x1_0000_0000_0000_0000
            };
            let fits = i64::MIN <= b + least <= i64::MAX && i64::MIN <= b + d <= i64::MAX
                && i64::MIN <= b + d + greatest <= i64::MAX;
            &&& fits ==> (r matches Ok(t) && t.start == b + least && t.end == b + d + greatest)
            &&& !fits ==> r == Err::<FragmentTiming, TimingError>(TimingError::OutOfRange)
        }),
{
    let t = moof@[0];
    if let Some(run) = t.trun {
        if has_offsets(run) {
            let n = run.sample_cts.len() as int;
            let l = lemma_least_is_met(run, n);
            let g = lemma_greatest_is_met(run, n);
            assert(composition(run, l) == offset(run, l));
            assert(composition(run, g) == offset(run, g));
            let x = choose|i: int|
                0 <= i < run.sample_cts.len() && #[trigger] composition(run, i) == least;
            let y = choose|i: int|
                0 <= i < run.sample_cts.len() && #[trigger] composition(run, i) == greatest;
            assert(composition(run, x) == offset(run, x));
            assert(composition(run, y) == offset(run, y));
            offsets_are_bounds(run, n, x);
            offsets_are_bounds(run, n, y);
        }
    }
}

/// A track fragment without a run plays at its decode time and lasts no time.
pub proof fn without_a_run_nothing_lasts(
    moof: Moof,
    base: u64,
    r: Result<FragmentTiming, TimingError>,
)
    requires
        call_ensures(fragment_timing, (&moof,), r),
        moof@.len() > 0,
        moof@[0].base_media_decode_time == Some(base),
        moof@[0].trun is None,
        base <= i64::MAX,
    ensures
        r matches Ok(t) && t.start == base && t.end == base,
{
}

} // verus!
