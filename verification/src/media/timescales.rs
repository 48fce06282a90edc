//! The file in which the publisher leaves the time scale of each track for the
//! subscriber, as JSON.

use std::collections::HashMap;
use vstd::prelude::*;

verus! {

/// The time scale of a track that the file does not mention.
pub const DEFAULT_TIMESCALE: u32 = 24000;

/// What `serde_json::from_str` reads from a text as a map from 32-bit to 64-bit
/// numbers, or nothing where it returns an error.
pub uninterp spec fn wide_of(text: Seq<char>) -> Option<Map<u32, u64>>;

/// What `serde_json::from_str` reads from a text as a map from 32-bit to 32-bit
/// numbers, or nothing where it returns an error.
pub uninterp spec fn narrow_of(text: Seq<char>) -> Option<Map<u32, u32>>;

/// Whether every time scale fits in 32 bits.
pub open spec fn all_narrow(m: Map<u32, u64>) -> bool {
    forall|k: u32| m.contains_key(k) ==> #[trigger] m[k] <= u32::MAX
}

/// The same time scales in 32 bits.
pub open spec fn narrowed(m: Map<u32, u64>) -> Map<u32, u32> {
    m.map_values(|v: u64| v as u32)
}

/// `serde_json::from_str` for a map from 32-bit to 64-bit numbers.
#[verifier::external_body]
fn call_parse_wide(text: &str) -> (r: Option<HashMap<u32, u64>>)
    ensures
        (match r {
            Some(m) => Some(m@),
            None => None,
        }) == wide_of(text@),
{
    serde_json::from_str(text).ok()
}

/// `serde_json::from_str` for a map from 32-bit to 32-bit numbers.
#[verifier::external_body]
fn call_parse_narrow(text: &str) -> (r: Option<HashMap<u32, u32>>)
    ensures
        (match r {
            Some(m) => Some(m@),
            None => None,
        }) == narrow_of(text@),
{
    serde_json::from_str(text).ok()
}

/// `serde_json::to_string_pretty` of a map from numbers to numbers, which does not
/// fail.
///
/// Reading the text gives the map back, in 32 bits too where all of it fits. The
/// order of the entries in the text is left open.
#[verifier::external_body]
fn call_write(m: &HashMap<u32, u64>) -> (r: Option<String>)
    ensures
        r is Some,
        r matches Some(text) ==> wide_of(text@) == Some(m@),
        r matches Some(text) ==> (all_narrow(m@) ==> narrow_of(text@) == Some(narrowed(m@))),
{
    serde_json::to_string_pretty(m).ok()
}

/// The time scales that a file holds; none where there is no file or it does not
/// parse.
pub open spec fn saved(file: Option<Seq<char>>) -> Map<u32, u64> {
    match file {
        Some(text) => match wide_of(text) {
            Some(m) => m,
            None => Map::empty(),
        },
        None => Map::empty(),
    }
}

/// The new contents of the file once the time scale of a track is known.
pub fn save_timescale(file: Option<&str>, id: u32, timescale: u64) -> (r: String)
    ensures
        ({
            let m = saved(
                match file {
                    Some(t) => Some(t@),
                    None => None,
                },
            ).insert(id, timescale);
            &&& wide_of(r@) == Some(m)
            &&& all_narrow(m) ==> narrow_of(r@) == Some(narrowed(m))
        }),
{
    broadcast use vstd::std_specs::hash::group_hash_axioms;

    let mut m: HashMap<u32, u64> = match file {
        Some(text) => match call_parse_wide(text) {
            Some(m) => m,
            None => HashMap::new(),
        },
        None => HashMap::new(),
    };
    m.insert(id, timescale);
    match call_write(&m) {
        Some(text) => text,
        None => String::new(),
    }
}

/// The time scales that the subscriber finds in the file.
pub fn load_timescales(file: Option<&str>) -> (r: HashMap<u32, u32>)
    ensures
        r@ == (match file {
            Some(t) => match narrow_of(t@) {
                Some(m) => m,
                None => Map::empty(),
            },
            None => Map::empty(),
        }),
{
    broadcast use vstd::std_specs::hash::group_hash_axioms;

    match file {
        Some(text) => match call_parse_narrow(text) {
            Some(m) => m,
            None => HashMap::new(),
        },
        None => HashMap::new(),
    }
}

/// The time scale of a track.
pub open spec fn timescale_in(m: Map<u32, u32>, id: u32) -> u32 {
    if m.contains_key(id) {
        m[id]
    } else {
        DEFAULT_TIMESCALE
    }
}

/// The time scale of a track.
pub fn get_timescale(m: &HashMap<u32, u32>, id: u32) -> (r: u32)
    ensures
        r == timescale_in(m@, id),
{
    broadcast use vstd::std_specs::hash::group_hash_axioms;

    match m.get(&id) {
        Some(t) => *t,
        None => DEFAULT_TIMESCALE,
    }
}

/// The subscriber finds the time scale that the publisher saved, as long as all
/// that is in the file fits in 32 bits.
pub proof fn saved_timescale_is_found(
    before: Map<u32, u64>,
    id: u32,
    timescale: u64,
    text: Seq<char>,
)
    requires
        all_narrow(before.insert(id, timescale)),
        narrow_of(text) == Some(narrowed(before.insert(id, timescale))),
    ensures
        narrow_of(text) matches Some(m) && timescale_in(m, id) == timescale,
{
    let m = before.insert(id, timescale);
    assert(m[id] <= u32::MAX);
}

/// What is saved is found again, under its own number, and what was saved before under
/// other numbers is found too, as long as all of it fits in 32 bits.
pub proof fn saved_time_scales_are_found(
    id: u32,
    timescale: u64,
    other: u32,
    text: String,
    new: &str,
    m: HashMap<u32, u32>,
    a: u32,
    b: u32,
    old_text: &str,
    before: Map<u32, u64>,
)
    requires
        wide_of(old_text@) == Some(before),
        call_ensures(save_timescale, (Some(old_text), id, timescale), text),
        new@ == text@,
        call_ensures(load_timescales, (Some(new),), m),
        call_ensures(get_timescale, (&m, id), a),
        call_ensures(get_timescale, (&m, other), b),
        timescale <= u32::MAX,
        forall|k: u32| before.contains_key(k) ==> #[trigger] before[k] <= u32::MAX,
        other != id,
    ensures
        a == timescale,
        before.contains_key(other) ==> b == before[other],
        !before.contains_key(other) ==> b == 24000,
{
    let all = before.insert(id, timescale);
    assert forall|k: u32| all.contains_key(k) implies #[trigger] all[k] <= u32::MAX by {
        if k != id {
            assert(before[k] <= u32::MAX);
        }
    }
    assert(all_narrow(all));
}

/// Without a file, or with one that does not parse, saving starts a new one, and
/// loading finds nothing: every track has the default.
pub proof fn time_scales_start_with_nothing(
    id: u32,
    timescale: u64,
    text: String,
    other: &str,
    again: String,
    m: HashMap<u32, u32>,
    n: HashMap<u32, u32>,
    r: u32,
)
    requires
        call_ensures(save_timescale, (None, id, timescale), text),
        wide_of(other@) is None,
        call_ensures(save_timescale, (Some(other), id, timescale), again),
        call_ensures(load_timescales, (None,), m),
        narrow_of(other@) is None,
        call_ensures(load_timescales, (Some(other),), n),
        call_ensures(get_timescale, (&m, id), r),
    ensures
        wide_of(text@) == Some(Map::<u32, u64>::empty().insert(id, timescale)),
        wide_of(again@) == wide_of(text@),
        m@ == Map::<u32, u32>::empty(),
        n@ == Map::<u32, u32>::empty(),
        r == 24000,
{
}

} // verus!
