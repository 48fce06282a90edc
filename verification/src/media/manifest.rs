//! The publisher's list of what it published, read by the subscriber to learn
//! when each object was captured.

use crate::text::{
    chars_of, fields_come_apart_again, find, find_char, lemma_find_shift, lemma_split_step, lines,
    number, parse_number, split, with_between, without_cr,
};
use std::collections::HashMap;
use vstd::prelude::*;

verus! {

/// What a line says: an object and its capture time in microseconds. A line of
/// fewer than six fields says nothing, nor does one in which either is no number.
pub open spec fn line_entry(line: Seq<char>) -> Option<(u64, u64)> {
    let parts = split(line, '|');
    if parts.len() < 6 {
        None
    } else {
        match (number(parts[1], u64::MAX as nat), number(parts[5], u64::MAX as nat)) {
            (Some(object), Some(capture)) => Some((object as u64, capture as u64)),
            _ => None,
        }
    }
}

/// The capture time of the first line that says one.
pub open spec fn first_capture(ls: Seq<Seq<char>>) -> Option<u64>
    decreases ls.len(),
{
    if ls.len() == 0 {
        None
    } else {
        match line_entry(ls[0]) {
            Some((_, capture)) => Some(capture),
            None => first_capture(ls.skip(1)),
        }
    }
}

/// How long after the start each object was captured, in microseconds: never
/// less than zero; the last line on an object counts.
pub open spec fn relative_captures(ls: Seq<Seq<char>>, start: u64) -> Map<u64, u64>
    decreases ls.len(),
{
    if ls.len() == 0 {
        Map::empty()
    } else {
        let before = relative_captures(ls.drop_last(), start);
        match line_entry(ls.last()) {
            Some((object, capture)) => before.insert(
                object,
                if capture >= start {
                    (capture - start) as u64
                } else {
                    0
                },
            ),
            None => before,
        }
    }
}

/// What the list says of capture times, counted from the first that it gives.
pub open spec fn captures(text: Seq<char>) -> Map<u64, u64> {
    match first_capture(lines(text)) {
        Some(start) => relative_captures(lines(text), start),
        None => Map::empty(),
    }
}

/// The text before `to`, read as if it ended there.
proof fn lemma_find_take(t: Seq<char>, to: int, c: char, from: int)
    requires
        0 <= from <= to <= t.len(),
    ensures
        find(t.take(to), c, from) == (if find(t, c, from) < to {
            find(t, c, from)
        } else {
            to
        }),
        from <= find(t, c, from) <= t.len(),
    decreases to - from,
{
    let s = t.take(to);
    if from < to && t[from] != c {
        lemma_find_take(t, to, c, from + 1);
    } else if from == to {
        lemma_find_bounds(t, c, from);
    }
}

proof fn lemma_find_bounds(t: Seq<char>, c: char, from: int)
    requires
        0 <= from <= t.len(),
    ensures
        from <= find(t, c, from) <= t.len(),
    decreases t.len() - from,
{
    if from < t.len() && t[from] != c {
        lemma_find_bounds(t, c, from + 1);
    }
}

/// Reads the line of `t` between `from` and `to`.
fn read_line(t: &Vec<char>, from: usize, to: usize) -> (r: Option<(u64, u64)>)
    requires
        from <= to <= t@.len(),
    ensures
        r == line_entry(t@.subrange(from as int, to as int)),
{
    let ghost line = t@.subrange(from as int, to as int);
    let ghost upto = t@.take(to as int);
    let mut at: usize = from;
    let mut field: usize = 0;
    let mut object: Option<u64> = None;
    let mut capture: Option<u64> = None;
    let ghost parts = split(line, '|');
    assert(line == upto.skip(from as int));
    assert(parts.skip(0) == parts);
    loop
        invariant
            from <= at <= to <= t@.len(),
            field <= at - from,
            upto == t@.take(to as int),
            field < parts.len(),
            parts.skip(field as int) == split(upto.skip(at as int), '|'),
            field > 1 ==> (object is Some == (number(parts[1], u64::MAX as nat) is Some)),
            field > 1 ==> (object matches Some(n) ==> number(parts[1], u64::MAX as nat) == Some(
                n as nat,
            )),
            field > 5 ==> (capture is Some == (number(parts[5], u64::MAX as nat) is Some)),
            field > 5 ==> (capture matches Some(n) ==> number(parts[5], u64::MAX as nat) == Some(
                n as nat,
            )),
            line == t@.subrange(from as int, to as int),
            parts == split(line, '|'),
        ensures
            field + 1 == parts.len(),
            field >= 1 ==> (object is Some == (number(parts[1], u64::MAX as nat) is Some)),
            field >= 1 ==> (object matches Some(n) ==> number(parts[1], u64::MAX as nat) == Some(
                n as nat,
            )),
            field >= 5 ==> (capture is Some == (number(parts[5], u64::MAX as nat) is Some)),
            field >= 5 ==> (capture matches Some(n) ==> number(parts[5], u64::MAX as nat) == Some(
                n as nat,
            )),
        decreases to - at,
    {
        let found: usize = find_char(t, '|', at);
        let end: usize = if found < to {
            found
        } else {
            to
        };
        proof {
            lemma_find_take(t@, to as int, '|', at as int);
            lemma_split_step(upto, '|', at as int, end as int);
            assert(upto.subrange(at as int, end as int) == t@.subrange(at as int, end as int));
            assert(parts[field as int] == parts.skip(field as int)[0]);
            assert(parts[field as int] == t@.subrange(at as int, end as int));
        }
        if field == 1 {
            object = parse_number(t, at, end, u64::MAX);
        }
        if field == 5 {
            capture = parse_number(t, at, end, u64::MAX);
        }
        if end == to {
            assert(parts.skip(field as int).len() == 1);
            break;
        }
        proof {
            assert(parts.skip(field as int).skip(1) == split(upto.skip(end + 1), '|'));
            assert(parts.skip(field + 1) == parts.skip(field as int).skip(1));
            lemma_split_nonempty(upto.skip(end + 1), '|');
            assert(parts.skip(field + 1).len() > 0);
        }
        at = end + 1;
        field = field + 1;
    }
    if field < 5 {
        return None;
    }
    match (object, capture) {
        (Some(o), Some(c)) => Some((o, c)),
        _ => None,
    }
}

proof fn lemma_split_nonempty(t: Seq<char>, c: char)
    ensures
        split(t, c).len() > 0,
{
}

proof fn lemma_first_capture_push(ls: Seq<Seq<char>>, line: Seq<char>)
    ensures
        first_capture(ls.push(line)) == (match first_capture(ls) {
            Some(c) => Some(c),
            None => match line_entry(line) {
                Some((_, c)) => Some(c),
                None => None,
            },
        }),
    decreases ls.len(),
{
    reveal_with_fuel(first_capture, 2);
    let all = ls.push(line);
    if ls.len() > 0 {
        assert(all[0] == ls[0]);
        assert(all.skip(1) == ls.skip(1).push(line));
        lemma_first_capture_push(ls.skip(1), line);
    } else {
        assert(all[0] == line);
        assert(all.skip(1) == Seq::<Seq<char>>::empty());
    }
}

proof fn lemma_no_capture(ls: Seq<Seq<char>>, start: u64)
    requires
        first_capture(ls) is None,
    ensures
        relative_captures(ls, start) == Map::<u64, u64>::empty(),
    decreases ls.len(),
{
    if ls.len() > 0 {
        assert(ls == ls.drop_last().push(ls.last()));
        lemma_first_capture_push(ls.drop_last(), ls.last());
        lemma_no_capture(ls.drop_last(), start);
    }
}

/// Reads the capture times out of the publisher's list.
pub fn parse_captures(text: &str) -> (r: HashMap<u64, u64>)
    ensures
        r@ == captures(text@),
{
    broadcast use vstd::std_specs::hash::group_hash_axioms;

    let t: Vec<char> = chars_of(text);
    let mut out: HashMap<u64, u64> = HashMap::new();
    let mut start: Option<u64> = None;
    let mut at: usize = 0;
    let ghost mut done: Seq<Seq<char>> = Seq::empty();
    assert(t@.skip(0) == t@);
    assert(done + lines(t@) =~= lines(t@));
    while at < t.len()
        invariant
            at <= t@.len(),
            t@ == text@,
            lines(t@) == done + lines(t@.skip(at as int)),
            start == first_capture(done),
            out@ == (match start {
                Some(s) => relative_captures(done, s),
                None => Map::empty(),
            }),
        decreases t@.len() - at,
    {
        let end: usize = find_char(&t, '\n', at);
        let ghost rest = t@.skip(at as int);
        proof {
            lemma_find_shift(t@, '\n', at as int, 0);
        }
        let mut to: usize = end;
        if end < t.len() && end > at && t[end - 1] == '\r' {
            to = end - 1;
        }
        let ghost line = t@.subrange(at as int, to as int);
        proof {
            if end < t@.len() {
                assert(rest.take(end - at) == t@.subrange(at as int, end as int));
                assert(line == without_cr(rest.take(end - at)));
                assert(rest.skip(end - at + 1) == t@.skip(end + 1));
                assert(lines(rest) == seq![line] + lines(t@.skip(end + 1)));
            } else {
                assert(rest == line);
                assert(lines(rest) == seq![line]);
            }
        }
        let entry: Option<(u64, u64)> = read_line(&t, at, to);
        let ghost was = done;
        proof {
            lemma_first_capture_push(done, line);
            assert(done.push(line).drop_last() == done);
            if first_capture(done) is None {
                if let Some((_, c)) = entry {
                    lemma_no_capture(done, c);
                }
            }
            done = done.push(line);
        }
        if let Some((object, capture)) = entry {
            let s: u64 = match start {
                Some(s) => s,
                None => capture,
            };
            start = Some(s);
            let relative: u64 = if capture >= s {
                capture - s
            } else {
                0
            };
            out.insert(object, relative);
        }
        if end < t.len() {
            at = end + 1;
            assert(was + (seq![line] + lines(t@.skip(end + 1))) =~= done + lines(t@.skip(end + 1)));
        } else {
            at = end;
            assert(t@.skip(end as int) == Seq::<char>::empty());
            assert(was + seq![line] =~= done + lines(t@.skip(end as int)));
        }
    }
    assert(t@.skip(at as int) == Seq::<char>::empty());
    assert(done + lines(t@.skip(at as int)) =~= done);
    out
}

/// The first object of which the list says anything was captured at the start.
pub proof fn first_object_is_at_the_start(ls: Seq<Seq<char>>)
    requires
        ls.len() > 0,
        line_entry(ls[0]) is Some,
    ensures
        first_capture(ls) matches Some(start) && relative_captures(ls.take(1), start)
            == Map::<u64, u64>::empty().insert(line_entry(ls[0])->Some_0.0, 0),
{
    reveal_with_fuel(relative_captures, 2);
    let one = ls.take(1);
    assert(one.last() == ls[0]);
    assert(one.drop_last() == Seq::<Seq<char>>::empty());
}

/// A line whose fields are parted by bars tells an object in the second and its capture
/// in the sixth; it takes six fields and two numbers.
pub proof fn a_line_tells_an_object_and_its_capture(fields: Seq<Seq<char>>)
    requires
        fields.len() > 0,
        forall|i: int, k: int|
            0 <= i < fields.len() && 0 <= k < fields[i].len() ==> #[trigger] fields[i][k] != '|',
    ensures
        ({
            let told = line_entry(with_between(fields, '|'));
            let limit = 0xffff_ffff_ffff_ffffnat;
            &&& told is Some == (fields.len() >= 6 && number(fields[1], limit) is Some && number(
                fields[5],
                limit,
            ) is Some)
            &&& told matches Some((object, capture)) ==> number(fields[1], limit) == Some(
                object as nat,
            ) && number(fields[5], limit) == Some(capture as nat)
        }),
{
    fields_come_apart_again(fields, '|');
}

/// The last line on an object tells when it was captured, counted from the first
/// capture in the list and never before it.
pub proof fn the_last_line_on_an_object_counts(
    text: &str,
    r: HashMap<u64, u64>,
    first: int,
    line: int,
    start: u64,
    object: u64,
    capture: u64,
)
    requires
        call_ensures(parse_captures, (text,), r),
        0 <= first <= line < lines(text@).len(),
        line_entry(lines(text@)[first]) matches Some((_, c)) && c == start,
        forall|i: int| 0 <= i < first ==> line_entry(#[trigger] lines(text@)[i]) is None,
        line_entry(lines(text@)[line]) == Some((object, capture)),
        forall|i: int|
            line < i < lines(text@).len() ==> (line_entry(#[trigger] lines(text@)[i]) matches Some(
                (o, _),
            ) ==> o != object),
    ensures
        r@.contains_key(object),
        capture >= start ==> r@[object] == capture - start,
        capture < start ==> r@[object] == 0,
{
    lemma_first(lines(text@), first);
    lemma_last(lines(text@), start, line, object, capture);
}

proof fn lemma_first(ls: Seq<Seq<char>>, first: int)
    requires
        0 <= first < ls.len(),
        line_entry(ls[first]) is Some,
        forall|i: int| 0 <= i < first ==> line_entry(#[trigger] ls[i]) is None,
    ensures
        first_capture(ls) == Some(line_entry(ls[first])->Some_0.1),
    decreases first,
{
    if first > 0 {
        assert(line_entry(ls[0]) is None);
        let rest = ls.skip(1);
        assert forall|i: int| 0 <= i < first - 1 implies line_entry(#[trigger] rest[i]) is None by {
            assert(rest[i] == ls[i + 1]);
        }
        assert(rest[first - 1] == ls[first]);
        lemma_first(rest, first - 1);
    }
}

proof fn lemma_last(ls: Seq<Seq<char>>, start: u64, line: int, object: u64, capture: u64)
    requires
        0 <= line < ls.len(),
        line_entry(ls[line]) == Some((object, capture)),
        forall|i: int|
            line < i < ls.len() ==> (line_entry(#[trigger] ls[i]) matches Some((o, _)) ==> o
                != object),
    ensures
        relative_captures(ls, start).contains_key(object),
        relative_captures(ls, start)[object] == (if capture >= start {
            capture - start
        } else {
            0
        }),
    decreases ls.len(),
{
    if line < ls.len() - 1 {
        let before = ls.drop_last();
        assert(line_entry(ls[ls.len() - 1]) matches Some((o, _)) ==> o != object);
        assert forall|i: int| line < i < before.len() implies (line_entry(
            #[trigger] before[i],
        ) matches Some((o, _)) ==> o != object) by {
            assert(before[i] == ls[i]);
        }
        lemma_last(before, start, line, object, capture);
    }
}

/// Only objects that a line tells of have a capture.
pub proof fn no_capture_comes_from_nowhere(text: &str, r: HashMap<u64, u64>, object: u64) -> (i: int)
    requires
        call_ensures(parse_captures, (text,), r),
        r@.contains_key(object),
    ensures
        0 <= i < lines(text@).len(),
        line_entry(lines(text@)[i]) matches Some((o, _)) && o == object,
{
    lemma_told(lines(text@), first_capture(lines(text@))->Some_0, object)
}

proof fn lemma_told(ls: Seq<Seq<char>>, start: u64, object: u64) -> (i: int)
    requires
        relative_captures(ls, start).contains_key(object),
    ensures
        0 <= i < ls.len(),
        line_entry(ls[i]) matches Some((o, _)) && o == object,
    decreases ls.len(),
{
    let last = ls.len() - 1;
    match line_entry(ls.last()) {
        Some((o, _)) if o == object => last,
        _ => {
            let i = lemma_told(ls.drop_last(), start, object);
            assert(ls.drop_last()[i] == ls[i]);
            i
        },
    }
}

} // verus!
