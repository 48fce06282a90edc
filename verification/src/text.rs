//! Text: decimal and hexadecimal numbers, lines and fields.

use vstd::prelude::*;
use vstd::string::StringExecFns;

verus! {

/// The character of a digit below sixteen, letters in lower case.
pub open spec fn digit_char(d: int) -> char {
    if d < 10 {
        (0x30 + d) as char
    } else {
        (0x57 + d) as char
    }
}

/// The decimal digits of `n`, without leading zeros.
pub open spec fn decimal(n: nat) -> Seq<char>
    decreases n,
{
    if n < 10 {
        seq![digit_char(n as int)]
    } else {
        decimal(n / 10).push(digit_char((n % 10) as int))
    }
}

/// Two hexadecimal digits in lower case.
pub open spec fn hex2(n: u8) -> Seq<char> {
    seq![digit_char((n / 16) as int), digit_char((n % 16) as int)]
}

/// The character of a digit below sixteen, letters in upper case.
pub open spec fn upper_char(d: int) -> char {
    if d < 10 {
        (0x30 + d) as char
    } else {
        (0x37 + d) as char
    }
}

/// Two hexadecimal digits in upper case.
pub open spec fn upper_hex2(n: u8) -> Seq<char> {
    seq![upper_char((n / 16) as int), upper_char((n % 16) as int)]
}

fn digit_str(d: u8) -> (r: &'static str)
    requires
        d < 16,
    ensures
        r@ == seq![digit_char(d as int)],
{
    proof {
        reveal_strlit("0");
        reveal_strlit("1");
        reveal_strlit("2");
        reveal_strlit("3");
        reveal_strlit("4");
        reveal_strlit("5");
        reveal_strlit("6");
        reveal_strlit("7");
        reveal_strlit("8");
        reveal_strlit("9");
        reveal_strlit("a");
        reveal_strlit("b");
        reveal_strlit("c");
        reveal_strlit("d");
        reveal_strlit("e");
        reveal_strlit("f");
    }
    match d {
        0 => "0",
        1 => "1",
        2 => "2",
        3 => "3",
        4 => "4",
        5 => "5",
        6 => "6",
        7 => "7",
        8 => "8",
        9 => "9",
        10 => "a",
        11 => "b",
        12 => "c",
        13 => "d",
        14 => "e",
        _ => "f",
    }
}

/// Writes `n` in decimal behind `s`.
pub fn push_decimal(s: &mut String, n: u64)
    ensures
        final(s)@ == old(s)@ + decimal(n as nat),
    decreases n,
{
    if n < 10 {
        s.append(digit_str(n as u8));
    } else {
        push_decimal(s, n / 10);
        s.append(digit_str((n % 10) as u8));
        assert(s@ == old(s)@ + decimal(n as nat));
    }
}

/// Writes `n` as two lower-case hexadecimal digits behind `s`.
pub fn push_hex2(s: &mut String, n: u8)
    ensures
        final(s)@ == old(s)@ + hex2(n),
{
    s.append(digit_str(n / 16));
    s.append(digit_str(n % 16));
    assert(s@ == old(s)@ + hex2(n));
}

/// The characters of a text, one by one.
pub fn chars_of(s: &str) -> (r: Vec<char>)
    ensures
        r@ == s@,
{
    let mut out: Vec<char> = Vec::new();
    for c in it: s.chars()
        invariant
            out@ == it.seq().take(it.index()),
            it.seq() == s@,
    {
        out.push(c);
    }
    out
}

/// The place of the first `c` at or behind `from`; the length where there is none.
pub open spec fn find(t: Seq<char>, c: char, from: int) -> int
    decreases t.len() - from,
{
    if from >= t.len() {
        t.len() as int
    } else if t[from] == c {
        from
    } else {
        find(t, c, from + 1)
    }
}

/// The fields of a text, parted at every `c`: one more than there are `c`s.
pub open spec fn split(t: Seq<char>, c: char) -> Seq<Seq<char>>
    decreases t.len(),
{
    let i = find(t, c, 0);
    if 0 <= i < t.len() {
        seq![t.take(i)] + split(t.skip(i + 1), c)
    } else {
        seq![t]
    }
}

/// A line without the carriage return before its line feed.
pub open spec fn without_cr(t: Seq<char>) -> Seq<char> {
    if t.len() > 0 && t.last() == '\r' {
        t.drop_last()
    } else {
        t
    }
}

/// The lines of a text. A line feed ends a line and so does a carriage return
/// with a line feed; the end of the last line is optional.
pub open spec fn lines(t: Seq<char>) -> Seq<Seq<char>>
    decreases t.len(),
{
    let i = find(t, '\n', 0);
    if t.len() == 0 {
        Seq::empty()
    } else if 0 <= i < t.len() {
        seq![without_cr(t.take(i))] + lines(t.skip(i + 1))
    } else {
        seq![t]
    }
}

/// Whether a character is a decimal digit.
pub open spec fn is_digit(c: char) -> bool {
    '0' <= c <= '9'
}

/// The number that a string of digits stands for.
pub open spec fn digits_value(t: Seq<char>) -> nat
    decreases t.len(),
{
    if t.len() == 0 {
        0
    } else {
        (digits_value(t.drop_last()) * 10 + (t.last() as int - '0' as int)) as nat
    }
}

/// A text without its leading plus sign.
pub open spec fn without_plus(t: Seq<char>) -> Seq<char> {
    if t.len() > 0 && t[0] == '+' {
        t.skip(1)
    } else {
        t
    }
}

/// The number that a text stands for: an optional plus sign, then digits and
/// nothing else, no more than `max`.
pub open spec fn number(t: Seq<char>, max: nat) -> Option<nat> {
    let d = without_plus(t);
    if d.len() > 0 && (forall|i: int| 0 <= i < d.len() ==> is_digit(#[trigger] d[i])) && digits_value(d)
        <= max {
        Some(digits_value(d))
    } else {
        None
    }
}

/// More digits make no smaller number.
proof fn lemma_digits_grow(t: Seq<char>, n: int)
    requires
        0 <= n <= t.len(),
        forall|i: int| 0 <= i < t.len() ==> is_digit(#[trigger] t[i]),
    ensures
        digits_value(t.take(n)) <= digits_value(t),
    decreases t.len() - n,
{
    if n < t.len() {
        let u = t.take(n + 1);
        assert(u.drop_last() == t.take(n));
        assert(is_digit(t[n]));
        lemma_digits_grow(t, n + 1);
    } else {
        assert(t.take(n) == t);
    }
}

/// Reads the number between `from` and `to`, as [`number`] says.
pub fn parse_number(t: &Vec<char>, from: usize, to: usize, max: u64) -> (r: Option<u64>)
    requires
        from <= to <= t.len(),
    ensures
        r is Some == (number(t@.subrange(from as int, to as int), max as nat) is Some),
        r matches Some(n) ==> number(t@.subrange(from as int, to as int), max as nat) == Some(
            n as nat,
        ),
{
    let ghost whole = t@.subrange(from as int, to as int);
    let mut at: usize = from;
    if from < to && t[from] == '+' {
        at = from + 1;
    }
    let ghost d = without_plus(whole);
    let ghost start = at as int;
    assert(d == t@.subrange(start, to as int));
    if at == to {
        return None;
    }
    let mut value: u64 = 0;
    while at < to
        invariant
            start <= at <= to <= t.len(),
            0 <= start,
            d == t@.subrange(start, to as int),
            d == without_plus(whole),
            whole == t@.subrange(from as int, to as int),
            d.len() > 0,
            value == digits_value(d.take(at - start)),
            value <= max,
            forall|i: int| 0 <= i < at - start ==> is_digit(#[trigger] d[i]),
        decreases to - at,
    {
        let c: char = t[at];
        let ghost k = at - start;
        assert(d[k] == c);
        if !('0' <= c && c <= '9') {
            assert(!is_digit(d[k]));
            return None;
        }
        let x: u64 = (c as u32 - '0' as u32) as u64;
        assert(d.take(k + 1).drop_last() == d.take(k));
        assert(digits_value(d.take(k + 1)) == value * 10 + x);
        if value > max / 10 || x > max - value * 10 {
            proof {
                if forall|i: int| 0 <= i < d.len() ==> is_digit(#[trigger] d[i]) {
                    lemma_digits_grow(d, k + 1);
                }
            }
            return None;
        }
        value = value * 10 + x;
        at = at + 1;
    }
    assert(d.take(d.len() as int) == d);
    Some(value)
}

/// The first `c` between `from` and the end, as [`find`] says.
pub fn find_char(t: &Vec<char>, c: char, from: usize) -> (r: usize)
    requires
        from <= t.len(),
    ensures
        r == find(t@, c, from as int),
        from <= r <= t.len(),
{
    let mut i: usize = from;
    while i < t.len() && t[i] != c
        invariant
            from <= i <= t.len(),
            find(t@, c, from as int) == find(t@, c, i as int),
        decreases t.len() - i,
    {
        i = i + 1;
    }
    i
}

/// Splitting a text once more past its first field.
pub proof fn lemma_split_step(t: Seq<char>, c: char, from: int, i: int)
    requires
        0 <= from <= t.len(),
        i == find(t, c, from),
        from <= i <= t.len(),
    ensures
        i < t.len() ==> split(t.skip(from), c) == seq![t.subrange(from, i)] + split(
            t.skip(i + 1),
            c,
        ),
        i == t.len() ==> split(t.skip(from), c) == seq![t.subrange(from, i)],
{
    lemma_find_shift(t, c, from, 0);
    let s = t.skip(from);
    let j = find(s, c, 0);
    assert(j == i - from);
    if i < t.len() {
        assert(s.take(j) == t.subrange(from, i));
        assert(s.skip(j + 1) == t.skip(i + 1));
    } else {
        assert(s == t.subrange(from, i));
    }
}

/// Finding in what follows `from`.
pub proof fn lemma_find_shift(t: Seq<char>, c: char, from: int, k: int)
    requires
        0 <= from <= t.len(),
        0 <= k <= t.len() - from,
    ensures
        find(t.skip(from), c, k) == find(t, c, from + k) - from,
    decreases t.len() - from - k,
{
    let s = t.skip(from);
    if k < s.len() && s[k] != c {
        lemma_find_shift(t, c, from, k + 1);
    }
}

/// Whether two texts are the same.
pub fn same_text(a: &str, b: &str) -> (r: bool)
    ensures
        r == (a@ == b@),
{
    let x: String = String::from_str(a);
    let y: String = String::from_str(b);
    x == y
}

/// Fields with a `c` between each and the next.
pub open spec fn with_between(fields: Seq<Seq<char>>, c: char) -> Seq<char>
    decreases fields.len(),
{
    if fields.len() == 0 {
        Seq::empty()
    } else if fields.len() == 1 {
        fields[0]
    } else {
        fields[0] + seq![c] + with_between(fields.skip(1), c)
    }
}

proof fn lemma_find_first(t: Seq<char>, c: char, from: int, i: int)
    requires
        0 <= from <= i <= t.len(),
        i < t.len() ==> t[i] == c,
        forall|k: int| from <= k < i ==> t[k] != c,
    ensures
        find(t, c, from) == i,
    decreases i - from,
{
    if from < i {
        assert(t[from] != c);
        lemma_find_first(t, c, from + 1, i);
    }
}

/// The first of a character is found, and nothing before it: behind `from` it does not
/// stand earlier.
pub proof fn what_is_found_is_the_first(t: Vec<char>, c: char, from: usize, r: usize, k: int)
    requires
        call_ensures(find_char, (&t, c, from), r),
        from <= t@.len(),
        from <= k < t@.len(),
    ensures
        from <= r <= t@.len(),
        r < t@.len() ==> t@[r as int] == c,
        k < r ==> t@[k] != c,
        t@[k] == c ==> r <= k,
{
    lemma_found(t@, c, from as int, k);
}

proof fn lemma_found(t: Seq<char>, c: char, from: int, k: int)
    requires
        0 <= from <= k < t.len(),
    ensures
        from <= find(t, c, from) <= t.len(),
        find(t, c, from) < t.len() ==> t[find(t, c, from)] == c,
        k < find(t, c, from) ==> t[k] != c,
    decreases t.len() - from,
{
    if t[from] != c {
        if from < k {
            lemma_found(t, c, from + 1, k);
        } else if from + 1 < t.len() {
            lemma_found(t, c, from + 1, from + 1);
        }
    }
}

/// Fields that are put together with a character between them that none of them holds
/// come apart again.
pub proof fn fields_come_apart_again(fields: Seq<Seq<char>>, c: char)
    requires
        fields.len() > 0,
        forall|i: int, k: int|
            0 <= i < fields.len() && 0 <= k < fields[i].len() ==> #[trigger] fields[i][k] != c,
    ensures
        split(with_between(fields, c), c) == fields,
    decreases fields.len(),
{
    let t = with_between(fields, c);
    let n = fields[0].len() as int;
    assert(forall|k: int| 0 <= k < n ==> fields[0][k] != c);
    if fields.len() == 1 {
        lemma_find_first(t, c, 0, n);
        assert(fields =~= seq![t]);
    } else {
        let rest = fields.skip(1);
        assert forall|i: int, k: int| 0 <= i < rest.len() && 0 <= k < rest[i].len() implies
            #[trigger] rest[i][k] != c by {
            assert(fields[i + 1][k] != c);
        }
        fields_come_apart_again(rest, c);
        assert(t[n] == c);
        assert forall|k: int| 0 <= k < n implies t[k] != c by {
            assert(t[k] == fields[0][k]);
        }
        lemma_find_first(t, c, 0, n);
        assert(t.take(n) =~= fields[0]);
        assert(t.skip(n + 1) =~= with_between(rest, c));
        assert(seq![fields[0]] + rest =~= fields);
    }
}

/// A line feed ends a line, and a carriage return before it belongs to the end. What
/// follows are lines again. The last line needs no end.
pub proof fn line_feeds_end_lines(line: Seq<char>, rest: Seq<char>)
    requires
        forall|k: int| 0 <= k < line.len() ==> line[k] != '\n',
    ensures
        line.len() > 0 ==> lines(line) == seq![line],
        lines(Seq::empty()) == Seq::<Seq<char>>::empty(),
        lines(line + seq!['\r', '\n'] + rest) == seq![line] + lines(rest),
        line.len() == 0 || line[line.len() - 1] != '\r' ==> lines(line + seq!['\n'] + rest)
            == seq![line] + lines(rest),
{
    let n = line.len() as int;
    lemma_find_first(line, '\n', 0, n);
    let a = line + seq!['\r', '\n'] + rest;
    assert(a[n + 1] == '\n' && a[n] == '\r');
    assert forall|k: int| 0 <= k < n + 1 implies a[k] != '\n' by {
        if k < n {
            assert(a[k] == line[k]);
        }
    }
    lemma_find_first(a, '\n', 0, n + 1);
    assert(a.take(n + 1).drop_last() =~= line);
    assert(a.skip(n + 2) =~= rest);
    let b = line + seq!['\n'] + rest;
    assert(b[n] == '\n');
    assert forall|k: int| 0 <= k < n implies b[k] != '\n' by {
        assert(b[k] == line[k]);
    }
    lemma_find_first(b, '\n', 0, n);
    assert(b.take(n) =~= line);
    assert(b.skip(n + 1) =~= rest);
}

/// What is written in decimal are digits, no more than it takes, that read as the
/// number.
pub proof fn decimals_read_back(n: nat)
    ensures
        decimal(n).len() > 0,
        forall|i: int| 0 <= i < decimal(n).len() ==> '0' <= #[trigger] decimal(n)[i] <= '9',
        n > 0 ==> decimal(n)[0] != '0',
        n == 0 ==> decimal(n) == seq!['0'],
        digits_value(decimal(n)) == n,
        number(decimal(n), n) == Some(n),
    decreases n,
{
    reveal_with_fuel(digits_value, 2);
    let t = decimal(n);
    assert(digit_char((n % 10) as int) as int == 0x30 + n % 10);
    if n >= 10 {
        decimals_read_back(n / 10);
        assert(t.drop_last() =~= decimal(n / 10));
        assert(t[0] == decimal(n / 10)[0]);
        assert forall|i: int| 0 <= i < t.len() implies '0' <= #[trigger] t[i] <= '9' by {
            if i < t.len() - 1 {
                assert(t[i] == decimal(n / 10)[i]);
            }
        }
    } else {
        assert(t.drop_last() =~= Seq::<char>::empty());
        assert(t.last() == digit_char(n as int));
    }
    assert(t[0] != '+');
    assert(forall|i: int| 0 <= i < t.len() ==> is_digit(#[trigger] t[i]));
}

/// Writing a number in decimal adds its digits and leaves what was there.
pub proof fn decimals_are_written_behind(s: &mut String, n: u64)
    requires
        call_ensures(push_decimal, (s, n), ()),
    ensures
        final(s)@.len() > old(s)@.len(),
        final(s)@.take(old(s)@.len() as int) == old(s)@,
        digits_value(final(s)@.skip(old(s)@.len() as int)) == n,
        n > 0 ==> final(s)@[old(s)@.len() as int] != '0',
        n < 10 ==> final(s)@.len() == old(s)@.len() + 1,
{
    decimals_read_back(n as nat);
    assert(final(s)@.skip(old(s)@.len() as int) =~= decimal(n as nat));
    assert(final(s)@.take(old(s)@.len() as int) =~= old(s)@);
}

/// One digit stands for its value. Another digit behind a number makes ten of each of
/// its units and adds the digit, as long as that is no more than the limit; anything
/// else there makes it no number.
pub proof fn digits_count_from_the_left(
    a: Vec<char>,
    v: u64,
    b: Vec<char>,
    c: char,
    max: u64,
    r: Option<u64>,
)
    requires
        call_ensures(parse_number, (&a, 0, a.len(), max), Some(v)),
        b@ == a@.push(c),
        call_ensures(parse_number, (&b, 0, b.len(), max), r),
    ensures
        v <= max,
        r == (if '0' <= c <= '9' && v * 10 + (c as int - '0' as int) <= max {
            Some((v * 10 + (c as int - '0' as int)) as u64)
        } else {
            None
        }),
{
    assert(a@.subrange(0, a@.len() as int) =~= a@);
    assert(b@.subrange(0, b@.len() as int) =~= b@);
    let d = without_plus(a@);
    let e = without_plus(b@);
    assert(e =~= d.push(c));
    assert(e.drop_last() =~= d);
    if is_digit(c) {
        assert forall|i: int| 0 <= i < e.len() implies is_digit(#[trigger] e[i]) by {
            if i < d.len() {
                assert(e[i] == d[i]);
            }
        }
    } else {
        assert(e[e.len() - 1] == c);
    }
}

/// A number has digits, and one digit is a number. A plus sign before it changes
/// nothing, any other character makes it no number.
pub proof fn numbers_start_with_a_digit(a: Vec<char>, max: u64, r: Option<u64>)
    requires
        call_ensures(parse_number, (&a, 0, a.len(), max), r),
    ensures
        a@.len() == 0 ==> r is None,
        a@.len() == 1 ==> r == (if '0' <= a@[0] <= '9' && a@[0] as int - '0' as int <= max {
            Some((a@[0] as int - '0' as int) as u64)
        } else {
            None
        }),
        a@.len() == 2 && a@[0] == '+' ==> r == (if '0' <= a@[1] <= '9' && a@[1] as int - '0' as int
            <= max {
            Some((a@[1] as int - '0' as int) as u64)
        } else {
            None
        }),
        a@.len() > 0 && a@[0] != '+' && !('0' <= a@[0] <= '9') ==> r is None,
{
    reveal_with_fuel(digits_value, 3);
    assert(a@.subrange(0, a@.len() as int) =~= a@);
    let d = without_plus(a@);
    if a@.len() == 1 && a@[0] != '+' {
        assert(d.drop_last() =~= Seq::<char>::empty());
        assert(d[0] == a@[0]);
    }
    if a@.len() == 2 && a@[0] == '+' {
        assert(d.drop_last() =~= Seq::<char>::empty());
        assert(d[0] == a@[1]);
    }
    if a@.len() > 0 && a@[0] != '+' {
        assert(d[0] == a@[0]);
    }
}

/// Two hexadecimal digits tell the byte: sixteen times the value of the first and that
/// of the second, where a letter counts from ten.
pub proof fn hexadecimal_digits_tell_the_byte(s: &mut String, n: u8)
    requires
        call_ensures(push_hex2, (s, n), ()),
    ensures
        final(s)@.len() == old(s)@.len() + 2,
        final(s)@.take(old(s)@.len() as int) == old(s)@,
        ({
            let x = final(s)@[old(s)@.len() as int];
            let y = final(s)@[old(s)@.len() as int + 1];
            &&& '0' <= x <= '9' || 'a' <= x <= 'f'
            &&& '0' <= y <= '9' || 'a' <= y <= 'f'
            &&& n == 16 * (if x <= '9' {
                x as int - '0' as int
            } else {
                x as int - 'a' as int + 10
            }) + (if y <= '9' {
                y as int - '0' as int
            } else {
                y as int - 'a' as int + 10
            })
        }),
{
    assert(final(s)@.take(old(s)@.len() as int) =~= old(s)@);
}

/// The same in upper case.
pub proof fn upper_digits_tell_the_byte(n: u8)
    ensures
        upper_hex2(n).len() == 2,
        ({
            let x = upper_hex2(n)[0];
            let y = upper_hex2(n)[1];
            &&& '0' <= x <= '9' || 'A' <= x <= 'F'
            &&& '0' <= y <= '9' || 'A' <= y <= 'F'
            &&& n == 16 * (if x <= '9' {
                x as int - '0' as int
            } else {
                x as int - 'A' as int + 10
            }) + (if y <= '9' {
                y as int - '0' as int
            } else {
                y as int - 'A' as int + 10
            })
        }),
{
}

/// Texts are the same where their characters are.
pub proof fn texts_are_the_same_by_their_characters(a: &str, b: &str, r: bool, c: Vec<char>)
    requires
        call_ensures(same_text, (a, b), r),
        call_ensures(chars_of, (a,), c),
    ensures
        r ==> a@ == b@,
        a@.len() == b@.len() && (forall|i: int| 0 <= i < a@.len() ==> a@[i] == b@[i]) ==> r,
        c@ == a@,
{
    if a@.len() == b@.len() && (forall|i: int| 0 <= i < a@.len() ==> a@[i] == b@[i]) {
        assert(a@ =~= b@);
    }
}

/// What is no number does not become one by what follows it, but for a plus sign.
pub proof fn what_is_no_number_stays_none(
    a: Vec<char>,
    b: Vec<char>,
    c: char,
    max: u64,
    r: Option<u64>,
)
    requires
        call_ensures(parse_number, (&a, 0, a.len(), max), None),
        a@.len() > 1 || a@.len() == 1 && a@[0] != '+',
        b@ == a@.push(c),
        call_ensures(parse_number, (&b, 0, b.len(), max), r),
    ensures
        r is None,
{
    assert(a@.subrange(0, a@.len() as int) =~= a@);
    assert(b@.subrange(0, b@.len() as int) =~= b@);
    let d = without_plus(a@);
    let e = without_plus(b@);
    assert(e =~= d.push(c));
    assert(e.take(d.len() as int) =~= d);
    if r is Some {
        assert forall|i: int| 0 <= i < d.len() implies is_digit(#[trigger] d[i]) by {
            assert(e[i] == d[i]);
        }
        lemma_digits_grow(e, d.len() as int);
    }
}

} // verus!
