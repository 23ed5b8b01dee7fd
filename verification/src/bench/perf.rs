//! Reading counters out of the CSV text that `perf stat -x ,` writes.
//!
//! Each counter line has the form `value,unit,event,...`: the value is the
//! first comma-separated field and the event name the third, both with
//! surrounding whitespace trimmed. When an event appears on several lines,
//! the last one counts.

use crate::text::{decimal, digit_char};
use vstd::prelude::*;

verus! {

/// Whether `c` is white space in the sense of Unicode's `White_Space`
/// property, as `char::is_whitespace` and `str::trim` use it.
pub open spec fn is_space(c: char) -> bool {
    let v = c as u32;
    ||| 0x09 <= v <= 0x0d
    ||| v == 0x20
    ||| v == 0x85
    ||| v == 0xa0
    ||| v == 0x1680
    ||| 0x2000 <= v <= 0x200a
    ||| v == 0x2028
    ||| v == 0x2029
    ||| v == 0x202f
    ||| v == 0x205f
    ||| v == 0x3000
}

/// `s` without its leading white space.
pub open spec fn trim_start(s: Seq<char>) -> Seq<char>
    decreases s.len(),
{
    if s.len() > 0 && is_space(s[0]) {
        trim_start(s.drop_first())
    } else {
        s
    }
}

/// `s` without its trailing white space.
pub open spec fn trim_end(s: Seq<char>) -> Seq<char>
    decreases s.len(),
{
    if s.len() > 0 && is_space(s.last()) {
        trim_end(s.drop_last())
    } else {
        s
    }
}

/// `s` without leading and trailing white space, as `str::trim` returns it.
pub open spec fn trim(s: Seq<char>) -> Seq<char> {
    trim_end(trim_start(s))
}

/// The first position at or after `from` where `s` holds `c`, or `s.len()`.
pub open spec fn next_index(s: Seq<char>, from: int, c: char) -> int
    decreases s.len() - from,
{
    if from >= s.len() {
        s.len() as int
    } else if s[from] == c {
        from
    } else {
        next_index(s, from + 1, c)
    }
}

/// `next_index` stays between its starting point and the end.
pub proof fn lemma_next_index_bounds(s: Seq<char>, from: int, c: char)
    requires
        0 <= from <= s.len(),
    ensures
        from <= next_index(s, from, c) <= s.len(),
    decreases s.len() - from,
{
    if from < s.len() && s[from] != c {
        lemma_next_index_bounds(s, from + 1, c);
    }
}

/// The lines of `s` from position `start` on, as `str::lines` yields them:
/// split after each `'\n'`, without the line feed and a carriage return
/// just before it; a final line feed ends the last line and starts no new one.
pub open spec fn lines_from(s: Seq<char>, start: int) -> Seq<Seq<char>>
    decreases s.len() - start,
{
    let e = next_index(s, start, '\n');
    // `e < start` never holds (see `lemma_next_index_bounds`).
    if start < 0 || start >= s.len() || e < start {
        Seq::empty()
    } else {
        let raw = s.subrange(start, e);
        let line = if e < s.len() && raw.len() > 0 && raw.last() == '\r' {
            raw.drop_last()
        } else {
            raw
        };
        if e < s.len() {
            seq![line] + lines_from(s, e + 1)
        } else {
            seq![line]
        }
    }
}

/// The lines of `s`.
pub open spec fn text_lines(s: Seq<char>) -> Seq<Seq<char>> {
    lines_from(s, 0)
}

/// The counter a line reports for the event `name`: the trimmed first field,
/// when the line has at least three comma-separated fields and its trimmed
/// third field is `name`.
pub open spec fn line_counter(line: Seq<char>, name: Seq<char>) -> Option<Seq<char>> {
    let c1 = next_index(line, 0, ',');
    let c2 = next_index(line, c1 + 1, ',');
    let c3 = next_index(line, c2 + 1, ',');
    if c1 < line.len() && c2 < line.len() && trim(line.subrange(c2 + 1, c3)) == name {
        Some(trim(line.subrange(0, c1)))
    } else {
        None
    }
}

/// The counter for `name` on the last of the lines `ls` that reports it.
pub open spec fn last_counter(ls: Seq<Seq<char>>, name: Seq<char>) -> Option<Seq<char>>
    decreases ls.len(),
{
    if ls.len() == 0 {
        None
    } else {
        match line_counter(ls.last(), name) {
            Some(v) => Some(v),
            None => last_counter(ls.drop_last(), name),
        }
    }
}

/// The text of the counter for event `name` in the output `stats`.
pub open spec fn counter_text(stats: Seq<char>, name: Seq<char>) -> Option<Seq<char>> {
    last_counter(text_lines(stats), name)
}

/// Whether `c` is white space (see [`is_space`]).
fn is_space_char(c: char) -> (r: bool)
    ensures
        r == is_space(c),
{
    let v = c as u32;
    (0x09 <= v && v <= 0x0d) || v == 0x20 || v == 0x85 || v == 0xa0 || v == 0x1680 || (0x2000 <= v
        && v <= 0x200a) || v == 0x2028 || v == 0x2029 || v == 0x202f || v == 0x205f || v == 0x3000
}

/// The characters of `s`.
fn str_chars(s: &str) -> (v: Vec<char>)
    ensures
        v@ == s@,
{
    let n = s.unicode_len();
    let mut v: Vec<char> = Vec::new();
    let mut i: usize = 0;
    while i < n
        invariant
            n == s@.len(),
            i <= n,
            v@ == s@.take(i as int),
        decreases n - i,
    {
        v.push(s.get_char(i));
        i = i + 1;
        proof {
            assert(v@ =~= s@.take(i as int));
        }
    }
    proof {
        assert(s@.take(n as int) =~= s@);
    }
    v
}

/// The characters of `v` from `a` up to `b`.
fn copy_range(v: &Vec<char>, a: usize, b: usize) -> (r: Vec<char>)
    requires
        a <= b <= v.len(),
    ensures
        r@ == v@.subrange(a as int, b as int),
{
    let mut r: Vec<char> = Vec::new();
    let mut i: usize = a;
    while i < b
        invariant
            a <= i <= b <= v.len(),
            r@ == v@.subrange(a as int, i as int),
        decreases b - i,
    {
        r.push(v[i]);
        i = i + 1;
        proof {
            assert(r@ =~= v@.subrange(a as int, i as int));
        }
    }
    r
}

/// The first position at or after `from` where `v` holds `c`, or `v.len()`.
fn find_char(v: &Vec<char>, from: usize, c: char) -> (r: usize)
    requires
        from <= v.len(),
    ensures
        r == next_index(v@, from as int, c),
        from <= r <= v.len(),
{
    let mut i = from;
    while i < v.len()
        invariant
            from <= i <= v.len(),
            next_index(v@, from as int, c) == next_index(v@, i as int, c),
        decreases v.len() - i,
    {
        if v[i] == c {
            return i;
        }
        i = i + 1;
    }
    i
}

/// The bounds of `v[a..b]` without its surrounding white space.
fn trim_range(v: &Vec<char>, a: usize, b: usize) -> (r: (usize, usize))
    requires
        a <= b <= v.len(),
    ensures
        a <= r.0 <= r.1 <= b,
        v@.subrange(r.0 as int, r.1 as int) == trim(v@.subrange(a as int, b as int)),
{
    let ghost s = v@;
    let mut lo = a;
    while lo < b && is_space_char(v[lo])
        invariant
            a <= lo <= b <= v.len(),
            s == v@,
            trim_start(s.subrange(a as int, b as int)) == trim_start(s.subrange(lo as int, b as int)),
        decreases b - lo,
    {
        proof {
            assert(s.subrange(lo as int, b as int).drop_first() =~= s.subrange(lo + 1, b as int));
        }
        lo = lo + 1;
    }
    let mut hi = b;
    while hi > lo && is_space_char(v[hi - 1])
        invariant
            a <= lo <= hi <= b <= v.len(),
            s == v@,
            trim_start(s.subrange(a as int, b as int)) == s.subrange(lo as int, b as int),
            trim_end(s.subrange(lo as int, b as int)) == trim_end(s.subrange(lo as int, hi as int)),
        decreases hi - lo,
    {
        proof {
            assert(s.subrange(lo as int, hi as int).drop_last() =~= s.subrange(lo as int, hi - 1));
        }
        hi = hi - 1;
    }
    (lo, hi)
}

/// Whether `v[a..b]` spells `name`.
fn range_equals(v: &Vec<char>, a: usize, b: usize, name: &Vec<char>) -> (r: bool)
    requires
        a <= b <= v.len(),
    ensures
        r == (v@.subrange(a as int, b as int) == name@),
{
    if b - a != name.len() {
        return false;
    }
    let mut i: usize = 0;
    while i < name.len()
        invariant
            a <= b <= v.len(),
            b - a == name.len(),
            i <= name.len(),
            forall|k: int| 0 <= k < i ==> v@[a + k] == name@[k],
        decreases name.len() - i,
    {
        if v[a + i] != name[i] {
            proof {
                assert(v@.subrange(a as int, b as int)[i as int] != name@[i as int]);
            }
            return false;
        }
        i = i + 1;
    }
    proof {
        assert(v@.subrange(a as int, b as int) =~= name@);
    }
    true
}

/// Where the counter that `line` reports for `name` lies in `line`, if it does.
fn line_counter_range(line: &Vec<char>, name: &Vec<char>) -> (r: Option<(usize, usize)>)
    ensures
        match r {
            Some((a, b)) => a <= b <= line.len() && line_counter(line@, name@) == Some(line@.subrange(a as int, b as int)),
            None => line_counter(line@, name@) is None,
        },
{
    let len = line.len();
    let c1 = find_char(line, 0, ',');
    if c1 >= len {
        return None;
    }
    let c2 = find_char(line, c1 + 1, ',');
    if c2 >= len {
        return None;
    }
    let c3 = find_char(line, c2 + 1, ',');
    let (ka, kb) = trim_range(line, c2 + 1, c3);
    if !range_equals(line, ka, kb, name) {
        return None;
    }
    let (va, vb) = trim_range(line, 0, c1);
    Some((va, vb))
}

/// The text of the counter that `perf stat -x ,` output `stats` reports for
/// the event `counter`: the trimmed value field of the last line naming it.
pub fn perf_counter_text(stats: &str, counter: &str) -> (r: Option<String>)
    ensures
        match r {
            Some(t) => counter_text(stats@, counter@) == Some(t@),
            None => counter_text(stats@, counter@) is None,
        },
{
    let chars = str_chars(stats);
    let name = str_chars(counter);
    let n = chars.len();
    let ghost s = stats@;
    let mut start: usize = 0;
    let mut found: Option<(usize, usize)> = None;
    let ghost mut done: Seq<Seq<char>> = Seq::empty();
    proof {
        assert(done + lines_from(s, 0) =~= lines_from(s, 0));
    }
    while start < n
        invariant
            s == stats@,
            chars@ == s,
            name@ == counter@,
            n == chars.len(),
            start <= n,
            text_lines(s) == done + lines_from(s, start as int),
            match found {
                Some((a, b)) => a <= b <= n && last_counter(done, name@) == Some(s.subrange(a as int, b as int)),
                None => last_counter(done, name@) is None,
            },
        decreases n - start,
    {
        let e = find_char(&chars, start, '\n');
        let mut line_end = e;
        if e < n && e > start && chars[e - 1] == '\r' {
            line_end = e - 1;
        }
        let line = copy_range(&chars, start, line_end);
        let next = if e < n {
            e + 1
        } else {
            n
        };
        proof {
            let raw = s.subrange(start as int, e as int);
            if e < n && raw.len() > 0 && raw.last() == '\r' {
                assert(raw.drop_last() =~= line@);
            } else {
                assert(raw =~= line@);
            }
            if e < n {
                assert(lines_from(s, start as int) == seq![line@] + lines_from(s, next as int));
            } else {
                assert(lines_from(s, start as int) =~= seq![line@] + lines_from(s, next as int));
            }
            assert(done + lines_from(s, start as int) =~= done.push(line@) + lines_from(s, next as int));
            assert(done.push(line@).drop_last() =~= done);
            done = done.push(line@);
        }
        match line_counter_range(&line, &name) {
            Some((a, b)) => {
                proof {
                    assert(line@.subrange(a as int, b as int) =~= s.subrange(start + a, start + b));
                }
                found = Some((start + a, start + b));
            },
            None => {},
        }
        start = next;
    }
    proof {
        assert(done + lines_from(s, start as int) =~= done);
    }
    match found {
        Some((a, b)) => Some(String::from_str(stats.substring_char(a, b))),
        None => None,
    }
}

/// Whether `c` is an ASCII decimal digit.
pub open spec fn is_digit(c: char) -> bool {
    48 <= (c as u32) <= 57
}

/// Whether every character of `s` is an ASCII decimal digit.
pub open spec fn all_digits(s: Seq<char>) -> bool {
    forall|i: int| 0 <= i < s.len() ==> is_digit(#[trigger] s[i])
}

/// The number the decimal digits `s` spell.
pub open spec fn digits_value(s: Seq<char>) -> int
    decreases s.len(),
{
    if s.len() == 0 {
        0
    } else {
        digits_value(s.drop_last()) * 10 + ((s.last() as u32) - 48)
    }
}

/// The number `str::parse::<i32>` reads from `s`: an optional `+` or `-`,
/// then one or more ASCII digits, whose signed value lies in `i32`'s range;
/// `None` for any other text.
pub open spec fn i32_text_value(s: Seq<char>) -> Option<int> {
    let signed = s.len() > 0 && (s[0] == '+' || s[0] == '-');
    let ds = if signed { s.drop_first() } else { s };
    let v = if signed && s[0] == '-' { -digits_value(ds) } else { digits_value(ds) };
    if ds.len() > 0 && all_digits(ds) && i32::MIN <= v <= i32::MAX {
        Some(v)
    } else {
        None
    }
}

/// The context-switch count a `perf stat -x ,` report `stats` gives: the
/// counter read as an `i32` and taken bit for bit as a `u64` (so a negative
/// count wraps), or zero where the counter is missing or is not an `i32`.
pub open spec fn context_switches_in(stats: Seq<char>) -> int {
    match counter_text(stats, "context-switches"@) {
        Some(t) => match i32_text_value(t) {
            Some(v) => if v >= 0 {
                v
            } else {
                v + 0x1_0000_0000_0000_0000
            },
            None => 0,
        },
        None => 0,
    }
}

proof fn lemma_digits_value_nonneg(s: Seq<char>)
    requires
        all_digits(s),
    ensures
        digits_value(s) >= 0,
    decreases s.len(),
{
    if s.len() > 0 {
        assert(all_digits(s.drop_last()));
        lemma_digits_value_nonneg(s.drop_last());
        assert(is_digit(s[s.len() - 1]));
    }
}

/// A longer run of digits spells at least the number its prefix spells.
proof fn lemma_digits_value_prefix(s: Seq<char>, k: int)
    requires
        all_digits(s),
        0 <= k <= s.len(),
    ensures
        digits_value(s.take(k)) <= digits_value(s),
    decreases s.len(),
{
    if k == s.len() {
        assert(s.take(k) =~= s);
    } else {
        let p = s.drop_last();
        assert(all_digits(p));
        assert(p.take(k) =~= s.take(k));
        lemma_digits_value_prefix(p, k);
        lemma_digits_value_nonneg(p);
        assert(is_digit(s[s.len() - 1]));
    }
}

/// Reads `text` as `str::parse::<i32>` does: `None` where that fails.
pub fn parse_i32(text: &str) -> (r: Option<i32>)
    ensures
        match i32_text_value(text@) {
            Some(v) => r == Some(v as i32),
            None => r is None,
        },
{
    let v = str_chars(text);
    let n = v.len();
    let signed = n > 0 && (v[0] == '+' || v[0] == '-');
    let negative = signed && v[0] == '-';
    let start: usize = if signed { 1 } else { 0 };
    let ghost ds = v@.subrange(start as int, n as int);
    proof {
        if signed {
            assert(ds =~= v@.drop_first());
        } else {
            assert(ds =~= v@);
        }
    }
    if start >= n {
        return None;
    }
    let mut acc: u64 = 0;
    let mut i: usize = start;
    while i < n
        invariant
            start <= i <= n,
            n == v@.len(),
            v@ == text@,
            ds == v@.subrange(start as int, n as int),
            ds == (if n > 0 && (text@[0] == '+' || text@[0] == '-') { text@.drop_first() } else { text@ }),
            v@.subrange(start as int, i as int) == ds.take(i - start),
            all_digits(ds.take(i - start)),
            acc == digits_value(ds.take(i - start)),
            acc <= 2147483648,
        decreases n - i,
    {
        let code = v[i] as u32;
        if code < 48 || code > 57 {
            proof {
                assert(ds[i - start] == v@[i as int]);
                assert(!is_digit(ds[i - start]));
            }
            return None;
        }
        proof {
            assert(ds.take(i - start + 1).drop_last() =~= ds.take(i - start));
            assert(ds.take(i - start + 1).last() == v@[i as int]);
            assert(all_digits(ds.take(i - start + 1)));
        }
        acc = acc * 10 + (code - 48) as u64;
        i = i + 1;
        if acc > 2147483648 {
            proof {
                if all_digits(ds) {
                    lemma_digits_value_prefix(ds, i - start);
                }
            }
            return None;
        }
    }
    proof {
        assert(ds.take(i - start) =~= ds);
    }
    if negative {
        Some((0i64 - acc as i64) as i32)
    } else if acc <= 2147483647 {
        Some(acc as i32)
    } else {
        None
    }
}

/// The context-switch count of the `perf stat -x ,` report `stats` (see
/// [`context_switches_in`]).
pub fn context_switch_count(stats: &str) -> (r: u64)
    ensures
        r == context_switches_in(stats@),
{
    let count: i32 = match perf_counter_text(stats, "context-switches") {
        Some(t) => match parse_i32(t.as_str()) {
            Some(c) => c,
            None => 0,
        },
        None => 0,
    };
    if count >= 0 {
        count as u64
    } else {
        u64::MAX - ((-1 - count) as u64)
    }
}

proof fn lemma_digit_char_code(d: nat)
    requires
        d < 10,
    ensures
        digit_char(d) as u32 == 48 + d,
{
    assert('0' as u32 == 48 && '1' as u32 == 49 && '2' as u32 == 50 && '3' as u32 == 51 && '4' as u32 == 52);
    assert('5' as u32 == 53 && '6' as u32 == 54 && '7' as u32 == 55 && '8' as u32 == 56 && '9' as u32 == 57);
}

/// The decimal rendering of `n` is a run of digits without a leading zero
/// (but for zero itself) that reads back as `n`.
pub proof fn lemma_decimal_reads_back(n: nat)
    ensures
        decimal(n).len() > 0,
        all_digits(decimal(n)),
        digits_value(decimal(n)) == n,
        decimal(n).len() > 1 ==> decimal(n)[0] != '0',
    decreases n,
{
    let d = n % 10;
    lemma_digit_char_code(d);
    if n < 10 {
        let s = decimal(n);
        lemma_digit_char_code(n);
        assert(s.drop_last() =~= Seq::<char>::empty());
        assert(s.last() == digit_char(n));
        assert(digits_value(s) == digits_value(s.drop_last()) * 10 + ((digit_char(n) as u32) - 48));
    } else {
        let k = n / 10;
        let hi = decimal(k);
        lemma_decimal_reads_back(k);
        let s = decimal(n);
        assert(s == hi.push(digit_char(d)));
        assert(s.drop_last() =~= hi);
        assert(s.last() == digit_char(d));
        assert(digits_value(s) == digits_value(hi) * 10 + ((digit_char(d) as u32) - 48));
        assert(k * 10 + d == n);
        assert(s[0] == hi[0]);
        if hi.len() == 1 {
            if k >= 10 {
                assert(decimal(k) == decimal(k / 10).push(digit_char(k % 10)));
                lemma_decimal_reads_back(k / 10);
            }
            assert(k < 10);
            lemma_digit_char_code(k);
            assert(hi[0] == digit_char(k));
        }
    }
}

/// Reading back the decimal text of any `i32`, with a leading `-` when it is
/// negative, gives that number again; so does the text with a leading `+`
/// for one that is not negative.
pub proof fn lemma_i32_text_round_trip(v: i32)
    ensures
        v < 0 ==> i32_text_value(seq!['-'] + decimal((-v) as nat)) == Some(v as int),
        v >= 0 ==> i32_text_value(decimal(v as nat)) == Some(v as int),
        v >= 0 ==> i32_text_value(seq!['+'] + decimal(v as nat)) == Some(v as int),
{
    if v < 0 {
        let m = (-v) as nat;
        lemma_decimal_reads_back(m);
        let t = seq!['-'] + decimal(m);
        assert(t.drop_first() =~= decimal(m));
        assert(t[0] == '-');
    } else {
        let m = v as nat;
        lemma_decimal_reads_back(m);
        let s = decimal(m);
        assert(is_digit(s[0]));
        assert(s[0] != '+' && s[0] != '-');
        let t = seq!['+'] + s;
        assert(t.drop_first() =~= s);
        assert(t[0] == '+');
    }
}

} // verus!
