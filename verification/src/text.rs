//! Text helpers shared by the statement builders.
//!
//! Every contract in this crate speaks of text as `Seq<char>`. The spec
//! functions here say what the text operations used by the engine return.

use vstd::prelude::*;
use vstd::utf8::{encode_utf8, encode_utf8_decode_utf8};

verus! {

/// `needle` stands in `hay` at offset `at`.
pub open spec fn occurs_at(needle: Seq<char>, hay: Seq<char>, at: int) -> bool {
    &&& 0 <= at
    &&& at + needle.len() <= hay.len()
    &&& hay.subrange(at, at + needle.len()) == needle
}

/// `needle` stands somewhere in `hay`.
pub open spec fn occurs_in(needle: Seq<char>, hay: Seq<char>) -> bool {
    exists|at: int| occurs_at(needle, hay, at)
}

/// `hay` begins with `prefix`.
pub open spec fn has_prefix(hay: Seq<char>, prefix: Seq<char>) -> bool {
    occurs_at(prefix, hay, 0)
}

/// `s` with every occurrence of `from`, found left to right and never
/// overlapping, replaced by `to`. An empty `from` replaces nothing.
pub open spec fn replaced(s: Seq<char>, from: Seq<char>, to: Seq<char>) -> Seq<char>
    decreases s.len(),
{
    if from.len() == 0 || s.len() < from.len() {
        s
    } else if has_prefix(s, from) {
        to + replaced(s.skip(from.len() as int), from, to)
    } else {
        seq![s[0]] + replaced(s.skip(1), from, to)
    }
}

/// Strict lexicographic order by code point: the order of `str`.
pub open spec fn text_less(a: Seq<char>, b: Seq<char>) -> bool
    decreases a.len(),
{
    if b.len() == 0 {
        false
    } else if a.len() == 0 {
        true
    } else if a[0] != b[0] {
        (a[0] as u32) < (b[0] as u32)
    } else {
        text_less(a.skip(1), b.skip(1))
    }
}

/// The decimal digit for `d`, where `d < 10`.
pub open spec fn digit_char(d: nat) -> char {
    if d == 0 {
        '0'
    } else if d == 1 {
        '1'
    } else if d == 2 {
        '2'
    } else if d == 3 {
        '3'
    } else if d == 4 {
        '4'
    } else if d == 5 {
        '5'
    } else if d == 6 {
        '6'
    } else if d == 7 {
        '7'
    } else if d == 8 {
        '8'
    } else {
        '9'
    }
}

/// The decimal digits of `n`, most significant first, without leading zeros.
pub open spec fn digits_of(n: nat) -> Seq<char>
    decreases n,
{
    if n < 10 {
        seq![digit_char(n)]
    } else {
        digits_of(n / 10).push(digit_char(n % 10))
    }
}

/// The decimal text of `n`: a minus sign for a negative number, then digits.
pub open spec fn decimal_text(n: int) -> Seq<char> {
    if n < 0 {
        seq!['-'] + digits_of((-n) as nat)
    } else {
        digits_of(n as nat)
    }
}

/// `c` is one of `0` to `9`.
pub open spec fn is_digit(c: char) -> bool {
    '0' <= c <= '9'
}

/// Every character of `s` is a decimal digit.
pub open spec fn all_digits(s: Seq<char>) -> bool {
    forall|i: int| 0 <= i < s.len() ==> is_digit(#[trigger] s[i])
}

/// The number that the digits `s` write, leading zeros allowed.
pub open spec fn digits_value(s: Seq<char>) -> nat
    decreases s.len(),
{
    if s.len() == 0 {
        0
    } else {
        digits_value(s.drop_last()) * 10 + ((s.last() as u32) - ('0' as u32)) as nat
    }
}

/// `s` without one leading `+` or `-`.
pub open spec fn unsigned_part(s: Seq<char>) -> Seq<char> {
    if s.len() > 0 && (s[0] == '-' || s[0] == '+') {
        s.skip(1)
    } else {
        s
    }
}

/// `s` is what `i64` parses: an optional sign, then at least one digit, and a
/// value that fits.
pub open spec fn is_i64_text(s: Seq<char>) -> bool {
    let body = unsigned_part(s);
    &&& body.len() > 0
    &&& all_digits(body)
    &&& if s[0] == '-' {
        digits_value(body) <= 0x8000_0000_0000_0000
    } else {
        digits_value(body) <= 0x7fff_ffff_ffff_ffff
    }
}

/// The number that an integer text writes.
pub open spec fn integer_value(s: Seq<char>) -> int {
    if s.len() > 0 && s[0] == '-' {
        -(digits_value(unsigned_part(s)) as int)
    } else {
        digits_value(unsigned_part(s)) as int
    }
}

/// What `str::to_uppercase` makes of a text: the Unicode upper-case mapping,
/// which depends on the text alone.
pub uninterp spec fn uppercased(s: Seq<char>) -> Seq<char>;

/// `str::to_uppercase`. The result is named, not described.
#[verifier::external_body]
pub(crate) fn to_upper(s: &str) -> (out: String)
    ensures
        out@ == uppercased(s@),
{
    s.to_uppercase()
}

/// Whether two texts are the same: the same characters in the same order.
pub fn text_eq(a: &str, b: &str) -> (same: bool)
    ensures
        same == (a@ == b@),
{
    let x = a.as_bytes();
    let y = b.as_bytes();
    proof {
        // Texts with the same bytes are the same text: decoding undoes
        // encoding.
        encode_utf8_decode_utf8(a@);
        encode_utf8_decode_utf8(b@);
    }
    if x.len() != y.len() {
        return false;
    }
    let mut i: usize = 0;
    while i < x.len()
        invariant
            0 <= i <= x.len(),
            x@.len() == y@.len(),
            x@ == encode_utf8(a@),
            y@ == encode_utf8(b@),
            forall|j: int| 0 <= j < i ==> x@[j] == y@[j],
        decreases x.len() - i,
    {
        if x[i] != y[i] {
            return false;
        }
        i = i + 1;
    }
    proof {
        assert(x@ =~= y@);
    }
    true
}

/// Whether `needle` stands in `hay` at `at`.
fn matches_at(hay: &Vec<char>, needle: &Vec<char>, at: usize) -> (found: bool)
    requires
        at + needle.len() <= hay.len(),
    ensures
        found == occurs_at(needle@, hay@, at as int),
{
    let mut k: usize = 0;
    while k < needle.len()
        invariant
            0 <= k <= needle.len(),
            at + needle.len() <= hay.len(),
            hay@.subrange(at as int, at + k) == needle@.take(k as int),
        decreases needle.len() - k,
    {
        if hay[at + k] != needle[k] {
            proof {
                let whole = hay@.subrange(at as int, at + needle.len());
                assert(whole[k as int] == hay@[at + k]);
            }
            return false;
        }
        proof {
            assert(hay@.subrange(at as int, at + k + 1) =~= hay@.subrange(at as int, at + k).push(
                hay@[at + k],
            ));
            assert(needle@.take(k as int + 1) =~= needle@.take(k as int).push(needle@[k as int]));
        }
        k = k + 1;
    }
    proof {
        assert(needle@.take(needle.len() as int) =~= needle@);
    }
    true
}

/// Whether `needle` occurs in `hay`.
pub fn contains_text(hay: &str, needle: &str) -> (found: bool)
    ensures
        found == occurs_in(needle@, hay@),
{
    let h = chars_of(hay);
    let n = chars_of(needle);
    if n.len() > h.len() {
        return false;
    }
    let last = h.len() - n.len();
    let mut at: usize = 0;
    while at < last
        invariant
            0 <= at <= last,
            last == h.len() - n.len(),
            h@ == hay@,
            n@ == needle@,
            forall|j: int| 0 <= j < at ==> !occurs_at(needle@, hay@, j),
        decreases last - at,
    {
        if matches_at(&h, &n, at) {
            return true;
        }
        at = at + 1;
    }
    matches_at(&h, &n, last)
}

/// Whether `hay` begins with `prefix`.
pub fn starts_with_text(hay: &str, prefix: &str) -> (found: bool)
    ensures
        found == has_prefix(hay@, prefix@),
{
    let h = chars_of(hay);
    let p = chars_of(prefix);
    if p.len() > h.len() {
        return false;
    }
    matches_at(&h, &p, 0)
}

/// Replaces every occurrence of `from` in `s` by `to`, left to right, never
/// overlapping. An empty `from` occurs nowhere.
pub fn replace_text(s: &str, from: &str, to: &str) -> (out: String)
    ensures
        out@ == replaced(s@, from@, to@),
{
    let chars = chars_of(s);
    let pattern = chars_of(from);
    if pattern.len() == 0 {
        return String::from_str(s);
    }
    let mut out = String::new();
    // The characters from `kept` up to `i` hold no occurrence and are not
    // copied yet.
    let mut kept: usize = 0;
    let mut i: usize = 0;
    proof {
        assert(s@.skip(0) =~= s@);
        assert(s@.subrange(0, 0) =~= Seq::<char>::empty());
    }
    while i < chars.len()
        invariant
            0 <= kept <= i <= chars.len(),
            chars@ == s@,
            pattern@ == from@,
            from@.len() > 0,
            out@ + s@.subrange(kept as int, i as int) + replaced(s@.skip(i as int), from@, to@)
                == replaced(s@, from@, to@),
        decreases chars.len() - i,
    {
        let ghost rest = s@.skip(i as int);
        let ghost pending = s@.subrange(kept as int, i as int);
        if pattern.len() <= chars.len() - i && matches_at(&chars, &pattern, i) {
            proof {
                assert(rest.subrange(0, from@.len() as int) =~= s@.subrange(
                    i as int,
                    i + from@.len(),
                ));
                assert(has_prefix(rest, from@));
                assert(rest.skip(from@.len() as int) =~= s@.skip(i + from@.len()));
                assert(s@.subrange(i + from@.len(), i + from@.len()) =~= Seq::<char>::empty());
                assert(out@ + pending + to@ + Seq::<char>::empty() + replaced(
                    s@.skip(i + from@.len()),
                    from@,
                    to@,
                ) =~= out@ + pending + (to@ + replaced(s@.skip(i + from@.len()), from@, to@)));
            }
            out.append(s.substring_char(kept, i));
            out.append(to);
            i = i + pattern.len();
            kept = i;
        } else {
            proof {
                if rest.len() >= from@.len() {
                    assert(rest.subrange(0, from@.len() as int) =~= s@.subrange(
                        i as int,
                        i + from@.len(),
                    ));
                    assert(!has_prefix(rest, from@));
                } else {
                    lemma_short_text_is_kept(rest, from@, to@);
                    lemma_short_text_is_kept(rest.skip(1), from@, to@);
                }
                assert(rest.skip(1) =~= s@.skip(i + 1));
                assert(replaced(rest, from@, to@) =~= seq![rest[0]] + replaced(
                    rest.skip(1),
                    from@,
                    to@,
                ));
                assert(s@.subrange(kept as int, i + 1) =~= pending + seq![rest[0]]);
                assert(out@ + (pending + seq![rest[0]]) + replaced(rest.skip(1), from@, to@)
                    =~= out@ + pending + (seq![rest[0]] + replaced(rest.skip(1), from@, to@)));
            }
            i = i + 1;
        }
    }
    proof {
        assert(s@.skip(chars.len() as int) =~= Seq::<char>::empty());
        assert(out@ + s@.subrange(kept as int, i as int) + Seq::<char>::empty() =~= out@
            + s@.subrange(kept as int, i as int));
    }
    out.append(s.substring_char(kept, i));
    out
}

/// A text shorter than the pattern holds no occurrence of it.
pub proof fn lemma_short_text_is_kept(s: Seq<char>, from: Seq<char>, to: Seq<char>)
    requires
        s.len() < from.len(),
    ensures
        replaced(s, from, to) == s,
{
}

/// Whether `a` comes behind `b` in the order of texts.
pub fn text_greater(a: &str, b: &str) -> (greater: bool)
    ensures
        greater == text_less(b@, a@),
{
    let x = chars_of(a);
    let y = chars_of(b);
    let mut i: usize = 0;
    proof {
        assert(a@.skip(0) =~= a@);
        assert(b@.skip(0) =~= b@);
    }
    while i < x.len() && i < y.len()
        invariant
            0 <= i <= x.len(),
            i <= y.len(),
            x@ == a@,
            y@ == b@,
            text_less(b@, a@) == text_less(b@.skip(i as int), a@.skip(i as int)),
        decreases x.len() - i,
    {
        proof {
            assert(a@.skip(i as int)[0] == x@[i as int]);
            assert(b@.skip(i as int)[0] == y@[i as int]);
            assert(a@.skip(i as int).skip(1) =~= a@.skip(i + 1));
            assert(b@.skip(i as int).skip(1) =~= b@.skip(i + 1));
        }
        if x[i] != y[i] {
            return (y[i] as u32) < (x[i] as u32);
        }
        i = i + 1;
    }
    i < x.len()
}

/// The digit for `d`.
fn digit_str(d: u128) -> (out: &'static str)
    requires
        d < 10,
    ensures
        out@ == seq![digit_char(d as nat)],
{
    proof {
        reveal_strlit("0");
        reveal_strlit("1");
        reveal_strlit("2");
        reveal_strlit("3");
        reveal_strlit("4");
        reveal_strlit("5");
        reveal_strlit("6");
        reveal_strlit("7");
        reveal_strlit("8");
        reveal_strlit("9");
    }
    let out = if d == 0 {
        "0"
    } else if d == 1 {
        "1"
    } else if d == 2 {
        "2"
    } else if d == 3 {
        "3"
    } else if d == 4 {
        "4"
    } else if d == 5 {
        "5"
    } else if d == 6 {
        "6"
    } else if d == 7 {
        "7"
    } else if d == 8 {
        "8"
    } else {
        "9"
    };
    assert(out@ =~= seq![digit_char(d as nat)]);
    out
}

/// Appends the digits of `n` to `out`.
fn push_digits(out: &mut String, n: u128)
    ensures
        final(out)@ == old(out)@ + digits_of(n as nat),
    decreases n,
{
    if n < 10 {
        out.append(digit_str(n));
    } else {
        push_digits(out, n / 10);
        out.append(digit_str(n % 10));
        proof {
            assert(final(out)@ =~= old(out)@ + digits_of(n as nat));
        }
    }
}

/// Writes a number in decimal.
pub fn decimal_string(n: i128) -> (out: String)
    ensures
        out@ == decimal_text(n as int),
{
    let mut out = String::new();
    if n < 0 {
        let magnitude: u128 = ((-(n + 1)) as u128) + 1;
        proof {
            reveal_strlit("-");
        }
        out.append("-");
        push_digits(&mut out, magnitude);
        proof {
            assert(out@ =~= seq!['-'] + digits_of((-n) as nat));
        }
    } else {
        push_digits(&mut out, n as u128);
        proof {
            assert(out@ =~= digits_of(n as nat));
        }
    }
    out
}

/// The characters of `s`, in order.
pub fn chars_of(s: &str) -> (out: Vec<char>)
    ensures
        out@ == s@,
{
    let mut out: Vec<char> = Vec::new();
    let it = s.chars();
    for c in iter: it
        invariant
            out@ == iter.seq().take(iter.index@),
    {
        out.push(c);
    }
    out
}

/// Digits written behind a number never make it smaller.
pub proof fn lemma_digits_value_grows(s: Seq<char>, k: int)
    requires
        0 <= k <= s.len(),
    ensures
        digits_value(s.take(k)) <= digits_value(s),
    decreases s.len() - k,
{
    if k < s.len() {
        lemma_digits_value_grows(s, k + 1);
        assert(s.take(k + 1).drop_last() =~= s.take(k));
    } else {
        assert(s.take(k) =~= s);
    }
}

/// Whether `s` is the text of a 64-bit integer: an optional sign, then at
/// least one digit, and a value that fits.
pub fn parses_as_i64(s: &str) -> (ok: bool)
    ensures
        ok == is_i64_text(s@),
{
    parse_i64(s).is_some()
}

/// Reads a 64-bit integer: the number that `s` writes where `s` is the text
/// of one, nothing where it is not.
pub fn parse_i64(s: &str) -> (out: Option<i64>)
    ensures
        out is Some <==> is_i64_text(s@),
        out matches Some(value) ==> value == integer_value(s@),
{
    let chars = chars_of(s);
    let n = chars.len();
    if n == 0 {
        return None;
    }
    let negative = chars[0] == '-';
    let start: usize = if chars[0] == '-' || chars[0] == '+' {
        1
    } else {
        0
    };
    if start == n {
        return None;
    }
    let ghost body = unsigned_part(s@);
    proof {
        assert(body =~= chars@.skip(start as int));
    }
    let limit: u64 = if negative {
        0x8000_0000_0000_0000
    } else {
        0x7fff_ffff_ffff_ffff
    };
    let mut acc: u64 = 0;
    let mut i: usize = start;
    proof {
        assert(body.take(0) =~= Seq::<char>::empty());
    }
    while i < n
        invariant
            start <= i <= n,
            n == chars@.len(),
            chars@ == s@,
            body == chars@.skip(start as int),
            body == unsigned_part(s@),
            body.len() == n - start,
            all_digits(body.take(i - start)),
            acc == digits_value(body.take(i - start)),
            acc <= limit,
            limit == (if s@[0] == '-' {
                0x8000_0000_0000_0000u64
            } else {
                0x7fff_ffff_ffff_ffffu64
            }),
        decreases n - i,
    {
        let c = chars[i];
        let ghost seen = body.take(i - start);
        let ghost more = body.take(i - start + 1);
        proof {
            assert(more.drop_last() =~= seen);
            assert(more.last() == c);
            assert(body[i - start] == c);
        }
        if c < '0' || c > '9' {
            proof {
                assert(!is_digit(body[i - start]));
                assert(!all_digits(body));
            }
            return None;
        }
        let d: u64 = (c as u32 - '0' as u32) as u64;
        assert(d <= 9) by {
            assert('0' as u32 == 48 && '9' as u32 == 57);
        }
        if acc > (limit - d) / 10 {
            proof {
                assert(digits_value(more) == acc * 10 + d);
                assert(digits_value(more) > limit);
                lemma_digits_value_grows(body, i - start + 1);
                assert(digits_value(body) > limit);
            }
            return None;
        }
        acc = acc * 10 + d;
        proof {
            assert forall|j: int| 0 <= j < more.len() implies is_digit(#[trigger] more[j]) by {
                if j < seen.len() {
                    assert(more[j] == seen[j]);
                }
            }
        }
        i = i + 1;
    }
    proof {
        assert(body.take(n - start) =~= body);
    }
    if negative {
        if acc == 0x8000_0000_0000_0000 {
            Some(i64::MIN)
        } else {
            Some(-(acc as i64))
        }
    } else {
        Some(acc as i64)
    }
}

/// The text of `parts` with `sep` between neighbours.
pub open spec fn joined(parts: Seq<Seq<char>>, sep: Seq<char>) -> Seq<char>
    decreases parts.len(),
{
    if parts.len() == 0 {
        Seq::empty()
    } else if parts.len() == 1 {
        parts[0]
    } else {
        joined(parts.drop_last(), sep) + sep + parts.last()
    }
}

/// Joins `parts` with `sep` between neighbours.
pub fn join(parts: &Vec<String>, sep: &str) -> (out: String)
    ensures
        out@ == joined(parts.deep_view(), sep@),
{
    let mut out = String::new();
    let mut i: usize = 0;
    while i < parts.len()
        invariant
            0 <= i <= parts.len(),
            out@ == joined(parts.deep_view().take(i as int), sep@),
        decreases parts.len() - i,
    {
        proof {
            let next = parts.deep_view().take(i as int + 1);
            assert(next.drop_last() =~= parts.deep_view().take(i as int));
            assert(next.last() == parts[i as int]@);
        }
        if i > 0 {
            out.append(sep);
        }
        out.append(parts[i].as_str());
        i = i + 1;
    }
    proof {
        assert(parts.deep_view().take(parts.len() as int) =~= parts.deep_view());
    }
    out
}

/// Pushing a text onto a vector pushes its view onto the vector's deep view.
pub proof fn lemma_pushed_text(before: Vec<String>, after: Vec<String>, item: String)
    requires
        after@ == before@.push(item),
    ensures
        after.deep_view() == before.deep_view().push(item@),
{
    assert(after.deep_view() =~= before.deep_view().push(item@));
}

/// Mapping one element more maps the prefix and pushes the image of the next.
pub proof fn lemma_map_take_next<A, B>(s: Seq<A>, f: spec_fn(A) -> B, i: int)
    requires
        0 <= i < s.len(),
    ensures
        s.take(i + 1).map_values(f) == s.take(i).map_values(f).push(f(s[i])),
{
    assert(s.take(i + 1).map_values(f) =~= s.take(i).map_values(f).push(f(s[i])));
}

} // verus!
