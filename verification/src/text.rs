//! Text helpers: equality, prefixes, trimming, lines, segments and decimal digits.
//!
//! Every helper says what it returns over the characters of its arguments.

use vstd::prelude::*;
use vstd::utf8::{decode_utf8, valid_utf8};

verus! {

/// `String::push`: appends one character.
pub assume_specification[ String::push ](s: &mut String, c: char)
    ensures
        final(s)@ == old(s)@.push(c),
;

/// The characters of `s`, in order.
pub fn chars_of(s: &str) -> (r: Vec<char>)
    ensures
        r@ == s@,
{
    let mut out: Vec<char> = Vec::new();
    for c in it: s.chars()
        invariant
            out@ == it.seq().take(it.index() as int),
            it.seq() == s@,
    {
        out.push(c);
    }
    out
}

/// The characters of `v` from `from` up to `to`, as a string.
pub fn string_of(v: &Vec<char>, from: usize, to: usize) -> (r: String)
    requires
        from <= to <= v@.len(),
    ensures
        r@ == v@.subrange(from as int, to as int),
{
    let mut out = String::new();
    let mut i: usize = from;
    while i < to
        invariant
            from <= i <= to <= v@.len(),
            out@ == v@.subrange(from as int, i as int),
        decreases to - i,
    {
        out.push(v[i]);
        i += 1;
    }
    out
}

/// Reads bytes as UTF-8 with `std::str::from_utf8`: the text they encode, or nothing where they are
/// not UTF-8.
#[verifier::external_body]
pub(crate) fn utf8_text(bytes: &[u8]) -> (r: Option<String>)
    ensures
        r is Some <==> valid_utf8(bytes@),
        r matches Some(s) ==> s@ == decode_utf8(bytes@),
{
    std::str::from_utf8(bytes).ok().map(str::to_owned)
}

/// Whether two strings hold the same characters.
pub fn same(a: &str, b: &str) -> (r: bool)
    ensures
        r == (a@ == b@),
{
    a.to_owned() == b.to_owned()
}

/// Whether `c` has the Unicode property `White_Space`.
pub open spec fn is_white_space(c: char) -> bool {
    ||| '\u{9}' <= c <= '\u{d}'
    ||| c == '\u{20}'
    ||| c == '\u{85}'
    ||| c == '\u{a0}'
    ||| c == '\u{1680}'
    ||| '\u{2000}' <= c <= '\u{200a}'
    ||| c == '\u{2028}'
    ||| c == '\u{2029}'
    ||| c == '\u{202f}'
    ||| c == '\u{205f}'
    ||| c == '\u{3000}'
}

/// `s` without the white space it begins with.
pub open spec fn trim_start(s: Seq<char>) -> Seq<char>
    decreases s.len(),
{
    if s.len() > 0 && is_white_space(s[0]) {
        trim_start(s.drop_first())
    } else {
        s
    }
}

/// `s` without the white space it ends with.
pub open spec fn trim_end(s: Seq<char>) -> Seq<char>
    decreases s.len(),
{
    if s.len() > 0 && is_white_space(s.last()) {
        trim_end(s.drop_last())
    } else {
        s
    }
}

/// `s` without the white space around it.
pub open spec fn trimmed(s: Seq<char>) -> Seq<char> {
    trim_end(trim_start(s))
}

/// `s` without the characters `c` it ends with.
pub open spec fn trim_end_of(s: Seq<char>, c: char) -> Seq<char>
    decreases s.len(),
{
    if s.len() > 0 && s.last() == c {
        trim_end_of(s.drop_last(), c)
    } else {
        s
    }
}

/// What follows the prefix `p` in `s`, if `s` begins with it.
pub open spec fn after_prefix(s: Seq<char>, p: Seq<char>) -> Option<Seq<char>> {
    if p.is_prefix_of(s) {
        Some(s.skip(p.len() as int))
    } else {
        None
    }
}

/// The index of the first `c` in `s`, or the length of `s` where there is none.
pub open spec fn first_of(s: Seq<char>, c: char) -> nat
    decreases s.len(),
{
    if s.len() == 0 || s[0] == c {
        0
    } else {
        1 + first_of(s.drop_first(), c)
    }
}

/// The text between the first and the second `c` of `s`, or from the first to the end where there
/// is one only; nothing where there is none.
pub open spec fn second_segment(s: Seq<char>, c: char) -> Option<Seq<char>> {
    if first_of(s, c) < s.len() {
        let rest = s.skip(first_of(s, c) as int + 1);
        Some(rest.take(first_of(rest, c) as int))
    } else {
        None
    }
}

/// `line` without one carriage return at its end.
pub open spec fn without_return(line: Seq<char>) -> Seq<char> {
    if line.len() > 0 && line.last() == '\r' {
        line.drop_last()
    } else {
        line
    }
}

/// The lines of `s`. A line ends at a line feed, or at a carriage return and a line feed, neither
/// of which belongs to it; the last line may end with the text instead.
pub open spec fn lines_of(s: Seq<char>) -> Seq<Seq<char>>
    decreases s.len(),
{
    if s.len() == 0 {
        Seq::empty()
    } else if first_of(s, '\n') < s.len() {
        let end = first_of(s, '\n') as int;
        seq![without_return(s.take(end))] + lines_of(s.skip(end + 1))
    } else {
        seq![s]
    }
}

/// `first_of` is an index of `s` or its length, finds `c` where it is an index, and passes no `c`.
proof fn lemma_first_of(s: Seq<char>, c: char)
    ensures
        0 <= first_of(s, c) <= s.len(),
        first_of(s, c) < s.len() ==> s[first_of(s, c) as int] == c,
        forall|i: int| 0 <= i < first_of(s, c) ==> s[i] != c,
    decreases s.len(),
{
    if s.len() > 0 && s[0] != c {
        lemma_first_of(s.drop_first(), c);
        assert forall|i: int| 0 <= i < first_of(s, c) implies s[i] != c by {
            if i > 0 {
                assert(s[i] == s.drop_first()[i - 1]);
            }
        }
    }
}

/// The index that `first_of` gives is the only one with its properties.
proof fn lemma_first_of_unique(s: Seq<char>, c: char, k: int)
    requires
        0 <= k <= s.len(),
        k < s.len() ==> s[k] == c,
        forall|i: int| 0 <= i < k ==> s[i] != c,
    ensures
        first_of(s, c) == k,
{
    lemma_first_of(s, c);
}

/// Whether `c` has the Unicode property `White_Space`.
fn white_space(c: char) -> (r: bool)
    ensures
        r == is_white_space(c),
{
    ('\u{9}' <= c && c <= '\u{d}') || c == '\u{20}' || c == '\u{85}' || c == '\u{a0}' || c
        == '\u{1680}' || ('\u{2000}' <= c && c <= '\u{200a}') || c == '\u{2028}' || c == '\u{2029}'
        || c == '\u{202f}' || c == '\u{205f}' || c == '\u{3000}'
}

/// `s` without the white space around it.
pub fn trim(s: &str) -> (r: String)
    ensures
        r@ == trimmed(s@),
{
    let v = chars_of(s);
    let mut from: usize = 0;
    assert(v@.skip(0) == v@);
    while from < v.len() && white_space(v[from])
        invariant
            from <= v@.len(),
            trim_start(v@.skip(from as int)) == trim_start(v@),
        decreases v@.len() - from,
    {
        assert(v@.skip(from as int).drop_first() == v@.skip(from + 1));
        from += 1;
    }
    assert(trim_start(v@) == v@.skip(from as int));
    let mut to: usize = v.len();
    assert(v@.subrange(from as int, to as int) == v@.skip(from as int));
    while from < to && white_space(v[to - 1])
        invariant
            from <= to <= v@.len(),
            trim_end(v@.subrange(from as int, to as int)) == trim_end(v@.skip(from as int)),
        decreases to,
    {
        assert(v@.subrange(from as int, to as int).drop_last() == v@.subrange(
            from as int,
            to - 1,
        ));
        to -= 1;
    }
    string_of(&v, from, to)
}

/// `s` without the characters `c` it ends with.
pub fn trim_end_matches(s: &str, c: char) -> (r: String)
    ensures
        r@ == trim_end_of(s@, c),
{
    let v = chars_of(s);
    let mut to: usize = v.len();
    assert(v@.take(to as int) == v@);
    while 0 < to && v[to - 1] == c
        invariant
            to <= v@.len(),
            trim_end_of(v@.take(to as int), c) == trim_end_of(v@, c),
        decreases to,
    {
        assert(v@.take(to as int).drop_last() == v@.take(to - 1));
        to -= 1;
    }
    assert(v@.subrange(0, to as int) == v@.take(to as int));
    string_of(&v, 0, to)
}

/// What follows the prefix `p` in `s`, if `s` begins with it.
pub fn strip_prefix(s: &str, p: &str) -> (r: Option<String>)
    ensures
        r.deep_view() == after_prefix(s@, p@),
{
    let v = chars_of(s);
    let w = chars_of(p);
    if w.len() > v.len() {
        return None;
    }
    let mut i: usize = 0;
    while i < w.len()
        invariant
            i <= w@.len() <= v@.len(),
            forall|j: int| 0 <= j < i ==> w@[j] == v@[j],
            v@ == s@,
            w@ == p@,
        decreases w@.len() - i,
    {
        if v[i] != w[i] {
            assert(p@.is_prefix_of(s@) ==> s@[i as int] == p@[i as int]);
            return None;
        }
        i += 1;
    }
    assert(w@ =~= v@.subrange(0, w@.len() as int));
    assert(v@.skip(w@.len() as int) == v@.subrange(w@.len() as int, v@.len() as int));
    Some(string_of(&v, w.len(), v.len()))
}

/// The index of the first `c` of `v` from `from` on, or the length of `v`.
fn find_from(v: &Vec<char>, from: usize, c: char) -> (r: usize)
    requires
        from <= v@.len(),
    ensures
        from <= r <= v@.len(),
        r - from == first_of(v@.skip(from as int), c),
{
    let mut i: usize = from;
    while i < v.len() && v[i] != c
        invariant
            from <= i <= v@.len(),
            forall|j: int| from <= j < i ==> v@[j] != c,
        decreases v@.len() - i,
    {
        i += 1;
    }
    proof {
        let rest = v@.skip(from as int);
        assert forall|j: int| 0 <= j < i - from implies rest[j] != c by {
            assert(rest[j] == v@[from + j]);
        }
        lemma_first_of_unique(rest, c, i - from);
    }
    i
}

/// The text between the first and the second `c` of `s`.
pub fn nth_one(s: &str, c: char) -> (r: Option<String>)
    ensures
        r.deep_view() == second_segment(s@, c),
{
    let v = chars_of(s);
    assert(v@.skip(0) == v@);
    let first = find_from(&v, 0, c);
    if first == v.len() {
        return None;
    }
    let second = find_from(&v, first + 1, c);
    assert(v@.skip(first + 1).take(second - first - 1) == v@.subrange(first + 1, second as int));
    Some(string_of(&v, first + 1, second))
}

/// The lines of `s`.
pub fn lines(s: &str) -> (r: Vec<String>)
    ensures
        r.deep_view() == lines_of(s@),
{
    let v = chars_of(s);
    let mut out: Vec<String> = Vec::new();
    let mut from: usize = 0;
    assert(v@.skip(0) == v@);
    assert(out.deep_view() + lines_of(v@.skip(0)) == lines_of(v@));
    while from < v.len()
        invariant
            from <= v@.len(),
            out.deep_view() + lines_of(v@.skip(from as int)) == lines_of(v@),
        decreases v@.len() - from,
    {
        let ghost rest = v@.skip(from as int);
        let ghost before = out.deep_view();
        proof {
            lemma_first_of(rest, '\n');
        }
        let end = find_from(&v, from, '\n');
        if end == v.len() {
            let line = string_of(&v, from, end);
            assert(line@ == rest);
            out.push(line);
            assert(out.deep_view() == before + seq![rest]);
            from = end;
            assert(v@.skip(from as int) == Seq::<char>::empty());
            assert(lines_of(v@.skip(from as int)) == Seq::<Seq<char>>::empty());
            assert(out.deep_view() + lines_of(v@.skip(from as int)) == out.deep_view());
        } else {
            let ghost body = rest.take(end - from);
            let stop = if end > from && v[end - 1] == '\r' {
                end - 1
            } else {
                end
            };
            let line = string_of(&v, from, stop);
            assert(line@ == without_return(body));
            out.push(line);
            assert(out.deep_view() == before + seq![without_return(body)]);
            assert(rest.skip(end - from + 1) == v@.skip(end + 1));
            from = end + 1;
            assert(lines_of(rest) == seq![without_return(body)] + lines_of(v@.skip(from as int)));
            assert(out.deep_view() + lines_of(v@.skip(from as int)) == before + lines_of(rest));
        }
    }
    assert(v@.skip(from as int) == Seq::<char>::empty());
    assert(out.deep_view() + lines_of(v@.skip(from as int)) == out.deep_view());
    out
}

/// The decimal digit for a number below ten.
pub open spec fn digit(d: int) -> char {
    (48 + d) as u8 as char
}

/// The decimal digits of a number, the highest first.
pub open spec fn digits(n: nat) -> Seq<char>
    decreases n,
{
    if n < 10 {
        seq![digit(n as int)]
    } else {
        digits(n / 10).push(digit((n % 10) as int))
    }
}

/// The decimal form of an integer.
pub open spec fn decimal(n: int) -> Seq<char> {
    if n < 0 {
        seq!['-'] + digits((-n) as nat)
    } else {
        digits(n as nat)
    }
}

/// The decimal digits of `n`.
pub fn digits_string(n: u64) -> (r: String)
    ensures
        r@ == digits(n as nat),
    decreases n,
{
    let mut out = if n < 10 {
        String::new()
    } else {
        digits_string(n / 10)
    };
    out.push((48 + (n % 10) as u8) as char);
    out
}

/// The decimal form of `n`.
pub fn signed_string(n: i64) -> (r: String)
    ensures
        r@ == decimal(n as int),
{
    if n < 0 {
        let mut out = String::new();
        out.push('-');
        let magnitude: u64 = (-(n + 1)) as u64 + 1;
        out.append(digits_string(magnitude).as_str());
        out
    } else {
        digits_string(n as u64)
    }
}

proof fn lemma_digits_len(n: nat)
    ensures
        digits(n).len() >= 1,
        n >= 10 ==> digits(n).len() >= 2,
        forall|i: int| 0 <= i < digits(n).len() ==> '0' <= #[trigger] digits(n)[i] <= '9',
    decreases n,
{
    if n >= 10 {
        lemma_digits_len(n / 10);
    }
}

proof fn lemma_digit_injective(x: int, y: int)
    requires
        0 <= x < 10,
        0 <= y < 10,
        digit(x) == digit(y),
    ensures
        x == y,
{
    assert(digit(x) as int == 48 + x);
    assert(digit(y) as int == 48 + y);
}

proof fn lemma_digits_injective(a: nat, b: nat)
    requires
        digits(a) == digits(b),
    ensures
        a == b,
    decreases a,
{
    lemma_digits_len(a);
    lemma_digits_len(b);
    if a < 10 {
        assert(digits(b).len() == 1);
        assert(digits(a)[0] == digit(a as int));
        assert(digits(b)[0] == digit(b as int));
        lemma_digit_injective(a as int, b as int);
    } else {
        assert(b >= 10);
        assert(digits(a).last() == digit((a % 10) as int));
        assert(digits(b).last() == digit((b % 10) as int));
        lemma_digit_injective((a % 10) as int, (b % 10) as int);
        assert(digits(a).drop_last() == digits(a / 10));
        assert(digits(b).drop_last() == digits(b / 10));
        lemma_digits_injective(a / 10, b / 10);
    }
}

/// Two integers have one decimal form only where they are one integer.
pub proof fn lemma_decimal_injective(a: int, b: int)
    requires
        decimal(a) == decimal(b),
    ensures
        a == b,
{
    lemma_digits_len(if a < 0 { (-a) as nat } else { a as nat });
    lemma_digits_len(if b < 0 { (-b) as nat } else { b as nat });
    if a < 0 {
        assert(decimal(a)[0] == '-');
        assert(decimal(b)[0] == '-');
        assert(b < 0);
        assert(decimal(a).skip(1) == digits((-a) as nat));
        assert(decimal(b).skip(1) == digits((-b) as nat));
        lemma_digits_injective((-a) as nat, (-b) as nat);
    } else {
        if b < 0 {
            assert(decimal(b)[0] == '-');
            assert(decimal(a)[0] == '-');
        }
        lemma_digits_injective(a as nat, b as nat);
    }
}

/// The texts in order, with `sep` between each two.
pub open spec fn joined(parts: Seq<Seq<char>>, sep: Seq<char>) -> Seq<char>
    decreases parts.len(),
{
    if parts.len() == 0 {
        Seq::empty()
    } else if parts.len() == 1 {
        parts[0]
    } else {
        joined(parts.drop_last(), sep) + sep + parts.last()
    }
}

/// The texts in order, with `sep` between each two.
pub fn join(parts: &[&str], sep: &str) -> (r: String)
    ensures
        r@ == joined(parts.deep_view(), sep@),
{
    let ghost all = parts.deep_view();
    let mut out = String::new();
    let mut i: usize = 0;
    assert(all.take(0) == Seq::<Seq<char>>::empty());
    while i < parts.len()
        invariant
            i <= parts@.len(),
            all == parts.deep_view(),
            out@ == joined(all.take(i as int), sep@),
        decreases parts@.len() - i,
    {
        assert(all.take(i + 1).drop_last() == all.take(i as int));
        assert(all.take(i + 1).last() == parts@[i as int]@);
        if i > 0 {
            out.append(sep);
        }
        out.append(parts[i]);
        assert(i == 0 ==> out@ == parts@[0]@);
        i += 1;
    }
    assert(all.take(i as int) == all);
    out
}

proof fn lemma_trim_start(s: Seq<char>)
    ensures
        exists|i: int|
            {
                &&& 0 <= i <= s.len()
                &&& trim_start(s) == #[trigger] s.skip(i)
                &&& forall|k: int| 0 <= k < i ==> is_white_space(#[trigger] s[k])
                &&& i < s.len() ==> !is_white_space(s[i])
            },
    decreases s.len(),
{
    if s.len() > 0 && is_white_space(s[0]) {
        let t = s.drop_first();
        lemma_trim_start(t);
        let i = choose|i: int|
            {
                &&& 0 <= i <= t.len()
                &&& trim_start(t) == #[trigger] t.skip(i)
                &&& forall|k: int| 0 <= k < i ==> is_white_space(#[trigger] t[k])
                &&& i < t.len() ==> !is_white_space(t[i])
            };
        assert(s.skip(i + 1) =~= t.skip(i));
        assert forall|k: int| 0 <= k < i + 1 implies is_white_space(#[trigger] s[k]) by {
            if k > 0 {
                assert(s[k] == t[k - 1]);
            }
        }
        assert(i < t.len() ==> s[i + 1] == t[i]);
    } else {
        assert(s.skip(0) =~= s);
    }
}

proof fn lemma_trim_end(s: Seq<char>)
    ensures
        exists|j: int|
            {
                &&& 0 <= j <= s.len()
                &&& trim_end(s) == #[trigger] s.take(j)
                &&& forall|k: int| j <= k < s.len() ==> is_white_space(#[trigger] s[k])
                &&& j > 0 ==> !is_white_space(s[j - 1])
            },
    decreases s.len(),
{
    if s.len() > 0 && is_white_space(s.last()) {
        let t = s.drop_last();
        lemma_trim_end(t);
        let j = choose|j: int|
            {
                &&& 0 <= j <= t.len()
                &&& trim_end(t) == #[trigger] t.take(j)
                &&& forall|k: int| j <= k < t.len() ==> is_white_space(#[trigger] t[k])
                &&& j > 0 ==> !is_white_space(t[j - 1])
            };
        assert(s.take(j) =~= t.take(j));
        assert forall|k: int| j <= k < s.len() implies is_white_space(#[trigger] s[k]) by {
            if k < t.len() {
                assert(s[k] == t[k]);
            }
        }
        assert(j > 0 ==> s[j - 1] == t[j - 1]);
    } else {
        assert(s.take(s.len() as int) =~= s);
    }
}

/// Whether `part` is what stands between white space in `s`: all before it and after it is white
/// space, and it neither begins nor ends with any.
pub open spec fn is_core(s: Seq<char>, part: Seq<char>, i: int, j: int) -> bool {
    &&& 0 <= i <= j <= s.len()
    &&& part == s.subrange(i, j)
    &&& forall|k: int| 0 <= k < i || j <= k < s.len() ==> is_white_space(#[trigger] s[k])
    &&& i < j ==> !is_white_space(s[i]) && !is_white_space(s[j - 1])
}

/// Trimming takes away the white space around a text, all of it and nothing else.
pub proof fn law_trimming(s: Seq<char>)
    ensures
        exists|i: int, j: int| #[trigger] is_core(s, trimmed(s), i, j),
{
    let t = trim_start(s);
    lemma_trim_start(s);
    let i = choose|i: int|
        {
            &&& 0 <= i <= s.len()
            &&& t == #[trigger] s.skip(i)
            &&& forall|k: int| 0 <= k < i ==> is_white_space(#[trigger] s[k])
            &&& i < s.len() ==> !is_white_space(s[i])
        };
    lemma_trim_end(t);
    let j = choose|j: int|
        {
            &&& 0 <= j <= t.len()
            &&& trim_end(t) == #[trigger] t.take(j)
            &&& forall|k: int| j <= k < t.len() ==> is_white_space(#[trigger] t[k])
            &&& j > 0 ==> !is_white_space(t[j - 1])
        };
    assert(trimmed(s) =~= s.subrange(i, i + j));
    assert forall|k: int| 0 <= k < i || i + j <= k < s.len() implies is_white_space(
        #[trigger] s[k],
    ) by {
        if k >= i + j {
            assert(s[k] == t[k - i]);
        }
    }
    assert(j > 0 ==> s[i + j - 1] == t[j - 1]);
    assert(is_core(s, trimmed(s), i, i + j));
}

/// A text with nothing but white space is trimmed to nothing, and no other is.
pub proof fn law_blank_texts_trim_to_nothing(s: Seq<char>)
    ensures
        trimmed(s).len() == 0 <==> forall|k: int| 0 <= k < s.len() ==> is_white_space(#[trigger] s[k]),
{
    law_trimming(s);
    let (i, j) = choose|i: int, j: int| #[trigger] is_core(s, trimmed(s), i, j);
    if i < j {
        assert(!is_white_space(s[i]));
    }
}

/// Taking a character off the end takes every one of them there, and nothing else.
pub proof fn law_trimming_the_end(s: Seq<char>, c: char)
    ensures
        exists|n: int|
            {
                &&& 0 <= n <= s.len()
                &&& trim_end_of(s, c) == #[trigger] s.take(n)
                &&& forall|k: int| n <= k < s.len() ==> s[k] == c
                &&& n > 0 ==> s[n - 1] != c
            },
    decreases s.len(),
{
    if s.len() > 0 && s.last() == c {
        let t = s.drop_last();
        law_trimming_the_end(t, c);
        let n = choose|n: int|
            {
                &&& 0 <= n <= t.len()
                &&& trim_end_of(t, c) == #[trigger] t.take(n)
                &&& forall|k: int| n <= k < t.len() ==> t[k] == c
                &&& n > 0 ==> t[n - 1] != c
            };
        assert(s.take(n) =~= t.take(n));
        assert forall|k: int| n <= k < s.len() implies s[k] == c by {
            if k < t.len() {
                assert(s[k] == t[k]);
            }
        }
        assert(n > 0 ==> s[n - 1] == t[n - 1]);
    } else {
        assert(s.take(s.len() as int) =~= s);
    }
}

/// A prefix and what follows it make up the text, and every text so made up has that prefix.
pub proof fn law_prefixes(s: Seq<char>, p: Seq<char>, rest: Seq<char>)
    ensures
        after_prefix(s, p) == Some(rest) <==> s == p + rest,
{
    if s == p + rest {
        assert(p.is_prefix_of(s));
        assert(s.skip(p.len() as int) =~= rest);
    }
    if after_prefix(s, p) == Some(rest) {
        assert(s =~= p + rest);
    }
}

/// Whether a character stands nowhere in a text.
pub open spec fn lacks(s: Seq<char>, c: char) -> bool {
    forall|k: int| 0 <= k < s.len() ==> s[k] != c
}

/// The second part of a text is what stands between the first and the second mark, whatever follows;
/// without a mark there is none.
pub proof fn law_second_parts(a: Seq<char>, b: Seq<char>, rest: Seq<char>, c: char)
    requires
        lacks(a, c),
        lacks(b, c),
    ensures
        second_segment(a, c) is None,
        second_segment(a + seq![c] + b, c) == Some(b),
        second_segment(a + seq![c] + b + seq![c] + rest, c) == Some(b),
{
    lemma_first_of_unique(a, c, a.len() as int);
    let one = a + seq![c] + b;
    assert forall|k: int| 0 <= k < a.len() implies one[k] != c by {
        assert(one[k] == a[k]);
    }
    assert(one[a.len() as int] == c);
    lemma_first_of_unique(one, c, a.len() as int);
    assert(one.skip(a.len() as int + 1) =~= b);
    lemma_first_of_unique(b, c, b.len() as int);
    assert(b.take(b.len() as int) =~= b);
    let two = a + seq![c] + b + seq![c] + rest;
    assert forall|k: int| 0 <= k < a.len() implies two[k] != c by {
        assert(two[k] == a[k]);
    }
    assert(two[a.len() as int] == c);
    lemma_first_of_unique(two, c, a.len() as int);
    let later = b + seq![c] + rest;
    assert(two.skip(a.len() as int + 1) =~= later);
    assert forall|k: int| 0 <= k < b.len() implies later[k] != c by {
        assert(later[k] == b[k]);
    }
    assert(later[b.len() as int] == c);
    lemma_first_of_unique(later, c, b.len() as int);
    assert(later.take(b.len() as int) =~= b);
}

/// A text has a line for each line feed, without the carriage return before it, and one for what
/// follows the last of them where anything does.
pub proof fn law_lines(a: Seq<char>, b: Seq<char>)
    requires
        lacks(a, '\n'),
    ensures
        lines_of(Seq::empty()) == Seq::<Seq<char>>::empty(),
        a.len() > 0 ==> lines_of(a) == seq![a],
        a.len() == 0 || a.last() != '\r' ==> lines_of(a + seq!['\n'] + b) == seq![a] + lines_of(b),
        lines_of(a + seq!['\r', '\n'] + b) == seq![a] + lines_of(b),
{
    lemma_first_of_unique(a, '\n', a.len() as int);
    let ended = a + seq!['\n'] + b;
    assert forall|k: int| 0 <= k < a.len() implies ended[k] != '\n' by {
        assert(ended[k] == a[k]);
    }
    assert(ended[a.len() as int] == '\n');
    lemma_first_of_unique(ended, '\n', a.len() as int);
    assert(ended.take(a.len() as int) =~= a);
    assert(ended.skip(a.len() as int + 1) =~= b);
    let full = a.push('\r');
    let returned = a + seq!['\r', '\n'] + b;
    assert forall|k: int| 0 <= k < full.len() implies returned[k] != '\n' by {
        assert(returned[k] == full[k]);
        if k < a.len() {
            assert(full[k] == a[k]);
        }
    }
    assert(returned[full.len() as int] == '\n');
    lemma_first_of_unique(returned, '\n', full.len() as int);
    assert(returned.take(full.len() as int) =~= full);
    assert(full.drop_last() =~= a);
    assert(returned.skip(full.len() as int + 1) =~= b);
}

/// The number that decimal digits stand for.
pub open spec fn number_of(s: Seq<char>) -> int
    decreases s.len(),
{
    if s.len() == 0 {
        0
    } else {
        10 * number_of(s.drop_last()) + (s.last() as int - '0' as int)
    }
}

proof fn lemma_digits_read_back(n: nat)
    ensures
        number_of(digits(n)) == n,
        n > 0 ==> digits(n)[0] != '0',
    decreases n,
{
    lemma_digits_len(n);
    if n < 10 {
        assert(digits(n).drop_last() =~= Seq::empty());
        assert(number_of(digits(n).drop_last()) == 0);
        assert(digits(n).last() as int == 48 + n);
    } else {
        lemma_digits_len(n / 10);
        lemma_digits_read_back(n / 10);
        assert(digits(n).drop_last() =~= digits(n / 10));
        assert(digits(n).last() as int == 48 + n % 10);
        assert(digits(n)[0] == digits(n / 10)[0]);
    }
}

/// The decimal form of a number reads back as the number: digits without a zero before them, after a
/// sign where the number is below zero.
pub proof fn law_decimal_forms_read_back(n: int)
    ensures
        n >= 0 ==> number_of(decimal(n)) == n,
        n < 0 ==> decimal(n)[0] == '-' && number_of(decimal(n).skip(1)) == -n,
        n > 0 ==> decimal(n)[0] != '0',
        n < 0 ==> decimal(n)[1] != '0',
        forall|i: int|
            0 <= i < decimal(n).len() ==> '0' <= #[trigger] decimal(n)[i] <= '9' || i == 0 && n < 0,
{
    let m = if n < 0 { (-n) as nat } else { n as nat };
    lemma_digits_len(m);
    lemma_digits_read_back(m);
    if n < 0 {
        assert(decimal(n).skip(1) =~= digits(m));
        assert forall|i: int| 0 < i < decimal(n).len() implies '0' <= #[trigger] decimal(n)[i]
            <= '9' by {
            assert(decimal(n)[i] == digits(m)[i - 1]);
        }
    }
}

/// Texts are joined with the separator between each two and nowhere else.
pub proof fn law_joining(parts: Seq<Seq<char>>, x: Seq<char>, sep: Seq<char>)
    ensures
        joined(Seq::empty(), sep) == Seq::<char>::empty(),
        joined(seq![x], sep) == x,
        parts.len() > 0 ==> joined(parts.push(x), sep) == joined(parts, sep) + sep + x,
{
    assert(parts.push(x).drop_last() =~= parts);
}

/// Below the first byte of two, white space is the space and the five controls that move on; in the
/// rest of the first plane it is what parts words and lines in type, and nothing past that plane is.
pub proof fn law_white_space(c: char)
    ensures
        c < '\u{80}' ==> (is_white_space(c) <==> c == ' ' || c == '\t' || c == '\n' || c == '\u{b}' || c
            == '\u{c}' || c == '\r'),
        '\u{80}' <= c && c < '\u{2000}' ==> (is_white_space(c) <==> c == '\u{85}' || c == '\u{a0}' || c
            == '\u{1680}'),
        '\u{2000}' <= c && c < '\u{3000}' ==> (is_white_space(c) <==> c < '\u{200b}' || c == '\u{2028}'
            || c == '\u{2029}' || c == '\u{202f}' || c == '\u{205f}'),
        '\u{3000}' <= c ==> (is_white_space(c) <==> c == '\u{3000}'),
{
}

} // verus!
