//! Text as sequences of characters.
//!
//! The parsers of this crate work on `&[char]`: a string is turned into its
//! characters once, cut into pieces by index, and the pieces are turned back
//! into strings. Every operation here is stated over `Seq<char>`.

use vstd::prelude::*;
use vstd::slice::slice_subrange;
use vstd::string::StringSliceAdditionalSpecFns;
use vstd::utf8::{decode_utf8, encode_utf8_decode_utf8, valid_utf8};

verus! {

/// `String::push` appends the character to the end of the string.
pub assume_specification[ String::push ](s: &mut String, c: char)
    ensures
        final(s)@ == old(s)@.push(c),
;

/// `core::str::from_utf8` succeeds on the byte sequences that are UTF-8, and
/// on no others; the string slice that it then gives holds those bytes.
pub assume_specification[ core::str::from_utf8 ](v: &[u8]) -> (r: Result<
    &str,
    core::str::Utf8Error,
>)
    ensures
        r is Ok <==> valid_utf8(v@),
        r matches Ok(s) ==> s.spec_bytes() == v@,
;

/// The characters of `s`, in order.
pub fn chars_of(s: &str) -> (r: Vec<char>)
    ensures
        r@ == s@,
{
    let mut v: Vec<char> = Vec::new();
    for c in it: s.chars()
        invariant
            it.seq() == s@,
            v@ == s@.take(it.index() as int),
    {
        v.push(c);
    }
    v
}

/// The string made of the characters of `cs`, in order.
pub fn string_of(cs: &[char]) -> (r: String)
    ensures
        r@ == cs@,
{
    let mut s = String::new();
    let mut i: usize = 0;
    while i < cs.len()
        invariant
            i <= cs.len(),
            s@ == cs@.take(i as int),
        decreases cs.len() - i,
    {
        s.push(cs[i]);
        i += 1;
    }
    s
}

/// Appends the characters of `cs` to `s`.
pub fn push_all(s: &mut String, cs: &[char])
    ensures
        final(s)@ == old(s)@ + cs@,
{
    let mut i: usize = 0;
    assert(s@ == old(s)@ + cs@.take(0));
    while i < cs.len()
        invariant
            i <= cs.len(),
            s@ == old(s)@ + cs@.take(i as int),
        decreases cs.len() - i,
    {
        assert(cs@.take(i + 1) == cs@.take(i as int).push(cs@[i as int]));
        assert((old(s)@ + cs@.take(i as int)).push(cs@[i as int]) == old(s)@ + cs@.take(i + 1));
        s.push(cs[i]);
        i += 1;
    }
    assert(cs@.take(i as int) == cs@);
}

/// Reads `bytes` as UTF-8 text.
pub fn decode(bytes: &[u8]) -> (r: Result<String, core::str::Utf8Error>)
    ensures
        r is Ok <==> valid_utf8(bytes@),
        r matches Ok(s) ==> s@ == decode_utf8(bytes@),
{
    match core::str::from_utf8(bytes) {
        Ok(s) => {
            proof {
                encode_utf8_decode_utf8(s@);
            }
            Ok(s.to_owned())
        },
        Err(e) => Err(e),
    }
}

/// Whether `c` has the Unicode property `White_Space`.
pub open spec fn is_space(c: char) -> bool {
    let n = c as u32;
    ||| 0x09 <= n <= 0x0D
    ||| n == 0x20
    ||| n == 0x85
    ||| n == 0xA0
    ||| n == 0x1680
    ||| 0x2000 <= n <= 0x200A
    ||| n == 0x2028
    ||| n == 0x2029
    ||| n == 0x202F
    ||| n == 0x205F
    ||| n == 0x3000
}

/// Whether `c` is white space.
pub fn is_whitespace(c: char) -> (r: bool)
    ensures
        r == is_space(c),
{
    let n: u32 = c as u32;
    (0x09 <= n && n <= 0x0D) || n == 0x20 || n == 0x85 || n == 0xA0 || n == 0x1680 || (0x2000 <= n
        && n <= 0x200A) || n == 0x2028 || n == 0x2029 || n == 0x202F || n == 0x205F || n == 0x3000
}

/// `s` without its leading white space.
pub open spec fn trimmed_start(s: Seq<char>) -> Seq<char>
    decreases s.len(),
{
    if s.len() > 0 && is_space(s.first()) {
        trimmed_start(s.drop_first())
    } else {
        s
    }
}

/// `s` without its trailing white space.
pub open spec fn trimmed_end(s: Seq<char>) -> Seq<char>
    decreases s.len(),
{
    if s.len() > 0 && is_space(s.last()) {
        trimmed_end(s.drop_last())
    } else {
        s
    }
}

/// `s` without its leading and trailing white space.
pub open spec fn trimmed(s: Seq<char>) -> Seq<char> {
    trimmed_end(trimmed_start(s))
}

/// Removes the leading white space.
pub fn trim_start<'a>(s: &'a [char]) -> (r: &'a [char])
    ensures
        r@ == trimmed_start(s@),
{
    let mut i: usize = 0;
    assert(s@.skip(0) == s@);
    while i < s.len() && is_whitespace(s[i])
        invariant
            i <= s.len(),
            trimmed_start(s@) == trimmed_start(s@.skip(i as int)),
        decreases s.len() - i,
    {
        assert(s@.skip(i as int).drop_first() == s@.skip(i as int + 1));
        i += 1;
    }
    slice_subrange(s, i, s.len())
}

/// Removes the trailing white space.
pub fn trim_end<'a>(s: &'a [char]) -> (r: &'a [char])
    ensures
        r@ == trimmed_end(s@),
{
    let mut n: usize = s.len();
    assert(s@.take(n as int) == s@);
    while n > 0 && is_whitespace(s[n - 1])
        invariant
            n <= s.len(),
            trimmed_end(s@) == trimmed_end(s@.take(n as int)),
        decreases n,
    {
        assert(s@.take(n as int).drop_last() == s@.take(n as int - 1));
        n -= 1;
    }
    slice_subrange(s, 0, n)
}

/// Removes the leading and trailing white space.
pub fn trim<'a>(s: &'a [char]) -> (r: &'a [char])
    ensures
        r@ == trimmed(s@),
{
    trim_end(trim_start(s))
}

/// Whether `pat` stands in `s` at index `i`.
pub open spec fn occurs_at(s: Seq<char>, pat: Seq<char>, i: int) -> bool {
    0 <= i && i + pat.len() <= s.len() && s.subrange(i, i + pat.len()) == pat
}

/// The index of the first occurrence of `pat` in `s`, if there is one.
pub open spec fn found(s: Seq<char>, pat: Seq<char>) -> Option<int>
    decreases s.len(),
{
    if pat.is_prefix_of(s) {
        Some(0)
    } else if s.len() == 0 {
        None
    } else {
        match found(s.drop_first(), pat) {
            Some(i) => Some(i + 1),
            None => None,
        }
    }
}

/// `found` gives the least index at which `pat` occurs, and `None` only if
/// it occurs nowhere.
pub proof fn lemma_found(s: Seq<char>, pat: Seq<char>)
    ensures
        match found(s, pat) {
            Some(i) => occurs_at(s, pat, i) && forall|j: int| 0 <= j < i ==> !occurs_at(s, pat, j),
            None => forall|j: int| !occurs_at(s, pat, j),
        },
    decreases s.len(),
{
    if pat.is_prefix_of(s) {
    } else if s.len() == 0 {
        assert forall|j: int| !occurs_at(s, pat, j) by {
            if occurs_at(s, pat, j) {
                assert(pat =~= s.subrange(0, pat.len() as int));
            }
        }
    } else {
        let t = s.drop_first();
        lemma_found(t, pat);
        assert forall|j: int| occurs_at(s, pat, j + 1) == occurs_at(t, pat, j) by {
            if 0 <= j && j + pat.len() <= t.len() {
                assert(t.subrange(j, j + pat.len()) =~= s.subrange(j + 1, j + 1 + pat.len()));
            }
        }
        assert(!occurs_at(s, pat, 0));
        match found(t, pat) {
            Some(i) => {
                assert(occurs_at(s, pat, i + 1));
                assert forall|j: int| 0 <= j < i + 1 implies !occurs_at(s, pat, j) by {
                    if j > 0 {
                        assert(occurs_at(s, pat, (j - 1) + 1) == occurs_at(t, pat, j - 1));
                    }
                }
            },
            None => {
                assert forall|j: int| !occurs_at(s, pat, j) by {
                    if j != 0 {
                        assert(occurs_at(s, pat, (j - 1) + 1) == occurs_at(t, pat, j - 1));
                    }
                }
            },
        }
    }
}

/// An index at which `pat` occurs with no occurrence before it is the one
/// that `found` gives.
pub proof fn lemma_found_is(s: Seq<char>, pat: Seq<char>, i: int)
    requires
        occurs_at(s, pat, i),
        forall|j: int| 0 <= j < i ==> !occurs_at(s, pat, j),
    ensures
        found(s, pat) == Some(i),
{
    lemma_found(s, pat);
}

/// Where nothing occurs, `found` gives `None`.
pub proof fn lemma_found_none(s: Seq<char>, pat: Seq<char>)
    requires
        forall|j: int| 0 <= j && j + pat.len() <= s.len() ==> !occurs_at(s, pat, j),
    ensures
        found(s, pat) is None,
{
    lemma_found(s, pat);
}

/// Whether `s` begins with `pat`.
pub fn starts_with(s: &[char], pat: &[char]) -> (r: bool)
    ensures
        r == pat@.is_prefix_of(s@),
{
    if pat.len() > s.len() {
        return false;
    }
    let mut k: usize = 0;
    while k < pat.len()
        invariant
            k <= pat.len() <= s.len(),
            forall|j: int| 0 <= j < k ==> s@[j] == pat@[j],
        decreases pat.len() - k,
    {
        if s[k] != pat[k] {
            assert(s@.subrange(0, pat@.len() as int)[k as int] != pat@[k as int]);
            return false;
        }
        k += 1;
    }
    assert(pat@ =~= s@.subrange(0, pat@.len() as int));
    true
}

/// The index of the first occurrence of `pat` in `s`.
pub fn find(s: &[char], pat: &[char]) -> (r: Option<usize>)
    ensures
        match r {
            Some(i) => found(s@, pat@) == Some(i as int),
            None => found(s@, pat@) is None,
        },
{
    if pat.len() > s.len() {
        proof {
            lemma_found_none(s@, pat@);
        }
        return None;
    }
    let last: usize = s.len() - pat.len();
    let mut i: usize = 0;
    while i <= last
        invariant
            last == s.len() - pat.len(),
            i <= last + 1,
            forall|j: int| 0 <= j < i ==> !occurs_at(s@, pat@, j),
        decreases last + 1 - i,
    {
        let rest = slice_subrange(s, i, s.len());
        if starts_with(rest, pat) {
            proof {
                assert(rest@.subrange(0, pat@.len() as int) =~= s@.subrange(
                    i as int,
                    i + pat@.len(),
                ));
                lemma_found_is(s@, pat@, i as int);
            }
            return Some(i);
        }
        proof {
            if occurs_at(s@, pat@, i as int) {
                assert(rest@.subrange(0, pat@.len() as int) =~= s@.subrange(
                    i as int,
                    i + pat@.len(),
                ));
            }
        }
        i += 1;
    }
    proof {
        lemma_found_none(s@, pat@);
    }
    None
}

/// What stands before and after the first occurrence of `pat` in `s`.
pub open spec fn split_at_first(s: Seq<char>, pat: Seq<char>) -> Option<(Seq<char>, Seq<char>)> {
    match found(s, pat) {
        Some(i) => Some((s.take(i), s.skip(i + pat.len()))),
        None => None,
    }
}

/// Splits `s` at the first occurrence of `pat`, which belongs to neither
/// part.
pub fn split_once<'a>(s: &'a [char], pat: &[char]) -> (r: Option<(&'a [char], &'a [char])>)
    ensures
        match r {
            Some((a, b)) => split_at_first(s@, pat@) == Some((a@, b@)),
            None => split_at_first(s@, pat@) is None,
        },
{
    match find(s, pat) {
        Some(i) => {
            proof {
                lemma_found(s@, pat@);
            }
            let n: usize = s.len();
            let after: usize = i + pat.len();
            Some((slice_subrange(s, 0, i), slice_subrange(s, after, n)))
        },
        None => None,
    }
}

/// `line` without the carriage return that may end it.
pub open spec fn without_cr(line: Seq<char>) -> Seq<char> {
    if line.len() > 0 && line.last() == '\r' {
        line.drop_last()
    } else {
        line
    }
}

/// The lines of `s`. A line ends with a line feed, or with a carriage return
/// and a line feed, neither of which belongs to it; the last line may end
/// with the text instead, and then keeps a carriage return at its end.
pub open spec fn lines_of(s: Seq<char>) -> Seq<Seq<char>>
    decreases s.len(),
{
    if s.len() == 0 {
        Seq::empty()
    } else {
        match found(s, seq!['\n']) {
            Some(i) => if 0 <= i < s.len() {
                seq![without_cr(s.take(i))] + lines_of(s.skip(i + 1))
            } else {
                seq![s]
            },
            None => seq![s],
        }
    }
}

/// The character sequences that the slices of `v` hold.
pub open spec fn views(v: Seq<&[char]>) -> Seq<Seq<char>> {
    v.map_values(|l: &[char]| l@)
}

/// Cuts `s` into its lines.
pub fn lines<'a>(s: &'a [char]) -> (r: Vec<&'a [char]>)
    ensures
        views(r@) == lines_of(s@),
{
    let mut out: Vec<&'a [char]> = Vec::new();
    let newline: [char; 1] = ['\n'];
    let mut pos: usize = 0;
    assert(s@.skip(0) == s@);
    assert(views(out@) + lines_of(s@) == lines_of(s@));
    while pos < s.len()
        invariant
            pos <= s.len(),
            newline@ == seq!['\n'],
            views(out@) + lines_of(s@.skip(pos as int)) == lines_of(s@),
        decreases s.len() - pos,
    {
        let rest = slice_subrange(s, pos, s.len());
        let ghost before = views(out@);
        proof {
            lemma_found(rest@, newline@);
        }
        match find(rest, newline.as_slice()) {
            Some(i) => {
                let mut end: usize = pos + i;
                assert(rest@.take(i as int) == s@.subrange(pos as int, end as int));
                assert(rest@.skip(i + 1) == s@.skip(pos + i + 1));
                if end > pos && s[end - 1] == '\r' {
                    end -= 1;
                }
                let line = slice_subrange(s, pos, end);
                assert(line@ == without_cr(rest@.take(i as int)));
                out.push(line);
                assert(views(out@) == before.push(line@));
                assert(before.push(line@) + lines_of(rest@.skip(i + 1)) == before + lines_of(
                    rest@,
                ));
                pos = pos + i + 1;
            },
            None => {
                out.push(rest);
                assert(views(out@) == before.push(rest@));
                assert(before.push(rest@) + lines_of(s@.skip(s@.len() as int)) == before
                    + lines_of(rest@));
                pos = s.len();
            },
        }
    }
    assert(lines_of(s@.skip(pos as int)) == Seq::<Seq<char>>::empty());
    assert(views(out@) + Seq::<Seq<char>>::empty() == views(out@));
    out
}

/// Whether the two slices hold the same characters.
pub fn same(a: &[char], b: &[char]) -> (r: bool)
    ensures
        r == (a@ == b@),
{
    if a.len() != b.len() {
        return false;
    }
    let r = starts_with(a, b);
    assert(a@.subrange(0, a@.len() as int) == a@);
    r
}

/// Whether the two strings hold the same characters.
pub fn same_str(a: &str, b: &str) -> (r: bool)
    ensures
        r == (a@ == b@),
{
    let x = chars_of(a);
    let y = chars_of(b);
    same(x.as_slice(), y.as_slice())
}

/// The character that stands for the digit `d`.
pub open spec fn digit_char(d: nat) -> char
    recommends
        d < 10,
{
    (48 + d) as u8 as char
}

/// The decimal numeral of `n`, without leading zeros.
pub open spec fn decimal_of(n: nat) -> Seq<char>
    decreases n,
{
    if n < 10 {
        seq![digit_char(n)]
    } else {
        decimal_of(n / 10).push(digit_char(n % 10))
    }
}

/// Writes `n` as a decimal numeral.
pub fn decimal(n: u64) -> (r: String)
    ensures
        r@ == decimal_of(n as nat),
{
    let mut digits: Vec<char> = Vec::new();
    let mut rest: u64 = n;
    while rest >= 10
        invariant
            decimal_of(n as nat) == decimal_of(rest as nat) + digits@.reverse(),
        decreases rest,
    {
        let d: u8 = (rest % 10) as u8;
        let c: char = (48 + d) as char;
        proof {
            let ghost before = digits@;
            assert(before.push(c).reverse() =~= seq![c] + before.reverse());
            assert(decimal_of(rest as nat) == decimal_of((rest / 10) as nat).push(c));
            assert(decimal_of((rest / 10) as nat).push(c) + before.reverse() =~= decimal_of(
                (rest / 10) as nat,
            ) + (seq![c] + before.reverse()));
        }
        digits.push(c);
        rest = rest / 10;
    }
    let mut s = String::new();
    s.push((48 + rest as u8) as char);
    let mut i: usize = digits.len();
    while i > 0
        invariant
            i <= digits.len(),
            s@ == decimal_of(rest as nat) + digits@.reverse().take(digits.len() - i),
        decreases i,
    {
        i -= 1;
        proof {
            let r = digits@.reverse();
            let k = digits.len() - i - 1;
            assert(r.take(k + 1) =~= r.take(k).push(r[k]));
            assert(r[k] == digits@[i as int]);
            assert((decimal_of(rest as nat) + r.take(k)).push(r[k]) =~= decimal_of(rest as nat)
                + r.take(k + 1));
        }
        s.push(digits[i]);
    }
    assert(digits@.reverse().take(digits.len() as int) == digits@.reverse());
    s
}

/// Whether `c` is one of the digits `0` to `9`.
pub open spec fn is_digit(c: char) -> bool {
    '0' <= c <= '9'
}

/// The number that the digits of `s` write in base ten.
pub open spec fn digits_value(s: Seq<char>) -> nat
    decreases s.len(),
{
    if s.len() == 0 {
        0
    } else {
        digits_value(s.drop_last()) * 10 + (s.last() as nat - 48) as nat
    }
}

/// Whether `s` holds digits only.
pub open spec fn all_digits(s: Seq<char>) -> bool {
    forall|i: int| 0 <= i < s.len() ==> is_digit(#[trigger] s[i])
}

/// The number below 256 that `s` writes: an optional `+`, then at least one
/// digit, leading zeros allowed.
pub open spec fn parsed_u8(s: Seq<char>) -> Option<u8> {
    let d = if s.len() > 0 && s.first() == '+' {
        s.drop_first()
    } else {
        s
    };
    if d.len() > 0 && all_digits(d) && digits_value(d) <= 255 {
        Some(digits_value(d) as u8)
    } else {
        None
    }
}

/// The value of a run of digits is at least that of each of its beginnings.
pub proof fn lemma_digits_value_grows(s: Seq<char>, k: int)
    requires
        0 <= k <= s.len(),
    ensures
        digits_value(s.take(k)) <= digits_value(s),
    decreases s.len(),
{
    if k == s.len() {
        assert(s.take(k) == s);
    } else {
        assert(s.drop_last().take(k) == s.take(k));
        lemma_digits_value_grows(s.drop_last(), k);
    }
}

/// Reads a number below 256 from its decimal numeral.
pub fn parse_u8(s: &[char]) -> (r: Option<u8>)
    ensures
        r == parsed_u8(s@),
{
    let mut i: usize = 0;
    if s.len() > 0 && s[0] == '+' {
        i = 1;
    }
    let start: usize = i;
    let ghost d = s@.skip(start as int);
    assert(s@.skip(0) == s@);
    assert(d == if s@.len() > 0 && s@.first() == '+' {
        s@.drop_first()
    } else {
        s@
    });
    if i == s.len() {
        return None;
    }
    let mut value: u16 = 0;
    assert(d.take(0) == Seq::<char>::empty());
    while i < s.len()
        invariant
            start <= i <= s.len(),
            d == s@.skip(start as int),
            d == if s@.len() > 0 && s@.first() == '+' {
                s@.drop_first()
            } else {
                s@
            },
            all_digits(d.take(i - start)),
            value == digits_value(d.take(i - start)),
            value <= 255,
        decreases s.len() - i,
    {
        let c = s[i];
        assert(d[i - start] == c);
        if !('0' <= c && c <= '9') {
            return None;
        }
        let digit: u16 = (c as u32 - 48) as u16;
        let next: u16 = value * 10 + digit;
        proof {
            let t = d.take(i - start + 1);
            assert(t.drop_last() == d.take(i - start));
            assert(t.last() == c);
            assert forall|j: int| 0 <= j < t.len() implies is_digit(#[trigger] t[j]) by {
                if j < t.len() - 1 {
                    assert(t[j] == d.take(i - start)[j]);
                }
            }
        }
        if next > 255 {
            proof {
                if all_digits(d) {
                    lemma_digits_value_grows(d, i - start + 1);
                }
            }
            return None;
        }
        value = next;
        i += 1;
    }
    assert(d.take(i - start) == d);
    Some(value as u8)
}

} // verus!
