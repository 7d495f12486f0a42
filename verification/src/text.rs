//! Character-level string building blocks shared by the HTML and URL code.

use vstd::prelude::*;
use vstd::string::*;

verus! {

/// Appends one character to a `String` (std's `String::push`).
#[verifier::external_body]
pub(crate) fn push_char(s: &mut String, c: char)
    ensures
        final(s)@ == old(s)@.push(c),
{
    s.push(c);
}

/// The characters of a string slice.
pub fn chars_of(s: &str) -> (v: Vec<char>)
    ensures
        v@ == s@,
{
    let mut v: Vec<char> = Vec::new();
    for c in it: s.chars()
        invariant
            it.seq() == s@,
            v@ == s@.take(it.index()),
    {
        v.push(c);
        assert(s@.take(it.index() + 1) == s@.take(it.index()).push(c));
    }
    assert(s@.take(s@.len() as int) == s@);
    v
}

/// A `String` holding the characters `cs[from..to]`.
pub fn string_from_range(cs: &[char], from: usize, to: usize) -> (s: String)
    requires
        from <= to <= cs@.len(),
    ensures
        s@ == cs@.subrange(from as int, to as int),
{
    let mut s = String::new();
    let mut i = from;
    while i < to
        invariant
            from <= i <= to <= cs@.len(),
            s@ == cs@.subrange(from as int, i as int),
        decreases to - i,
    {
        push_char(&mut s, cs[i]);
        i = i + 1;
        assert(cs@.subrange(from as int, i as int) == cs@.subrange(from as int, i - 1).push(
            cs@[i - 1],
        ));
    }
    s
}

/// A `String` holding the characters of `cs`.
pub fn string_from_chars(cs: &[char]) -> (s: String)
    ensures
        s@ == cs@,
{
    let s = string_from_range(cs, 0, cs.len());
    assert(cs@.subrange(0, cs@.len() as int) == cs@);
    s
}

/// Appends a string slice.
pub fn push_str(s: &mut String, t: &str)
    ensures
        final(s)@ == old(s)@ + t@,
{
    s.append(t);
}

/// Whether `needle` occurs in `s` starting at position `i`.
pub open spec fn occurs_at(s: Seq<char>, needle: Seq<char>, i: int) -> bool {
    0 <= i && i + needle.len() <= s.len() && s.subrange(i, i + needle.len()) == needle
}

/// Whether `needle` occurs somewhere in `s`.
pub open spec fn contains_seq(s: Seq<char>, needle: Seq<char>) -> bool {
    exists|i: int| occurs_at(s, needle, i)
}

/// Whether `s` begins with `prefix`.
pub open spec fn starts_with_seq(s: Seq<char>, prefix: Seq<char>) -> bool {
    occurs_at(s, prefix, 0)
}

/// Whether `needle` occurs in `s` at position `i`.
pub fn matches_at(s: &[char], needle: &[char], i: usize) -> (b: bool)
    ensures
        b == occurs_at(s@, needle@, i as int),
{
    if i > s.len() || needle.len() > s.len() - i {
        return false;
    }
    let mut k: usize = 0;
    while k < needle.len()
        invariant
            i + needle@.len() <= s@.len(),
            s@.len() == s.len(),
            k <= needle@.len(),
            forall|j: int| 0 <= j < k ==> s@[i + j] == needle@[j],
        decreases needle@.len() - k,
    {
        if s[i + k] != needle[k] {
            assert(s@.subrange(i as int, i + needle@.len())[k as int] != needle@[k as int]);
            return false;
        }
        k = k + 1;
    }
    assert(s@.subrange(i as int, i + needle@.len()) == needle@);
    true
}

/// Whether `s` begins with `prefix`.
pub fn starts_with(s: &[char], prefix: &[char]) -> (b: bool)
    ensures
        b == starts_with_seq(s@, prefix@),
{
    matches_at(s, prefix, 0)
}

/// Whether `needle` occurs in `s`.
pub fn contains(s: &[char], needle: &[char]) -> (b: bool)
    ensures
        b == contains_seq(s@, needle@),
{
    if needle.len() > s.len() {
        assert forall|i: int| !occurs_at(s@, needle@, i) by {}
        return false;
    }
    let last: usize = s.len() - needle.len();
    let mut i: usize = 0;
    loop
        invariant
            needle@.len() <= s@.len(),
            last == s@.len() - needle@.len(),
            i <= last,
            forall|j: int| 0 <= j < i ==> !occurs_at(s@, needle@, j),
        ensures
            forall|j: int| 0 <= j <= last ==> !occurs_at(s@, needle@, j),
        decreases last - i,
    {
        if matches_at(s, needle, i) {
            return true;
        }
        if i == last {
            break;
        }
        i = i + 1;
    }
    assert forall|j: int| !occurs_at(s@, needle@, j) by {
        if 0 <= j <= last {
        }
    }
    false
}

/// Whether `s` begins with `prefix` (string slices).
pub fn str_starts_with(s: &str, prefix: &str) -> (b: bool)
    ensures
        b == starts_with_seq(s@, prefix@),
{
    let cs = chars_of(s);
    let ps = chars_of(prefix);
    starts_with(cs.as_slice(), ps.as_slice())
}


/// What std's `str::to_lowercase` gives for `s` (lowercase by the Unicode `Lowercase`
/// property).
pub uninterp spec fn lowercase_of(s: Seq<char>) -> Seq<char>;

/// `str::to_lowercase`. The contract claims only that the result is a function of `s`.
#[verifier::external_body]
pub(crate) fn to_lowercase(s: &str) -> (r: String)
    ensures
        r@ == lowercase_of(s@),
{
    s.to_lowercase()
}


// ---------------------------------------------------------------------------
// Numbers

/// The decimal digit `d`.
pub open spec fn digit_char(d: int) -> char {
    if d == 0 {
        '0'
    } else if d == 1 {
        '1'
    } else if d == 2 {
        '2'
    } else if d == 3 {
        '3'
    } else if d == 4 {
        '4'
    } else if d == 5 {
        '5'
    } else if d == 6 {
        '6'
    } else if d == 7 {
        '7'
    } else if d == 8 {
        '8'
    } else {
        '9'
    }
}

/// `n` written in decimal, without leading zeros.
pub open spec fn decimal(n: nat) -> Seq<char>
    decreases n,
{
    if n < 10 {
        seq![digit_char(n as int)]
    } else {
        decimal(n / 10).push(digit_char((n % 10) as int))
    }
}

/// The decimal digit `d`.
pub fn digit(d: u64) -> (c: char)
    requires
        d < 10,
    ensures
        c == digit_char(d as int),
{
    if d == 0 {
        '0'
    } else if d == 1 {
        '1'
    } else if d == 2 {
        '2'
    } else if d == 3 {
        '3'
    } else if d == 4 {
        '4'
    } else if d == 5 {
        '5'
    } else if d == 6 {
        '6'
    } else if d == 7 {
        '7'
    } else if d == 8 {
        '8'
    } else {
        '9'
    }
}

/// Appends `n` in decimal.
pub fn push_decimal(s: &mut String, n: u64)
    ensures
        final(s)@ == old(s)@ + decimal(n as nat),
    decreases n,
{
    if n >= 10 {
        push_decimal(s, n / 10);
    }
    push_char(s, digit(n % 10));
}

// ---------------------------------------------------------------------------
// Whitespace

/// `char::is_whitespace`: the Unicode `White_Space` property.
pub open spec fn is_ws(c: char) -> bool {
    let v = c as u32;
    ||| 0x09 <= v <= 0x0d
    ||| v == 0x20
    ||| v == 0x85
    ||| v == 0xa0
    ||| v == 0x1680
    ||| 0x2000 <= v <= 0x200a
    ||| v == 0x2028
    ||| v == 0x2029
    ||| v == 0x202f
    ||| v == 0x205f
    ||| v == 0x3000
}

/// Whether `c` is whitespace (the Unicode `White_Space` property).
pub fn is_whitespace(c: char) -> (b: bool)
    ensures
        b == is_ws(c),
{
    let v = c as u32;
    (0x09 <= v && v <= 0x0d) || v == 0x20 || v == 0x85 || v == 0xa0 || v == 0x1680 || (0x2000
        <= v && v <= 0x200a) || v == 0x2028 || v == 0x2029 || v == 0x202f || v == 0x205f || v
        == 0x3000
}

/// `s` without leading whitespace.
pub open spec fn trim_start_spec(s: Seq<char>) -> Seq<char>
    decreases s.len(),
{
    if s.len() > 0 && is_ws(s[0]) {
        trim_start_spec(s.skip(1))
    } else {
        s
    }
}

/// `s` without trailing whitespace.
pub open spec fn trim_end_spec(s: Seq<char>) -> Seq<char>
    decreases s.len(),
{
    if s.len() > 0 && is_ws(s.last()) {
        trim_end_spec(s.drop_last())
    } else {
        s
    }
}

/// `s` without leading and trailing whitespace (`str::trim`).
pub open spec fn trim_spec(s: Seq<char>) -> Seq<char> {
    trim_end_spec(trim_start_spec(s))
}

/// The characters `cs[from..to]` without leading and trailing whitespace.
pub fn trim_range(cs: &[char], from: usize, to: usize) -> (out: String)
    requires
        from <= to <= cs@.len(),
    ensures
        out@ == trim_spec(cs@.subrange(from as int, to as int)),
{
    let ghost s = cs@.subrange(from as int, to as int);
    let mut a = from;
    while a < to && is_whitespace(cs[a])
        invariant
            from <= a <= to <= cs@.len(),
            s == cs@.subrange(from as int, to as int),
            trim_start_spec(s) == trim_start_spec(cs@.subrange(a as int, to as int)),
        decreases to - a,
    {
        assert(cs@.subrange(a as int, to as int).skip(1) == cs@.subrange(a + 1, to as int));
        a = a + 1;
    }
    let ghost t = cs@.subrange(a as int, to as int);
    assert(trim_start_spec(s) == t);
    let mut b = to;
    while b > a && is_whitespace(cs[b - 1])
        invariant
            a <= b <= to <= cs@.len(),
            t == cs@.subrange(a as int, to as int),
            trim_end_spec(t) == trim_end_spec(cs@.subrange(a as int, b as int)),
        decreases b - a,
    {
        assert(cs@.subrange(a as int, b as int).drop_last() == cs@.subrange(a as int, b - 1));
        b = b - 1;
    }
    string_from_range(cs, a, b)
}

/// `s` without leading and trailing whitespace.
pub fn trim(s: &str) -> (out: String)
    ensures
        out@ == trim_spec(s@),
{
    let cs = chars_of(s);
    assert(cs@.subrange(0, cs@.len() as int) == cs@);
    trim_range(cs.as_slice(), 0, cs.len())
}

/// The number of non-whitespace characters of `s`.
pub open spec fn count_non_ws(s: Seq<char>) -> nat
    decreases s.len(),
{
    if s.len() == 0 {
        0
    } else {
        count_non_ws(s.drop_last()) + if is_ws(s.last()) {
            0nat
        } else {
            1nat
        }
    }
}

/// The number of non-whitespace characters of `s`.
pub fn count_non_whitespace(s: &str) -> (n: usize)
    ensures
        n == count_non_ws(s@),
{
    let cs = chars_of(s);
    let mut n: usize = 0;
    let mut i: usize = 0;
    while i < cs.len()
        invariant
            cs@ == s@,
            i <= cs@.len(),
            n == count_non_ws(cs@.take(i as int)),
            n <= i,
        decreases cs@.len() - i,
    {
        assert(cs@.take(i + 1).drop_last() == cs@.take(i as int));
        if !is_whitespace(cs[i]) {
            n = n + 1;
        }
        i = i + 1;
    }
    assert(cs@.take(cs@.len() as int) == cs@);
    n
}

/// The number of occurrences of `c` in `s`.
pub open spec fn count_char(s: Seq<char>, c: char) -> nat
    decreases s.len(),
{
    if s.len() == 0 {
        0
    } else {
        count_char(s.drop_last(), c) + if s.last() == c {
            1nat
        } else {
            0nat
        }
    }
}

/// The number of occurrences of `c` in `s`.
pub fn count_occurrences(s: &[char], c: char) -> (n: usize)
    ensures
        n == count_char(s@, c),
        n <= s@.len(),
{
    let mut n: usize = 0;
    let mut i: usize = 0;
    while i < s.len()
        invariant
            i <= s@.len(),
            n == count_char(s@.take(i as int), c),
            n <= i,
        decreases s@.len() - i,
    {
        assert(s@.take(i + 1).drop_last() == s@.take(i as int));
        if s[i] == c {
            n = n + 1;
        }
        i = i + 1;
    }
    assert(s@.take(s@.len() as int) == s@);
    n
}

// ---------------------------------------------------------------------------
// Searching and replacing

/// `i` is the last position where `needle` occurs in `s`.
pub open spec fn is_last_occurrence(s: Seq<char>, needle: Seq<char>, i: int) -> bool {
    occurs_at(s, needle, i) && forall|j: int| i < j ==> !occurs_at(s, needle, j)
}

/// The last position where `needle` occurs in `s` (`str::rfind`).
pub fn rfind(s: &[char], needle: &[char]) -> (r: Option<usize>)
    ensures
        match r {
            Some(i) => is_last_occurrence(s@, needle@, i as int),
            None => forall|j: int| !occurs_at(s@, needle@, j),
        },
{
    if needle.len() > s.len() {
        return None;
    }
    let mut i: usize = s.len() - needle.len();
    loop
        invariant
            needle@.len() <= s@.len(),
            i <= s@.len() - needle@.len(),
            forall|j: int| i < j ==> !occurs_at(s@, needle@, j),
        ensures
            forall|j: int| 0 <= j ==> !occurs_at(s@, needle@, j),
        decreases i,
    {
        if matches_at(s, needle, i) {
            return Some(i);
        }
        if i == 0 {
            break;
        }
        i = i - 1;
    }
    None
}

/// `h` with every occurrence of the non-empty `n` replaced by `r`, scanning from the left
/// and skipping past each replaced occurrence.
pub open spec fn replace_nonempty(h: Seq<char>, n: Seq<char>, r: Seq<char>) -> Seq<char>
    decreases h.len(),
{
    if n.len() == 0 || h.len() < n.len() {
        h
    } else if h.subrange(0, n.len() as int) == n {
        r + replace_nonempty(h.skip(n.len() as int), n, r)
    } else {
        seq![h[0]] + replace_nonempty(h.skip(1), n, r)
    }
}

/// `h` with `r` before every character and at the end.
pub open spec fn replace_empty(h: Seq<char>, r: Seq<char>) -> Seq<char>
    decreases h.len(),
{
    if h.len() == 0 {
        r
    } else {
        r + seq![h[0]] + replace_empty(h.skip(1), r)
    }
}

/// What `str::replace` gives: every non-overlapping occurrence of `n`, from the left,
/// replaced by `r`; an empty `n` puts `r` between all characters and at both ends.
pub open spec fn replace_spec(h: Seq<char>, n: Seq<char>, r: Seq<char>) -> Seq<char> {
    if n.len() == 0 {
        replace_empty(h, r)
    } else {
        replace_nonempty(h, n, r)
    }
}

/// Replaces every non-overlapping occurrence of `needle` in `haystack` by `rep`, from
/// the left.
pub fn replace_str(haystack: &str, needle: &str, rep: &str) -> (out: String)
    ensures
        out@ == replace_spec(haystack@, needle@, rep@),
{
    let h = chars_of(haystack);
    let n = chars_of(needle);
    let mut out = String::new();
    let mut i: usize = 0;
    assert(h@.skip(0) == h@);
    assert(out@ + replace_empty(h@, rep@) == replace_empty(h@, rep@));
    assert(out@ + replace_nonempty(h@, n@, rep@) == replace_nonempty(h@, n@, rep@));
    if n.len() == 0 {
        while i < h.len()
            invariant
                i <= h@.len(),
                out@ + replace_empty(h@.skip(i as int), rep@) == replace_empty(h@, rep@),
            decreases h@.len() - i,
        {
            push_str(&mut out, rep);
            push_char(&mut out, h[i]);
            assert(h@.skip(i as int).skip(1) == h@.skip(i + 1));
            i = i + 1;
        }
        push_str(&mut out, rep);
        return out;
    }
    while i < h.len()
        invariant
            n@.len() > 0,
            n@ == needle@,
            i <= h@.len(),
            out@ + replace_nonempty(h@.skip(i as int), n@, rep@) == replace_nonempty(
                h@,
                n@,
                rep@,
            ),
        decreases h@.len() - i,
    {
        let ghost rest = h@.skip(i as int);
        if matches_at(h.as_slice(), n.as_slice(), i) {
            assert(rest.subrange(0, n@.len() as int) == h@.subrange(i as int, i + n@.len()));
            assert(rest.skip(n@.len() as int) == h@.skip(i + n@.len()));
            push_str(&mut out, rep);
            i = i + n.len();
        } else {
            if n.len() <= h.len() - i {
                assert(rest.subrange(0, n@.len() as int) == h@.subrange(i as int, i + n@.len()));
                assert(rest.skip(1) == h@.skip(i + 1));
                push_char(&mut out, h[i]);
                i = i + 1;
            } else {
                assert(replace_nonempty(rest, n@, rep@) == rest);
                let tail = string_from_range(h.as_slice(), i, h.len());
                assert(tail@ == rest);
                push_str(&mut out, tail.as_str());
                i = h.len();
                assert(h@.skip(i as int).len() == 0);
            }
        }
    }
    assert(h@.skip(i as int).len() == 0);
    out
}


/// Whether two character sequences are equal.
pub fn chars_eq(a: &[char], b: &[char]) -> (eq: bool)
    ensures
        eq == (a@ == b@),
{
    if a.len() != b.len() {
        return false;
    }
    let r = matches_at(a, b, 0);
    assert(a@.subrange(0, b@.len() as int) == a@);
    r
}

/// Whether two string slices hold the same characters.
pub fn str_eq(a: &str, b: &str) -> (eq: bool)
    ensures
        eq == (a@ == b@),
{
    let x = chars_of(a);
    let y = chars_of(b);
    chars_eq(x.as_slice(), y.as_slice())
}

/// The number of bytes of the UTF-8 encoding of `s` (`str::len`).
pub open spec fn utf8_len(s: Seq<char>) -> nat {
    vstd::utf8::encode_utf8(s).len()
}

/// The number of bytes of the UTF-8 encoding of `s`.
pub fn byte_len(s: &str) -> (n: usize)
    ensures
        n == utf8_len(s@),
{
    s.as_bytes().len()
}

} // verus!
