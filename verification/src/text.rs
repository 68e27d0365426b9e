//! Character-sequence primitives shared by the rest of the library:
//! conversion between strings and character vectors, trimming, substring
//! search, joining and number formatting.

use vstd::prelude::*;

verus! {

broadcast use vstd::string::group_string_axioms;

// ---------------------------------------------------------------------------
// Specifications
// ---------------------------------------------------------------------------

/// Unicode `White_Space` characters, the set `char::is_whitespace` accepts.
pub open spec fn is_whitespace(c: char) -> bool {
    ||| ('\u{9}' <= c && c <= '\u{d}')
    ||| c == ' '
    ||| c == '\u{85}'
    ||| c == '\u{a0}'
    ||| c == '\u{1680}'
    ||| ('\u{2000}' <= c && c <= '\u{200a}')
    ||| c == '\u{2028}'
    ||| c == '\u{2029}'
    ||| c == '\u{202f}'
    ||| c == '\u{205f}'
    ||| c == '\u{3000}'
}

/// Which characters a strip removes.
#[derive(Clone, Copy, PartialEq, Eq, Structural)]
pub enum Strip {
    /// Unicode whitespace (as `str::trim`).
    Whitespace,
    /// Line feeds only (as `trim_matches('\n')`).
    Newline,
    /// Slashes only (as `trim_end_matches('/')`).
    Slash,
}

pub open spec fn strips(cls: Strip, c: char) -> bool {
    match cls {
        Strip::Whitespace => is_whitespace(c),
        Strip::Newline => c == '\n',
        Strip::Slash => c == '/',
    }
}

/// `s` without its leading characters of class `cls`.
pub open spec fn strip_start(s: Seq<char>, cls: Strip) -> Seq<char>
    decreases s.len(),
{
    if s.len() > 0 && strips(cls, s[0]) {
        strip_start(s.drop_first(), cls)
    } else {
        s
    }
}

/// `s` without its trailing characters of class `cls`.
pub open spec fn strip_end(s: Seq<char>, cls: Strip) -> Seq<char>
    decreases s.len(),
{
    if s.len() > 0 && strips(cls, s.last()) {
        strip_end(s.drop_last(), cls)
    } else {
        s
    }
}

/// `s` without leading and trailing characters of class `cls`.
pub open spec fn strip(s: Seq<char>, cls: Strip) -> Seq<char> {
    strip_end(strip_start(s, cls), cls)
}

/// `str::trim`: `s` without leading and trailing whitespace.
pub open spec fn trim(s: Seq<char>) -> Seq<char> {
    strip(s, Strip::Whitespace)
}

/// `needle` occurs in `hay` starting at position `i`.
pub open spec fn occurs_at(hay: Seq<char>, needle: Seq<char>, i: int) -> bool {
    &&& 0 <= i
    &&& i + needle.len() <= hay.len()
    &&& hay.subrange(i, i + needle.len()) == needle
}

/// The first position at or after `from` where `needle` occurs in `hay`.
pub open spec fn find_from(hay: Seq<char>, needle: Seq<char>, from: int) -> Option<int>
    decreases hay.len() + 1 - from,
{
    if from < 0 || from + needle.len() > hay.len() {
        None
    } else if occurs_at(hay, needle, from) {
        Some(from)
    } else {
        find_from(hay, needle, from + 1)
    }
}

/// `str::find`: the first position where `needle` occurs in `hay`.
pub open spec fn find(hay: Seq<char>, needle: Seq<char>) -> Option<int> {
    find_from(hay, needle, 0)
}

/// `str::contains` with a string pattern.
pub open spec fn contains(hay: Seq<char>, needle: Seq<char>) -> bool {
    exists|i: int| occurs_at(hay, needle, i)
}

/// `str::ends_with` with a string pattern.
pub open spec fn ends_with(s: Seq<char>, suffix: Seq<char>) -> bool {
    suffix.len() <= s.len() && s.subrange(s.len() - suffix.len(), s.len() as int) == suffix
}

/// The parts joined with `sep` between consecutive parts.
pub open spec fn join(parts: Seq<Seq<char>>, sep: Seq<char>) -> Seq<char>
    decreases parts.len(),
{
    if parts.len() == 0 {
        Seq::empty()
    } else if parts.len() == 1 {
        parts[0]
    } else {
        join(parts.drop_last(), sep) + sep + parts.last()
    }
}

/// The views of a sequence of strings.
pub open spec fn views(v: Seq<String>) -> Seq<Seq<char>> {
    v.map_values(|s: String| s@)
}

/// The ASCII digit of value `d` in base 16, lower case for `d >= 10`.
pub open spec fn digit_char(d: nat) -> char {
    if d < 10 {
        (48 + d) as char
    } else {
        (87 + d) as char
    }
}

/// The digits of `n` in base `base`, most significant first, without
/// leading zeros (`"0"` for zero).
pub open spec fn digits(n: nat, base: nat) -> Seq<char>
    recommends
        base >= 2,
    decreases n,
{
    if base < 2 || n < base {
        seq![digit_char(n)]
    } else {
        proof {
            vstd::arithmetic::div_mod::lemma_div_decreases(n as int, base as int);
        }
        digits(n / base, base).push(digit_char(n % base))
    }
}

/// Decimal rendering of `n`, as `{}` formats an unsigned integer.
pub open spec fn decimal(n: nat) -> Seq<char> {
    digits(n, 10)
}

/// `width` zero characters before `s` when `s` is shorter than `width`.
pub open spec fn zero_pad(s: Seq<char>, width: nat) -> Seq<char> {
    if s.len() < width {
        Seq::new((width - s.len()) as nat, |i: int| '0') + s
    } else {
        s
    }
}

/// Lower-case hexadecimal rendering of `n` padded with zeros to `width`,
/// as `{:0width$x}` formats an unsigned integer.
pub open spec fn hex(n: nat, width: nat) -> Seq<char> {
    zero_pad(digits(n, 16), width)
}

// ---------------------------------------------------------------------------
// Lemmas
// ---------------------------------------------------------------------------


/// What `find_from` returns: the least occurrence at or after `from`.
pub proof fn lemma_find_from(hay: Seq<char>, needle: Seq<char>, from: int)
    requires
        0 <= from,
    ensures
        find_from(hay, needle, from) matches Some(i) ==> from <= i && occurs_at(hay, needle, i)
            && i + needle.len() <= hay.len() && forall|j: int|
            from <= j < i ==> !occurs_at(hay, needle, j),
        find_from(hay, needle, from) is None ==> forall|j: int|
            from <= j ==> !occurs_at(hay, needle, j),
    decreases hay.len() + 1 - from,
{
    if from + needle.len() > hay.len() {
    } else if occurs_at(hay, needle, from) {
    } else {
        lemma_find_from(hay, needle, from + 1);
    }
}

/// Each part occurs in the parts joined with any separator.
pub proof fn lemma_join_contains(parts: Seq<Seq<char>>, sep: Seq<char>, i: int)
    requires
        0 <= i < parts.len(),
    ensures
        contains(join(parts, sep), parts[i]),
    decreases parts.len(),
{
    let p = parts[i];
    if parts.len() == 1 {
        assert(join(parts, sep).subrange(0, p.len() as int) == p);
        assert(occurs_at(join(parts, sep), p, 0));
    } else {
        let front = parts.drop_last();
        let j = join(front, sep);
        let whole = join(parts, sep);
        assert(whole == j + sep + parts.last());
        if i == parts.len() - 1 {
            let at: int = (j.len() + sep.len()) as int;
            assert(whole.subrange(at, at + p.len()) == p);
            assert(occurs_at(whole, p, at));
        } else {
            assert(front[i] == p);
            lemma_join_contains(front, sep, i);
            let k = choose|k: int| occurs_at(j, p, k);
            assert(whole.subrange(k, k + p.len()) == j.subrange(k, k + p.len()));
            assert(occurs_at(whole, p, k));
        }
    }
}

/// `find` succeeds exactly when the needle occurs somewhere.
pub proof fn lemma_find_contains(hay: Seq<char>, needle: Seq<char>)
    ensures
        find(hay, needle) is Some <==> contains(hay, needle),
        find(hay, needle) matches Some(i) ==> occurs_at(hay, needle, i),
{
    lemma_find_from(hay, needle, 0);
    if contains(hay, needle) {
        let i = choose|i: int| occurs_at(hay, needle, i);
        assert(0 <= i);
    }
}

// ---------------------------------------------------------------------------
// Conversions
// ---------------------------------------------------------------------------

/// `String::push`: appends one character at the end of the string.
#[verifier::external_body]
fn push_char(s: &mut String, c: char)
    ensures
        final(s)@ == old(s)@.push(c),
{
    s.push(c)
}

/// The characters of `s`, in order.
pub fn chars_of(s: &str) -> (v: Vec<char>)
    ensures
        v@ == s@,
{
    let mut v: Vec<char> = Vec::new();
    for c in it: s.chars()
        invariant
            v@ == it.seq().take(it.index()),
    {
        v.push(c);
    }
    assert(v@ == s@);
    v
}

/// The string made of the characters `v[from..to]`.
pub fn string_of_range(v: &[char], from: usize, to: usize) -> (s: String)
    requires
        from <= to <= v.len(),
    ensures
        s@ == v@.subrange(from as int, to as int),
{
    let mut s = String::new();
    let mut i: usize = from;
    while i < to
        invariant
            from <= i <= to <= v.len(),
            s@ == v@.subrange(from as int, i as int),
        decreases to - i,
    {
        push_char(&mut s, v[i]);
        i += 1;
        assert(s@ == v@.subrange(from as int, i as int));
    }
    s
}

/// The string made of the characters `v`.
pub fn string_of(v: &[char]) -> (s: String)
    ensures
        s@ == v@,
{
    let s = string_of_range(v, 0, v.len());
    assert(v@.subrange(0, v@.len() as int) == v@);
    s
}

/// Appends the characters `v[from..to]` to `s`.
pub fn push_range(s: &mut String, v: &[char], from: usize, to: usize)
    requires
        from <= to <= v.len(),
    ensures
        final(s)@ == old(s)@ + v@.subrange(from as int, to as int),
{
    let mut i: usize = from;
    while i < to
        invariant
            from <= i <= to <= v.len(),
            s@ == old(s)@ + v@.subrange(from as int, i as int),
        decreases to - i,
    {
        push_char(s, v[i]);
        i += 1;
        assert(s@ == old(s)@ + v@.subrange(from as int, i as int));
    }
}

/// Appends the string `t` to `s`.
pub fn push_str(s: &mut String, t: &str)
    ensures
        final(s)@ == old(s)@ + t@,
{
    s.append(t);
}

/// The lower-case form of a text under Unicode's `Lowercase` mapping, as
/// `str::to_lowercase` computes it.
pub uninterp spec fn lowercase(s: Seq<char>) -> Seq<char>;

/// `str::to_lowercase`: the result is the name `lowercase` of the text;
/// nothing more is claimed of the Unicode mapping.
#[verifier::external_body]
pub(crate) fn to_lower(s: &str) -> (r: String)
    ensures
        r@ == lowercase(s@),
{
    s.to_lowercase()
}

// ---------------------------------------------------------------------------
// Trimming
// ---------------------------------------------------------------------------

/// Whether `c` is Unicode whitespace (`char::is_whitespace`).
pub fn char_is_whitespace(c: char) -> (b: bool)
    ensures
        b == is_whitespace(c),
{
    ('\u{9}' <= c && c <= '\u{d}') || c == ' ' || c == '\u{85}' || c == '\u{a0}' || c == '\u{1680}'
        || ('\u{2000}' <= c && c <= '\u{200a}') || c == '\u{2028}' || c == '\u{2029}' || c
        == '\u{202f}' || c == '\u{205f}' || c == '\u{3000}'
}

fn char_strips(cls: Strip, c: char) -> (b: bool)
    ensures
        b == strips(cls, c),
{
    match cls {
        Strip::Whitespace => char_is_whitespace(c),
        Strip::Newline => c == '\n',
        Strip::Slash => c == '/',
    }
}

/// End `b` such that `v[from..b]` is `v[from..to]` without its trailing
/// characters of class `cls`.
pub fn strip_end_bound(v: &[char], from: usize, to: usize, cls: Strip) -> (b: usize)
    requires
        from <= to <= v.len(),
    ensures
        from <= b <= to,
        v@.subrange(from as int, b as int) == strip_end(v@.subrange(from as int, to as int), cls),
{
    let mut b: usize = to;
    while b > from && char_strips(cls, v[b - 1])
        invariant
            from <= b <= to <= v.len(),
            strip_end(v@.subrange(from as int, to as int), cls) == strip_end(
                v@.subrange(from as int, b as int),
                cls,
            ),
        decreases b - from,
    {
        proof {
            let x = v@.subrange(from as int, b as int);
            assert(x.drop_last() == v@.subrange(from as int, b - 1));
        }
        b -= 1;
    }
    b
}

/// Bounds `(a, b)` such that `v[a..b]` is `v[from..to]` stripped of class `cls`.
pub fn strip_bounds(v: &[char], from: usize, to: usize, cls: Strip) -> (r: (usize, usize))
    requires
        from <= to <= v.len(),
    ensures
        from <= r.0 <= r.1 <= to,
        v@.subrange(r.0 as int, r.1 as int) == strip(v@.subrange(from as int, to as int), cls),
{
    let ghost w = v@.subrange(from as int, to as int);
    let mut a: usize = from;
    while a < to && char_strips(cls, v[a])
        invariant
            from <= a <= to <= v.len(),
            strip_start(w, cls) == strip_start(v@.subrange(a as int, to as int), cls),
        decreases to - a,
    {
        proof {
            let u = v@.subrange(a as int, to as int);
            assert(u.drop_first() == v@.subrange(a + 1, to as int));
        }
        a += 1;
    }
    let ghost u = v@.subrange(a as int, to as int);
    assert(strip_start(u, cls) == u);
    let mut b: usize = to;
    while b > a && char_strips(cls, v[b - 1])
        invariant
            from <= a <= b <= to <= v.len(),
            strip_end(u, cls) == strip_end(v@.subrange(a as int, b as int), cls),
        decreases b - a,
    {
        proof {
            let x = v@.subrange(a as int, b as int);
            assert(x.drop_last() == v@.subrange(a as int, b - 1));
        }
        b -= 1;
    }
    (a, b)
}

/// `str::trim`: `s` without leading and trailing whitespace.
pub fn trim_str(s: &str) -> (t: String)
    ensures
        t@ == trim(s@),
{
    let v = chars_of(s);
    let (a, b) = strip_bounds(&v, 0, v.len(), Strip::Whitespace);
    assert(v@.subrange(0, v@.len() as int) == v@);
    string_of_range(&v, a, b)
}

/// Whether `s` is empty after trimming whitespace.
pub fn is_blank(s: &str) -> (b: bool)
    ensures
        b == (trim(s@).len() == 0),
{
    let v = chars_of(s);
    let (a, b) = strip_bounds(&v, 0, v.len(), Strip::Whitespace);
    assert(v@.subrange(0, v@.len() as int) == v@);
    a == b
}

// ---------------------------------------------------------------------------
// Searching
// ---------------------------------------------------------------------------

/// Whether `needle` occurs in `hay` at position `i`.
pub fn matches_at(hay: &[char], needle: &[char], i: usize) -> (b: bool)
    ensures
        b == occurs_at(hay@, needle@, i as int),
{
    if i > hay.len() || needle.len() > hay.len() - i {
        return false;
    }
    let mut k: usize = 0;
    while k < needle.len()
        invariant
            i + needle.len() <= hay.len(),
            k <= needle.len(),
            forall|m: int| 0 <= m < k ==> hay@[i + m] == needle@[m],
        decreases needle.len() - k,
    {
        if hay[i + k] != needle[k] {
            assert(hay@.subrange(i as int, i + needle.len())[k as int] != needle@[k as int]);
            return false;
        }
        k += 1;
    }
    assert(hay@.subrange(i as int, i + needle@.len()) == needle@);
    true
}

/// The first position at or after `from` where `needle` occurs in `hay`.
pub fn find_chars_from(hay: &[char], needle: &[char], from: usize) -> (r: Option<usize>)
    ensures
        r matches Some(i) ==> find_from(hay@, needle@, from as int) == Some(i as int),
        r is None ==> find_from(hay@, needle@, from as int) is None,
{
    let mut i: usize = from;
    while i <= hay.len() && needle.len() <= hay.len() - i
        invariant
            from <= i,
            find_from(hay@, needle@, from as int) == find_from(hay@, needle@, i as int),
        decreases hay.len() + 1 - i,
    {
        if matches_at(hay, needle, i) {
            return Some(i);
        }
        assert(needle@.len() == 0 ==> hay@.subrange(i as int, i as int) =~= needle@);
        i += 1;
    }
    None
}

/// Whether `needle` occurs in `hay`.
pub fn contains_chars(hay: &[char], needle: &[char]) -> (b: bool)
    ensures
        b == contains(hay@, needle@),
{
    proof {
        lemma_find_contains(hay@, needle@);
    }
    find_chars_from(hay, needle, 0).is_some()
}

/// `str::contains` with a string pattern.
pub fn str_contains(hay: &str, needle: &str) -> (b: bool)
    ensures
        b == contains(hay@, needle@),
{
    let h = chars_of(hay);
    let n = chars_of(needle);
    contains_chars(&h, &n)
}

/// `str::contains` with a character pattern.
pub fn str_contains_char(hay: &str, c: char) -> (b: bool)
    ensures
        b == hay@.contains(c),
{
    let h = chars_of(hay);
    let mut i: usize = 0;
    while i < h.len()
        invariant
            i <= h.len(),
            h@ == hay@,
            forall|j: int| 0 <= j < i ==> h@[j] != c,
        decreases h.len() - i,
    {
        if h[i] == c {
            return true;
        }
        i += 1;
    }
    false
}

/// `str::ends_with` with a string pattern.
pub fn str_ends_with(s: &str, suffix: &str) -> (b: bool)
    ensures
        b == ends_with(s@, suffix@),
{
    let v = chars_of(s);
    let w = chars_of(suffix);
    if w.len() > v.len() {
        return false;
    }
    let b = matches_at(&v, &w, v.len() - w.len());
    b
}

// ---------------------------------------------------------------------------
// Joining
// ---------------------------------------------------------------------------

/// The strings of `parts` joined with `sep` (`[String]::join`).
pub fn join_strings(parts: &[String], sep: &str) -> (s: String)
    ensures
        s@ == join(views(parts@), sep@),
{
    let mut s = String::new();
    let mut i: usize = 0;
    while i < parts.len()
        invariant
            i <= parts.len(),
            s@ == join(views(parts@.take(i as int)), sep@),
        decreases parts.len() - i,
    {
        let ghost before = views(parts@.take(i as int));
        if i > 0 {
            s.append(sep);
        }
        s.append(parts[i].as_str());
        proof {
            let after = views(parts@.take(i + 1));
            assert(after.drop_last() == before);
            assert(after.last() == parts@[i as int]@);
            if i == 0 {
                assert(after == seq![parts@[0]@]);
            }
        }
        i += 1;
    }
    assert(parts@.take(parts.len() as int) == parts@);
    s
}

// ---------------------------------------------------------------------------
// Number formatting
// ---------------------------------------------------------------------------

fn digit(d: u64) -> (c: char)
    requires
        d < 16,
    ensures
        c == digit_char(d as nat),
{
    if d < 10 {
        ((48 + d) as u8) as char
    } else {
        ((87 + d) as u8) as char
    }
}

/// The digits of `n` in base `base` (2 to 16), most significant first.
pub fn digits_of(n: u64, base: u64) -> (v: Vec<char>)
    requires
        2 <= base <= 16,
    ensures
        v@ == digits(n as nat, base as nat),
    decreases n,
{
    if n < base {
        let mut v = Vec::new();
        v.push(digit(n));
        assert(v@ == seq![digit_char(n as nat)]);
        v
    } else {
        proof {
            vstd::arithmetic::div_mod::lemma_div_decreases(n as int, base as int);
        }
        let mut v = digits_of(n / base, base);
        v.push(digit(n % base));
        v
    }
}

/// Decimal rendering of `n`.
pub fn decimal_string(n: u64) -> (s: String)
    ensures
        s@ == decimal(n as nat),
{
    let v = digits_of(n, 10);
    string_of(&v)
}

/// Lower-case hexadecimal rendering of `n`, zero-padded to `width`.
pub fn hex_string(n: u64, width: usize) -> (s: String)
    ensures
        s@ == hex(n as nat, width as nat),
{
    let v = digits_of(n, 16);
    let mut s = String::new();
    let mut k: usize = v.len();
    while k < width
        invariant
            v.len() <= k,
            k <= width || k == v.len(),
            s@ == Seq::new((k - v.len()) as nat, |i: int| '0'),
        decreases width - k,
    {
        push_char(&mut s, '0');
        k += 1;
        assert(s@ == Seq::new((k - v.len()) as nat, |i: int| '0'));
    }
    push_range(&mut s, &v, 0, v.len());
    assert(v@.subrange(0, v@.len() as int) == v@);
    if v.len() >= width {
        assert(s@ == v@);
    }
    s
}

} // verus!
