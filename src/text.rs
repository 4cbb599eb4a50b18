//! Character-level string helpers shared by the rest of the library.
use vstd::prelude::*;

verus! {

/// `needle` occurs in `hay` starting at character `i`.
pub open spec fn occurs_at(hay: Seq<char>, needle: Seq<char>, i: int) -> bool {
    0 <= i && i + needle.len() <= hay.len() && hay.subrange(i, i + needle.len()) == needle
}

/// `needle` occurs somewhere in `hay`.
pub open spec fn contains_seq(hay: Seq<char>, needle: Seq<char>) -> bool {
    exists|i: int| occurs_at(hay, needle, i)
}

/// `p` is a prefix of `s`.
pub open spec fn has_prefix(s: Seq<char>, p: Seq<char>) -> bool {
    p.len() <= s.len() && s.subrange(0, p.len() as int) == p
}

/// The decimal digit character for `d < 10`.
pub open spec fn digit_char(d: nat) -> char {
    ((48 + d) as u8) as char
}

/// The decimal rendering of `n`, without leading zeros.
pub open spec fn decimal(n: nat) -> Seq<char>
    decreases n,
{
    if n < 10 {
        seq![digit_char(n)]
    } else {
        decimal(n / 10).push(digit_char(n % 10))
    }
}

/// Relies on `String::push`: appends one character.
#[verifier::external_body]
pub(crate) fn push_char(s: &mut String, c: char)
    ensures
        final(s)@ == old(s)@.push(c),
{
    s.push(c);
}

/// Whether `needle` occurs in `hay` at character position `i`.
pub fn matches_at(hay: &str, needle: &str, i: usize) -> (r: bool)
    requires
        i <= hay@.len(),
    ensures
        r == occurs_at(hay@, needle@, i as int),
{
    let hay_len = hay.unicode_len();
    let needle_len = needle.unicode_len();
    if needle_len > hay_len - i {
        return false;
    }
    let mut k: usize = 0;
    while k < needle_len
        invariant
            hay_len == hay@.len(),
            needle_len == needle@.len(),
            i + needle_len <= hay_len,
            k <= needle_len,
            forall|j: int| 0 <= j < k ==> hay@[i + j] == needle@[j],
        decreases needle_len - k,
    {
        if hay.get_char(i + k) != needle.get_char(k) {
            assert(hay@.subrange(i as int, i + needle_len)[k as int] != needle@[k as int]);
            return false;
        }
        k = k + 1;
    }
    assert(hay@.subrange(i as int, i + needle_len) =~= needle@);
    true
}

/// The first position at which `needle` occurs in `hay`, if any.
pub fn find_str(hay: &str, needle: &str) -> (r: Option<usize>)
    ensures
        match r {
            Some(i) => occurs_at(hay@, needle@, i as int) && forall|j: int|
                0 <= j < i ==> !occurs_at(hay@, needle@, j),
            None => !contains_seq(hay@, needle@),
        },
{
    if needle.unicode_len() == 0 {
        assert(hay@.subrange(0, 0) =~= needle@);
        return Some(0);
    }
    let hay_len = hay.unicode_len();
    let mut i: usize = 0;
    while i < hay_len
        invariant
            hay_len == hay@.len(),
            needle@.len() > 0,
            forall|j: int| 0 <= j < i ==> !occurs_at(hay@, needle@, j),
        decreases hay_len - i,
    {
        if matches_at(hay, needle, i) {
            return Some(i);
        }
        i = i + 1;
    }
    None
}

/// Whether `needle` occurs anywhere in `hay`.
pub fn contains_str(hay: &str, needle: &str) -> (r: bool)
    ensures
        r == contains_seq(hay@, needle@),
{
    match find_str(hay, needle) {
        Some(i) => {
            assert(occurs_at(hay@, needle@, i as int));
            true
        },
        None => false,
    }
}

/// Whether `a` and `b` hold the same characters.
pub fn str_eq(a: &str, b: &str) -> (r: bool)
    ensures
        r == (a@ == b@),
{
    if a.unicode_len() != b.unicode_len() {
        return false;
    }
    let r = matches_at(a, b, 0);
    assert(a@ =~= a@.subrange(0, b@.len() as int));
    r
}

/// Whether `s` begins with `p`.
pub fn starts_with_str(s: &str, p: &str) -> (r: bool)
    ensures
        r == has_prefix(s@, p@),
{
    let r = matches_at(s, p, 0);
    proof {
        if r {
            assert(s@.subrange(0, p@.len() as int) == p@);
        }
    }
    r
}

/// Renders `n` in decimal.
pub fn decimal_string(n: u64) -> (r: String)
    ensures
        r@ == decimal(n as nat),
    decreases n,
{
    if n < 10 {
        let mut s = String::new();
        push_char(&mut s, ((48 + n) as u8) as char);
        s
    } else {
        let mut s = decimal_string(n / 10);
        push_char(&mut s, ((48 + n % 10) as u8) as char);
        s
    }
}

/// What lower-casing `s` gives.
pub uninterp spec fn lower_of(s: Seq<char>) -> Seq<char>;

/// Relies on `str::to_lowercase`: the result depends on the characters alone.
#[verifier::external_body]
pub(crate) fn lowercase(s: &str) -> (r: String)
    ensures
        r@ == lower_of(s@),
{
    s.to_lowercase()
}

/// Characters with the Unicode `White_Space` property.
pub open spec fn is_white(c: char) -> bool {
    ||| ('\t' <= c <= '\r')
    ||| c == ' '
    ||| c == '\u{85}'
    ||| c == '\u{a0}'
    ||| c == '\u{1680}'
    ||| ('\u{2000}' <= c <= '\u{200a}')
    ||| c == '\u{2028}'
    ||| c == '\u{2029}'
    ||| c == '\u{202f}'
    ||| c == '\u{205f}'
    ||| c == '\u{3000}'
}

/// Which characters are stripped from the ends of a string.
#[derive(Clone, Copy, Debug, PartialEq, Eq, Structural)]
pub enum Strip {
    /// White space.
    White,
    /// Double quotes, single quotes and backticks.
    Quotes,
    /// Colons, hyphens and equals signs.
    Marks,
}

/// `c` is one of the characters that `kind` strips.
pub open spec fn strips(kind: Strip, c: char) -> bool {
    match kind {
        Strip::White => is_white(c),
        Strip::Quotes => c == '"' || c == '\'' || c == '`',
        Strip::Marks => c == ':' || c == '-' || c == '=',
    }
}

/// Whether `c` is one of the characters that `kind` strips.
pub fn is_stripped(kind: Strip, c: char) -> (r: bool)
    ensures
        r == strips(kind, c),
{
    match kind {
        Strip::White => ('\t' <= c && c <= '\r') || c == ' ' || c == '\u{85}' || c == '\u{a0}'
            || c == '\u{1680}' || ('\u{2000}' <= c && c <= '\u{200a}') || c == '\u{2028}' || c
            == '\u{2029}' || c == '\u{202f}' || c == '\u{205f}' || c == '\u{3000}',
        Strip::Quotes => c == '"' || c == '\'' || c == '`',
        Strip::Marks => c == ':' || c == '-' || c == '=',
    }
}

/// `s` without the characters `kind` strips at its start and its end.
pub open spec fn strip(s: Seq<char>, kind: Strip) -> Seq<char>
    decreases s.len(),
{
    if s.len() > 0 && strips(kind, s[0]) {
        strip(s.drop_first(), kind)
    } else if s.len() > 0 && strips(kind, s.last()) {
        strip(s.drop_last(), kind)
    } else {
        s
    }
}

/// `s` without the characters `kind` strips at its end.
pub open spec fn strip_end(s: Seq<char>, kind: Strip) -> Seq<char>
    decreases s.len(),
{
    if s.len() > 0 && strips(kind, s.last()) {
        strip_end(s.drop_last(), kind)
    } else {
        s
    }
}

/// `s` without the characters `kind` strips at its start.
pub open spec fn strip_start(s: Seq<char>, kind: Strip) -> Seq<char>
    decreases s.len(),
{
    if s.len() > 0 && strips(kind, s[0]) {
        strip_start(s.drop_first(), kind)
    } else {
        s
    }
}

/// `s` without leading and trailing white space.
pub open spec fn trimmed(s: Seq<char>) -> Seq<char> {
    strip(s, Strip::White)
}

/// Characters `from..to` of `s`, stripped at both ends.
pub fn strip_range(s: &str, from: usize, to: usize, kind: Strip) -> (r: String)
    requires
        from <= to <= s@.len(),
    ensures
        r@ == strip(s@.subrange(from as int, to as int), kind),
{
    let mut a = from;
    let mut b = to;
    while a < b && is_stripped(kind, s.get_char(a))
        invariant
            from <= a <= b <= to <= s@.len(),
            strip(s@.subrange(a as int, b as int), kind) == strip(
                s@.subrange(from as int, to as int),
                kind,
            ),
        decreases b - a,
    {
        assert(s@.subrange(a as int, b as int).drop_first() =~= s@.subrange(a + 1, b as int));
        a = a + 1;
    }
    while a < b && is_stripped(kind, s.get_char(b - 1))
        invariant
            from <= a <= b <= to <= s@.len(),
            strip(s@.subrange(a as int, b as int), kind) == strip(
                s@.subrange(from as int, to as int),
                kind,
            ),
            a < b ==> !strips(kind, s@[a as int]),
        decreases b - a,
    {
        assert(s@.subrange(a as int, b as int).drop_last() =~= s@.subrange(a as int, b - 1));
        assert(!strips(kind, s@.subrange(a as int, b as int)[0]));
        b = b - 1;
    }
    if a < b {
        assert(!strips(kind, s@.subrange(a as int, b as int)[0]));
        assert(!strips(kind, s@.subrange(a as int, b as int).last()));
    } else {
        assert(s@.subrange(a as int, b as int) =~= Seq::<char>::empty());
    }
    String::from_str(s.substring_char(a, b))
}

/// `s` stripped of white space at its end.
pub fn trim_end_str(s: &str) -> (r: String)
    ensures
        r@ == strip_end(s@, Strip::White),
{
    let mut b = s.unicode_len();
    assert(s@.subrange(0, b as int) =~= s@);
    while b > 0 && is_stripped(Strip::White, s.get_char(b - 1))
        invariant
            b <= s@.len(),
            strip_end(s@.subrange(0, b as int), Strip::White) == strip_end(s@, Strip::White),
        decreases b,
    {
        assert(s@.subrange(0, b as int).drop_last() =~= s@.subrange(0, b - 1));
        b = b - 1;
    }
    assert(s@.subrange(0, s@.len() as int) =~= s@);
    String::from_str(s.substring_char(0, b))
}

/// `s` stripped of white space at its start.
pub fn trim_start_str(s: &str) -> (r: String)
    ensures
        r@ == strip_start(s@, Strip::White),
{
    let n = s.unicode_len();
    let mut a: usize = 0;
    assert(s@.subrange(0, n as int) =~= s@);
    while a < n && is_stripped(Strip::White, s.get_char(a))
        invariant
            a <= n == s@.len(),
            strip_start(s@.subrange(a as int, n as int), Strip::White) == strip_start(
                s@,
                Strip::White,
            ),
        decreases n - a,
    {
        assert(s@.subrange(a as int, n as int).drop_first() =~= s@.subrange(a + 1, n as int));
        a = a + 1;
    }
    assert(s@.subrange(0, n as int) =~= s@);
    String::from_str(s.substring_char(a, n))
}

} // verus!
