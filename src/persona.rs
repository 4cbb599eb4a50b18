//! Addressing preferences stated in chat ("call me ...", "your name is ..."),
//! in English and Vietnamese, and the profile block that records them.
//!
//! This is a best-effort side feature: nothing here can fail a turn.
use vstd::prelude::*;
use crate::text::{
    contains_seq, find_str, is_stripped, is_white, lower_of, lowercase, occurs_at, strip, strip_end,
    strip_range, strip_start, trim_end_str, trim_start_str, Strip,
};

verus! {

/// Names the user asked for.
pub struct PersonaPreference {
    pub assistant_name: Option<String>,
    pub user_name: Option<String>,
}

/// The view of an optional string.
pub open spec fn opt_view(o: Option<String>) -> Option<Seq<char>> {
    match o {
        Some(s) => Some(s@),
        None => None,
    }
}

/// The views of a list of string slices.
pub open spec fn strs_view(v: Seq<&str>) -> Seq<Seq<char>> {
    v.map_values(|s: &str| s@)
}

/// `s` scanned with `out` produced so far and `gap` telling whether white
/// space was skipped since the last word.
pub open spec fn squeeze_from(s: Seq<char>, out: Seq<char>, gap: bool) -> Seq<char>
    decreases s.len(),
{
    if s.len() == 0 {
        out
    } else if is_white(s[0]) {
        squeeze_from(s.drop_first(), out, out.len() > 0)
    } else {
        squeeze_from(
            s.drop_first(),
            (if gap {
                out.push(' ')
            } else {
                out
            }).push(s[0]),
            false,
        )
    }
}

/// The words of `s` joined by single spaces.
pub open spec fn squeezed(s: Seq<char>) -> Seq<char> {
    squeeze_from(s, seq![], false)
}

/// Joins the words of `s` by single spaces.
pub fn squeeze_whitespace(s: &str) -> (r: String)
    ensures
        r@ == squeezed(s@),
{
    let n = s.unicode_len();
    let mut out = String::new();
    let mut gap = false;
    let mut i: usize = 0;
    assert(s@.subrange(0, n as int) =~= s@);
    while i < n
        invariant
            i <= n == s@.len(),
            squeeze_from(s@.subrange(i as int, n as int), out@, gap) == squeezed(s@),
        decreases n - i,
    {
        let c = s.get_char(i);
        assert(s@.subrange(i as int, n as int).drop_first() =~= s@.subrange(i + 1, n as int));
        assert(s@.subrange(i as int, n as int)[0] == c);
        if is_stripped(Strip::White, c) {
            gap = out.as_str().unicode_len() > 0;
        } else {
            if gap {
                crate::text::push_char(&mut out, ' ');
            }
            crate::text::push_char(&mut out, c);
            gap = false;
        }
        i = i + 1;
    }
    assert(s@.subrange(n as int, n as int) =~= Seq::<char>::empty());
    out
}

/// Where `needle` first occurs in `hay`.
#[verifier::opaque]
pub open spec fn first_index(hay: Seq<char>, needle: Seq<char>) -> Option<int> {
    if contains_seq(hay, needle) {
        Some(
            choose|i: int|
                occurs_at(hay, needle, i) && forall|j: int| 0 <= j < i ==> !occurs_at(hay, needle, j),
        )
    } else {
        None
    }
}

/// The first position of `needle` in `hay`.
pub fn find_first(hay: &str, needle: &str) -> (r: Option<usize>)
    ensures
        match r {
            Some(i) => first_index(hay@, needle@) == Some(i as int),
            None => first_index(hay@, needle@) is None,
        },
{
    let r = find_str(hay, needle);
    proof {
        reveal(first_index);
        if let Some(i) = r {
            let h = hay@;
            let nd = needle@;
            assert(occurs_at(h, nd, i as int));
            assert(contains_seq(h, nd));
            let k = choose|k: int|
                occurs_at(h, nd, k) && forall|j: int| 0 <= j < k ==> !occurs_at(h, nd, j);
            assert(occurs_at(h, nd, i as int) && forall|j: int|
                0 <= j < i ==> !occurs_at(h, nd, j));
            if k < i {
                assert(!occurs_at(h, nd, k));
            }
            if k > i {
                assert(!occurs_at(h, nd, i as int));
            }
        }
    }
    r
}

/// A first occurrence is an occurrence, with none before it.
pub proof fn lemma_first_index(hay: Seq<char>, needle: Seq<char>)
    ensures
        first_index(hay, needle) matches Some(i) ==> occurs_at(hay, needle, i) && forall|j: int|
            0 <= j < i ==> !occurs_at(hay, needle, j),
        first_index(hay, needle) is None ==> !contains_seq(hay, needle),
{
    reveal(first_index);
    if contains_seq(hay, needle) {
        let i0 = choose|i: int| occurs_at(hay, needle, i);
        lemma_minimal_occurrence(hay, needle, i0);
    }
}

proof fn lemma_minimal_occurrence(hay: Seq<char>, needle: Seq<char>, i0: int)
    requires
        occurs_at(hay, needle, i0),
    ensures
        exists|i: int|
            occurs_at(hay, needle, i) && forall|j: int| 0 <= j < i ==> !occurs_at(hay, needle, j),
    decreases i0,
{
    if exists|j: int| 0 <= j < i0 && occurs_at(hay, needle, j) {
        let j = choose|j: int| 0 <= j < i0 && occurs_at(hay, needle, j);
        lemma_minimal_occurrence(hay, needle, j);
    }
}

/// Where the value that starts at `vs` in `lower` ends: at the nearest of
/// the `stops` after it, or at the end.
pub open spec fn value_end(tail: Seq<char>, stops: Seq<Seq<char>>, end: int, vs: int) -> int
    decreases stops.len(),
{
    if stops.len() == 0 {
        end
    } else {
        let e = value_end(tail, stops.drop_last(), end, vs);
        match first_index(tail, stops.last()) {
            Some(idx) => if vs + idx < e {
                vs + idx
            } else {
                e
            },
            None => e,
        }
    }
}

/// The name in `raw`, cleaned of white space, quotes and `:`, `-`, `=` at
/// its ends, its words joined by single spaces; `None` where nothing is left
/// or it is longer than 80 bytes.
pub open spec fn sanitized(raw: Seq<char>) -> Option<Seq<char>> {
    let cleaned = strip(strip(strip(strip(raw, Strip::White), Strip::Quotes), Strip::Marks), Strip::White);
    let compact = squeezed(cleaned);
    if cleaned.len() == 0 || compact.len() == 0 || vstd::utf8::encode_utf8(compact).len() as usize > 80 {
        None
    } else {
        Some(compact)
    }
}

/// Cleans a name taken from chat text.
pub fn sanitize_name(raw: &str) -> (r: Option<String>)
    ensures
        opt_view(r) == sanitized(raw@),
{
    let a = strip_range(raw, 0, raw.unicode_len(), Strip::White);
    let b = strip_range(a.as_str(), 0, a.as_str().unicode_len(), Strip::Quotes);
    let c = strip_range(b.as_str(), 0, b.as_str().unicode_len(), Strip::Marks);
    let d = strip_range(c.as_str(), 0, c.as_str().unicode_len(), Strip::White);
    assert(raw@.subrange(0, raw@.len() as int) =~= raw@);
    assert(a@.subrange(0, a@.len() as int) =~= a@);
    assert(b@.subrange(0, b@.len() as int) =~= b@);
    assert(c@.subrange(0, c@.len() as int) =~= c@);
    if d.as_str().unicode_len() == 0 {
        return None;
    }
    let compact = squeeze_whitespace(d.as_str());
    if compact.as_str().unicode_len() == 0 || compact.as_str().len() > 80 {
        return None;
    }
    Some(compact)
}

/// The name after the first occurrence of `marker` in `lower`, read from
/// `source` at the same positions up to the nearest of `stops`.
pub open spec fn value_after(
    source: Seq<char>,
    lower: Seq<char>,
    marker: Seq<char>,
    stops: Seq<Seq<char>>,
) -> Option<Seq<char>> {
    match first_index(lower, marker) {
        None => None,
        Some(start) => {
            let vs = start + marker.len();
            if vs >= source.len() || vs >= lower.len() {
                None
            } else {
                let end = value_end(lower.subrange(vs, lower.len() as int), stops, lower.len() as int, vs);
                if end <= vs || end > source.len() {
                    None
                } else {
                    sanitized(source.subrange(vs, end))
                }
            }
        },
    }
}

/// The value after the first of `markers` found in `lower` that yields a
/// name, read from `source` at the same positions.
pub open spec fn named_value(
    source: Seq<char>,
    lower: Seq<char>,
    markers: Seq<Seq<char>>,
    stops: Seq<Seq<char>>,
) -> Option<Seq<char>>
    decreases markers.len(),
{
    if markers.len() == 0 {
        None
    } else if value_after(source, lower, markers[0], stops) is Some {
        value_after(source, lower, markers[0], stops)
    } else {
        named_value(source, lower, markers.drop_first(), stops)
    }
}

/// Where the value starting at `vs` ends: the nearest of `stops` in `tail`.
fn nearest_stop(tail: &str, stops: &Vec<&str>, llen: usize, vs: usize) -> (r: usize)
    requires
        vs < llen,
        vs + tail@.len() == llen,
    ensures
        r as int == value_end(tail@, strs_view(stops@), llen as int, vs as int),
        r <= llen,
{
    let ghost sv = strs_view(stops@);
    let mut end = llen;
    let mut k: usize = 0;
    while k < stops.len()
        invariant
            vs < llen,
            vs + tail@.len() == llen,
            sv == strs_view(stops@),
            k <= stops@.len(),
            end as int == value_end(tail@, sv.subrange(0, k as int), llen as int, vs as int),
            end <= llen,
        decreases stops@.len() - k,
    {
        let ghost next = sv.subrange(0, k as int + 1);
        assert(next.drop_last() =~= sv.subrange(0, k as int));
        assert(next.last() == stops@[k as int]@);
        if let Some(idx) = find_first(tail, stops[k]) {
            proof {
                lemma_first_index(tail@, stops@[k as int]@);
            }
            if vs + idx < end {
                end = vs + idx;
            }
        }
        k = k + 1;
    }
    assert(sv.subrange(0, k as int) =~= sv);
    end
}

/// The name after the first occurrence of `marker` in `lower`.
fn name_after(source: &str, lower: &str, marker: &str, stops: &Vec<&str>) -> (r: Option<String>)
    ensures
        opt_view(r) == value_after(source@, lower@, marker@, strs_view(stops@)),
{
    let olen = source.unicode_len();
    let llen = lower.unicode_len();
    let start = match find_first(lower, marker) {
        Some(start) => start,
        None => return None,
    };
    proof {
        lemma_first_index(lower@, marker@);
    }
    let vs = start + marker.unicode_len();
    if vs >= olen || vs >= llen {
        return None;
    }
    let tail = lower.substring_char(vs, llen);
    let end = nearest_stop(tail, stops, llen, vs);
    if end <= vs || end > olen {
        return None;
    }
    sanitize_name(source.substring_char(vs, end))
}

/// The name that follows the first of `markers` in `lower` (the lower-cased
/// `source`), up to the nearest of `stops`, taken from `source`.
pub fn extract_named_value(
    source: &str,
    lower: &str,
    markers: &Vec<&str>,
    stops: &Vec<&str>,
) -> (r: Option<String>)
    ensures
        opt_view(r) == named_value(source@, lower@, strs_view(markers@), strs_view(stops@)),
{
    let ghost all = strs_view(markers@);
    let ghost sv = strs_view(stops@);
    let mut m: usize = 0;
    assert(all.subrange(0, all.len() as int) =~= all);
    while m < markers.len()
        invariant
            all == strs_view(markers@),
            sv == strs_view(stops@),
            m <= markers@.len(),
            named_value(source@, lower@, all, sv) == named_value(
                source@,
                lower@,
                all.subrange(m as int, all.len() as int),
                sv,
            ),
        decreases markers@.len() - m,
    {
        let ghost rest = all.subrange(m as int, all.len() as int);
        assert(rest[0] == markers@[m as int]@);
        assert(rest.drop_first() =~= all.subrange(m + 1, all.len() as int));
        if let Some(name) = name_after(source, lower, markers[m], stops) {
            return Some(name);
        }
        m = m + 1;
    }
    None
}

/// Markers after which the user names themselves.
pub open spec fn user_markers() -> Seq<Seq<char>> {
    seq![
        "hãy gọi tôi là"@,
        "hay goi toi la"@,
        "goi toi la"@,
        "call me"@,
        "you can call me"@,
        "address me as"@,
    ]
}

/// Text that ends the user's name.
pub open spec fn user_stops() -> Seq<Seq<char>> {
    seq![
        " và tên của bạn là"@,
        " va ten cua ban la"@,
        " and your name is"@,
        " and call yourself"@,
        " and your name should be"@,
        "."@,
        ","@,
        ";"@,
        "!"@,
        "?"@,
    ]
}

/// Markers after which the user names the assistant.
pub open spec fn assistant_markers() -> Seq<Seq<char>> {
    seq![
        "tên của bạn là"@,
        "ten cua ban la"@,
        "your name is"@,
        "call yourself"@,
        "you should call yourself"@,
        "hãy gọi bạn là"@,
        "hay goi ban la"@,
    ]
}

/// Text that ends the assistant's name.
pub open spec fn assistant_stops() -> Seq<Seq<char>> {
    seq![","@, "."@, ";"@, "!"@, "?"@, " nhé"@, " nhe"@, " please"@]
}

fn user_marker_list() -> (r: Vec<&'static str>)
    ensures
        strs_view(r@) == user_markers(),
{
    let r = vec![
        "hãy gọi tôi là",
        "hay goi toi la",
        "goi toi la",
        "call me",
        "you can call me",
        "address me as",
    ];
    assert(strs_view(r@) =~= user_markers());
    r
}

fn user_stop_list() -> (r: Vec<&'static str>)
    ensures
        strs_view(r@) == user_stops(),
{
    let r = vec![
        " và tên của bạn là",
        " va ten cua ban la",
        " and your name is",
        " and call yourself",
        " and your name should be",
        ".",
        ",",
        ";",
        "!",
        "?",
    ];
    assert(strs_view(r@) =~= user_stops());
    r
}

fn assistant_marker_list() -> (r: Vec<&'static str>)
    ensures
        strs_view(r@) == assistant_markers(),
{
    let r = vec![
        "tên của bạn là",
        "ten cua ban la",
        "your name is",
        "call yourself",
        "you should call yourself",
        "hãy gọi bạn là",
        "hay goi ban la",
    ];
    assert(strs_view(r@) =~= assistant_markers());
    r
}

fn assistant_stop_list() -> (r: Vec<&'static str>)
    ensures
        strs_view(r@) == assistant_stops(),
{
    let r = vec![",", ".", ";", "!", "?", " nhé", " nhe", " please"];
    assert(strs_view(r@) =~= assistant_stops());
    r
}

/// The preference stated in `content`, if any: the user's name and the
/// assistant's name, each read after its markers in the squeezed text.
pub fn extract_persona_preference(content: &str) -> (r: Option<PersonaPreference>)
    ensures
        ({
            let n = squeezed(content@);
            let l = lower_of(n);
            let u = named_value(n, l, user_markers(), user_stops());
            let a = named_value(n, l, assistant_markers(), assistant_stops());
            &&& n.len() == 0 ==> r is None
            &&& n.len() > 0 ==> (r is None <==> (u is None && a is None))
            &&& r matches Some(p) ==> opt_view(p.user_name) == u && opt_view(p.assistant_name) == a
        }),
{
    let normalized = squeeze_whitespace(content);
    if normalized.as_str().unicode_len() == 0 {
        return None;
    }
    let lower = lowercase(normalized.as_str());
    let user_marks = user_marker_list();
    let user_ends = user_stop_list();
    let assistant_marks = assistant_marker_list();
    let assistant_ends = assistant_stop_list();
    let user_name = extract_named_value(
        normalized.as_str(),
        lower.as_str(),
        &user_marks,
        &user_ends,
    );
    let assistant_name = extract_named_value(
        normalized.as_str(),
        lower.as_str(),
        &assistant_marks,
        &assistant_ends,
    );
    if user_name.is_none() && assistant_name.is_none() {
        None
    } else {
        Some(PersonaPreference { assistant_name, user_name })
    }
}

/// Marks the start of the preference block in a profile.
pub open spec fn block_start() -> Seq<char> {
    "<!-- phoneclaw:persona:start -->"@
}

/// Marks the end of the preference block in a profile.
pub open spec fn block_end() -> Seq<char> {
    "<!-- phoneclaw:persona:end -->"@
}

/// `block` between the two marks.
pub open spec fn wrapped_block(block: Seq<char>) -> Seq<char> {
    block_start() + "\n"@ + block + "\n"@ + block_end()
}

/// `existing` with its preference block replaced by `block`, or with
/// `block` appended after a blank line where it has none.
pub open spec fn merged_profile(existing: Seq<char>, block: Seq<char>) -> Seq<char> {
    let s = first_index(existing, block_start());
    let e = first_index(existing, block_end());
    let w = wrapped_block(block);
    if s is Some && e is Some && e->Some_0 > s->Some_0 {
        let prefix = strip_end(existing.subrange(0, s->Some_0), Strip::White);
        let suffix = strip_start(
            existing.subrange(e->Some_0 + block_end().len(), existing.len() as int),
            Strip::White,
        );
        if prefix.len() == 0 && suffix.len() == 0 {
            w
        } else if prefix.len() == 0 {
            w + "\n\n"@ + suffix
        } else if suffix.len() == 0 {
            prefix + "\n\n"@ + w
        } else {
            prefix + "\n\n"@ + w + "\n\n"@ + suffix
        }
    } else {
        let base = strip_end(existing, Strip::White);
        if base.len() == 0 {
            w
        } else {
            base + "\n\n"@ + w
        }
    }
}

/// Puts `block` into the profile text `existing`, replacing an earlier one.
pub fn replace_persona_block(existing: &str, block: &str) -> (r: String)
    ensures
        r@ == merged_profile(existing@, block@),
{
    let start_mark = "<!-- phoneclaw:persona:start -->";
    let end_mark = "<!-- phoneclaw:persona:end -->";
    let mut wrapped = String::from_str(start_mark);
    wrapped.append("\n");
    wrapped.append(block);
    wrapped.append("\n");
    wrapped.append(end_mark);
    let n = existing.unicode_len();
    let found_start = find_first(existing, start_mark);
    let found_end = find_first(existing, end_mark);
    if let (Some(s), Some(e)) = (found_start, found_end) {
        if e > s {
            proof {
                lemma_first_index(existing@, end_mark@);
            }
            let prefix = trim_end_str(existing.substring_char(0, s));
            let suffix = trim_start_str(existing.substring_char(e + end_mark.unicode_len(), n));
            let p_empty = prefix.as_str().unicode_len() == 0;
            let s_empty = suffix.as_str().unicode_len() == 0;
            if p_empty && s_empty {
                return wrapped;
            } else if p_empty {
                wrapped.append("\n\n");
                wrapped.append(suffix.as_str());
                return wrapped;
            } else if s_empty {
                let mut r = prefix;
                r.append("\n\n");
                r.append(wrapped.as_str());
                return r;
            } else {
                let mut r = prefix;
                r.append("\n\n");
                r.append(wrapped.as_str());
                r.append("\n\n");
                r.append(suffix.as_str());
                return r;
            }
        }
    }
    let base = trim_end_str(existing);
    if base.as_str().unicode_len() == 0 {
        wrapped
    } else {
        let mut r = base;
        r.append("\n\n");
        r.append(wrapped.as_str());
        r
    }
}

/// The text between the first two double quotes of `t`, if it has two.
pub open spec fn quoted_in(t: Seq<char>) -> Option<Seq<char>> {
    match first_index(t, seq!['"']) {
        None => None,
        Some(q1) => {
            let rest = t.subrange(q1 + 1, t.len() as int);
            match first_index(rest, seq!['"']) {
                None => None,
                Some(q2) => Some(rest.subrange(0, q2)),
            }
        },
    }
}

/// What a profile line says about the value recorded under `prefix`.
pub open spec fn line_verdict(line: Seq<char>, prefix: Seq<char>) -> Option<Option<Seq<char>>> {
    line_verdict_trimmed(crate::text::trimmed(line), prefix)
}

/// `v` is what the first line of `content` with a verdict on `prefix` says,
/// or `None` where no line has one.
pub open spec fn quoted_value_is(content: Seq<char>, prefix: Seq<char>, v: Option<Seq<char>>) -> bool {
    if exists|a: int, b: int|
        crate::skills::is_line(content, a, b) && line_verdict(
            crate::skills::line_at(content, a, b),
            prefix,
        ) is Some {
        exists|a: int, b: int|
            {
                &&& crate::skills::is_line(content, a, b)
                &&& line_verdict(crate::skills::line_at(content, a, b), prefix) == Some(v)
                &&& forall|a2: int, b2: int|
                    crate::skills::is_line(content, a2, b2) && a2 < a ==> line_verdict(
                        crate::skills::line_at(content, a2, b2),
                        prefix,
                    ) is None
            }
    } else {
        v is None
    }
}

/// The verdict of one trimmed line.
fn verdict_of(t: &str, prefix: &str) -> (r: Option<Option<String>>)
    ensures
        match r {
            None => line_verdict_trimmed(t@, prefix@) is None,
            Some(o) => line_verdict_trimmed(t@, prefix@) == Some(opt_view(o)),
        },
{
    if !crate::text::starts_with_str(t, prefix) {
        return None;
    }
    let q1 = match find_first(t, "\"") {
        Some(q) => q,
        None => {
            proof {
                reveal_strlit("\"");
                assert("\""@ =~= seq!['"']);
            }
            return Some(None);
        },
    };
    proof {
        reveal_strlit("\"");
        assert("\""@ =~= seq!['"']);
        lemma_first_index(t@, seq!['"']);
    }
    let n = t.unicode_len();
    let rest = t.substring_char(q1 + 1, n);
    let q2 = match find_first(rest, "\"") {
        Some(q) => q,
        None => return Some(None),
    };
    proof {
        lemma_first_index(rest@, seq!['"']);
    }
    let value = rest.substring_char(0, q2);
    let v = strip_range(value, 0, value.unicode_len(), Strip::White);
    assert(value@.subrange(0, value@.len() as int) =~= value@);
    if v.as_str().unicode_len() > 0 {
        Some(Some(v))
    } else {
        None
    }
}

/// What a line whose trimmed form is `t` says about the value recorded
/// under `prefix`: nothing (`None`) where `t` does not start with `prefix` or
/// quotes only blanks; otherwise the trimmed quoted value, or `Some(None)`
/// where the line lacks its quotes.
pub open spec fn line_verdict_trimmed(t: Seq<char>, prefix: Seq<char>) -> Option<Option<Seq<char>>> {
    if !crate::text::has_prefix(t, prefix) {
        None
    } else {
        match quoted_in(t) {
            None => Some(None),
            Some(v) => if crate::text::trimmed(v).len() > 0 {
                Some(Some(crate::text::trimmed(v)))
            } else {
                None
            },
        }
    }
}

/// The value recorded in `content` on the first line that starts with
/// `prefix` (after trimming), between double quotes and trimmed.
pub fn extract_existing_quoted_value(content: &str, prefix: &str) -> (r: Option<String>)
    ensures
        quoted_value_is(content@, prefix@, opt_view(r)),
{
    let n = content.unicode_len();
    let mut start: usize = 0;
    while start < n
        invariant
            n == content@.len(),
            start <= n,
            start == 0 || start == n || content@[start - 1] == '\n',
            forall|a2: int, b2: int|
                crate::skills::is_line(content@, a2, b2) && a2 < start ==> line_verdict(
                    crate::skills::line_at(content@, a2, b2),
                    prefix@,
                ) is None,
        decreases n - start,
    {
        let mut end = start;
        while end < n && content.get_char(end) != '\n'
            invariant
                n == content@.len(),
                start <= end <= n,
                forall|k: int| start <= k < end ==> content@[k] != '\n',
            decreases n - end,
        {
            end = end + 1;
        }
        assert(crate::skills::is_line(content@, start as int, end as int));
        let line_end = if end > start && content.get_char(end - 1) == '\r' {
            end - 1
        } else {
            end
        };
        assert(crate::skills::line_at(content@, start as int, end as int) =~= content@.subrange(
            start as int,
            line_end as int,
        ));
        let t = strip_range(content, start, line_end, Strip::White);
        match verdict_of(t.as_str(), prefix) {
            Some(v) => {
                assert(line_verdict(crate::skills::line_at(content@, start as int, end as int), prefix@)
                    == Some(opt_view(v)));
                return v;
            },
            None => {},
        }
        assert forall|a2: int, b2: int|
            crate::skills::is_line(content@, a2, b2) && a2 < end + 1 implies line_verdict(
                crate::skills::line_at(content@, a2, b2),
                prefix@,
            ) is None by {
            if a2 >= start {
                if a2 > start {
                    assert(content@[a2 - 1] == '\n');
                    assert(false);
                }
                if b2 != end {
                    if b2 < end {
                        assert(content@[b2] != '\n');
                    } else {
                        assert(content@[end as int] == '\n');
                    }
                }
            }
        }
        if end == n {
            start = n;
        } else {
            start = end + 1;
        }
    }
    None
}

/// The preference block for the given names and tone.
pub open spec fn persona_block(assistant: Seq<char>, user: Seq<char>, tone: Seq<char>) -> Seq<char> {
    "## Preferred Addressing\n- Refer to yourself as \""@ + assistant
        + "\".\n- Address the user as \""@ + user + "\".\n- Maintain tone: \""@ + tone
        + "\".\n- Apply this from the first reply unless the user asks to change."@
}

/// The first of `a` and `b` that is present, else `d`.
pub open spec fn first_of(a: Option<Seq<char>>, b: Option<Seq<char>>, d: Seq<char>) -> Seq<char> {
    match a {
        Some(x) => x,
        None => match b {
            Some(y) => y,
            None => d,
        },
    }
}

/// The updated profile: the stated names, else those already recorded, else
/// defaults; the recorded tone, else a default; the block merged into the
/// text, trailing white space cut, one newline at the end.
pub fn persona_profile(existing: &str, preference: PersonaPreference) -> (r: String)
    ensures
        exists|ea: Option<Seq<char>>, eu: Option<Seq<char>>, et: Option<Seq<char>>|
            {
                &&& quoted_value_is(existing@, "- Refer to yourself as"@, ea)
                &&& quoted_value_is(existing@, "- Address the user as"@, eu)
                &&& quoted_value_is(existing@, "- Maintain tone"@, et)
                &&& r@ == strip_end(
                    merged_profile(
                        existing@,
                        persona_block(
                            first_of(opt_view(preference.assistant_name), ea, "PhoneClawbot"@),
                            first_of(opt_view(preference.user_name), eu, "friend"@),
                            first_of(et, None, "friendly, concise"@),
                        ),
                    ),
                    Strip::White,
                ) + "\n"@
            },
{
    let existing_assistant = extract_existing_quoted_value(existing, "- Refer to yourself as");
    let existing_user = extract_existing_quoted_value(existing, "- Address the user as");
    let existing_tone = extract_existing_quoted_value(existing, "- Maintain tone");
    let ghost ea = opt_view(existing_assistant);
    let ghost eu = opt_view(existing_user);
    let ghost et = opt_view(existing_tone);
    let assistant = match preference.assistant_name {
        Some(a) => a,
        None => match existing_assistant {
            Some(a) => a,
            None => String::from_str("PhoneClawbot"),
        },
    };
    let user = match preference.user_name {
        Some(u) => u,
        None => match existing_user {
            Some(u) => u,
            None => String::from_str("friend"),
        },
    };
    let tone = match existing_tone {
        Some(t) => t,
        None => String::from_str("friendly, concise"),
    };
    let mut block = String::from_str("## Preferred Addressing\n- Refer to yourself as \"");
    block.append(assistant.as_str());
    block.append("\".\n- Address the user as \"");
    block.append(user.as_str());
    block.append("\".\n- Maintain tone: \"");
    block.append(tone.as_str());
    block.append("\".\n- Apply this from the first reply unless the user asks to change.");
    assert(assistant@ == first_of(opt_view(preference.assistant_name), ea, "PhoneClawbot"@));
    assert(user@ == first_of(opt_view(preference.user_name), eu, "friend"@));
    assert(tone@ == first_of(et, None, "friendly, concise"@));
    assert(block@ =~= persona_block(assistant@, user@, tone@));
    let merged = replace_persona_block(existing, block.as_str());
    let mut r = trim_end_str(merged.as_str());
    r.append("\n");
    assert(quoted_value_is(existing@, "- Refer to yourself as"@, ea));
    assert(quoted_value_is(existing@, "- Address the user as"@, eu));
    assert(quoted_value_is(existing@, "- Maintain tone"@, et));
    r
}

} // verus!
