//! Skills: what a skill declares, and how its files are read into a
//! [`Skill`]. Reading directories and files is left to the caller, which
//! hands over file names and contents.
use vstd::prelude::*;
use crate::text::{has_prefix, matches_at, occurs_at, starts_with_str, strip_range, trimmed, Strip};

verus! {

/// Binaries and environment variables a skill needs.
pub struct SkillRequirements {
    pub bins: Vec<String>,
    pub env: Vec<String>,
}

/// What a skill is allowed to do.
pub struct SkillPermissions {
    /// Tool names the skill may use.
    pub tools: Vec<String>,
    /// File system scope: `workspace` or `system`.
    pub fs_scope: String,
    /// Network domains web tools may reach for this skill.
    pub network_domains: Vec<String>,
    /// Longest shell execution time for this skill, in seconds.
    pub max_exec_timeout: Option<u64>,
}

/// Front matter of a `SKILL.md` file.
pub struct SkillMetadata {
    pub name: String,
    pub description: String,
    pub always: bool,
    pub requires: Option<SkillRequirements>,
    pub permissions: Option<SkillPermissions>,
}

/// The `[metadata]` table of a `skill.toml` manifest.
pub struct ManifestMetadata {
    pub name: String,
    pub version: String,
    pub description: String,
    pub always: bool,
}

/// A `skill.toml` manifest.
pub struct SkillManifest {
    pub metadata: ManifestMetadata,
    pub permissions: Option<SkillPermissions>,
    pub requirements: Option<SkillRequirements>,
}

/// A loaded skill.
pub struct Skill {
    pub name: String,
    pub description: String,
    pub content: String,
    pub requirements: Option<SkillRequirements>,
    pub permissions: Option<SkillPermissions>,
    /// Included in every prompt.
    pub always: bool,
    /// All requirements are met.
    pub available: bool,
    pub missing_requirements: Vec<String>,
    pub version: Option<String>,
    pub location: Option<String>,
}

/// The file system scope a skill gets when it names none.
pub fn default_fs_scope() -> (r: String)
    ensures
        r@ == "workspace"@,
{
    String::from_str("workspace")
}

/// Reads skills from `<workspace_path>/skills`.
pub struct SkillsLoader {
    pub workspace_path: String,
}

impl SkillsLoader {
    pub fn new(workspace_path: String) -> (r: SkillsLoader)
        ensures
            r.workspace_path@ == workspace_path@,
    {
        SkillsLoader { workspace_path }
    }
}

/// The notes for the requirements found missing: `CLI: <bin>` for each
/// binary and `ENV: <var>` for each variable whose flag says it is absent.
pub open spec fn missing_notes(
    bins: Seq<Seq<char>>,
    bin_found: Seq<bool>,
    env: Seq<Seq<char>>,
    env_set: Seq<bool>,
) -> Seq<Seq<char>> {
    bins.zip_with(bin_found).filter(|p: (Seq<char>, bool)| !p.1).map_values(
        |p: (Seq<char>, bool)| "CLI: "@ + p.0,
    ) + env.zip_with(env_set).filter(|p: (Seq<char>, bool)| !p.1).map_values(
        |p: (Seq<char>, bool)| "ENV: "@ + p.0,
    )
}

/// The strings of `v` as character sequences.
pub open spec fn strings_view(v: Seq<String>) -> Seq<Seq<char>> {
    v.map_values(|s: String| s@)
}

/// Appends `<prefix><name>` for every name whose flag is false.
fn note_missing(prefix: &str, names: &Vec<String>, present: &Vec<bool>, out: &mut Vec<String>)
    requires
        names@.len() == present@.len(),
    ensures
        strings_view(final(out)@) == strings_view(old(out)@) + strings_view(names@).zip_with(
            present@,
        ).filter(|p: (Seq<char>, bool)| !p.1).map_values(|p: (Seq<char>, bool)| prefix@ + p.0),
{
    let ghost start = strings_view(out@);
    let ghost pairs = strings_view(names@).zip_with(present@);
    let mut i: usize = 0;
    while i < names.len()
        invariant
            names@.len() == present@.len(),
            pairs == strings_view(names@).zip_with(present@),
            pairs.len() == names@.len(),
            i <= names@.len(),
            strings_view(out@) == start + pairs.subrange(0, i as int).filter(
                |p: (Seq<char>, bool)| !p.1,
            ).map_values(|p: (Seq<char>, bool)| prefix@ + p.0),
        decreases names@.len() - i,
    {
        let ghost prev = pairs.subrange(0, i as int);
        let ghost next = pairs.subrange(0, i as int + 1);
        assert(next.drop_last() =~= prev);
        assert(next.last() == (names@[i as int]@, present@[i as int]));
        proof {
            next.filter_lemma(|p: (Seq<char>, bool)| !p.1);
            reveal(Seq::filter);
        }
        if !present[i] {
            let mut note = String::from_str(prefix);
            note.append(names[i].as_str());
            let ghost before = out@;
            out.push(note);
            assert(strings_view(out@) =~= strings_view(before).push(note@));
        }
        i = i + 1;
        assert(strings_view(out@) =~= start + next.filter(|p: (Seq<char>, bool)| !p.1).map_values(
            |p: (Seq<char>, bool)| prefix@ + p.0,
        ));
    }
    assert(pairs.subrange(0, i as int) =~= pairs);
}

/// The notes for the unmet requirements of `requires`, given whether each
/// binary was found and each environment variable is set.
pub fn missing_requirements(
    requires: &Option<SkillRequirements>,
    bin_found: &Vec<bool>,
    env_set: &Vec<bool>,
) -> (r: Vec<String>)
    requires
        requires matches Some(req) ==> req.bins@.len() == bin_found@.len() && req.env@.len()
            == env_set@.len(),
    ensures
        requires is None ==> r@.len() == 0,
        requires matches Some(req) ==> strings_view(r@) == missing_notes(
            strings_view(req.bins@),
            bin_found@,
            strings_view(req.env@),
            env_set@,
        ),
{
    let mut missing: Vec<String> = Vec::new();
    if let Some(req) = requires {
        note_missing("CLI: ", &req.bins, bin_found, &mut missing);
        note_missing("ENV: ", &req.env, env_set, &mut missing);
        assert(strings_view(Seq::<String>::empty()) =~= Seq::<Seq<char>>::empty());
    }
    missing
}

/// A skill read from a manifest, with the README text as its content where
/// there is one and the manifest's description otherwise.
pub fn skill_from_manifest(
    manifest: SkillManifest,
    readme: Option<String>,
    missing: Vec<String>,
    location: String,
) -> (r: Skill)
    ensures
        r.name@ == manifest.metadata.name@,
        r.description@ == manifest.metadata.description@,
        r.content@ == match readme {
            Some(t) => t@,
            None => manifest.metadata.description@,
        },
        r.always == manifest.metadata.always,
        r.available == (missing@.len() == 0),
        r.missing_requirements@ == missing@,
        r.version matches Some(v) && v@ == manifest.metadata.version@,
        r.location matches Some(l) && l@ == location@,
{
    let content = match readme {
        Some(t) => t,
        None => manifest.metadata.description.clone(),
    };
    let available = missing.len() == 0;
    Skill {
        name: manifest.metadata.name,
        description: manifest.metadata.description,
        content,
        requirements: manifest.requirements,
        permissions: manifest.permissions,
        always: manifest.metadata.always,
        available,
        missing_requirements: missing,
        version: Some(manifest.metadata.version),
        location: Some(location),
    }
}

/// The front matter opening marker.
pub open spec fn fence_open() -> Seq<char> {
    seq!['-', '-', '-', '\n']
}

/// The front matter closing marker.
pub open spec fn fence_close() -> Seq<char> {
    seq!['\n', '-', '-', '-', '\n']
}

/// Splits `content` into front matter and body. Front matter stands between
/// an opening `---` line at the very start and the first `---` line after it;
/// without it the front matter is `{}` and the body is everything.
pub fn extract_frontmatter(content: &str) -> (r: (String, String))
    ensures
        ({
            let c = content@;
            let open_len = fence_open().len() as int;
            if has_prefix(c, fence_open()) && exists|i: int|
                open_len <= i && occurs_at(c, fence_close(), i) {
                exists|i: int|
                    {
                        &&& open_len <= i
                        &&& occurs_at(c, fence_close(), i)
                        &&& forall|j: int| open_len <= j < i ==> !occurs_at(c, fence_close(), j)
                        &&& r.0@ == c.subrange(open_len, i)
                        &&& r.1@ == c.subrange(i + fence_close().len(), c.len() as int)
                    }
            } else {
                r.0@ == seq!['{', '}'] && r.1@ == c
            }
        }),
{
    proof {
        reveal_strlit("---\n");
        reveal_strlit("\n---\n");
        reveal_strlit("{}");
    }
    assert("---\n"@ =~= fence_open());
    assert("\n---\n"@ =~= fence_close());
    let total = content.unicode_len();
    if starts_with_str(content, "---\n") {
        let mut i: usize = 4;
        while i < total
            invariant
                total == content@.len(),
                4 <= i,
                "\n---\n"@ == fence_close(),
                has_prefix(content@, fence_open()),
                forall|j: int| 4 <= j < i ==> !occurs_at(content@, fence_close(), j),
            decreases total - i,
        {
            if matches_at(content, "\n---\n", i) {
                let front = String::from_str(content.substring_char(4, i));
                let body = String::from_str(content.substring_char(i + 5, total));
                proof {
                    let c = content@;
                    assert(occurs_at(c, fence_close(), i as int));
                    assert(has_prefix(c, fence_open()));
                    assert(fence_open().len() == 4);
                    assert(fence_close().len() == 5);
                    assert(front@ == c.subrange(4, i as int));
                    assert(body@ == c.subrange(i + 5, c.len() as int));
                }
                return (front, body);
            }
            i = i + 1;
        }
        assert forall|j: int| 4 <= j implies !occurs_at(content@, fence_close(), j) by {
            if j < i {
            }
        }
    }
    assert("{}"@ =~= seq!['{', '}']);
    (String::from_str("{}"), String::from_str(content))
}

/// A skill read from a `SKILL.md` file whose front matter gave `metadata`
/// (`None` where it could not be read), named after its directory otherwise.
pub fn skill_from_markdown(
    metadata: Option<SkillMetadata>,
    body: String,
    dir_name: &str,
    missing: Vec<String>,
    location: String,
) -> (r: Skill)
    ensures
        r.name@ == match metadata {
            Some(m) => m.name@,
            None => dir_name@,
        },
        r.description@ == match metadata {
            Some(m) => m.description@,
            None => "No description provided"@,
        },
        r.always == match metadata {
            Some(m) => m.always,
            None => false,
        },
        r.content@ == body@,
        r.available == (missing@.len() == 0),
        r.missing_requirements@ == missing@,
        r.version is None,
        r.location matches Some(l) && l@ == location@,
{
    let meta = match metadata {
        Some(m) => m,
        None => SkillMetadata {
            name: String::from_str(dir_name),
            description: String::from_str("No description provided"),
            always: false,
            requires: None,
            permissions: None,
        },
    };
    let available = missing.len() == 0;
    Skill {
        name: meta.name,
        description: meta.description,
        content: body,
        requirements: meta.requires,
        permissions: meta.permissions,
        always: meta.always,
        available,
        missing_requirements: missing,
        version: None,
        location: Some(location),
    }
}

/// The lines of `s`: split at `\n`, a trailing `\r` dropped from each, with
/// no empty last line after a final `\n`.
pub open spec fn line_at(s: Seq<char>, start: int, end: int) -> Seq<char> {
    if end > start && s[end - 1] == '\r' {
        s.subrange(start, end - 1)
    } else {
        s.subrange(start, end)
    }
}

/// A line that can describe a skill: not a heading and not blank.
pub open spec fn describes(line: Seq<char>) -> bool {
    !(line.len() > 0 && line[0] == '#') && trimmed(line).len() > 0
}

/// `[start, end)` is a line of `s`: it starts at the beginning or after a
/// `\n`, and ends at the next `\n` or at the end.
pub open spec fn is_line(s: Seq<char>, start: int, end: int) -> bool {
    &&& 0 <= start <= end <= s.len()
    &&& start < s.len()
    &&& (start == 0 || s[start - 1] == '\n')
    &&& (end == s.len() || s[end] == '\n')
    &&& forall|k: int| start <= k < end ==> s[k] != '\n'
}

/// The description of an open skill: its first line that is neither a
/// heading nor blank, trimmed, or `No description` where there is none.
pub fn extract_description(content: &str) -> (r: String)
    ensures
        (exists|a: int, b: int| is_line(content@, a, b) && describes(line_at(content@, a, b)))
            ==> exists|a: int, b: int|
            {
                &&& is_line(content@, a, b)
                &&& describes(line_at(content@, a, b))
                &&& r@ == trimmed(line_at(content@, a, b))
                &&& forall|a2: int, b2: int|
                    is_line(content@, a2, b2) && a2 < a ==> !describes(line_at(content@, a2, b2))
            },
        !(exists|a: int, b: int| is_line(content@, a, b) && describes(line_at(content@, a, b)))
            ==> r@ == "No description"@,
{
    let n = content.unicode_len();
    let mut start: usize = 0;
    while start < n
        invariant
            n == content@.len(),
            start <= n,
            start == 0 || start == n || content@[start - 1] == '\n',
            forall|a2: int, b2: int|
                is_line(content@, a2, b2) && a2 < start ==> !describes(line_at(content@, a2, b2)),
        decreases n - start,
    {
        let mut end = start;
        while end < n && content.get_char(end) != '\n'
            invariant
                n == content@.len(),
                start <= end <= n,
                forall|k: int| start <= k < end ==> content@[k] != '\n',
            decreases n - end,
        {
            end = end + 1;
        }
        assert(is_line(content@, start as int, end as int));
        let line_end = if end > start && content.get_char(end - 1) == '\r' {
            end - 1
        } else {
            end
        };
        let heading = line_end > start && content.get_char(start) == '#';
        let t = strip_range(content, start, line_end, Strip::White);
        assert(line_at(content@, start as int, end as int) =~= content@.subrange(
            start as int,
            line_end as int,
        ));
        if !heading && t.unicode_len() > 0 {
            assert(describes(line_at(content@, start as int, end as int)));
            return t;
        }
        assert forall|a2: int, b2: int|
            is_line(content@, a2, b2) && a2 < end + 1 implies !describes(
                line_at(content@, a2, b2),
            ) by {
            if a2 >= start {
                if a2 > start {
                    assert(content@[a2 - 1] == '\n');
                    assert(false);
                }
                if b2 != end {
                    if b2 < end {
                        assert(content@[b2] != '\n');
                    } else {
                        assert(content@[end as int] == '\n');
                    }
                }
            }
        }
        if end == n {
            start = n;
        } else {
            start = end + 1;
        }
    }
    String::from_str("No description")
}

/// ASCII letters folded to lower case; every other character kept.
pub open spec fn ascii_lower(c: char) -> char {
    if 'A' <= c <= 'Z' {
        ((c as u8) + 32) as char
    } else {
        c
    }
}

/// `a` and `b` are equal when ASCII letters are compared without case.
pub open spec fn eq_ignore_ascii_case(a: Seq<char>, b: Seq<char>) -> bool {
    a.len() == b.len() && forall|i: int| 0 <= i < a.len() ==> ascii_lower(a[i]) == ascii_lower(b[i])
}

fn lower_ascii_char(c: char) -> (r: char)
    ensures
        r == ascii_lower(c),
{
    if 'A' <= c && c <= 'Z' {
        ((c as u8) + 32) as char
    } else {
        c
    }
}

/// Whether `a` and `b` are equal when ASCII letters are compared without case.
pub fn same_ignoring_ascii_case(a: &str, b: &str) -> (r: bool)
    ensures
        r == eq_ignore_ascii_case(a@, b@),
{
    let n = a.unicode_len();
    if n != b.unicode_len() {
        return false;
    }
    let mut i: usize = 0;
    while i < n
        invariant
            n == a@.len() == b@.len(),
            i <= n,
            forall|k: int| 0 <= k < i ==> ascii_lower(a@[k]) == ascii_lower(b@[k]),
        decreases n - i,
    {
        if lower_ascii_char(a.get_char(i)) != lower_ascii_char(b.get_char(i)) {
            return false;
        }
        i = i + 1;
    }
    true
}

/// A file name with a non-empty stem and the extension `md`, in any case.
pub open spec fn is_markdown_name(f: Seq<char>) -> bool {
    &&& f.len() >= 4
    &&& f[f.len() - 3] == '.'
    &&& eq_ignore_ascii_case(f.subrange(f.len() - 2, f.len() as int), "md"@)
}

/// A markdown file of the shared skills directory read as a skill: files
/// whose extension is not `md` (in any case) and `README.md` files are
/// skipped; the name is the file name without its extension.
pub fn open_skill(file_name: &str, content: String, location: String) -> (r: Option<Skill>)
    ensures
        r is Some <==> is_markdown_name(file_name@) && !eq_ignore_ascii_case(
            file_name@,
            "README.md"@,
        ),
        r matches Some(s) ==> {
            &&& s.name@ == file_name@.subrange(0, file_name@.len() - 3)
            &&& s.content@ == content@
            &&& s.always == false
            &&& s.available
            &&& s.version matches Some(v) && v@ == "open-skills"@
        },
{
    let n = file_name.unicode_len();
    if n < 4 || file_name.get_char(n - 3) != '.' {
        return None;
    }
    let ext = file_name.substring_char(n - 2, n);
    if !same_ignoring_ascii_case(ext, "md") {
        return None;
    }
    if same_ignoring_ascii_case(file_name, "README.md") {
        return None;
    }
    let description = extract_description(content.as_str());
    let name = String::from_str(file_name.substring_char(0, n - 3));
    Some(
        Skill {
            name,
            description,
            content,
            requirements: None,
            permissions: None,
            always: false,
            available: true,
            missing_requirements: Vec::new(),
            version: Some(String::from_str("open-skills")),
            location: Some(location),
        },
    )
}

/// Seconds between two updates of the shared skills checkout.
pub const OPEN_SKILLS_SYNC_INTERVAL_SECS: u64 = 604800;

/// Whether the shared skills checkout is due for an update, given the age
/// of its last update mark (`None` where it cannot be told).
pub fn should_sync_open_skills(marker_age_secs: Option<u64>) -> (r: bool)
    ensures
        r == match marker_age_secs {
            Some(age) => age >= OPEN_SKILLS_SYNC_INTERVAL_SECS,
            None => true,
        },
{
    match marker_age_secs {
        Some(age) => age >= OPEN_SKILLS_SYNC_INTERVAL_SECS,
        None => true,
    }
}

} // verus!
