//! The filesystem boundary: every path a tool touches is resolved against the
//! workspace root and refused when it could leave it.
//!
//! Paths are `/`-separated strings. The filesystem itself is only consulted by
//! the caller, which reports what it found in a [`PathProbe`].
use vstd::prelude::*;
use crate::text::{contains_seq, contains_str, decimal, decimal_string, has_prefix, occurs_at, starts_with_str};
use crate::tools::ToolError;
use vstd::string::StringSliceAdditionalSpecFns;

verus! {

broadcast use vstd::utf8::encode_utf8_decode_utf8;

/// Sandbox settings shared by all tools, read-only once built.
pub struct SandboxConfig {
    /// All file operations are confined to this directory.
    pub workspace_path: String,
    /// Maximum execution time for shell commands, in seconds.
    pub exec_timeout_secs: u64,
    /// Maximum size of a tool's output, in bytes.
    pub max_output_bytes: usize,
    /// Whether shell commands may run at all.
    pub exec_enabled: bool,
    /// Domains that web tools may reach; empty allows every domain.
    pub network_allowlist: Vec<String>,
}

pub const DEFAULT_EXEC_TIMEOUT_SECS: u64 = 30;

pub const DEFAULT_MAX_OUTPUT_BYTES: usize = 65536;

impl Default for SandboxConfig {
    fn default() -> (r: SandboxConfig)
        ensures
            r.workspace_path@ == "workspace"@,
            r.exec_timeout_secs == DEFAULT_EXEC_TIMEOUT_SECS,
            r.max_output_bytes == DEFAULT_MAX_OUTPUT_BYTES,
            r.exec_enabled,
            r.network_allowlist@.len() == 0,
    {
        SandboxConfig {
            workspace_path: String::from_str("workspace"),
            exec_timeout_secs: DEFAULT_EXEC_TIMEOUT_SECS,
            max_output_bytes: DEFAULT_MAX_OUTPUT_BYTES,
            exec_enabled: true,
            network_allowlist: Vec::new(),
        }
    }
}

/// The token whose presence in a path is refused outright.
pub open spec fn traversal_token() -> Seq<char> {
    seq!['.', '.']
}

/// The path text contains a parent-directory token.
pub open spec fn has_traversal(p: Seq<char>) -> bool {
    contains_seq(p, traversal_token())
}

/// `requested` read against `workspace`: absolute requests stand as they are,
/// relative ones are appended below the workspace with one separator.
pub open spec fn joined_path(workspace: Seq<char>, requested: Seq<char>) -> Seq<char> {
    if requested.len() > 0 && requested[0] == '/' {
        requested
    } else if workspace.len() == 0 {
        requested
    } else if workspace.last() == '/' {
        workspace + requested
    } else {
        workspace.push('/') + requested
    }
}

/// `p` is `root` or lies below it, comparing whole path components.
pub open spec fn within_root(p: Seq<char>, root: Seq<char>) -> bool {
    &&& has_prefix(p, root)
    &&& (p.len() == root.len() || (root.len() > 0 && root.last() == '/') || p[root.len() as int]
        == '/')
}

/// The canonical form of the nearest existing ancestor, followed by the part
/// of the path below it that does not exist yet.
pub open spec fn resolved_path(anchor: Seq<char>, absolute: Seq<char>, existing_len: int) -> Seq<
    char,
> {
    anchor + absolute.subrange(existing_len, absolute.len() as int)
}

/// What the filesystem says about an absolute path.
pub struct PathProbe {
    /// Length in characters of the leading part of the path that names its
    /// nearest existing ancestor: the whole path when it exists.
    pub existing_len: usize,
    /// That ancestor canonicalized (symlinks followed), or why that failed.
    pub existing_canonical: Result<String, String>,
    /// The workspace root canonicalized, or why that failed.
    pub workspace_canonical: Result<String, String>,
}

/// Whether `path` lies within `root`, component by component.
pub fn is_within_root(path: &str, root: &str) -> (r: bool)
    ensures
        r == within_root(path@, root@),
{
    if !starts_with_str(path, root) {
        return false;
    }
    let plen = path.unicode_len();
    let rlen = root.unicode_len();
    plen == rlen || (rlen > 0 && root.get_char(rlen - 1) == '/') || path.get_char(rlen) == '/'
}

/// The refusal of a request whose text holds a parent-directory token.
pub open spec fn traversal_denial(requested: Seq<char>) -> Seq<char> {
    "Access denied: path '"@ + requested + "' contains a parent-directory token"@
}

/// The refusal of a request whose path could not be resolved on disk.
pub open spec fn unresolved_denial(requested: Seq<char>) -> Seq<char> {
    "Access denied: path '"@ + requested + "' could not be resolved"@
}

/// The refusal of a request that resolves outside the workspace.
pub open spec fn outside_denial(requested: Seq<char>, workspace: Seq<char>) -> Seq<char> {
    "Access denied: path '"@ + requested + "' is outside workspace '"@ + workspace + "'"@
}

fn denial(head: &str, requested: &str, tail: &str) -> (r: ToolError)
    ensures
        r matches ToolError::ExecutionError(m) && m@ == head@ + requested@ + tail@,
{
    let mut m = String::from_str(head);
    m.append(requested);
    m.append(tail);
    ToolError::ExecutionError(m)
}

/// Reads `requested` against `workspace`, refusing it outright when its own
/// text holds a parent-directory token. Nothing on disk is consulted.
pub fn absolute_path(workspace: &str, requested: &str) -> (r: Result<String, ToolError>)
    ensures
        match r {
            Ok(p) => !has_traversal(requested@) && p@ == joined_path(workspace@, requested@),
            Err(e) => has_traversal(requested@) && (e matches ToolError::ExecutionError(m) && m@
                == traversal_denial(requested@)),
        },
{
    proof {
        reveal_strlit("..");
    }
    assert(".."@ =~= traversal_token());
    if contains_str(requested, "..") {
        return Err(denial("Access denied: path '", requested, "' contains a parent-directory token"));
    }
    let req_len = requested.unicode_len();
    let ws_len = workspace.unicode_len();
    let absolute = if req_len > 0 && requested.get_char(0) == '/' {
        String::from_str(requested)
    } else if ws_len == 0 {
        String::from_str(requested)
    } else {
        let mut p = String::from_str(workspace);
        if workspace.get_char(ws_len - 1) != '/' {
            crate::text::push_char(&mut p, '/');
        }
        p.append(requested);
        p
    };
    assert(absolute@ =~= joined_path(workspace@, requested@));
    Ok(absolute)
}

/// Validates `requested` against the workspace root, given what the
/// filesystem reported about the path and the root.
///
/// A request with a parent-directory token is refused, with the same error
/// whatever the probe says. Otherwise the canonical nearest existing
/// ancestor must lie within the canonical root, and so must that ancestor
/// with the missing segments re-appended, which is the result. Every refusal
/// is an access denial naming the request.
pub fn validate_path(workspace: &str, requested: &str, probe: &PathProbe) -> (r: Result<
    String,
    ToolError,
>)
    ensures
        has_traversal(requested@) ==> (r matches Err(ToolError::ExecutionError(m)) && m@
            == traversal_denial(requested@)),
        r is Ok <==> {
            &&& !has_traversal(requested@)
            &&& probe.existing_len <= joined_path(workspace@, requested@).len()
            &&& probe.existing_canonical is Ok
            &&& probe.workspace_canonical is Ok
            &&& within_root(probe.existing_canonical->Ok_0@, probe.workspace_canonical->Ok_0@)
            &&& within_root(
                resolved_path(
                    probe.existing_canonical->Ok_0@,
                    joined_path(workspace@, requested@),
                    probe.existing_len as int,
                ),
                probe.workspace_canonical->Ok_0@,
            )
        },
        r is Ok ==> {
            &&& r->Ok_0@ == resolved_path(
                probe.existing_canonical->Ok_0@,
                joined_path(workspace@, requested@),
                probe.existing_len as int,
            )
            &&& within_root(r->Ok_0@, probe.workspace_canonical->Ok_0@)
        },
        (!has_traversal(requested@) && (probe.existing_len > joined_path(workspace@, requested@).len()
            || probe.existing_canonical is Err || probe.workspace_canonical is Err)) ==> (r matches Err(
            ToolError::ExecutionError(m),
        ) && m@ == unresolved_denial(requested@)),
        (r is Err && !has_traversal(requested@) && probe.existing_len <= joined_path(
            workspace@,
            requested@,
        ).len() && probe.existing_canonical is Ok && probe.workspace_canonical is Ok) ==> (r matches Err(
            ToolError::ExecutionError(m),
        ) && m@ == outside_denial(requested@, workspace@)),
{
    let absolute = match absolute_path(workspace, requested) {
        Ok(p) => p,
        Err(e) => return Err(e),
    };
    let abs_len = absolute.unicode_len();
    if probe.existing_len > abs_len {
        return Err(denial("Access denied: path '", requested, "' could not be resolved"));
    }
    let anchor = match &probe.existing_canonical {
        Ok(c) => c,
        Err(_) => return Err(denial("Access denied: path '", requested, "' could not be resolved")),
    };
    let root = match &probe.workspace_canonical {
        Ok(c) => c,
        Err(_) => return Err(denial("Access denied: path '", requested, "' could not be resolved")),
    };
    let mut resolved = anchor.clone();
    resolved.append(absolute.as_str().substring_char(probe.existing_len, abs_len));
    if !is_within_root(anchor.as_str(), root.as_str()) || !is_within_root(
        resolved.as_str(),
        root.as_str(),
    ) {
        let mut m = String::from_str("Access denied: path '");
        m.append(requested);
        m.append("' is outside workspace '");
        m.append(workspace);
        m.append("'");
        return Err(ToolError::ExecutionError(m));
    }
    Ok(resolved)
}

/// A relative request without parent-directory tokens whose target does not
/// exist yet, with the workspace as its nearest existing ancestor, resolves
/// to the canonical root followed by the request, which lies within the
/// canonical root: `validate_path` accepts it and returns that path.
pub proof fn lemma_new_path_stays_inside(workspace: Seq<char>, requested: Seq<char>, root: Seq<char>)
    requires
        workspace.len() > 0,
        workspace.last() != '/',
        requested.len() > 0,
        requested[0] != '/',
    ensures
        resolved_path(root, joined_path(workspace, requested), workspace.len() as int) == root.push(
            '/',
        ) + requested,
        within_root(root.push('/') + requested, root),
        within_root(root, root),
{
    assert(root.subrange(0, root.len() as int) =~= root);
    let j = joined_path(workspace, requested);
    assert(j == workspace.push('/') + requested);
    assert(j.subrange(workspace.len() as int, j.len() as int) =~= seq!['/'] + requested);
    assert(root + (seq!['/'] + requested) =~= root.push('/') + requested);
    let p = root.push('/') + requested;
    assert(p.subrange(0, root.len() as int) =~= root);
    assert(p[root.len() as int] == '/');
}

/// The notice appended to output cut at `max_bytes`.
pub open spec fn truncation_notice(max_bytes: nat) -> Seq<char> {
    "\n\n--- OUTPUT TRUNCATED ("@ + decimal(max_bytes) + "B limit) ---"@
}

/// The largest character boundary of `bytes` at or below `max`.
pub open spec fn cut_point(bytes: Seq<u8>, max: int) -> int
    decreases max,
{
    if max <= 0 || vstd::utf8::is_char_boundary(bytes, max) {
        max
    } else {
        cut_point(bytes, max - 1)
    }
}

/// Caps `output` at `max_bytes` bytes, marking the cut with a visible notice.
/// A cut that would fall inside a character moves back to its start.
pub fn truncate_output(output: &str, max_bytes: usize) -> (r: String)
    requires
        output.spec_bytes().len() <= usize::MAX,
    ensures
        output.spec_bytes().len() <= max_bytes ==> r@ == output@,
        output.spec_bytes().len() > max_bytes ==> r@ == vstd::utf8::decode_utf8(
            output.spec_bytes().subrange(0, cut_point(output.spec_bytes(), max_bytes as int)),
        ) + truncation_notice(max_bytes as nat),
{
    if output.len() <= max_bytes {
        String::from_str(output)
    } else {
        let mut cut = max_bytes;
        while cut > 0 && !output.is_char_boundary(cut)
            invariant
                cut <= max_bytes,
                cut_point(output.spec_bytes(), cut as int) == cut_point(
                    output.spec_bytes(),
                    max_bytes as int,
                ),
            decreases cut,
        {
            cut = cut - 1;
        }
        proof {
            vstd::utf8::encode_utf8_valid_utf8(output@);
            vstd::utf8::is_char_boundary_start_end_of_seq(output.spec_bytes());
        }
        assert(cut_point(output.spec_bytes(), cut as int) == cut as int);
        let (head, _tail) = output.split_at(cut);
        let mut r = String::from_str(head);
        r.append("\n\n--- OUTPUT TRUNCATED (");
        let digits = decimal_string(max_bytes as u64);
        r.append(digits.as_str());
        r.append("B limit) ---");
        proof {
            vstd::utf8::encode_utf8_decode_utf8(head@);
            assert(head.spec_bytes() =~= output.spec_bytes().subrange(0, cut as int));
            assert(head.spec_bytes() == vstd::utf8::encode_utf8(head@));
            assert(vstd::utf8::decode_utf8(output.spec_bytes().subrange(0, cut as int)) == head@);
            assert(r@ =~= head@ + truncation_notice(max_bytes as nat));
        }
        r
    }
}

} // verus!
