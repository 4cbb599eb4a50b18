//! Errors and the built-in tools' fixed parts: names, descriptions, the
//! argument checks made before anything runs, and how their output is worded.
use vstd::prelude::*;
use crate::sandbox::SandboxConfig;
use crate::text::{contains_seq, contains_str};
use crate::registry::ToolDefinition;

verus! {

/// How a tool fails.
#[derive(Debug)]
pub enum ToolError {
    InvalidArgs(String),
    ExecutionError(String),
}

/// The text that reports a tool error.
pub open spec fn tool_error_text(e: ToolError) -> Seq<char> {
    match e {
        ToolError::InvalidArgs(m) => "Invalid arguments: "@ + m@,
        ToolError::ExecutionError(m) => "Execution error: "@ + m@,
    }
}

impl ToolError {
    /// The text that reports this error.
    pub fn describe(&self) -> (r: String)
        ensures
            r@ == tool_error_text(*self),
    {
        match self {
            ToolError::InvalidArgs(m) => {
                let mut r = String::from_str("Invalid arguments: ");
                r.append(m.as_str());
                r
            },
            ToolError::ExecutionError(m) => {
                let mut r = String::from_str("Execution error: ");
                r.append(m.as_str());
                r
            },
        }
    }
}

/// Runs shell commands in the workspace.
pub struct ExecTool {
    pub workspace: String,
}

impl ExecTool {
    pub fn new(workspace: String) -> (r: ExecTool)
        ensures
            r.workspace@ == workspace@,
    {
        ExecTool { workspace }
    }

    /// What the model is told about this tool.
    pub fn definition(&self) -> (r: ToolDefinition)
        ensures
            r@.name == "exec_cmd"@,
    {
        ToolDefinition::new(
            "exec_cmd",
            "Execute a shell command in the workspace.",
            "{\"type\":\"object\",\"properties\":{\"command\":{\"type\":\"string\",\"description\":\"The shell command to execute.\"}},\"required\":[\"command\"]}",
        )
    }

    /// Refuses a command that holds a parent-directory token.
    pub fn check_command(command: &str) -> (r: Result<(), ToolError>)
        ensures
            r is Err <==> contains_seq(command@, seq!['.', '.']),
            r matches Err(e) ==> (e matches ToolError::ExecutionError(m) && m@
                == "Command contains disallowed '..' sequence"@),
    {
        proof {
            reveal_strlit("..");
        }
        assert(".."@ =~= seq!['.', '.']);
        if contains_str(command, "..") {
            return Err(
                ToolError::ExecutionError(
                    String::from_str("Command contains disallowed '..' sequence"),
                ),
            );
        }
        Ok(())
    }
}

/// How a command's output is reported: a `STDOUT` section and a `STDERR`
/// section for whichever is not empty, or `(no output)`.
pub open spec fn exec_report(stdout: Seq<char>, stderr: Seq<char>) -> Seq<char> {
    let out = if stdout.len() > 0 {
        "STDOUT:\n"@ + stdout + "\n"@
    } else {
        seq![]
    };
    let err = if stderr.len() > 0 {
        "STDERR:\n"@ + stderr + "\n"@
    } else {
        seq![]
    };
    if out.len() + err.len() == 0 {
        "(no output)"@
    } else {
        out + err
    }
}

/// Reports a command's output.
pub fn format_exec_output(stdout: &str, stderr: &str) -> (r: String)
    ensures
        r@ == exec_report(stdout@, stderr@),
{
    let mut result = String::new();
    if stdout.unicode_len() > 0 {
        result.append("STDOUT:\n");
        result.append(stdout);
        result.append("\n");
    }
    if stderr.unicode_len() > 0 {
        result.append("STDERR:\n");
        result.append(stderr);
        result.append("\n");
    }
    if result.as_str().unicode_len() == 0 {
        return String::from_str("(no output)");
    }
    assert(result@ =~= exec_report(stdout@, stderr@));
    result
}

/// Writes files inside the workspace.
pub struct WriteFileTool {
    pub sandbox: SandboxConfig,
}

impl WriteFileTool {
    pub fn new(sandbox: SandboxConfig) -> (r: WriteFileTool)
        ensures
            r.sandbox == sandbox,
    {
        WriteFileTool { sandbox }
    }

    /// What the model is told about this tool.
    pub fn definition(&self) -> (r: ToolDefinition)
        ensures
            r@.name == "write_file"@,
    {
        ToolDefinition::new(
            "write_file",
            "Write content to a file at the specified path (workspace only).",
            "{\"type\":\"object\",\"properties\":{\"path\":{\"type\":\"string\",\"description\":\"The path to the file to write (relative to workspace).\"},\"content\":{\"type\":\"string\",\"description\":\"The content to write to the file.\"}},\"required\":[\"path\",\"content\"]}",
        )
    }

    /// The report of a successful write to `path`.
    pub fn success_text(path: &str) -> (r: String)
        ensures
            r@ == "Successfully wrote to "@ + path@,
    {
        let mut r = String::from_str("Successfully wrote to ");
        r.append(path);
        r
    }
}

/// Reads files inside the workspace.
pub struct ReadFileTool {
    pub sandbox: SandboxConfig,
}

impl ReadFileTool {
    pub fn new(sandbox: SandboxConfig) -> (r: ReadFileTool)
        ensures
            r.sandbox == sandbox,
    {
        ReadFileTool { sandbox }
    }

    /// What the model is told about this tool.
    pub fn definition(&self) -> (r: ToolDefinition)
        ensures
            r@.name == "read_file"@,
    {
        ToolDefinition::new(
            "read_file",
            "Read content from a file at the specified path (workspace only).",
            "{\"type\":\"object\",\"properties\":{\"path\":{\"type\":\"string\",\"description\":\"The path to the file to read (relative to workspace).\"}},\"required\":[\"path\"]}",
        )
    }
}

/// Lists directories inside the workspace.
pub struct ListDirTool {
    pub sandbox: SandboxConfig,
}

/// One line of a directory listing.
pub open spec fn listing_line(name: Seq<char>, is_dir: bool) -> Seq<char> {
    (if is_dir {
        "[DIR] "@
    } else {
        "[FILE] "@
    }) + name + "\n"@
}

/// The lines of a directory listing, in the order given.
pub open spec fn listing_lines(entries: Seq<(Seq<char>, bool)>) -> Seq<char>
    decreases entries.len(),
{
    if entries.len() == 0 {
        seq![]
    } else {
        listing_lines(entries.drop_last()) + listing_line(entries.last().0, entries.last().1)
    }
}

/// A directory listing; `(empty directory)` where there is nothing.
pub open spec fn listing(entries: Seq<(Seq<char>, bool)>) -> Seq<char> {
    if entries.len() == 0 {
        "(empty directory)"@
    } else {
        listing_lines(entries)
    }
}

/// The entries as plain values.
pub open spec fn entries_view(v: Seq<(String, bool)>) -> Seq<(Seq<char>, bool)> {
    v.map_values(|e: (String, bool)| (e.0@, e.1))
}

impl ListDirTool {
    pub fn new(sandbox: SandboxConfig) -> (r: ListDirTool)
        ensures
            r.sandbox == sandbox,
    {
        ListDirTool { sandbox }
    }

    /// What the model is told about this tool.
    pub fn definition(&self) -> (r: ToolDefinition)
        ensures
            r@.name == "list_dir"@,
    {
        ToolDefinition::new(
            "list_dir",
            "List files and directories in a given path (workspace only).",
            "{\"type\":\"object\",\"properties\":{\"path\":{\"type\":\"string\",\"description\":\"The path to the directory to list (relative to workspace).\"}},\"required\":[\"path\"]}",
        )
    }

    /// Reports the entries of a directory, each a name and whether it is a
    /// directory.
    pub fn format_listing(entries: &Vec<(String, bool)>) -> (r: String)
        ensures
            r@ == listing(entries_view(entries@)),
    {
        if entries.len() == 0 {
            return String::from_str("(empty directory)");
        }
        let mut result = String::new();
        let mut i: usize = 0;
        while i < entries.len()
            invariant
                i <= entries@.len(),
                result@ == listing_lines(entries_view(entries@.subrange(0, i as int))),
            decreases entries@.len() - i,
        {
            let ghost next = entries_view(entries@.subrange(0, i as int + 1));
            assert(next.drop_last() =~= entries_view(entries@.subrange(0, i as int)));
            assert(next.last() == (entries@[i as int].0@, entries@[i as int].1));
            if entries[i].1 {
                result.append("[DIR] ");
            } else {
                result.append("[FILE] ");
            }
            result.append(entries[i].0.as_str());
            result.append("\n");
            i = i + 1;
            assert(result@ =~= listing_lines(next));
        }
        assert(entries@.subrange(0, i as int) =~= entries@);
        result
    }
}

} // verus!
