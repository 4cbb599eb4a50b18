use pocketclaw::registry::{AllowedTools, ToolDefinition, ToolRegistry};
use pocketclaw::sandbox::{absolute_path, is_within_root, truncate_output, validate_path, PathProbe, SandboxConfig};
use pocketclaw::tools::{format_exec_output, ExecTool, ListDirTool, ToolError, WriteFileTool};

fn probe(existing_len: usize, canonical: &str, root: &str) -> PathProbe {
    PathProbe {
        existing_len,
        existing_canonical: Ok(canonical.to_string()),
        workspace_canonical: Ok(root.to_string()),
    }
}

#[test]
fn permission_modes() {
    let empty = AllowedTools::Restricted(vec![]);
    let some = AllowedTools::Restricted(vec!["read_file".to_string(), "list_dir".to_string()]);
    for name in ["read_file", "exec_cmd", ""] {
        assert!(ToolRegistry::is_tool_allowed(name, &AllowedTools::Unrestricted));
        assert!(!ToolRegistry::is_tool_allowed(name, &empty));
    }
    assert!(ToolRegistry::is_tool_allowed("read_file", &some));
    assert!(ToolRegistry::is_tool_allowed("list_dir", &some));
    assert!(!ToolRegistry::is_tool_allowed("exec_cmd", &some));
    assert!(!ToolRegistry::is_tool_allowed("read_fil", &some));
}

#[test]
fn definitions_follow_permissions() {
    let mut reg = ToolRegistry::new();
    reg.register(ToolDefinition::new("read_file", "r", "{}"));
    reg.register(ToolDefinition::new("exec_cmd", "e", "{}"));
    reg.register(ToolDefinition::new("read_file", "r2", "{}"));
    let all = reg.list_definitions();
    assert_eq!(all.len(), 2);
    assert_eq!(reg.get("read_file").unwrap().description, "r2");
    assert!(reg.get("missing").is_none());
    let some = AllowedTools::Restricted(vec!["exec_cmd".to_string()]);
    let defs = reg.list_definitions_for_permissions(&some);
    assert_eq!(defs.len(), 1);
    assert_eq!(defs[0].name, "exec_cmd");
    assert!(reg.list_definitions_for_permissions(&AllowedTools::Restricted(vec![])).is_empty());
    assert_eq!(reg.list_definitions_for_permissions(&AllowedTools::Unrestricted).len(), 2);
}

#[test]
fn traversal_is_refused_whatever_the_probe() {
    for (ws, req) in [("/ws", "../etc/passwd"), ("/ws", "a/../../b"), ("/tmp/x", "/etc/..")] {
        assert!(absolute_path(ws, req).is_err());
        let expected = format!("Access denied: path '{}' contains a parent-directory token", req);
        for p in [probe(0, "/ws", "/ws"), probe(3, "/ws/a", "/ws")] {
            match validate_path(ws, req, &p) {
                Err(ToolError::ExecutionError(m)) => assert_eq!(m, expected),
                _ => panic!("expected a refusal"),
            }
        }
    }
    // a token in the workspace's own text is not the request's
    let r = validate_path("/a/../ws", "f", &probe(8, "/ws", "/ws")).unwrap();
    assert_eq!(r, "/ws/f");
}

#[test]
fn inside_paths_resolve_under_the_canonical_root() {
    assert_eq!(absolute_path("/ws", "notes/a.txt").unwrap(), "/ws/notes/a.txt");
    assert_eq!(absolute_path("/ws/", "a.txt").unwrap(), "/ws/a.txt");
    assert_eq!(absolute_path("/ws", "/ws/a.txt").unwrap(), "/ws/a.txt");
    // existing file under a symlinked workspace
    let r = validate_path("/ws", "a.txt", &probe(9, "/real/ws/a.txt", "/real/ws")).unwrap();
    assert_eq!(r, "/real/ws/a.txt");
    // new file in a new directory: nearest existing ancestor is the root
    let r = validate_path("/ws", "new/dir/f.txt", &probe(3, "/real/ws", "/real/ws")).unwrap();
    assert_eq!(r, "/real/ws/new/dir/f.txt");
    assert!(r.starts_with("/real/ws"));
}

#[test]
fn escapes_through_links_are_refused() {
    let r = validate_path("/ws", "link/x", &probe(8, "/etc", "/real/ws"));
    assert!(r.is_err());
    let r = validate_path("/ws", "a", &probe(4, "/real/wsx/a", "/real/ws"));
    assert!(r.is_err());
    match validate_path("/ws", "link/x", &probe(8, "/etc", "/real/ws")) {
        Err(ToolError::ExecutionError(m)) => {
            assert_eq!(m, "Access denied: path 'link/x' is outside workspace '/ws'")
        }
        _ => panic!("expected a refusal"),
    }
    let failing = PathProbe {
        existing_len: 4,
        existing_canonical: Err("permission denied (os error 13)".to_string()),
        workspace_canonical: Ok("/ws".to_string()),
    };
    match validate_path("/ws", "a", &failing) {
        Err(ToolError::ExecutionError(m)) => assert_eq!(m, "Access denied: path 'a' could not be resolved"),
        _ => panic!("expected a refusal"),
    }
    assert!(validate_path("/ws", "a", &probe(99, "/ws/a", "/ws")).is_err());
}

#[test]
fn root_containment_is_by_component() {
    assert!(is_within_root("/ws", "/ws"));
    assert!(is_within_root("/ws/a", "/ws"));
    assert!(is_within_root("/a", "/"));
    assert!(!is_within_root("/wsx", "/ws"));
    assert!(!is_within_root("/w", "/ws"));
}

#[test]
fn truncation_notice_is_exact() {
    assert_eq!(truncate_output("hello", 10), "hello");
    assert_eq!(truncate_output("hello", 5), "hello");
    assert_eq!(truncate_output("hello world", 5), "hello\n\n--- OUTPUT TRUNCATED (5B limit) ---");
    assert_eq!(truncate_output("abc", 0), "\n\n--- OUTPUT TRUNCATED (0B limit) ---");
    // the cut moves back to the start of a two-byte character
    assert_eq!(truncate_output("h\u{e9}llo", 2), "h\n\n--- OUTPUT TRUNCATED (2B limit) ---");
    assert_eq!(truncate_output("h\u{e9}llo", 3), "h\u{e9}\n\n--- OUTPUT TRUNCATED (3B limit) ---");
}

#[test]
fn default_sandbox() {
    let c = SandboxConfig::default();
    assert_eq!(c.workspace_path, "workspace");
    assert_eq!(c.exec_timeout_secs, 30);
    assert_eq!(c.max_output_bytes, 65536);
    assert!(c.exec_enabled);
    assert!(c.network_allowlist.is_empty());
}

#[test]
fn exec_checks_and_output() {
    assert!(ExecTool::check_command("ls -la").is_ok());
    assert!(matches!(ExecTool::check_command("cd .. && ls"), Err(ToolError::ExecutionError(_))));
    assert_eq!(format_exec_output("", ""), "(no output)");
    assert_eq!(format_exec_output("hi", ""), "STDOUT:\nhi\n");
    assert_eq!(format_exec_output("a", "b"), "STDOUT:\na\nSTDERR:\nb\n");
    assert_eq!(ExecTool::new("/ws".to_string()).definition().name, "exec_cmd");
}

#[test]
fn listing_and_write_reports() {
    assert_eq!(ListDirTool::format_listing(&vec![]), "(empty directory)");
    let entries = vec![("src".to_string(), true), ("a.txt".to_string(), false)];
    assert_eq!(ListDirTool::format_listing(&entries), "[DIR] src\n[FILE] a.txt\n");
    assert_eq!(WriteFileTool::success_text("/ws/a"), "Successfully wrote to /ws/a");
    assert_eq!(
        ToolError::InvalidArgs("x".to_string()).describe(),
        "Invalid arguments: x"
    );
}
