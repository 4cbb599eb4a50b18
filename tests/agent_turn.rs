use pocketclaw::agent::{Phase, Step, Turn, TurnAction, MAX_ITERATIONS};
use pocketclaw::registry::{AllowedTools, ToolDefinition, ToolRegistry};
use pocketclaw::session::SessionManager;
use pocketclaw::tools::ToolError;
use pocketclaw::types::{GenerationResponse, Message, Role, ToolCall, Usage};

fn registry_with(names: &[&str]) -> ToolRegistry {
    let mut reg = ToolRegistry::new();
    for n in names {
        reg.register(ToolDefinition::new(n, "a tool", "{}"));
    }
    reg
}

fn reply(content: &str, calls: Vec<ToolCall>) -> GenerationResponse {
    GenerationResponse { content: content.to_string(), tool_calls: calls, usage: None }
}

fn call(id: &str, name: &str, args: &str) -> ToolCall {
    ToolCall { id: id.to_string(), name: name.to_string(), arguments: args.to_string() }
}

fn context() -> Vec<Message> {
    vec![Message::new("cli", "current", Role::User, "hello")]
}

fn kinds(step: &Step) -> Vec<String> {
    step.audits.iter().map(|a| a.kind.clone()).collect()
}

#[test]
fn final_answer_without_tool_calls() {
    let reg = registry_with(&["read_file"]);
    let mut sessions = SessionManager::new();
    let inbound = Message::new("cli", "s1", Role::User, "hi");
    sessions.add_message("s1", inbound);
    let mut turn = Turn::new("s1", "m", AllowedTools::Unrestricted, context());
    assert_eq!(turn.phase(), Phase::AwaitingModel);
    let step = turn.on_model_reply(reply("hello there", vec![]), &reg);
    assert!(!kinds(&step).iter().any(|k| k == "tool_execution"));
    match step.action {
        TurnAction::Finish { reply } => {
            assert_eq!(reply.content, "hello there");
            assert_eq!(reply.role, Role::Assistant);
            sessions.add_message("s1", reply);
        }
        _ => panic!("expected a final answer"),
    }
    assert_eq!(turn.phase(), Phase::Done);
    assert_eq!(sessions.get_history("s1").len(), 2);
}

#[test]
fn unauthorized_tool_is_refused_and_model_called_again() {
    let reg = registry_with(&["read_file", "delete_everything"]);
    let allowed = AllowedTools::Restricted(vec!["read_file".to_string()]);
    let mut turn = Turn::new("s1", "m", allowed, context());
    let step = turn.on_model_reply(
        reply("", vec![call("c1", "delete_everything", "{}")]),
        &reg,
    );
    assert_eq!(kinds(&step), vec!["security_violation".to_string()]);
    assert_eq!(step.audits[0].session_key, "s1");
    assert_eq!(
        step.audits[0].fields,
        vec![
            ("type".to_string(), "tool_blocked".to_string()),
            ("tool".to_string(), "delete_everything".to_string()),
            ("reason".to_string(), "default_deny".to_string()),
        ]
    );
    assert!(step.metrics.is_empty());
    assert!(matches!(step.action, TurnAction::CallModel));
    assert_eq!(turn.iteration(), 2);
    let last = turn.messages().last().unwrap();
    assert_eq!(last.role, Role::Tool);
    assert_eq!(
        last.content,
        "Error: Tool 'delete_everything' is not authorized by any active skill."
    );
}

#[test]
fn bad_arguments_give_one_message_and_the_batch_goes_on() {
    let reg = registry_with(&["read_file", "list_dir"]);
    let mut turn = Turn::new("s1", "m", AllowedTools::Unrestricted, context());
    let before = turn.messages().len();
    let step = turn.on_model_reply(
        reply("", vec![call("c1", "read_file", "{not json"), call("c2", "list_dir", "{\"path\":\".\"}")]),
        &reg,
    );
    // assistant message + one parse-error message, then the second call runs
    assert_eq!(turn.messages().len(), before + 2);
    let err = &turn.messages()[before + 1];
    assert_eq!(err.role, Role::Tool);
    assert!(err.content.starts_with("Error parsing arguments: "));
    assert_eq!(err.metadata, vec![("tool_call_id".to_string(), "c1".to_string())]);
    assert_eq!(kinds(&step), vec!["tool_execution".to_string()]);
    assert_eq!(step.metrics.len(), 1);
    assert!(!step.metrics[0].success);
    match step.action {
        TurnAction::RunTool { call_id, name, .. } => {
            assert_eq!(call_id, "c2");
            assert_eq!(name, "list_dir");
        }
        _ => panic!("expected the second call to run"),
    }
    assert_eq!(turn.phase(), Phase::AwaitingTool);
    let step = turn.on_tool_finished(Ok("[FILE] a\n".to_string()), 7, &reg);
    assert!(matches!(step.action, TurnAction::CallModel));
    assert!(step.metrics[0].success);
    let out = turn.messages().last().unwrap();
    assert_eq!(out.content, "[FILE] a\n");
    assert_eq!(out.metadata, vec![("tool_call_id".to_string(), "c2".to_string())]);
}

#[test]
fn unknown_tool_is_reported_not_found() {
    let reg = registry_with(&["read_file"]);
    let mut turn = Turn::new("s1", "m", AllowedTools::Unrestricted, context());
    let step = turn.on_model_reply(reply("", vec![call("c1", "nope", "{}")]), &reg);
    assert!(matches!(step.action, TurnAction::CallModel));
    assert_eq!(turn.messages().last().unwrap().content, "Tool not found: nope");
    assert!(!step.metrics[0].success);
}

#[test]
fn tool_error_is_folded_into_the_conversation() {
    let reg = registry_with(&["exec_cmd"]);
    let mut turn = Turn::new("s1", "m", AllowedTools::Unrestricted, context());
    let step = turn.on_model_reply(reply("", vec![call("c1", "exec_cmd", "{\"command\":\"ls\"}")]), &reg);
    assert!(matches!(step.action, TurnAction::RunTool { .. }));
    let step = turn.on_tool_finished(Err(ToolError::ExecutionError("boom".to_string())), 3, &reg);
    assert_eq!(
        turn.messages().last().unwrap().content,
        "Error executing tool: Execution error: boom"
    );
    assert!(!step.metrics[0].success);
    assert!(matches!(step.action, TurnAction::CallModel));
}

#[test]
fn step_limit_ends_the_turn_with_one_notice() {
    let reg = registry_with(&["read_file"]);
    let mut turn = Turn::new("s1", "m", AllowedTools::Unrestricted, context());
    let mut model_calls = 1;
    let mut notices = 0;
    loop {
        let step = turn.on_model_reply(reply("", vec![call("c", "nope", "{}")]), &reg);
        match step.action {
            TurnAction::CallModel => model_calls += 1,
            TurnAction::Fail { notice } => {
                notices += 1;
                assert_eq!(
                    notice.content,
                    "\u{26a0}\u{fe0f} I reached the maximum number of processing steps (10). My last response may be incomplete. Please try rephrasing your request."
                );
                break;
            }
            _ => panic!("unexpected action"),
        }
    }
    assert_eq!(model_calls, MAX_ITERATIONS);
    assert_eq!(notices, 1);
    assert_eq!(turn.phase(), Phase::Done);
}

#[test]
fn provider_failures_are_retried_then_reported() {
    let mut turn = Turn::new("s1", "m", AllowedTools::Unrestricted, context());
    let step = turn.on_model_failure("net down");
    assert!(matches!(step.action, TurnAction::Wait { delay_ms: 1000 }));
    assert!(matches!(turn.on_retry_ready(), TurnAction::CallModel));
    let step = turn.on_model_failure("net down");
    assert!(matches!(step.action, TurnAction::Wait { delay_ms: 2000 }));
    assert!(matches!(turn.on_retry_ready(), TurnAction::CallModel));
    let step = turn.on_model_failure("net down");
    match step.action {
        TurnAction::Fail { notice } => assert_eq!(
            notice.content,
            "\u{26a0}\u{fe0f} I encountered an error communicating with the AI provider: net down"
        ),
        _ => panic!("expected failure"),
    }
    assert_eq!(turn.phase(), Phase::Done);
}

#[test]
fn usage_is_audited_and_tool_calls_recorded() {
    let reg = registry_with(&["read_file"]);
    let mut turn = Turn::new("s1", "gpt", AllowedTools::Unrestricted, context());
    let resp = GenerationResponse {
        content: "thinking".to_string(),
        tool_calls: vec![call("c1", "read_file", "{\"path\":\"a\"}")],
        usage: Some(Usage { input_tokens: 12, output_tokens: 5 }),
    };
    let step = turn.on_model_reply(resp, &reg);
    assert_eq!(step.audits[0].kind, "llm_completion");
    assert_eq!(
        step.audits[0].fields,
        vec![
            ("model".to_string(), "gpt".to_string()),
            ("input_tokens".to_string(), "12".to_string()),
            ("output_tokens".to_string(), "5".to_string()),
            ("iteration".to_string(), "1".to_string()),
        ]
    );
    let assistant = &turn.messages()[1];
    assert_eq!(assistant.content, "thinking");
    assert_eq!(
        assistant.metadata,
        vec![(
            "tool_calls_json".to_string(),
            "[{\"function\":{\"arguments\":\"{\\\"path\\\":\\\"a\\\"}\",\"name\":\"read_file\"},\"id\":\"c1\",\"type\":\"function\"}]".to_string()
        )]
    );
}
