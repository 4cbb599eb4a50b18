use pocketclaw::context::{allowed_tools_for, ContextBuilder};
use pocketclaw::registry::AllowedTools;
use pocketclaw::reliable::{ProviderError, ReliableProvider, RetryStep};
use pocketclaw::session::{render_history, summary_request, Session, SessionManager};
use pocketclaw::skills::{
    extract_description, extract_frontmatter, missing_requirements, open_skill, should_sync_open_skills,
    Skill, SkillPermissions, SkillRequirements,
};
use pocketclaw::text::decimal_string;
use pocketclaw::types::{Message, Role};

fn msg(role: Role, text: &str) -> Message {
    Message::new("cli", "k", role, text)
}

#[test]
fn appends_grow_history_by_their_number() {
    let mut s = SessionManager::new();
    s.add_message("a", msg(Role::User, "0"));
    let before = s.get_history("a").len();
    for i in 0..5 {
        s.add_message("a", msg(Role::User, &i.to_string()));
    }
    s.add_message("b", msg(Role::User, "other"));
    let h = s.get_history("a");
    assert_eq!(h.len(), before + 5);
    assert_eq!(h[5].content, "4");
    assert_eq!(s.get_history("b").len(), 1);
    assert!(s.get_history("none").is_empty());
}

#[test]
fn trim_keeps_newest() {
    let mut s = SessionManager::new();
    for i in 0..15 {
        s.add_message("a", msg(Role::User, &i.to_string()));
    }
    s.auto_trim_history("a", 10);
    let h = s.get_history("a");
    assert_eq!(h.len(), 10);
    assert_eq!(h[0].content, "5");
    assert_eq!(h[9].content, "14");
    s.auto_trim_history("a", 20);
    assert_eq!(s.get_history("a").len(), 10);
    s.auto_trim_history("a", 0);
    assert!(s.get_history("a").is_empty());
}

#[test]
fn summary_is_stored_and_history_trimmed() {
    let mut s = SessionManager::new();
    for i in 0..25 {
        s.add_message("a", msg(Role::User, &i.to_string()));
    }
    assert!(s.should_summarize("a"));
    assert_eq!(s.summarized_at("a"), None);
    s.apply_summary("a", "short".to_string(), 1234);
    assert_eq!(s.get_summary("a"), Some("short".to_string()));
    assert_eq!(s.summarized_at("a"), Some(1234));
    assert_eq!(s.get_history("a").len(), 10);
    assert!(!s.should_summarize("a"));
    assert_eq!(s.get_summary("zzz"), None);
}

#[test]
fn loaded_sessions_do_not_overwrite() {
    let mut s = SessionManager::new();
    assert!(!s.contains("a"));
    let mut loaded = Session::empty();
    loaded.summary = Some("old".to_string());
    s.insert_loaded("a", loaded);
    assert!(s.contains("a"));
    s.insert_loaded("a", Session::empty());
    assert_eq!(s.get_summary("a"), Some("old".to_string()));
}

#[test]
fn summary_request_text() {
    let h = vec![msg(Role::User, "hi"), msg(Role::Assistant, "hello")];
    assert_eq!(render_history(&h), "User: hi\nAssistant: hello");
    let r = summary_request("k", &h);
    assert_eq!(r.len(), 2);
    assert_eq!(r[0].role, Role::System);
    assert_eq!(
        r[1].content,
        "Summarize the following conversation into a concise paragraph:\n\nUser: hi\nAssistant: hello"
    );
}

#[test]
fn retry_schedule_doubles_to_the_cap() {
    let p = ReliableProvider::new(5, 250);
    let transient = ProviderError::ApiError("HTTP 429 Too Many Requests".to_string());
    let mut backoff = p.base_backoff_ms;
    let mut waits = vec![];
    let mut attempts = 1;
    // a stub that fails transiently 4 times, then succeeds
    for attempt in 0..4u32 {
        match p.after_failure(attempt, backoff, &transient) {
            RetryStep::Retry { delay_ms, next_backoff_ms } => {
                waits.push(delay_ms);
                backoff = next_backoff_ms;
                attempts += 1;
            }
            RetryStep::GiveUp => panic!("gave up early"),
        }
    }
    assert_eq!(attempts, 5);
    assert_eq!(waits, vec![250, 500, 1000, 2000]);
    assert_eq!(backoff, 2000);
    assert!(matches!(p.after_failure(5, backoff, &transient), RetryStep::GiveUp));
    assert_eq!(ReliableProvider::new(2, 10).base_backoff_ms, 100);
    let slow = ReliableProvider::new(3, 5000);
    match slow.after_failure(0, slow.base_backoff_ms, &transient) {
        RetryStep::Retry { delay_ms, next_backoff_ms } => {
            assert_eq!(delay_ms, 2000);
            assert_eq!(next_backoff_ms, 2000);
        }
        RetryStep::GiveUp => panic!("gave up early"),
    }
}

#[test]
fn retry_classification() {
    assert!(ReliableProvider::is_retryable(&ProviderError::NetworkError("x".to_string())));
    assert!(!ReliableProvider::is_retryable(&ProviderError::ConfigError("x".to_string())));
    for m in ["Rate Limit hit", "Gateway TIMEOUT", "temporarily down", "503", "Service Unavailable"] {
        assert!(ReliableProvider::is_retryable(&ProviderError::ApiError(m.to_string())), "{}", m);
    }
    assert!(!ReliableProvider::is_retryable(&ProviderError::ApiError("invalid key".to_string())));
    let p = ReliableProvider::new(3, 100);
    let fatal = ProviderError::ApiError("bad request".to_string());
    assert!(matches!(p.after_failure(0, 100, &fatal), RetryStep::GiveUp));
}

fn skill(name: &str, always: bool, available: bool, tools: Option<Vec<&str>>) -> Skill {
    Skill {
        name: name.to_string(),
        description: String::new(),
        content: format!("body of {}", name),
        requirements: None,
        permissions: tools.map(|t| SkillPermissions {
            tools: t.iter().map(|s| s.to_string()).collect(),
            fs_scope: "workspace".to_string(),
            network_domains: vec![],
            max_exec_timeout: None,
        }),
        always,
        available,
        missing_requirements: vec![],
        version: None,
        location: None,
    }
}

#[test]
fn prompt_layout_and_window() {
    let builder = ContextBuilder::new("/ws".to_string());
    let history: Vec<Message> = (0..25).map(|i| msg(Role::User, &i.to_string())).collect();
    let skills = vec![skill("a", true, true, None), skill("b", true, false, None), skill("c", false, true, None)];
    let r = builder.build("SYS", &history, Some("sum"), &skills, "now");
    let contents: Vec<&str> = r.iter().map(|m| m.content.as_str()).collect();
    assert_eq!(contents[0], "SYS");
    assert_eq!(contents[1], "Previous conversation summary: sum");
    assert_eq!(contents[2], "Skill: a\nbody of a");
    assert_eq!(contents[3], "[5 older messages omitted \u{2014} see summary above for context]");
    assert_eq!(contents[4], "5");
    assert_eq!(r.len(), 4 + 20 + 1);
    assert_eq!(r[24].content, "now");
    assert_eq!(r[24].role, Role::User);
    assert_eq!(r[4].id, history[5].id);
    let first_two: Vec<Message> = history[..2].iter().map(|m| m.duplicate()).collect();
    let short = builder.build("SYS", &first_two, None, &vec![], "q");
    assert_eq!(short.len(), 4);
}

#[test]
fn system_prompt_with_files() {
    let files = vec![("USER.md".to_string(), "be nice".to_string())];
    let p = ContextBuilder::build_system_prompt(&files);
    assert!(p.starts_with("You are PocketClaw, an intelligent AI assistant.\n"));
    assert!(p.ends_with("\n--- USER.md ---\nbe nice\n"));
}

#[test]
fn allowed_tools_from_skills() {
    let skills = vec![
        skill("a", false, true, Some(vec!["read_file"])),
        skill("b", false, false, Some(vec!["exec_cmd"])),
        skill("c", false, true, None),
    ];
    match allowed_tools_for(&skills) {
        AllowedTools::Restricted(list) => assert_eq!(list, vec!["read_file".to_string()]),
        AllowedTools::Unrestricted => panic!("expected a list"),
    }
    match allowed_tools_for(&vec![]) {
        AllowedTools::Restricted(list) => assert!(list.is_empty()),
        AllowedTools::Unrestricted => panic!("expected a list"),
    }
}

#[test]
fn frontmatter_split() {
    let (f, b) = extract_frontmatter("---\n{\"name\":\"x\"}\n---\nbody\n");
    assert_eq!(f, "{\"name\":\"x\"}");
    assert_eq!(b, "body\n");
    let (f, b) = extract_frontmatter("no front\n");
    assert_eq!(f, "{}");
    assert_eq!(b, "no front\n");
    let (f, b) = extract_frontmatter("---\na\n---\nb\n---\nc");
    assert_eq!(f, "a");
    assert_eq!(b, "b\n---\nc");
}

#[test]
fn descriptions() {
    assert_eq!(extract_description("# Title\n\n  Does things.  \nmore"), "Does things.");
    assert_eq!(extract_description("# Only\n   \n"), "No description");
    assert_eq!(extract_description(""), "No description");
    assert_eq!(extract_description("line\r\nnext"), "line");
}

#[test]
fn open_skills_files() {
    let s = open_skill("weather.MD", "# W\nForecasts.".to_string(), "/h/weather.MD".to_string()).unwrap();
    assert_eq!(s.name, "weather");
    assert_eq!(s.description, "Forecasts.");
    assert_eq!(s.version, Some("open-skills".to_string()));
    assert!(open_skill("readme.md", String::new(), String::new()).is_none());
    assert!(open_skill("notes.txt", String::new(), String::new()).is_none());
    assert!(open_skill(".md", String::new(), String::new()).is_none());
}

#[test]
fn requirements_and_sync() {
    let req = Some(SkillRequirements {
        bins: vec!["git".to_string(), "jq".to_string()],
        env: vec!["TOKEN".to_string()],
    });
    let missing = missing_requirements(&req, &vec![true, false], &vec![false]);
    assert_eq!(missing, vec!["CLI: jq".to_string(), "ENV: TOKEN".to_string()]);
    assert!(missing_requirements(&None, &vec![], &vec![]).is_empty());
    assert!(should_sync_open_skills(None));
    assert!(should_sync_open_skills(Some(604800)));
    assert!(!should_sync_open_skills(Some(60)));
}

#[test]
fn decimal_rendering() {
    assert_eq!(decimal_string(0), "0");
    assert_eq!(decimal_string(65536), "65536");
    assert_eq!(decimal_string(u64::MAX), u64::MAX.to_string());
}
