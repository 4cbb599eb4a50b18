use pocketclaw::persona::{
    extract_existing_quoted_value, extract_named_value, extract_persona_preference, persona_profile,
    replace_persona_block, sanitize_name, squeeze_whitespace, PersonaPreference,
};

#[test]
fn squeezes_white_space() {
    assert_eq!(squeeze_whitespace("  a \t b\n\nc  "), "a b c");
    assert_eq!(squeeze_whitespace("   "), "");
}

#[test]
fn names_are_cleaned() {
    assert_eq!(sanitize_name("  \"Bob\" "), Some("Bob".to_string()));
    assert_eq!(sanitize_name(" := Ana   Maria"), Some("Ana Maria".to_string()));
    assert_eq!(sanitize_name(" '' "), None);
    assert_eq!(sanitize_name(&"x".repeat(81)), None);
    assert_eq!(sanitize_name(&"x".repeat(80)), Some("x".repeat(80)));
}

#[test]
fn named_value_stops_at_the_nearest_stop() {
    let original = "Please call me Sam, thanks";
    let lower = original.to_lowercase();
    let markers = vec!["call me"];
    let stops = vec![".", ","];
    assert_eq!(
        extract_named_value(original, &lower, &markers, &stops),
        Some("Sam".to_string())
    );
    assert_eq!(extract_named_value(original, &lower, &vec!["name is"], &stops), None);
}

#[test]
fn preferences_in_two_languages() {
    let p = extract_persona_preference("Call me Minh and your name is Claw.").unwrap();
    assert_eq!(p.user_name, Some("Minh".to_string()));
    assert_eq!(p.assistant_name, Some("Claw".to_string()));
    let p = extract_persona_preference("hãy gọi tôi là Lan nhé").unwrap();
    assert_eq!(p.user_name, Some("Lan nhé".to_string()));
    assert!(extract_persona_preference("what is the weather").is_none());
    assert!(extract_persona_preference("   ").is_none());
}

#[test]
fn quoted_values_in_a_profile() {
    let profile = "# Me\n  - Address the user as \"Sam\".\n- Maintain tone: \"calm\".\n";
    assert_eq!(
        extract_existing_quoted_value(profile, "- Address the user as"),
        Some("Sam".to_string())
    );
    assert_eq!(extract_existing_quoted_value(profile, "- Maintain tone"), Some("calm".to_string()));
    assert_eq!(extract_existing_quoted_value(profile, "- Refer to yourself as"), None);
    assert_eq!(extract_existing_quoted_value("- Maintain tone: none\n- Maintain tone \"x\"", "- Maintain tone"), None);
}

#[test]
fn block_replacement() {
    let block = "B";
    let wrapped = "<!-- phoneclaw:persona:start -->\nB\n<!-- phoneclaw:persona:end -->";
    assert_eq!(replace_persona_block("", block), wrapped);
    assert_eq!(replace_persona_block("intro\n\n", block), format!("intro\n\n{}", wrapped));
    let existing = "top\n<!-- phoneclaw:persona:start -->\nold\n<!-- phoneclaw:persona:end -->\n\nbottom";
    assert_eq!(replace_persona_block(existing, block), format!("top\n\n{}\n\nbottom", wrapped));
}

#[test]
fn profile_keeps_recorded_values() {
    let existing = "- Refer to yourself as \"Claw\".\n- Maintain tone: \"dry\".";
    let pref = PersonaPreference { assistant_name: None, user_name: Some("Sam".to_string()) };
    let out = persona_profile(existing, pref);
    assert!(out.ends_with("<!-- phoneclaw:persona:end -->\n"));
    assert!(out.contains("- Refer to yourself as \"Claw\".\n- Address the user as \"Sam\".\n- Maintain tone: \"dry\"."));
    let fresh = persona_profile("", PersonaPreference { assistant_name: None, user_name: None });
    assert!(fresh.contains("\"PhoneClawbot\"") && fresh.contains("\"friend\"") && fresh.contains("\"friendly, concise\""));
}
