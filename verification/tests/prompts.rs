use cosmonaut_code::provider::api::{ProviderCompletionMessage, ProviderMessageRole};
use cosmonaut_code::provider::prompts::{
    apply_placeholder_captures, create_content, prompt_from_template, substitute_tokens, substitute_tokens_in_text, PromptData,
    TokenError, LANGUAGE,
};

fn message(role: ProviderMessageRole, content: &str) -> ProviderCompletionMessage {
    ProviderCompletionMessage { role, content: content.to_string() }
}

#[test]
fn test_add_user_message_prompt() {
    let mut prompt_data = PromptData {
        id: Some("123".to_string()),
        messages: vec![message(ProviderMessageRole::User, "Hello")],
    };

    prompt_data.add_user_message_prompt("World".to_string());

    assert_eq!(prompt_data.messages.len(), 2);
    assert_eq!(prompt_data.messages[1].content, "World");
}

#[test]
fn test_create_content() {
    let pairs = &[("language", "English"), ("file_review_schema", "Schema")];
    let content = create_content(pairs);

    assert_eq!(content.len(), 2);
    assert_eq!(content.get("language").unwrap(), "English");
    assert_eq!(content.get("file_review_schema").unwrap(), "Schema");
}

#[test]
fn test_substitute_tokens() {
    let messages = vec![message(ProviderMessageRole::User, "{{name}}")];
    let content = create_content(&[("name", "John")]);

    let result = substitute_tokens(&messages, &content).unwrap();

    assert!(result[0].content.contains("John"));
}

#[test]
fn create_content_later_pair_wins() {
    let content = create_content(&[("a", "1"), ("b", "2"), ("a", "3")]);
    assert_eq!(content.len(), 2);
    assert_eq!(content.get("a").unwrap(), "3");
    assert_eq!(content.get("b").unwrap(), "2");
    assert!(content.get("c").is_none());
}

#[test]
fn substitution_fills_every_occurrence_and_keeps_unknown_tokens() {
    let content = create_content(&[("name", "John"), ("lang", "Rust")]);
    let text = substitute_tokens_in_text("{{name}} writes {{lang}}; {{name}} again; {{other}} stays", &content)
        .unwrap();
    assert_eq!(text, "John writes Rust; John again; {{other}} stays");
}

#[test]
fn substitution_without_placeholders_is_identity() {
    let content = create_content(&[("name", "John")]);
    assert_eq!(substitute_tokens_in_text("plain text", &content).unwrap(), "plain text");
}

#[test]
fn substitute_tokens_keeps_roles() {
    let messages = vec![
        message(ProviderMessageRole::System, "Answer in {{language}}."),
        message(ProviderMessageRole::User, "{{x}}"),
    ];
    let content = create_content(&[("language", "British English")]);
    let out = substitute_tokens(&messages, &content).unwrap();
    assert_eq!(out.len(), 2);
    assert_eq!(out[0].role, ProviderMessageRole::System);
    assert_eq!(out[0].content, "Answer in British English.");
    assert_eq!(out[1].role, ProviderMessageRole::User);
    assert_eq!(out[1].content, "{{x}}");
}

#[test]
fn review_prompt_fills_language_and_schema() {
    let template = PromptData {
        id: Some("t".to_string()),
        messages: vec![
            message(ProviderMessageRole::System, "Write in {{language}}."),
            message(ProviderMessageRole::System, "Schema: {{file_review_schema}}"),
        ],
    };
    let p = PromptData::get_code_review_prompt(&template, "{}").unwrap();
    assert!(p.id.is_none());
    assert_eq!(p.messages[0].content, format!("Write in {}.", LANGUAGE));
    assert_eq!(p.messages[1].content, "Schema: {}");
    let s = PromptData::get_security_review_prompt(&template, "S").unwrap();
    assert_eq!(s.messages[1].content, "Schema: S");
}

#[test]
fn summary_prompts_fill_only_the_language() {
    let template = PromptData {
        id: None,
        messages: vec![message(ProviderMessageRole::User, "{{language}} / {{file_review_schema}}")],
    };
    let p = PromptData::get_overall_summary_prompt(&template).unwrap();
    assert_eq!(p.messages[0].content, "British English / {{file_review_schema}}");
    let r = PromptData::_get_readme_summary_prompt(&template).unwrap();
    assert_eq!(r.messages[0].content, "British English / {{file_review_schema}}");
}

#[test]
fn prompt_from_template_has_no_id() {
    let template = PromptData { id: Some("x".to_string()), messages: vec![message(ProviderMessageRole::User, "hi")] };
    let p = prompt_from_template(&template, &[]).unwrap();
    assert!(p.id.is_none());
    assert_eq!(p.messages[0].content, "hi");
    let _never: Option<TokenError> = None;
}

#[test]
fn placeholder_captures_fill_known_tokens_only() {
    let content = create_content(&[("a", "1")]);
    let group = |whole: &str, token: &str| vec![Some(whole.to_string()), Some(token.to_string())];
    let caps = vec![group("{{a}}", "a"), group("{{b}}", "b")];
    assert_eq!(apply_placeholder_captures("{{a}}-{{b}}-{{a}}", &caps, &content), "1-{{b}}-1");
    assert_eq!(apply_placeholder_captures("{{a}}", &Vec::new(), &content), "{{a}}");
}
