use cosmonaut_code::chat_prompts::{PromptData, CODE_REVIEW_FOCUS_PROMPT, SECURITY_REVIEW_FORMAT_PROMPT};
use cosmonaut_code::data::{RAGStatus, RepositoryReview};
use cosmonaut_code::model::{code_review_prompt, review_output_text, system_message_for, ReviewKind};
use cosmonaut_code::settings::{ProviderSettings, ServiceSettings};

fn provider() -> ProviderSettings {
    ProviderSettings {
        name: "openai".to_string(),
        services: vec![ServiceSettings { name: "gpt-4".to_string(), model: "gpt-4".to_string() }],
        chosen_service: None,
        default_service: "gpt-4".to_string(),
        api_url: String::new(),
        api_timeout: None,
        max_tokens: None,
        max_retries: None,
    }
}

#[test]
fn chat_prompts_are_three_system_messages() {
    let mut p = PromptData::get_code_review_prompt(&provider(), "Act as a careful engineer.");
    assert_eq!(p.messages.len(), 3);
    assert!(p.messages.iter().all(|m| m.role == "system"));
    assert_eq!(p.messages[0].content, "Act as a careful engineer.");
    assert_eq!(p.messages[1].content, CODE_REVIEW_FOCUS_PROMPT);
    p.add_user_message_prompt("code".to_string());
    assert_eq!(p.messages.len(), 4);
    assert_eq!(p.messages[3].role, "user");
    assert_eq!(p.messages[3].content, "code");
    let s = PromptData::get_security_review_prompt(&provider(), "Act as a security engineer.");
    assert_eq!(s.messages[0].content, "Act as a security engineer.");
    assert_eq!(s.messages[2].content, SECURITY_REVIEW_FORMAT_PROMPT);
}

#[test]
fn model_prompts() {
    assert_eq!(system_message_for("1"), Some(ReviewKind::GeneralCode));
    assert_eq!(system_message_for("2"), Some(ReviewKind::Security));
    assert_eq!(system_message_for("3"), None);
    assert_eq!(code_review_prompt("x"), "Review the following code:\n\n```\nx\n```");
    assert_eq!(review_output_text("a.rs", "ok"), "File: a.rs\nReview:\nok\n\n");
}

#[test]
fn repository_review_setters() {
    let mut r = RepositoryReview::new();
    assert_eq!(r.repository_rag_status, RAGStatus::Green);
    // dated now: after September 2020
    assert!(r.date.seconds > 1_600_000_000);
    r.set_repository_name("repo".to_string());
    r.set_summary("fine".to_string());
    r.set_repository_rag_status(RAGStatus::Amber);
    assert_eq!(r.repository_name, "repo");
    assert_eq!(r.summary, "fine");
    assert_eq!(r.repository_rag_status, RAGStatus::Amber);
}
