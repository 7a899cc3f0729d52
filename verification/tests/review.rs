use cosmonaut_code::provider::api::{
    ProviderCompletionMessage, ProviderCompletionResponse, ProviderMessageRole, ProviderResponseChoice,
    ProviderResponseMessage,
};
use cosmonaut_code::provider::prompts::PromptData;
use cosmonaut_code::retrieval::code::calculate_rag_status_for_reviewed_file;
use cosmonaut_code::retrieval::data::{LanguageType, SourceFileInfo, Statistics};
use cosmonaut_code::review::data::{
    Error, Improvement, RAGStatus, RepositoryReview, SecurityIssue, Severity, SourceFileReview,
};
use cosmonaut_code::review::{
    extract_json_object, extract_repository_name, get_overall_rag_for, get_prompt_data_based_on_review_type,
    initialise_repository_review, initialise_review_summary_section, process_llm_response,
    repository_name_from_path, review_request_text, strip_artifacts_from, summary_from_response,
    update_review_summary, validate_repository, PathError, ReviewAttempts,
};
use cosmonaut_code::settings::{
    APIKey, ProviderSettings, ReviewType, SensitiveSettings, ServiceSettings, Settings,
};
use cosmonaut_code::review::report::OutputType;

const JSON_OPENING: &str = "```json";
const JSON_CLOSE: &str = "```";

#[test]
fn test_strip_json_markers() {
    let json_str_with_markers = format!("{}\n{{\"key\": \"value\"}}\n{}", JSON_OPENING, JSON_CLOSE);
    let result = strip_artifacts_from(&json_str_with_markers);
    assert_eq!(result.unwrap(), "{\"key\": \"value\"}");
}

#[test]
fn test_no_markers() {
    let json_str = "{\"key\": \"value\"}";
    let result = strip_artifacts_from(json_str);
    assert_eq!(result.unwrap(), json_str);
}

#[test]
fn test_invalid_json_markers() {
    let json_str_with_extra_text = "xxx\n{\"key\": \"value\"}\nyyy";
    let expected_json = "{\"key\": \"value\"}";
    let result = strip_artifacts_from(json_str_with_extra_text);
    assert_eq!(result.unwrap(), expected_json);
}

#[test]
fn test_normal_directory_path() {
    let path_str = "/location/dirname/cosmonaut-code";
    assert_eq!(extract_repository_name(path_str).unwrap(), "cosmonaut-code");
}

#[test]
fn test_empty_path() {
    let path_str = "";
    assert!(extract_repository_name(path_str).is_err());
}

#[test]
fn test_path_ending_with_slash() {
    let path_str = "/location/dirname/cosmonaut-code/";
    assert_eq!(extract_repository_name(path_str).unwrap(), "cosmonaut-code");
}

#[test]
fn test_single_name_directory() {
    let path_str = "cosmonaut-code";
    assert_eq!(extract_repository_name(path_str).unwrap(), "cosmonaut-code");
}

#[test]
fn control_characters_are_removed_before_cutting() {
    assert_eq!(strip_artifacts_from("{\"a\":\u{1}1\t}").unwrap(), "{\"a\":1}");
}

#[test]
fn strip_errors() {
    assert_eq!(strip_artifacts_from("no json here"), Err("No valid JSON found"));
    assert_eq!(strip_artifacts_from("} then {"), Err("Invalid JSON structure"));
    assert_eq!(extract_json_object("{"), Err("No valid JSON found"));
}

#[test]
fn stripping_twice_is_stripping_once() {
    let once = strip_artifacts_from("pre {\"a\": {\"b\": 1}} post").unwrap();
    assert_eq!(once, "{\"a\": {\"b\": 1}}");
    assert_eq!(strip_artifacts_from(&once).unwrap(), once);
    let with_controls = strip_artifacts_from("\u{2}x{\"k\":\n[1,\r2]}\u{1f}}y").unwrap();
    assert_eq!(with_controls, "{\"k\":[1,2]}}");
    assert_eq!(strip_artifacts_from(&with_controls).unwrap(), with_controls);
}

#[test]
fn repository_name_errors() {
    let e = repository_name_from_path("/tmp/report.json", true).unwrap_err();
    assert_eq!(e.message, "Path points to a file, not a directory");
    assert_eq!(repository_name_from_path("/tmp/report.json", false).unwrap(), "report.json");
    assert_eq!(repository_name_from_path("/", false).unwrap_err().message, "Invalid directory name");
    assert_eq!(repository_name_from_path("a/..", false).unwrap_err().message, "Invalid directory name");
    assert_eq!(repository_name_from_path("a/b/.", false).unwrap(), "b");
    assert_eq!(PathError::new("x").to_text(), "Path error: x");
}

#[test]
fn repository_name_is_one_component() {
    for p in ["/a/b/c", "c/", "x//y//", "./z", "name.with.dots"] {
        let n = repository_name_from_path(p, false).unwrap();
        assert!(!n.is_empty() && !n.contains('/') && n != "." && n != "..");
    }
}

#[test]
fn initialised_review_is_named_and_empty() {
    let review = initialise_repository_review("/repos/project").unwrap();
    assert_eq!(review.repository_name, "project");
    assert!(review.file_reviews.is_empty());
    assert!(review.summary.is_none());
}

#[test]
fn validate_repository_cases() {
    let e = validate_repository("/x".to_string(), false, true).unwrap_err();
    assert_eq!(e.message, "Provided path is not a directory: /x");
    let e = validate_repository("/x".to_string(), true, false).unwrap_err();
    assert_eq!(e.message, "Provided path is not a valid Git repository: /x");
    assert_eq!(validate_repository("/x".to_string(), true, true).unwrap(), "/x");
}

#[test]
fn summary_and_request_text() {
    assert_eq!(summary_from_response("a - b - c"), "a\nb\nc");
    assert_eq!(summary_from_response("a-b"), "a-b");
    assert_eq!(review_request_text("src/x.rs", "fn x() {}"), "File name: src/x.rs\nfn x() {}\n");
}

fn response(contents: &[&str]) -> ProviderCompletionResponse {
    ProviderCompletionResponse {
        id: "id".to_string(),
        model: "m".to_string(),
        choices: contents
            .iter()
            .map(|c| ProviderResponseChoice { message: ProviderResponseMessage { content: c.to_string() } })
            .collect(),
    }
}

#[test]
fn llm_response_uses_the_first_choice() {
    let r = response(&["```json\n{\"summary\": \"ok\"}\n```", "{\"other\": 1}"]);
    assert_eq!(process_llm_response(&r).unwrap(), "{\"summary\": \"ok\"}");
    let bad = response(&["sorry"]);
    assert_eq!(process_llm_response(&bad), Err("No valid JSON found"));
}

fn provider(max_retries: Option<i64>) -> ProviderSettings {
    ProviderSettings {
        name: "openai".to_string(),
        services: vec![ServiceSettings { name: "gpt-4".to_string(), model: "gpt-4-preview".to_string() }],
        chosen_service: None,
        default_service: "gpt-4".to_string(),
        api_url: "https://api.openai.com".to_string(),
        api_timeout: Some(60),
        max_tokens: Some(2048),
        max_retries,
    }
}

#[test]
fn review_retries_stop_at_the_limit() {
    let mut a = ReviewAttempts::for_provider(&provider(Some(2)));
    assert!(a.retry_after_failure());
    assert!(a.retry_after_failure());
    assert!(!a.retry_after_failure());
    assert_eq!(a.attempts, 2);
    let mut none = ReviewAttempts::for_provider(&provider(None));
    assert_eq!(none.max_retries, 0);
    assert!(!none.retry_after_failure());
    assert_eq!(none.attempts, 0);
}

fn file_info(loc: i64) -> SourceFileInfo {
    let stats = Statistics { size: 10, loc, num_files: 1, num_commits: 1, frequency_bits: 0 };
    SourceFileInfo::new(
        "a.rs".to_string(),
        "src/a.rs".to_string(),
        LanguageType { name: "Rust".to_string(), extension: "rs".to_string(), statistics: None },
        "h".to_string(),
        stats,
    )
}

fn issue(severity: Severity) -> SecurityIssue {
    SecurityIssue {
        severity,
        code: "c".to_string(),
        threat: "t".to_string(),
        mitigation: "m".to_string(),
    }
}

fn reviewed(loc: i64, issues: Vec<SecurityIssue>, errors: usize, improvements: usize) -> SourceFileReview {
    SourceFileReview {
        source_file_info: file_info(loc),
        summary: "summary".to_string(),
        file_rag_status: RAGStatus::Green,
        security_issues: Some(issues),
        errors: Some(
            (0..errors)
                .map(|_| Error { code: "e".to_string(), issue: "i".to_string(), resolution: "r".to_string() })
                .collect(),
        ),
        improvements: Some(
            (0..improvements)
                .map(|_| Improvement {
                    code: "c".to_string(),
                    suggestion: "s".to_string(),
                    improvement_details: "d".to_string(),
                })
                .collect(),
        ),
    }
}

#[test]
fn file_rag_status_thresholds() {
    assert_eq!(calculate_rag_status_for_reviewed_file(&reviewed(100, vec![], 7, 15)), Some(RAGStatus::Green));
    assert_eq!(calculate_rag_status_for_reviewed_file(&reviewed(100, vec![], 8, 0)), Some(RAGStatus::Amber));
    assert_eq!(calculate_rag_status_for_reviewed_file(&reviewed(100, vec![], 19, 0)), Some(RAGStatus::Red));
    assert_eq!(
        calculate_rag_status_for_reviewed_file(&reviewed(1000, vec![issue(Severity::Critical)], 0, 0)),
        Some(RAGStatus::Red)
    );
    assert_eq!(
        calculate_rag_status_for_reviewed_file(&reviewed(1000, vec![issue(Severity::Low)], 0, 0)),
        Some(RAGStatus::Green)
    );
}

#[test]
fn summary_counts_every_issue_once() {
    let mut summary = initialise_review_summary_section();
    assert_eq!(summary.security_issues.total, 0);
    let mut f = reviewed(100, vec![issue(Severity::Low), issue(Severity::High), issue(Severity::High)], 2, 3);
    update_review_summary(&mut summary, &mut f);
    let b = &summary.security_issues;
    assert_eq!((b.low, b.medium, b.high, b.critical, b.total), (1, 0, 2, 0, 3));
    assert_eq!(b.total, b.low + b.medium + b.high + b.critical);
    assert_eq!((summary.errors, summary.improvements), (2, 3));
    assert_eq!(summary.text, "summary\n");
    assert_eq!(f.file_rag_status, RAGStatus::Red);
}

#[test]
fn overall_rag_status() {
    let mut review = RepositoryReview::new("r".to_string());
    assert_eq!(get_overall_rag_for(&review), RAGStatus::Green);
    let mut summary = initialise_review_summary_section();
    let mut f = reviewed(100, vec![issue(Severity::Critical)], 0, 0);
    update_review_summary(&mut summary, &mut f);
    review.add_source_file_review(f);
    review.summary = Some(summary);
    assert_eq!(get_overall_rag_for(&review), RAGStatus::Red);

    let mut review = RepositoryReview::new("r".to_string());
    let mut summary = initialise_review_summary_section();
    let mut f = reviewed(100, vec![], 1, 0);
    update_review_summary(&mut summary, &mut f);
    review.add_source_file_review(f);
    review.summary = Some(summary);
    // one error in one file is above 8% of files
    assert_eq!(get_overall_rag_for(&review), RAGStatus::Amber);
}

fn settings(review_type: ReviewType) -> Settings {
    Settings {
        providers: vec![provider(Some(5))],
        chosen_provider: None,
        chosen_service: None,
        default_provider: "openai".to_string(),
        output_type: OutputType::Json,
        review_type,
        review_cycles: None,
        repository_path: "path/to/repo".to_string(),
        report_output_path: "path/to/report".to_string(),
        developer_mode: None,
        sensitive: SensitiveSettings { api_key: APIKey::new("secret".to_string()), org_id: None, org_name: None },
    }
}

#[test]
fn prompt_data_by_review_type() {
    let code = PromptData {
        id: None,
        messages: vec![ProviderCompletionMessage { role: ProviderMessageRole::System, content: "code {{language}}".to_string() }],
    };
    let security = PromptData {
        id: None,
        messages: vec![ProviderCompletionMessage { role: ProviderMessageRole::System, content: "security".to_string() }],
    };
    let general = get_prompt_data_based_on_review_type(&settings(ReviewType::General), &code, &security, "{}").unwrap().unwrap();
    assert_eq!(general.messages[0].content, "code British English");
    let sec = get_prompt_data_based_on_review_type(&settings(ReviewType::Security), &code, &security, "{}").unwrap().unwrap();
    assert_eq!(sec.messages[0].content, "security");
    assert!(get_prompt_data_based_on_review_type(&settings(ReviewType::CodeStats), &code, &security, "{}").unwrap().is_none());
}
