use cosmonaut_code::provider::api::{
    first_choice_content, ProviderCompletionMessage, ProviderMessageConverter, ProviderMessageRole,
    ProviderResponseConverter,
};
use cosmonaut_code::provider::google::vertex_ai::{
    ApiUrlError, GeminiStreamedResponse, GeminiStreamedResponseConverter, VertexAiProvider,
};
use cosmonaut_code::provider::google::{
    gemini_part_text, part_text_from_literal, Candidate, Content, GeminiResponse, GeminiResponseConverter, GeminiRole, Part};
use cosmonaut_code::provider::lmstudio::{
    convert_chat_choice_to_provider_choice, convert_chat_message_to_provider_message, Choice,
    LMStudioCompletionResponse, LMStudioResponseConverter, Message,
};
use cosmonaut_code::provider::openai::{
    ApiRequestAttempts, OpenAIChatResponse, OpenAIMessageConverter, OpenAIProvider, OpenAIResponseConverter,
    OpenAIRole, RetryDecision, SEED_VAL,
};
use cosmonaut_code::provider::RequestType;
use cosmonaut_code::review::report::OutputType;
use cosmonaut_code::settings::{APIKey, ProviderSettings, ReviewType, SensitiveSettings, ServiceSettings, Settings};

#[test]
fn test_openai_message_converter() {
    let converter = OpenAIMessageConverter;
    let message = ProviderCompletionMessage { role: ProviderMessageRole::User, content: "Test message".to_string() };

    let converted_message = converter.convert_message(&message);
    assert_eq!(converted_message.content, message.content);
}

#[test]
fn test_openai_response_converter() {
    let converter = OpenAIResponseConverter;
    let response = OpenAIChatResponse {
        id: "test_id".to_string(),
        model: "test_model".to_string(),
        choice_contents: vec![Some("Test content".to_string())],
    };

    let converted_response = converter.to_generic_provider_response(&response);
    assert_eq!(converted_response.id, response.id);
    assert_eq!(converted_response.model, response.model);
    assert_eq!(converted_response.choices[0].message.content, "Test content");
}

#[test]
fn openai_roles_and_missing_content() {
    let converter = OpenAIMessageConverter;
    let msgs = vec![
        ProviderCompletionMessage { role: ProviderMessageRole::System, content: "s".to_string() },
        ProviderCompletionMessage { role: ProviderMessageRole::Assistant, content: "a".to_string() },
        ProviderCompletionMessage { role: ProviderMessageRole::Function, content: "f".to_string() },
    ];
    let out = converter.convert_messages(&msgs);
    assert_eq!(out.len(), 3);
    assert_eq!(out[0].role, OpenAIRole::System);
    assert_eq!(out[1].role, OpenAIRole::Assistant);
    assert_eq!(out[2].role, OpenAIRole::Function);
    let r = OpenAIResponseConverter.to_generic_provider_response(&OpenAIChatResponse {
        id: "i".to_string(),
        model: "m".to_string(),
        choice_contents: vec![None],
    });
    assert_eq!(r.choices[0].message.content, "");
}

#[test]
fn openai_request_seed_and_json_format() {
    let msgs = vec![ProviderCompletionMessage { role: ProviderMessageRole::User, content: "x".to_string() }];
    let preview = OpenAIProvider { model: "gpt-4-1106-preview".to_string() };
    let r = preview.build_chat_completion_request(RequestType::Review, msgs.clone());
    assert_eq!(r.seed, Some(SEED_VAL));
    assert!(r.json_object_response);
    let s = preview.build_chat_completion_request(RequestType::Summarise, msgs.clone());
    assert_eq!(s.seed, Some(1234));
    assert!(!s.json_object_response);
    let plain = OpenAIProvider { model: "gpt-4".to_string() };
    let p = plain.build_chat_completion_request(RequestType::Review, msgs);
    assert_eq!(p.seed, None);
    assert!(!p.json_object_response);
    assert_eq!(p.model, "gpt-4");
}

#[test]
fn openai_retries_only_bad_gateway_and_stop_at_the_limit() {
    let mut a = ApiRequestAttempts::new(2);
    assert!(a.may_attempt());
    assert_eq!(a.after_failure("HTTP 502 Bad Gateway"), RetryDecision::Retry);
    assert!(a.may_attempt());
    assert_eq!(a.after_failure("HTTP 401 Unauthorized"), RetryDecision::Fail);
    assert!(!a.may_attempt());
    assert_eq!(a.attempts, 2);
}

#[test]
fn lmstudio_conversion() {
    let response = LMStudioCompletionResponse {
        choices: vec![
            Choice { message: Message { content: "first".to_string() } },
            Choice { message: Message { content: "second".to_string() } },
        ],
    };
    let r = LMStudioResponseConverter.to_generic_provider_response(&response);
    assert_eq!(r.choices.len(), 2);
    assert_eq!(r.choices[1].message.content, "second");
    assert_eq!(first_choice_content(&r).unwrap(), "first");
    assert_eq!(
        convert_chat_choice_to_provider_choice(&Choice { message: Message { content: "c".to_string() } })
            .message
            .content,
        "c"
    );
    assert_eq!(convert_chat_message_to_provider_message(&Message { content: "m".to_string() }).content, "m");
}

fn candidate(texts: &[&str]) -> Candidate {
    Candidate {
        content: Content {
            parts: Some(texts.iter().map(|t| Part { text: t.to_string() }).collect()),
            role: GeminiRole::Model,
        },
        finish_reason: None,
        index: None,
        safety_ratings: vec![],
    }
}

#[test]
fn gemini_texts_are_joined_by_lines() {
    let response = GeminiResponse {
        model: None,
        candidates: vec![candidate(&["a", "b"]), candidate(&["c"])],
        prompt_feedback: None,
    };
    let converter = GeminiResponseConverter::new("gemini-pro".to_string());
    let r = converter.to_generic_provider_response(&response);
    assert_eq!(r.id, "");
    assert_eq!(r.model, "gemini-pro");
    assert_eq!(r.choices.len(), 1);
    assert_eq!(r.choices[0].message.content, "a\nb\nc");
}

#[test]
fn streamed_gemini_texts_are_joined_by_lines() {
    let part = |t: &str| GeminiResponse { model: None, candidates: vec![candidate(&[t])], prompt_feedback: None };
    let streamed = GeminiStreamedResponse {
        model: None,
        streamed_candidates: vec![part("x"), part("y")],
        usage_metadata: None,
    };
    let r = GeminiStreamedResponseConverter.to_generic_provider_response(&streamed);
    assert_eq!(r.model, "none set");
    assert_eq!(r.choices[0].message.content, "x\ny");
}

fn settings_with(api_url: &str) -> (Settings, ProviderSettings) {
    let p = ProviderSettings {
        name: "google".to_string(),
        services: vec![ServiceSettings { name: "gemini-pro".to_string(), model: "gemini-pro".to_string() }],
        chosen_service: None,
        default_service: "gemini-pro".to_string(),
        api_url: api_url.to_string(),
        api_timeout: None,
        max_tokens: None,
        max_retries: None,
    };
    let s = Settings {
        providers: vec![],
        chosen_provider: None,
        chosen_service: None,
        default_provider: "google".to_string(),
        output_type: OutputType::Json,
        review_type: ReviewType::General,
        review_cycles: None,
        repository_path: String::new(),
        report_output_path: String::new(),
        developer_mode: None,
        sensitive: SensitiveSettings { api_key: APIKey::new(String::new()), org_id: None, org_name: None },
    };
    (s, p)
}

#[test]
fn vertex_url_is_filled_and_parsed() {
    let (s, p) = settings_with(
        "https://{region}-aiplatform.googleapis.com/v1/projects/{project_id}/locations/{region}/publishers/google/models/{model}:streamGenerateContent",
    );
    let v = VertexAiProvider { model: "gemini-pro".to_string() };
    assert_eq!(
        v.get_api_url(&s, &p).unwrap(),
        "https://us-central1-aiplatform.googleapis.com/v1/projects/mickclarke138/locations/us-central1/publishers/google/models/gemini-pro:streamGenerateContent"
    );
    // the URL parser normalises: the host is lower-cased
    let (s2, p2) = settings_with("HTTPS://EXAMPLE.COM/{model}");
    assert_eq!(v.get_api_url(&s2, &p2).unwrap(), "https://example.com/gemini-pro");
    let (s3, p3) = settings_with("not a url {model}");
    assert_eq!(v.get_api_url(&s3, &p3), Err(ApiUrlError::InvalidUrl));
}

#[test]
fn gemini_part_text_is_a_one_part_json_array() {
    let mut object = serde_json::Map::new();
    object.insert("text".to_string(), serde_json::Value::String("say \"hi\"\n".to_string()));
    let expected = serde_json::Value::Array(vec![serde_json::Value::Object(object)]).to_string();
    assert_eq!(gemini_part_text("say \"hi\"\n"), Some(expected));
    assert_eq!(gemini_part_text("plain"), Some("[{\"text\":\"plain\"}]".to_string()));
    assert_eq!(part_text_from_literal("\"x\""), "[{\"text\":\"x\"}]");
}
