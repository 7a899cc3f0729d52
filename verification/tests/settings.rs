use cosmonaut_code::provider::{create_api_provider, extract_http_status, get_service_and_model, ApiProvider, ApiProviderError};
use cosmonaut_code::review::report::OutputType;
use cosmonaut_code::settings::{
    default_false, APIKey, DeveloperMode, ProviderError, ProviderSettings, ReviewType, SensitiveSettings,
    ServiceError, ServiceSettings, Settings,
};

fn provider(name: &str, chosen_service: Option<&str>) -> ProviderSettings {
    ProviderSettings {
        name: name.to_string(),
        services: vec![
            ServiceSettings { name: "GPT-3".to_string(), model: "gpt-3.5".to_string() },
            ServiceSettings { name: "gpt-4".to_string(), model: "gpt-4-1106-preview".to_string() },
        ],
        chosen_service: chosen_service.map(|s| s.to_string()),
        default_service: "GPT-3".to_string(),
        api_url: "https://api.openai.com".to_string(),
        api_timeout: Some(60),
        max_tokens: Some(2048),
        max_retries: Some(5),
    }
}

fn settings(providers: Vec<ProviderSettings>, chosen_provider: Option<&str>) -> Settings {
    Settings {
        providers,
        chosen_provider: chosen_provider.map(|s| s.to_string()),
        chosen_service: None,
        default_provider: "openai".to_string(),
        output_type: OutputType::Json,
        review_type: ReviewType::General,
        review_cycles: None,
        repository_path: "path/to/repo".to_string(),
        report_output_path: "path/to/report".to_string(),
        developer_mode: None,
        sensitive: SensitiveSettings { api_key: APIKey::new("secret".to_string()), org_id: None, org_name: None },
    }
}

#[test]
fn test_api_key_use() {
    let api_key = APIKey::new("secret".to_string());
    let result = api_key.use_key(|key| key.to_uppercase());

    assert_eq!(result, "SECRET");
}

#[test]
fn test_get_active_provider() {
    let services = vec![ServiceSettings { name: "GPT-3".to_string(), model: "gpt-3.5".to_string() }];
    let settings = Settings {
        providers: vec![ProviderSettings {
            name: "openai".to_string(),
            services,
            chosen_service: None,
            default_service: "gpt-3.5".to_string(),
            api_url: "https://api.openai.com".to_string(),
            api_timeout: Some(60),
            max_tokens: Some(2048),
            max_retries: Some(5),
        }],
        chosen_provider: None,
        chosen_service: None,
        default_provider: "openai".to_string(),
        output_type: OutputType::Json,
        review_type: ReviewType::General,
        review_cycles: None,
        repository_path: "path/to/repo".to_string(),
        report_output_path: "path/to/report".to_string(),
        sensitive: SensitiveSettings { api_key: APIKey::new("secret".to_string()), org_id: None, org_name: None },
        developer_mode: None,
    };
    let provider = settings.get_active_provider().unwrap();
    assert_eq!(provider.name, "openai");
}

#[test]
fn chosen_provider_wins_over_default() {
    let s = settings(vec![provider("openai", None), provider("google", None)], Some("google"));
    assert_eq!(s.get_active_provider().unwrap().name, "google");
    let missing = settings(vec![provider("openai", None)], Some("local"));
    match missing.get_active_provider() {
        Err(e @ ProviderError::NotFound(_)) => {
            assert_eq!(e.to_text(), "ProviderSettings not found: local")
        },
        Ok(_) => panic!("a provider that is not configured was found"),
    }
}

#[test]
fn active_service_and_lookup() {
    let p = provider("openai", Some("gpt-4"));
    assert_eq!(p.get_active_service().unwrap().model, "gpt-4-1106-preview");
    let d = provider("openai", None);
    assert_eq!(d.get_active_service().unwrap().model, "gpt-3.5");
    let bad = provider("openai", Some("nope"));
    match bad.get_active_service() {
        Err(e @ ServiceError::NotFound(_)) => assert_eq!(e.to_text(), "ServiceSettings not found: nope"),
        Ok(_) => panic!("a service that is not configured was found"),
    }
    assert!(d.get_service_by_name("gpt-4").is_some());
    assert!(d.get_service_by_name("GPT-4").is_none());
}

#[test]
fn service_and_model_text() {
    let s = settings(vec![provider("openai", Some("gpt-4"))], None);
    assert_eq!(
        get_service_and_model(&s).unwrap(),
        "provider: openai, service: gpt-4, model: gpt-4-1106-preview"
    );
}

#[test]
fn developer_mode_and_file_cap() {
    let mut s = settings(vec![provider("openai", None)], None);
    assert!(!s.is_developer_mode());
    assert!(!s.file_count_reached(1000));
    s.developer_mode = Some(DeveloperMode {
        max_file_count: Some(10),
        verbose_data_output: true,
        test_path: false,
        test_file: None,
    });
    assert!(s.is_developer_mode());
    assert!(!s.file_count_reached(9));
    assert!(s.file_count_reached(10));
    s.developer_mode = Some(DeveloperMode { max_file_count: Some(-1), verbose_data_output: false, test_path: false, test_file: None });
    assert!(!s.file_count_reached(1000));
    assert!(!default_false());
}

#[test]
fn api_providers_by_lowercased_name() {
    match create_api_provider(&provider("OpenAI", None)) {
        Ok(ApiProvider::OpenAI { model }) => assert_eq!(model, "gpt-3.5"),
        other => panic!("unexpected: {:?}", other),
    }
    match create_api_provider(&provider("Google", Some("gpt-4"))) {
        Ok(ApiProvider::Google { model }) => assert_eq!(model, "gpt-4-1106-preview"),
        other => panic!("unexpected: {:?}", other),
    }
    assert!(matches!(create_api_provider(&provider("LOCAL", None)), Ok(ApiProvider::Local)));
    match create_api_provider(&provider("anthropic", None)) {
        Err(ApiProviderError::Unsupported(n)) => assert_eq!(n, "anthropic"),
        other => panic!("unexpected: {:?}", other),
    }
    assert!(matches!(
        create_api_provider(&provider("openai", Some("missing"))),
        Err(ApiProviderError::Service(ServiceError::NotFound(_)))
    ));
}

#[test]
fn http_status_in_error_messages() {
    assert_eq!(extract_http_status("server said 502 Bad Gateway"), Some(502));
    assert_eq!(extract_http_status("401 and 500"), Some(401));
    assert_eq!(extract_http_status("no code"), None);
}
