//! Access to the language model providers: which provider and service are
//! active, how a provider is chosen by name, and the HTTP status carried in
//! a provider's error message.
pub mod api;
pub mod google;
pub mod lmstudio;
pub mod openai;
pub mod prompts;

use crate::settings::{first_service_named, ProviderSettings, ServiceError, ServiceSettings, Settings};
use crate::text::{chars_of, contains, contains_chars, push_all, string_of};
use vstd::prelude::*;

verus! {

/// What a request to a provider is for.
#[derive(Clone, Copy, Debug, PartialEq, Eq, Structural)]
pub enum RequestType {
    Review,
    Summarise,
}

/// Gets the active provider. The settings must configure one: a chosen or
/// default provider that names a configured provider.
pub fn get_provider(settings: &Settings) -> (r: &ProviderSettings)
    requires
        settings.active_provider_index() is Some,
    ensures
        *r == settings.providers@[settings.active_provider_index()->0],
{
    match settings.get_active_provider() {
        Ok(p) => p,
        Err(_) => {
            assert(false);
            &settings.providers[0]
        },
    }
}

/// Gets the active service of a provider, which must configure one.
pub fn get_service(provider: &ProviderSettings) -> (r: &ServiceSettings)
    requires
        provider.active_service_index() is Some,
    ensures
        *r == provider.services@[provider.active_service_index()->0],
{
    match provider.get_active_service() {
        Ok(s) => s,
        Err(_) => {
            assert(false);
            &provider.services[0]
        },
    }
}

/// The service that [`get_service_and_model`] reports: the service chosen
/// in the settings, looked up in the active provider, else the provider's
/// active service.
pub open spec fn reported_service(settings: Settings) -> Option<ServiceSettings> {
    let p = settings.providers@[settings.active_provider_index()->0];
    match settings.chosen_service {
        Some(chosen) => match first_service_named(p.services@, chosen@) {
            Some(i) => Some(p.services@[i]),
            None => None,
        },
        None => Some(p.services@[p.active_service_index()->0]),
    }
}

/// Describes the active provider, service and model:
/// `provider: <name>, service: <name>, model: <model>`. `None` when the
/// service chosen in the settings is not one of the provider's.
pub fn get_service_and_model(settings: &Settings) -> (r: Option<String>)
    requires
        settings.active_provider_index() is Some,
        settings.chosen_service is None ==> settings.providers@[settings.active_provider_index()->0].active_service_index() is Some,
    ensures
        match reported_service(*settings) {
            Some(s) => r matches Some(t) && t@ == "provider: "@ + settings.providers@[settings.active_provider_index()->0].name@
                + ", service: "@ + s.name@ + ", model: "@ + s.model@,
            None => r is None,
        },
{
    let provider = get_provider(settings);
    let service: &ServiceSettings = match &settings.chosen_service {
        Some(chosen) => match provider.get_service_by_name(chosen.as_str()) {
            Some(s) => s,
            None => return None,
        },
        None => get_service(provider),
    };
    let mut out = chars_of("provider: ");
    push_all(&mut out, &chars_of(provider.name.as_str()));
    push_all(&mut out, &chars_of(", service: "));
    push_all(&mut out, &chars_of(service.name.as_str()));
    push_all(&mut out, &chars_of(", model: "));
    push_all(&mut out, &chars_of(service.model.as_str()));
    Some(string_of(&out))
}

/// The HTTP error codes the providers' error messages are searched for.
#[derive(Clone, Copy, Debug, PartialEq, Eq, Structural)]
pub enum HttpErrorCode {
    BadRequest,
    Unauthorized,
    Forbidden,
    NotFound,
    InternalServerError,
    BadGateway,
    ServiceUnavailable,
    GatewayTimeout,
}

impl HttpErrorCode {
    pub open spec fn spec_code(self) -> u16 {
        match self {
            HttpErrorCode::BadRequest => 400,
            HttpErrorCode::Unauthorized => 401,
            HttpErrorCode::Forbidden => 403,
            HttpErrorCode::NotFound => 404,
            HttpErrorCode::InternalServerError => 500,
            HttpErrorCode::BadGateway => 502,
            HttpErrorCode::ServiceUnavailable => 503,
            HttpErrorCode::GatewayTimeout => 504,
        }
    }

    /// The numeric HTTP status code.
    pub fn code(&self) -> (r: u16)
        ensures
            r == self.spec_code(),
    {
        match self {
            HttpErrorCode::BadRequest => 400,
            HttpErrorCode::Unauthorized => 401,
            HttpErrorCode::Forbidden => 403,
            HttpErrorCode::NotFound => 404,
            HttpErrorCode::InternalServerError => 500,
            HttpErrorCode::BadGateway => 502,
            HttpErrorCode::ServiceUnavailable => 503,
            HttpErrorCode::GatewayTimeout => 504,
        }
    }
}

/// The three digits of a status code (100 to 999).
pub open spec fn code_text(code: u16) -> Seq<char> {
    seq![
        ((code / 100 + 48) as u8) as char,
        ((code / 10 % 10 + 48) as u8) as char,
        ((code % 10 + 48) as u8) as char,
    ]
}

/// The status codes in the order they are looked for.
pub open spec fn searched_codes() -> Seq<u16> {
    seq![400u16, 401, 403, 404, 500, 502, 503, 504]
}

/// The first of the searched codes, from index `k` on, whose digits occur in `message`.
pub open spec fn first_code_in(message: Seq<char>, k: nat) -> Option<u16>
    decreases searched_codes().len() - k,
{
    if k >= searched_codes().len() {
        None
    } else if contains(message, code_text(searched_codes()[k as int])) {
        Some(searched_codes()[k as int])
    } else {
        first_code_in(message, k + 1)
    }
}

fn code_chars(code: u16) -> (r: Vec<char>)
    requires
        100 <= code <= 999,
    ensures
        r@ == code_text(code),
{
    let mut r: Vec<char> = Vec::new();
    r.push(((code / 100) as u8 + 48) as char);
    r.push(((code / 10 % 10) as u8 + 48) as char);
    r.push(((code % 10) as u8 + 48) as char);
    assert(r@ =~= code_text(code));
    r
}

/// Extracts the HTTP status code from an error message: the first of 400,
/// 401, 403, 404, 500, 502, 503 and 504 whose digits occur in it.
pub fn extract_http_status(error_message: &str) -> (r: Option<u16>)
    ensures
        r == first_code_in(error_message@, 0),
{
    let m = chars_of(error_message);
    let codes: [u16; 8] = [400, 401, 403, 404, 500, 502, 503, 504];
    assert(codes@ =~= searched_codes());
    let mut k: usize = 0;
    while k < 8
        invariant
            k <= 8,
            codes@ == searched_codes(),
            m@ == error_message@,
            first_code_in(error_message@, 0) == first_code_in(error_message@, k as nat),
        decreases 8 - k,
    {
        let t = code_chars(codes[k]);
        if contains_chars(&m, &t) {
            return Some(codes[k]);
        }
        k = k + 1;
    }
    None
}

/// What `str::to_lowercase` returns for a string (Unicode lowercase mapping).
pub uninterp spec fn lowercase_of(s: Seq<char>) -> Seq<char>;

/// `str::to_lowercase`: the Unicode lowercase of `s`, named by [`lowercase_of`].
#[verifier::external_body]
fn to_lowercase(s: &str) -> (r: String)
    ensures
        r@ == lowercase_of(s@),
{
    s.to_lowercase()
}

/// The provider that handles requests, with the model it uses.
#[derive(Clone, Debug)]
pub enum ApiProvider {
    OpenAI { model: String },
    Google { model: String },
    Local,
}

/// Why no provider could be created.
#[derive(Clone, Debug)]
pub enum ApiProviderError {
    /// The provider's active service is not configured.
    Service(ServiceError),
    /// No provider of that name is supported.
    Unsupported(String),
}

/// Creates the provider handler, given the provider's name in lowercase.
pub fn api_provider_for(lowercased_name: &str, provider_settings: &ProviderSettings) -> (r: Result<ApiProvider, ApiProviderError>)
    ensures
        lowercased_name@ == "openai"@ ==> match provider_settings.active_service_index() {
            Some(i) => r matches Ok(ApiProvider::OpenAI { model }) && model@ == provider_settings.services@[i].model@,
            None => r matches Err(ApiProviderError::Service(ServiceError::NotFound(n))) && n@ == provider_settings.active_service_name(),
        },
        lowercased_name@ == "google"@ ==> match provider_settings.active_service_index() {
            Some(i) => r matches Ok(ApiProvider::Google { model }) && model@ == provider_settings.services@[i].model@,
            None => r matches Err(ApiProviderError::Service(ServiceError::NotFound(n))) && n@ == provider_settings.active_service_name(),
        },
        lowercased_name@ == "local"@ ==> r matches Ok(ApiProvider::Local),
        (lowercased_name@ != "openai"@ && lowercased_name@ != "google"@ && lowercased_name@ != "local"@)
            ==> (r matches Err(ApiProviderError::Unsupported(n)) && n@ == provider_settings.name@),
{
    proof {
        reveal_strlit("openai");
        reveal_strlit("google");
        reveal_strlit("local");
        assert("openai"@[0] != "google"@[0]);
        assert("openai"@ != "local"@);
        assert("google"@ != "local"@);
    }
    if crate::retrieval::data::str_eq(lowercased_name, "openai") {
        match provider_settings.get_active_service() {
            Ok(s) => Ok(ApiProvider::OpenAI { model: s.model.clone() }),
            Err(e) => Err(ApiProviderError::Service(e)),
        }
    } else if crate::retrieval::data::str_eq(lowercased_name, "google") {
        match provider_settings.get_active_service() {
            Ok(s) => Ok(ApiProvider::Google { model: s.model.clone() }),
            Err(e) => Err(ApiProviderError::Service(e)),
        }
    } else if crate::retrieval::data::str_eq(lowercased_name, "local") {
        Ok(ApiProvider::Local)
    } else {
        Err(ApiProviderError::Unsupported(provider_settings.name.clone()))
    }
}

/// Creates the provider handler for the provider's name, compared in
/// lowercase (by `str::to_lowercase`).
pub fn create_api_provider(provider_settings: &ProviderSettings) -> (r: Result<ApiProvider, ApiProviderError>)
    ensures
        lowercase_of(provider_settings.name@) == "local"@ ==> r matches Ok(ApiProvider::Local),
        (lowercase_of(provider_settings.name@) != "openai"@ && lowercase_of(provider_settings.name@) != "google"@
            && lowercase_of(provider_settings.name@) != "local"@)
            ==> (r matches Err(ApiProviderError::Unsupported(n)) && n@ == provider_settings.name@),
        lowercase_of(provider_settings.name@) == "openai"@ ==> match provider_settings.active_service_index() {
            Some(i) => r matches Ok(ApiProvider::OpenAI { model }) && model@ == provider_settings.services@[i].model@,
            None => r matches Err(ApiProviderError::Service(ServiceError::NotFound(n))) && n@ == provider_settings.active_service_name(),
        },
        lowercase_of(provider_settings.name@) == "google"@ ==> match provider_settings.active_service_index() {
            Some(i) => r matches Ok(ApiProvider::Google { model }) && model@ == provider_settings.services@[i].model@,
            None => r matches Err(ApiProviderError::Service(ServiceError::NotFound(n))) && n@ == provider_settings.active_service_name(),
        },
{
    let lowered = to_lowercase(provider_settings.name.as_str());
    api_provider_for(lowered.as_str(), provider_settings)
}

} // verus!
