//! Google Vertex AI: the streamed response and its conversion, and the URL
//! of the API.
use crate::provider::api::{
    ProviderCompletionResponse, ProviderResponseChoice, ProviderResponseConverter,
    ProviderResponseMessage,
};
use crate::provider::google::{candidates_texts, join, join_lines, push_candidate_texts, GeminiResponse};
use crate::settings::{ProviderSettings, Settings};
use crate::text::{chars_of, replace_all, replace_chars, string_of};
use vstd::prelude::*;

verus! {

/// The `streamGenerateContent` response: the responses of the stream in order.
#[derive(Debug)]
pub struct GeminiStreamedResponse {
    pub model: Option<String>,
    pub streamed_candidates: Vec<GeminiResponse>,
    pub usage_metadata: Option<UsageMetadata>,
}

/// The token counts of a response.
#[derive(Clone, Copy, Debug, PartialEq, Eq, Structural)]
pub struct UsageMetadata {
    pub candidates_token_count: u64,
    pub prompt_token_count: u64,
    pub total_token_count: u64,
}

/// The texts of all parts of all candidates of all responses, in order.
pub open spec fn streamed_texts(rs: Seq<GeminiResponse>) -> Seq<Seq<char>>
    decreases rs.len(),
{
    if rs.len() == 0 {
        Seq::empty()
    } else {
        streamed_texts(rs.drop_last()) + candidates_texts(rs.last().candidates@)
    }
}

/// Converts streamed responses to the generic one.
pub struct GeminiStreamedResponseConverter;

impl ProviderResponseConverter<GeminiStreamedResponse> for GeminiStreamedResponseConverter {
    fn new(model: String) -> (r: Self) {
        GeminiStreamedResponseConverter
    }

    /// The generic response: no id, the response's model (`none set` when
    /// it has none), and one choice holding the texts of all parts, one per line.
    fn to_generic_provider_response(&self, google_response: &GeminiStreamedResponse) -> (r: ProviderCompletionResponse)
        ensures
            r.id@ == Seq::<char>::empty(),
            r.model@ == match google_response.model {
                Some(m) => m@,
                None => "none set"@,
            },
            r.choices@.len() == 1,
            r.choices@[0].message.content@ == join(streamed_texts(google_response.streamed_candidates@), seq!['\n']),
    {
        let responses = &google_response.streamed_candidates;
        let mut messages: Vec<String> = Vec::new();
        let mut i: usize = 0;
        assert(responses@.take(0) =~= Seq::<GeminiResponse>::empty());
        while i < responses.len()
            invariant
                i <= responses@.len(),
                messages@.map_values(|s: String| s@) == streamed_texts(responses@.take(i as int)),
            decreases responses@.len() - i,
        {
            assert(responses@.take(i + 1).drop_last() =~= responses@.take(i as int));
            push_candidate_texts(&mut messages, &responses[i].candidates);
            i = i + 1;
        }
        assert(responses@.take(i as int) =~= responses@);
        let content = join_lines(&messages);
        let model = match &google_response.model {
            Some(m) => m.clone(),
            None => "none set".to_string(),
        };
        let mut choices: Vec<ProviderResponseChoice> = Vec::new();
        choices.push(ProviderResponseChoice { message: ProviderResponseMessage { content } });
        ProviderCompletionResponse { id: String::new(), model, choices }
    }
}

/// What `url::Url::parse` gives for a text, as its serialization (`None`
/// when the text is not a valid URL).
pub uninterp spec fn url_serialization_of(input: Seq<char>) -> Option<Seq<char>>;

/// `url::Url::parse`, then the serialization of the URL (`to_string`). The
/// result is named by [`url_serialization_of`].
#[verifier::external_body]
fn parse_url(input: &str) -> (r: Option<String>)
    ensures
        match r {
            Some(s) => url_serialization_of(input@) == Some(s@),
            None => url_serialization_of(input@) is None,
        },
{
    match url::Url::parse(input) {
        Ok(u) => Some(u.to_string()),
        Err(_) => None,
    }
}

/// The region the Vertex AI API is called in.
pub const REGION: &'static str = "us-central1";

/// The project the Vertex AI API is called for.
pub const PROJECT_ID: &'static str = "mickclarke138";

/// The URL is not valid.
#[derive(Clone, Copy, Debug, PartialEq, Eq, Structural)]
pub enum ApiUrlError {
    InvalidUrl,
}

/// A Vertex AI provider running `model`.
#[derive(Clone, Debug)]
pub struct VertexAiProvider {
    pub model: String,
}

/// The provider's URL template with `{model}`, `{region}` and `{project_id}` filled in.
pub open spec fn spec_filled_url(template: Seq<char>, model: Seq<char>) -> Seq<char> {
    replace_all(
        replace_all(
            replace_all(template, "{model}"@, model),
            "{region}"@,
            "us-central1"@,
        ),
        "{project_id}"@,
        "mickclarke138"@,
    )
}

impl VertexAiProvider {
    /// Creates the URL for this provider: the provider's URL template with
    /// the model, region and project filled in, checked and normalised by
    /// `url::Url::parse`.
    pub fn get_api_url(&self, _settings: &Settings, provider: &ProviderSettings) -> (r: Result<String, ApiUrlError>)
        ensures
            match url_serialization_of(spec_filled_url(provider.api_url@, self.model@)) {
                Some(u) => r matches Ok(s) && s@ == u,
                None => r == Err::<String, ApiUrlError>(ApiUrlError::InvalidUrl),
            },
    {
        let t = chars_of(provider.api_url.as_str());
        let t = replace_chars(&t, &chars_of("{model}"), &chars_of(self.model.as_str()));
        let t = replace_chars(&t, &chars_of("{region}"), &chars_of(REGION));
        let t = replace_chars(&t, &chars_of("{project_id}"), &chars_of(PROJECT_ID));
        let url_updated = string_of(&t);
        match parse_url(url_updated.as_str()) {
            Some(u) => Ok(u),
            None => Err(ApiUrlError::InvalidUrl),
        }
    }
}

} // verus!
