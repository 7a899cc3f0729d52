//! OpenAI provider: how a chat completion request is configured, when a
//! failed request is retried, and the conversion of its responses.
use crate::provider::api::{
    ProviderCompletionMessage, ProviderCompletionResponse, ProviderMessageConverter, ProviderMessageRole,
    ProviderResponseChoice,
    ProviderResponseConverter, ProviderResponseMessage,
};
use crate::provider::{extract_http_status, first_code_in, RequestType};
use crate::settings::Settings;
use crate::text::{chars_of, contains, contains_chars};
use vstd::prelude::*;

verus! {

/// The seed sent with requests to models that take one, for repeatable outputs.
pub const SEED_VAL: i64 = 1234;

/// An OpenAI provider running `model`.
#[derive(Clone, Debug)]
pub struct OpenAIProvider {
    pub model: String,
}

/// A chat completion request as it is to be sent: the model, the messages,
/// the seed if one is set, and whether a JSON object is asked for.
#[derive(Debug)]
pub struct ChatCompletionRequestPlan {
    pub model: String,
    pub messages: Vec<ProviderCompletionMessage>,
    pub seed: Option<i64>,
    pub json_object_response: bool,
}

/// Whether a model takes a seed and a response format: its name contains
/// `preview` or `turbo`.
pub open spec fn takes_seed(model: Seq<char>) -> bool {
    contains(model, seq!['p', 'r', 'e', 'v', 'i', 'e', 'w']) || contains(model, seq!['t', 'u', 'r', 'b', 'o'])
}

impl OpenAIProvider {
    /// Builds the chat completion request: for a model whose name contains
    /// `preview` or `turbo` the seed is set, and a review asks for a JSON
    /// object in response.
    pub fn build_chat_completion_request(
        &self,
        request_type: RequestType,
        completion_msgs: Vec<ProviderCompletionMessage>,
    ) -> (r: ChatCompletionRequestPlan)
        ensures
            r.model@ == self.model@,
            r.messages == completion_msgs,
            r.seed == if takes_seed(self.model@) { Some(SEED_VAL) } else { None },
            r.json_object_response == (takes_seed(self.model@) && request_type == RequestType::Review),
    {
        let m = chars_of(self.model.as_str());
        let preview = ['p', 'r', 'e', 'v', 'i', 'e', 'w'];
        let turbo = ['t', 'u', 'r', 'b', 'o'];
        assert(preview@ =~= seq!['p', 'r', 'e', 'v', 'i', 'e', 'w']);
        assert(turbo@ =~= seq!['t', 'u', 'r', 'b', 'o']);
        let seeded = contains_chars(&m, &preview) || contains_chars(&m, &turbo);
        ChatCompletionRequestPlan {
            model: self.model.clone(),
            messages: completion_msgs,
            seed: if seeded { Some(SEED_VAL) } else { None },
            json_object_response: seeded && request_type == RequestType::Review,
        }
    }
}

/// The number of retries configured for the active provider, zero when it
/// sets none or no provider is active.
pub fn max_retries_for(settings: &Settings) -> (r: i64)
    ensures
        r == match settings.active_provider_index() {
            Some(i) => match settings.providers@[i].max_retries {
                Some(m) => m,
                None => 0,
            },
            None => 0,
        },
{
    match settings.get_active_provider() {
        Ok(p) => match p.max_retries {
            Some(m) => m,
            None => 0,
        },
        Err(_) => 0,
    }
}

/// What follows a failed request.
#[derive(Clone, Copy, Debug, PartialEq, Eq, Structural)]
pub enum RetryDecision {
    /// The server answered 502 (Bad Gateway): try again.
    Retry,
    /// Any other failure: give up with this error.
    Fail,
}

/// The attempts made at a request and the most allowed.
#[derive(Clone, Copy, Debug, PartialEq, Eq, Structural)]
pub struct ApiRequestAttempts {
    pub attempts: i64,
    pub max_retries: i64,
}

impl ApiRequestAttempts {
    /// No attempt made yet.
    pub fn new(max_retries: i64) -> (r: Self)
        ensures
            r.attempts == 0,
            r.max_retries == max_retries,
    {
        ApiRequestAttempts { attempts: 0, max_retries }
    }

    /// Whether another attempt may be made: fewer than `max_retries` were.
    pub fn may_attempt(&self) -> (r: bool)
        ensures
            r == (self.attempts < self.max_retries),
    {
        self.attempts < self.max_retries
    }

    /// Records a failed attempt with the error message it gave: a message
    /// carrying 502 is retried, any other is not. The attempts made never
    /// exceed `max_retries`.
    pub fn after_failure(&mut self, error_message: &str) -> (r: RetryDecision)
        requires
            old(self).attempts < old(self).max_retries,
        ensures
            final(self).attempts == old(self).attempts + 1,
            final(self).max_retries == old(self).max_retries,
            final(self).attempts <= final(self).max_retries,
            r == if first_code_in(error_message@, 0) == Some(502u16) {
                RetryDecision::Retry
            } else {
                RetryDecision::Fail
            },
    {
        self.attempts = self.attempts + 1;
        match extract_http_status(error_message) {
            Some(code) => if code == 502 {
                RetryDecision::Retry
            } else {
                RetryDecision::Fail
            },
            None => RetryDecision::Fail,
        }
    }
}

/// An OpenAI chat completion response, as plain values: its id, its model
/// and the content of each choice's message (absent for a message without one).
#[derive(Debug)]
pub struct OpenAIChatResponse {
    pub id: String,
    pub model: String,
    pub choice_contents: Vec<Option<String>>,
}

/// Converts OpenAI responses to the generic one.
pub struct OpenAIResponseConverter;

/// The generic content of a choice: its content, or empty when it has none.
pub open spec fn content_or_empty(c: Option<String>) -> Seq<char> {
    match c {
        Some(s) => s@,
        None => Seq::empty(),
    }
}

impl ProviderResponseConverter<OpenAIChatResponse> for OpenAIResponseConverter {
    fn new(model: String) -> (r: Self) {
        OpenAIResponseConverter
    }

    /// The generic response: the same id and model, and one choice per
    /// choice, its content or an empty text.
    fn to_generic_provider_response(&self, response: &OpenAIChatResponse) -> (r: ProviderCompletionResponse)
        ensures
            r.id@ == response.id@,
            r.model@ == response.model@,
            r.choices@.len() == response.choice_contents@.len(),
            forall|i: int| 0 <= i < r.choices@.len() ==> (#[trigger] r.choices@[i]).message.content@ == content_or_empty(response.choice_contents@[i]),
    {
        let mut choices: Vec<ProviderResponseChoice> = Vec::new();
        let mut i: usize = 0;
        while i < response.choice_contents.len()
            invariant
                i <= response.choice_contents@.len(),
                choices@.len() == i,
                forall|t: int| 0 <= t < i ==> (#[trigger] choices@[t]).message.content@ == content_or_empty(response.choice_contents@[t]),
            decreases response.choice_contents@.len() - i,
        {
            let content = match &response.choice_contents[i] {
                Some(s) => s.clone(),
                None => String::new(),
            };
            choices.push(ProviderResponseChoice { message: ProviderResponseMessage { content } });
            i = i + 1;
        }
        ProviderCompletionResponse { id: response.id.clone(), model: response.model.clone(), choices }
    }
}

/// The role of a message in an OpenAI chat.
#[derive(Clone, Copy, Debug, PartialEq, Eq, Structural)]
pub enum OpenAIRole {
    User,
    System,
    Assistant,
    Function,
}

/// A message of an OpenAI chat completion request, as plain values: its
/// role and its text; it carries no name and no function call.
#[derive(Clone, Debug)]
pub struct OpenAIChatMessage {
    pub role: OpenAIRole,
    pub content: String,
}

/// The OpenAI role of a generic role.
pub open spec fn openai_role(role: ProviderMessageRole) -> OpenAIRole {
    match role {
        ProviderMessageRole::User => OpenAIRole::User,
        ProviderMessageRole::System => OpenAIRole::System,
        ProviderMessageRole::Assistant => OpenAIRole::Assistant,
        ProviderMessageRole::Function => OpenAIRole::Function,
    }
}

/// Converts generic messages to OpenAI ones.
pub struct OpenAIMessageConverter;

impl ProviderMessageConverter for OpenAIMessageConverter {
    type ProviderOutputMessage = OpenAIChatMessage;

    /// The same text, with the matching OpenAI role.
    fn convert_message(&self, message: &ProviderCompletionMessage) -> (r: OpenAIChatMessage)
        ensures
            r.role == openai_role(message.role),
            r.content@ == message.content@,
    {
        let role = match message.role {
            ProviderMessageRole::User => OpenAIRole::User,
            ProviderMessageRole::System => OpenAIRole::System,
            ProviderMessageRole::Assistant => OpenAIRole::Assistant,
            ProviderMessageRole::Function => OpenAIRole::Function,
        };
        OpenAIChatMessage { role, content: message.content.clone() }
    }

    /// Each message converted, in order.
    fn convert_messages(&self, messages: &[ProviderCompletionMessage]) -> (r: Vec<OpenAIChatMessage>)
        ensures
            r@.len() == messages@.len(),
            forall|i: int| 0 <= i < r@.len() ==> (#[trigger] r@[i]).role == openai_role(messages@[i].role)
                && r@[i].content@ == messages@[i].content@,
    {
        let mut out: Vec<OpenAIChatMessage> = Vec::new();
        let mut i: usize = 0;
        while i < messages.len()
            invariant
                i <= messages@.len(),
                out@.len() == i,
                forall|t: int| 0 <= t < i ==> (#[trigger] out@[t]).role == openai_role(messages@[t].role)
                    && out@[t].content@ == messages@[t].content@,
            decreases messages@.len() - i,
        {
            let m = self.convert_message(&messages[i]);
            out.push(m);
            i = i + 1;
        }
        out
    }
}

} // verus!
