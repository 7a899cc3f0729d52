//! The generic structures for requests to and responses from language
//! model providers, and the traits that convert provider-specific ones.
use vstd::prelude::*;

verus! {

/// The role of a message in a conversation.
#[derive(Clone, Copy, Debug, PartialEq, Eq, Structural)]
pub enum ProviderMessageRole {
    User,
    System,
    Assistant,
    Function,
}

/// A message sent to a language model provider.
#[derive(Clone, Debug)]
pub struct ProviderCompletionMessage {
    pub role: ProviderMessageRole,
    pub content: String,
}

/// A response received from a language model provider.
#[derive(Debug)]
pub struct ProviderCompletionResponse {
    pub id: String,
    pub model: String,
    pub choices: Vec<ProviderResponseChoice>,
}

/// One choice of a response.
#[derive(Debug)]
pub struct ProviderResponseChoice {
    pub message: ProviderResponseMessage,
}

/// The message of a choice.
#[derive(Debug)]
pub struct ProviderResponseMessage {
    pub content: String,
}

/// Converts generic messages to provider-specific ones.
pub trait ProviderMessageConverter {
    type ProviderOutputMessage;

    fn convert_message(&self, message: &ProviderCompletionMessage) -> Self::ProviderOutputMessage;

    fn convert_messages(&self, messages: &[ProviderCompletionMessage]) -> Vec<Self::ProviderOutputMessage>;
}

/// Converts a provider-specific response to the generic one.
pub trait ProviderResponseConverter<T>: Sized {
    fn new(model: String) -> Self;

    fn to_generic_provider_response(&self, response: &T) -> ProviderCompletionResponse;
}

/// The content of the first choice of a response, if it has one.
pub fn first_choice_content(response: &ProviderCompletionResponse) -> (r: Option<&String>)
    ensures
        response.choices@.len() > 0 ==> r == Some(&response.choices@[0].message.content),
        response.choices@.len() == 0 ==> r is None,
{
    if response.choices.len() > 0 {
        Some(&response.choices[0].message.content)
    } else {
        None
    }
}

} // verus!
