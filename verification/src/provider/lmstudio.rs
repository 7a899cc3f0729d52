//! LM Studio, a local provider: the conversion of its responses.
use crate::provider::api::{
    ProviderCompletionResponse, ProviderResponseChoice, ProviderResponseConverter,
    ProviderResponseMessage,
};
use vstd::prelude::*;

verus! {

/// The response of LM Studio's chat completion endpoint.
#[derive(Debug)]
pub struct LMStudioCompletionResponse {
    pub choices: Vec<Choice>,
}

/// One choice of a response.
#[derive(Debug)]
pub struct Choice {
    pub message: Message,
}

/// The message of a choice.
#[derive(Debug)]
pub struct Message {
    pub content: String,
}

/// Converts LM Studio responses to the generic one.
pub struct LMStudioResponseConverter;

impl ProviderResponseConverter<LMStudioCompletionResponse> for LMStudioResponseConverter {
    fn new(model: String) -> (r: Self) {
        LMStudioResponseConverter
    }

    /// The generic response: empty id and model, and one choice per choice
    /// with the same content.
    fn to_generic_provider_response(&self, response: &LMStudioCompletionResponse) -> (r: ProviderCompletionResponse)
        ensures
            r.id@ == Seq::<char>::empty(),
            r.model@ == Seq::<char>::empty(),
            r.choices@.len() == response.choices@.len(),
            forall|i: int| 0 <= i < r.choices@.len() ==> (#[trigger] r.choices@[i]).message.content@ == response.choices@[i].message.content@,
    {
        let mut choices: Vec<ProviderResponseChoice> = Vec::new();
        let mut i: usize = 0;
        while i < response.choices.len()
            invariant
                i <= response.choices@.len(),
                choices@.len() == i,
                forall|t: int| 0 <= t < i ==> (#[trigger] choices@[t]).message.content@ == response.choices@[t].message.content@,
            decreases response.choices@.len() - i,
        {
            choices.push(convert_chat_choice_to_provider_choice(&response.choices[i]));
            i = i + 1;
        }
        ProviderCompletionResponse { id: String::new(), model: String::new(), choices }
    }
}

/// The generic choice for a choice: the same content.
pub fn convert_chat_choice_to_provider_choice(chat_choice: &Choice) -> (r: ProviderResponseChoice)
    ensures
        r.message.content@ == chat_choice.message.content@,
{
    ProviderResponseChoice { message: convert_chat_message_to_provider_message(&chat_choice.message) }
}

/// The generic message for a message: the same content.
pub fn convert_chat_message_to_provider_message(chat_message: &Message) -> (r: ProviderResponseMessage)
    ensures
        r.content@ == chat_message.content@,
{
    ProviderResponseMessage { content: chat_message.content.clone() }
}

} // verus!
