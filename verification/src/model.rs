//! The first review loop: the prompts sent for each file and the text kept
//! of each answer.
use crate::text::{chars_of, push_all, string_of};
use vstd::prelude::*;

verus! {

/// The response of a chat completion endpoint.
#[derive(Debug)]
pub struct ModelResponse {
    pub choices: Vec<Choice>,
}

/// One choice of a response.
#[derive(Debug)]
pub struct Choice {
    pub message: Message,
}

/// The message of a choice.
#[derive(Debug)]
pub struct Message {
    pub content: String,
}

/// The kind of review a system message asks for; its wording is the
/// caller's.
#[derive(Clone, Copy, Debug, PartialEq, Eq, Structural)]
pub enum ReviewKind {
    GeneralCode,
    Security,
}

/// The endpoint the prompts are sent to.
pub const MODEL_API_URL: &'static str = "https://api.openai.com/v1/chat/completions";

/// The system message for a review type: `1` is a general code review, `2`
/// a security review; any other option is invalid.
pub fn system_message_for(review_type: &str) -> (r: Option<ReviewKind>)
    ensures
        review_type@ == "1"@ ==> r == Some(ReviewKind::GeneralCode),
        review_type@ == "2"@ ==> r == Some(ReviewKind::Security),
        review_type@ != "1"@ && review_type@ != "2"@ ==> r is None,
{
    proof {
        reveal_strlit("1");
        reveal_strlit("2");
        assert("1"@[0] != "2"@[0]);
    }
    if crate::retrieval::data::str_eq(review_type, "1") {
        Some(ReviewKind::GeneralCode)
    } else if crate::retrieval::data::str_eq(review_type, "2") {
        Some(ReviewKind::Security)
    } else {
        None
    }
}

/// The prompt for one file: the code in a fenced block.
pub fn code_review_prompt(code: &str) -> (r: String)
    ensures
        r@ == "Review the following code:\n\n```\n"@ + code@ + "\n```"@,
{
    let mut out = chars_of("Review the following code:\n\n```\n");
    push_all(&mut out, &chars_of(code));
    push_all(&mut out, &chars_of("\n```"));
    string_of(&out)
}

/// The text kept of one answer: the file, then its review.
pub fn review_output_text(path_display: &str, review: &str) -> (r: String)
    ensures
        r@ == "File: "@ + path_display@ + "\nReview:\n"@ + review@ + "\n\n"@,
{
    let mut out = chars_of("File: ");
    push_all(&mut out, &chars_of(path_display));
    push_all(&mut out, &chars_of("\nReview:\n"));
    push_all(&mut out, &chars_of(review));
    push_all(&mut out, &chars_of("\n\n"));
    string_of(&out)
}

} // verus!
