//! The configuration read from the environment.
use vstd::prelude::*;

verus! {

/// OpenAI access and the folder to review.
#[derive(Clone, Debug)]
pub struct Config {
    pub openai_org_id: String,
    pub openai_org_name: String,
    pub openai_api_key: String,
    pub openai_model: String,
    pub folder_path: String,
    pub review_type: String,
}

} // verus!
