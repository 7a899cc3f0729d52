//! Prompts for a chat-based LLM. Each constant is the text of one message
//! sent with the file under review; the text that sets the role taken for
//! the review is given by the caller.
use crate::settings::ProviderSettings;
use vstd::prelude::*;

verus! {

/// The role of the instructions.
pub const SYSTEM_ROLE: &'static str = "system";

/// The role of the user's messages.
pub const USER_ROLE: &'static str = "user";

/// What a code review focuses on.
pub const CODE_REVIEW_FOCUS_PROMPT: &'static str = r#"Focus on identifying critical errors, best practice violations, and security vulnerabilities.  
                                Exclude trivial issues like formatting errors or TODO comments. Use your expertise to provide insightful and actionable feedback.
                                If no errors or security issues are found, and less than ten (10) improvements found, the file_rag_status should be 'Green'.
                            "#;

/// The structure a code review is returned in.
pub const CODE_REVIEW_FORMAT_PROMPT: &'static str = r#"Provide your analysis in a structured JSON format, exactly following this structure: 
                                { 
                                    filename: String, // The name of the file
                                    summary: String,  // A summary of the findings of the review
                                    file_rag_status: String, // In {'Red', 'Amber', 'Green'}
                                    errors: [Vec<Error>], // A list of errors found in the code giving: 
                                            [{ 
                                                code: String, // The code affected, including line number
                                                issue: String, // A description of the error
                                                resolution: String, // The potential resolution
                                            }]
                                    improvements: Vec<Improvement>, // A list of improvements to the code, if any, giving:
                                            [{ 
                                                code: String, // The code affected, including line number
                                                suggestion: String, // A suggestion to improve the code
                                                example: String, // An example improvement
                                            }]
                                    security_issues: Vec<SecurityIssue>, // A list of security issues found in the code, if any, giving:
                                            [{ 
                                                code: String, // The code affected, including line number 
                                                threat: String, // A description of the threat
                                                mitigation: String, // The potential mitigation
                                            }]
                                    statistics: String // A list of statistics (e.g., code type, lines of code, number of functions, number of methods, etc.)
                                }
                            "#;

/// What a security review focuses on.
pub const SECURITY_REVIEW_FOCUS_PROMPT: &'static str = r#"Focus exclusively on identifying security vulnerabilities and potential security flaws in the code. 
                                Provide actionable feedback and mitigation strategies for each identified issue.
                                If no errors or security issues are found, the file_rag_status should be 'Green'"#;

/// The structure a security review is returned in.
pub const SECURITY_REVIEW_FORMAT_PROMPT: &'static str = r#"Provide your analysis in a structured JSON format, exactly following this structure: 
                                { 
                                    filename: String, // The name of the file
                                    summary: String,  // A summary of the findings of the review
                                    file_rag_status: String, // In {'Red', 'Amber', 'Green'}
                                    security_issues: Vec<SecurityIssue>, // A list of security issues found in the code, if any, giving:
                                            [{ 
                                                code: String, // The code affected, including line number 
                                                threat: String, // A description of the threat
                                                mitigation: String, // The potential mitigation
                                            }]
                                    statistics: String // A list of statistics (e.g., code type, lines of code, number of functions, number of methods, etc.)
                                }
                            "#;

/// A message of a prompt: its role and content.
#[derive(Clone, Debug)]
pub struct Message {
    pub role: String,
    pub content: String,
}

/// The messages of a prompt.
#[derive(Debug)]
pub struct PromptData {
    pub messages: Vec<Message>,
}

/// Whether `m` has role `role` and content `content`.
pub open spec fn is_message(m: Message, role: Seq<char>, content: Seq<char>) -> bool {
    m.role@ == role && m.content@ == content
}

fn system_message(content: &str) -> (r: Message)
    ensures
        is_message(r, SYSTEM_ROLE@, content@),
{
    Message { role: SYSTEM_ROLE.to_string(), content: content.to_string() }
}

impl PromptData {
    /// Adds a user message to the messages.
    pub fn add_user_message_prompt(&mut self, content: String)
        ensures
            final(self).messages@.len() == old(self).messages@.len() + 1,
            forall|i: int| 0 <= i < old(self).messages@.len() ==> final(self).messages@[i] == old(self).messages@[i],
            is_message(final(self).messages@.last(), USER_ROLE@, content@),
    {
        let user_message = Message { role: USER_ROLE.to_string(), content };
        self.messages.push(user_message);
    }

    /// The prompt for a code review: three system messages giving the role
    /// taken (`role_prompt`), what to focus on, and the JSON structure to
    /// answer in.
    pub fn get_code_review_prompt(for_provider: &ProviderSettings, role_prompt: &str) -> (r: Self)
        ensures
            r.messages@.len() == 3,
            is_message(r.messages@[0], SYSTEM_ROLE@, role_prompt@),
            is_message(r.messages@[1], SYSTEM_ROLE@, CODE_REVIEW_FOCUS_PROMPT@),
            is_message(r.messages@[2], SYSTEM_ROLE@, CODE_REVIEW_FORMAT_PROMPT@),
    {
        let mut messages: Vec<Message> = Vec::new();
        messages.push(system_message(role_prompt));
        messages.push(system_message(CODE_REVIEW_FOCUS_PROMPT));
        messages.push(system_message(CODE_REVIEW_FORMAT_PROMPT));
        Self { messages }
    }

    /// The prompt for a security review: three system messages giving the
    /// role taken (`role_prompt`), what to focus on, and the JSON structure
    /// to answer in.
    pub fn get_security_review_prompt(for_provider: &ProviderSettings, role_prompt: &str) -> (r: Self)
        ensures
            r.messages@.len() == 3,
            is_message(r.messages@[0], SYSTEM_ROLE@, role_prompt@),
            is_message(r.messages@[1], SYSTEM_ROLE@, SECURITY_REVIEW_FOCUS_PROMPT@),
            is_message(r.messages@[2], SYSTEM_ROLE@, SECURITY_REVIEW_FORMAT_PROMPT@),
    {
        let mut messages: Vec<Message> = Vec::new();
        messages.push(system_message(role_prompt));
        messages.push(system_message(SECURITY_REVIEW_FOCUS_PROMPT));
        messages.push(system_message(SECURITY_REVIEW_FORMAT_PROMPT));
        Self { messages }
    }
}

} // verus!
