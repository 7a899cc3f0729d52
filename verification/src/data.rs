//! The data returned by the AI code review, as first designed: a review
//! of a repository made of file reviews.
use crate::common::UtcTimestamp;
use vstd::prelude::*;

verus! {

/// Red = urgent attention required, Amber = some issues to address, Green = okay.
#[derive(Clone, Copy, Debug, PartialEq, Eq, Structural)]
pub enum RAGStatus {
    Green,
    Amber,
    Red,
}

impl Default for RAGStatus {
    fn default() -> (r: Self)
        ensures
            r == RAGStatus::Green,
    {
        RAGStatus::Green
    }
}

/// `chrono::Utc::now()`, as seconds and nanoseconds. It reads the clock,
/// so nothing is stated of the result.
#[verifier::external_body]
fn utc_now() -> (r: UtcTimestamp) {
    let now = chrono::Utc::now();
    UtcTimestamp { seconds: now.timestamp(), nanoseconds: now.timestamp_subsec_nanos() }
}

/// The review of a repository.
#[derive(Debug)]
pub struct RepositoryReview {
    pub repository_name: String,
    pub date: UtcTimestamp,
    pub repository_purpose: String,
    pub summary: String,
    pub repository_rag_status: RAGStatus,
    pub contributors: Vec<Contributor>,
    pub code_types: Vec<CodeType>,
    pub filereviews: Vec<FileReview>,
}

impl RepositoryReview {
    /// An empty review, dated now.
    pub fn new() -> (r: Self)
        ensures
            r.repository_name@ == Seq::<char>::empty(),
            r.repository_purpose@ == Seq::<char>::empty(),
            r.summary@ == Seq::<char>::empty(),
            r.repository_rag_status == RAGStatus::Green,
            r.contributors@.len() == 0,
            r.code_types@.len() == 0,
            r.filereviews@.len() == 0,
    {
        RepositoryReview {
            repository_name: String::new(),
            date: utc_now(),
            repository_purpose: String::new(),
            summary: String::new(),
            repository_rag_status: RAGStatus::Green,
            contributors: Vec::new(),
            code_types: Vec::new(),
            filereviews: Vec::new(),
        }
    }

    pub fn set_repository_name(&mut self, name: String)
        ensures
            *final(self) == (RepositoryReview { repository_name: name, ..*old(self) }),
    {
        self.repository_name = name;
    }

    pub fn set_date(&mut self, date: UtcTimestamp)
        ensures
            *final(self) == (RepositoryReview { date, ..*old(self) }),
    {
        self.date = date;
    }

    pub fn set_repository_purpose(&mut self, purpose: String)
        ensures
            *final(self) == (RepositoryReview { repository_purpose: purpose, ..*old(self) }),
    {
        self.repository_purpose = purpose;
    }

    pub fn set_summary(&mut self, summary: String)
        ensures
            *final(self) == (RepositoryReview { summary, ..*old(self) }),
    {
        self.summary = summary;
    }

    pub fn set_repository_rag_status(&mut self, status: RAGStatus)
        ensures
            *final(self) == (RepositoryReview { repository_rag_status: status, ..*old(self) }),
    {
        self.repository_rag_status = status;
    }

    pub fn set_contributors(&mut self, contributors: Vec<Contributor>)
        ensures
            *final(self) == (RepositoryReview { contributors, ..*old(self) }),
    {
        self.contributors = contributors;
    }

    pub fn set_code_types(&mut self, code_types: Vec<CodeType>)
        ensures
            *final(self) == (RepositoryReview { code_types, ..*old(self) }),
    {
        self.code_types = code_types;
    }

    /// Appends a file review.
    pub fn add_file_review(&mut self, file_review: FileReview)
        ensures
            final(self).filereviews@ == old(self).filereviews@.push(file_review),
            *final(self) == (RepositoryReview { filereviews: final(self).filereviews, ..*old(self) }),
    {
        self.filereviews.push(file_review);
    }
}

impl Default for RepositoryReview {
    fn default() -> (r: Self)
        ensures
            r.repository_name@ == Seq::<char>::empty(),
            r.repository_rag_status == RAGStatus::Green,
            r.filereviews@.len() == 0,
    {
        Self::new()
    }
}

/// The LLM review of one file.
///
/// * `filename` - the name of the file
/// * `summary` - a summary of the findings
/// * `file_rag_status` - the RAG status of the file
/// * `errors` - the errors, each with its issue and resolution
/// * `improvements` - the improvements, each with a suggestion and example
/// * `security_issues` - the security issues, each with threat and mitigation
/// * `statistics` - statistics such as lines of code and functions
#[derive(Debug)]
pub struct FileReview {
    pub filename: String,
    pub summary: String,
    pub file_rag_status: RAGStatus,
    pub errors: Vec<Error>,
    pub improvements: Vec<Improvement>,
    pub security_issues: Vec<SecurityIssue>,
    pub statistics: String,
}

/// An improvement: a suggestion and an example.
#[derive(Clone, Debug)]
pub struct Improvement {
    pub suggestion: String,
    pub example: String,
}

/// A security issue: the threat and its mitigation.
#[derive(Clone, Debug)]
pub struct SecurityIssue {
    pub threat: String,
    pub mitigation: String,
}

/// An error: the issue and its resolution.
#[derive(Clone, Debug)]
pub struct Error {
    pub issue: String,
    pub resolution: String,
}

/// A language and its share of the repository, in percent.
#[derive(Clone, Debug)]
pub struct CodeType {
    pub language: String,
    pub percentage: i32,
}

/// A contributor, their last contribution and their share of contributions, in percent.
#[derive(Clone, Debug)]
pub struct Contributor {
    pub name: String,
    pub last_contribution: UtcTimestamp,
    pub percentage: i32,
}

} // verus!
