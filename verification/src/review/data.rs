//! The data structures that hold the review data for presentation in a report.
use crate::retrieval::data::{Contributor, LanguageType, SourceFileInfo, Statistics};
use vstd::prelude::*;

verus! {

/// The overall review of a repository.
///
/// * `repository_name` - the name of the repository
/// * `generative_ai_service_and_model` - the generative AI service and model used
/// * `repository_type` - the predominant language, e.g. 'Rust'
/// * `date` - the date the review was generated
/// * `repository_purpose` - the purpose of the repository
/// * `summary` - a [`ReviewSummary`] of the repository
/// * `repository_rag_status` - the overall [`RAGStatus`]
#[derive(Debug)]
pub struct RepositoryReview {
    pub repository_name: String,
    pub generative_ai_service_and_model: Option<String>,
    pub repository_type: Option<String>,
    pub date: String,
    pub repository_purpose: Option<String>,
    pub summary: Option<ReviewSummary>,
    pub repository_rag_status: RAGStatus,
    pub statistics: Statistics,
    pub contributors: Vec<Contributor>,
    pub language_types: Vec<LanguageType>,
    pub file_reviews: Vec<SourceFileReview>,
}

impl RepositoryReview {
    /// An empty review of the repository named `repository_name`.
    pub fn new(repository_name: String) -> (r: Self)
        ensures
            r.repository_name == repository_name,
            r.generative_ai_service_and_model is None,
            r.repository_type is None,
            r.date@ == Seq::<char>::empty(),
            r.repository_purpose is None,
            r.summary is None,
            r.repository_rag_status == RAGStatus::Green,
            r.statistics == Statistics::new_spec(),
            r.contributors@.len() == 0,
            r.language_types@.len() == 0,
            r.file_reviews@.len() == 0,
    {
        RepositoryReview {
            repository_name,
            generative_ai_service_and_model: None,
            repository_type: None,
            date: String::new(),
            repository_purpose: None,
            summary: None,
            repository_rag_status: RAGStatus::Green,
            statistics: Statistics::new(),
            contributors: Vec::new(),
            language_types: Vec::new(),
            file_reviews: Vec::new(),
        }
    }

    /// Appends a [`SourceFileReview`] to the file reviews.
    pub fn add_source_file_review(&mut self, file_review: SourceFileReview)
        ensures
            final(self).file_reviews@ == old(self).file_reviews@.push(file_review),
            final(self).repository_name == old(self).repository_name,
            final(self).summary == old(self).summary,
            final(self).statistics == old(self).statistics,
    {
        self.file_reviews.push(file_review);
    }

    /// Sets the generative AI service and model.
    pub fn generative_ai_service_and_model(self, generative_ai_service_and_model: Option<
        String,
    >) -> (r: Self)
        ensures
            r == (Self { generative_ai_service_and_model, ..self }),
    {
        Self { generative_ai_service_and_model, ..self }
    }

    /// Sets the repository type.
    pub fn repository_type(self, repository_type: Option<String>) -> (r: Self)
        ensures
            r == (Self { repository_type, ..self }),
    {
        Self { repository_type, ..self }
    }

    /// Sets the date.
    pub fn date(self, date: String) -> (r: Self)
        ensures
            r == (Self { date, ..self }),
    {
        Self { date, ..self }
    }

    /// Sets the repository purpose.
    pub fn repository_purpose(self, repository_purpose: Option<String>) -> (r: Self)
        ensures
            r == (Self { repository_purpose, ..self }),
    {
        Self { repository_purpose, ..self }
    }

    /// Sets the summary.
    pub fn summary(self, summary: Option<ReviewSummary>) -> (r: Self)
        ensures
            r == (Self { summary, ..self }),
    {
        Self { summary, ..self }
    }

    /// Sets the overall RAG status.
    pub fn repository_rag_status(self, repository_rag_status: RAGStatus) -> (r: Self)
        ensures
            r == (Self { repository_rag_status, ..self }),
    {
        Self { repository_rag_status, ..self }
    }

    /// Sets the contributors.
    pub fn contributors(self, contributors: Vec<Contributor>) -> (r: Self)
        ensures
            r == (Self { contributors, ..self }),
    {
        Self { contributors, ..self }
    }

    /// Sets the language types.
    pub fn language_types(self, language_types: Vec<LanguageType>) -> (r: Self)
        ensures
            r == (Self { language_types, ..self }),
    {
        Self { language_types, ..self }
    }
}

/// The roll-up of the file reviews of a repository.
#[derive(Clone, Debug)]
pub struct ReviewSummary {
    pub text: String,
    pub security_issues: SecurityIssueBreakdown,
    pub errors: i32,
    pub improvements: i32,
    pub documentation: Option<Documentation>,
}

/// Security issues counted by severity, and in total.
#[derive(Clone, Copy, Debug, PartialEq, Eq, Structural)]
pub struct SecurityIssueBreakdown {
    pub low: i32,
    pub medium: i32,
    pub high: i32,
    pub critical: i32,
    pub total: i32,
}

/// The state of a repository's documentation.
#[derive(Clone, Copy, Debug, PartialEq, Eq, Structural)]
pub enum Documentation {
    /// No documentation.
    Missing,
    /// Some documentation.
    Present,
    Good,
    Excellent,
}

/// Red = urgent attention required, Amber = some issues to address, Green = okay.
#[derive(Clone, Copy, Debug, PartialEq, Eq, Structural)]
pub enum RAGStatus {
    Green,
    Amber,
    Red,
}

impl Default for RAGStatus {
    fn default() -> (r: Self)
        ensures
            r == RAGStatus::Green,
    {
        RAGStatus::Green
    }
}

/// The static data and the LLM review of one source file.
#[derive(Debug)]
pub struct SourceFileReview {
    pub source_file_info: SourceFileInfo,
    pub summary: String,
    pub file_rag_status: RAGStatus,
    pub security_issues: Option<Vec<SecurityIssue>>,
    pub errors: Option<Vec<Error>>,
    pub improvements: Option<Vec<Improvement>>,
}

impl SourceFileReview {
    pub fn get_security_issues(&self) -> (r: &Option<Vec<SecurityIssue>>)
        ensures
            *r == self.security_issues,
    {
        &self.security_issues
    }

    pub fn get_errors(&self) -> (r: &Option<Vec<Error>>)
        ensures
            *r == self.errors,
    {
        &self.errors
    }

    pub fn get_improvements(&self) -> (r: &Option<Vec<Improvement>>)
        ensures
            *r == self.improvements,
    {
        &self.improvements
    }

    pub fn get_file_rag_status(&self) -> (r: &RAGStatus)
        ensures
            *r == self.file_rag_status,
    {
        &self.file_rag_status
    }
}

/// A security issue found by the review.
#[derive(Clone, Debug)]
pub struct SecurityIssue {
    pub severity: Severity,
    pub code: String,
    pub threat: String,
    pub mitigation: String,
}

/// An error found by the review.
#[derive(Clone, Debug)]
pub struct Error {
    pub code: String,
    pub issue: String,
    pub resolution: String,
}

/// An improvement suggested by the review.
#[derive(Clone, Debug)]
pub struct Improvement {
    pub code: String,
    pub suggestion: String,
    pub improvement_details: String,
}

/// Severity of a security issue, as per CVSS v3.1.
#[derive(Clone, Copy, Debug, PartialEq, Eq, Structural)]
pub enum Severity {
    Low,
    Medium,
    High,
    Critical,
}

} // verus!
