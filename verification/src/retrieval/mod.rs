//! Static retrieval of repository data: source statistics, languages and
//! the tallies drawn from commit history.
pub mod code;
pub mod data;
pub mod git;
