//! The structs that describe the retrieval data, such as code, contributors, etc.
use crate::common::UtcTimestamp;
use vstd::prelude::*;

verus! {

/// Statistics on the code in a repository, a language or a file.
///
/// * `size` - size in bytes
/// * `loc` - lines of code
/// * `num_files` - number of files
/// * `num_commits` - number of commits
/// * `frequency_bits` - the change frequency, an `f32`, held as its bit
///   pattern (`f32::to_bits`); the library carries it without computing with it
#[derive(Clone, Copy, Debug, PartialEq, Eq, Structural)]
pub struct Statistics {
    pub size: i64,
    pub loc: i64,
    pub num_files: i32,
    pub num_commits: i32,
    pub frequency_bits: u32,
}

impl Statistics {
    /// All statistics zero, as a value.
    pub open spec fn new_spec() -> Self {
        Statistics { size: 0, loc: 0, num_files: 0, num_commits: 0, frequency_bits: 0 }
    }

    /// All statistics zero.
    pub fn new() -> (r: Self)
        ensures
            r.size == 0,
            r.loc == 0,
            r.num_files == 0,
            r.num_commits == 0,
            r.frequency_bits == 0,
            r == Self::new_spec(),
    {
        Self { size: 0, loc: 0, num_files: 0, num_commits: 0, frequency_bits: 0 }
    }
}

/// A contributor to a repository's commit history.
///
/// `percentage_contribution_bits` is the `f32` share of all contributions,
/// held as its bit pattern.
#[derive(Clone, Debug)]
pub struct Contributor {
    pub name: String,
    pub last_contribution: UtcTimestamp,
    pub percentage_contribution_bits: u32,
    pub statistics: Statistics,
}

impl Contributor {
    pub fn new(
        name: String,
        last_contribution: UtcTimestamp,
        percentage_contribution_bits: u32,
        statistics: Statistics,
    ) -> (r: Self)
        ensures
            r.name@ == name@,
            r.last_contribution == last_contribution,
            r.percentage_contribution_bits == percentage_contribution_bits,
            r.statistics == statistics,
    {
        Self { name, last_contribution, percentage_contribution_bits, statistics }
    }
}

/// A language and file extension found in the repository, with its statistics.
#[derive(Clone, Debug)]
pub struct LanguageType {
    pub name: String,
    pub extension: String,
    pub statistics: Option<Statistics>,
}

/// Sum of the lines of code over the language types that have statistics.
pub open spec fn spec_sum_loc(ls: Seq<LanguageType>) -> int
    decreases ls.len(),
{
    if ls.len() == 0 {
        0
    } else {
        spec_sum_loc(ls.drop_last()) + match ls.last().statistics {
            Some(s) => s.loc as int,
            None => 0,
        }
    }
}

/// Whether the sum of lines of code over every prefix of `ls` fits in an `i64`.
pub open spec fn sum_loc_fits(ls: Seq<LanguageType>) -> bool {
    forall|k: int| 0 <= k <= ls.len() ==> i64::MIN <= #[trigger] spec_sum_loc(ls.take(k)) <= i64::MAX
}

impl LanguageType {
    /// Whether any of the `file_types` has the extension `ext`.
    pub fn _has_extension_of(ext: &str, file_types: &[LanguageType]) -> (r: bool)
        ensures
            r == exists|i: int| 0 <= i < file_types@.len() && #[trigger] file_types@[i].extension@ == ext@,
    {
        let mut i: usize = 0;
        while i < file_types.len()
            invariant
                i <= file_types@.len(),
                forall|j: int| 0 <= j < i ==> file_types@[j].extension@ != ext@,
            decreases file_types@.len() - i,
        {
            if str_eq(file_types[i].extension.as_str(), ext) {
                return true;
            }
            i = i + 1;
        }
        false
    }

    /// Sums the lines of code for a slice of [`LanguageType`]s.
    pub fn sum_lines_of_code(language_types: &[LanguageType]) -> (r: i64)
        requires
            sum_loc_fits(language_types@),
        ensures
            r == spec_sum_loc(language_types@),
    {
        let mut total: i64 = 0;
        let mut i: usize = 0;
        while i < language_types.len()
            invariant
                i <= language_types@.len(),
                sum_loc_fits(language_types@),
                total == spec_sum_loc(language_types@.take(i as int)),
            decreases language_types@.len() - i,
        {
            assert(language_types@.take(i + 1).drop_last() =~= language_types@.take(i as int));
            assert(i64::MIN <= spec_sum_loc(language_types@.take(i + 1)) <= i64::MAX);
            match &language_types[i].statistics {
                Some(s) => {
                    total = total + s.loc;
                },
                None => {},
            }
            i = i + 1;
        }
        assert(language_types@.take(i as int) =~= language_types@);
        total
    }
}

/// Whether two strings hold the same characters.
pub fn str_eq(a: &str, b: &str) -> (r: bool)
    ensures
        r == (a@ == b@),
{
    let x = crate::text::chars_of(a);
    let y = crate::text::chars_of(b);
    if x.len() != y.len() {
        return false;
    }
    let mut i: usize = 0;
    while i < x.len()
        invariant
            x@ == a@,
            y@ == b@,
            x@.len() == y@.len(),
            i <= x@.len(),
            forall|j: int| 0 <= j < i ==> x@[j] == y@[j],
        decreases x@.len() - i,
    {
        if x[i] != y[i] {
            return false;
        }
        i = i + 1;
    }
    assert(x@ =~= y@);
    true
}

/// Information on a source file during the static retrieval phase.
///
/// * `name` - the file name
/// * `relative_path` - the path relative to the repository root
/// * `language` - the [`LanguageType`] of the file
/// * `id_hash` - the SHA-256 hash of the contents
/// * `source_file` - the contents, in a [`SourceFile`] container
/// * `statistics` - the [`Statistics`] of the file
#[derive(Debug)]
pub struct SourceFileInfo {
    pub name: String,
    pub relative_path: String,
    pub language: Option<LanguageType>,
    pub id_hash: Option<String>,
    pub source_file: Option<Box<SourceFile>>,
    pub statistics: Statistics,
}

/// The contents of a source file, with the information it was read with.
#[derive(Debug)]
pub struct SourceFile {
    pub parent: SourceFileInfo,
    pub contents: String,
}

impl LanguageType {
    /// A copy equal to `self`.
    pub fn duplicate(&self) -> (r: Self)
        ensures
            r == *self,
    {
        LanguageType {
            name: self.name.clone(),
            extension: self.extension.clone(),
            statistics: self.statistics,
        }
    }
}

impl SourceFileInfo {
    pub fn new(
        name: String,
        relative_path: String,
        language: LanguageType,
        id_hash: String,
        statistics: Statistics,
    ) -> (r: Self)
        ensures
            r.name == name,
            r.relative_path == relative_path,
            r.language == Some(language),
            r.id_hash == Some(id_hash),
            r.source_file is None,
            r.statistics == statistics,
    {
        Self {
            name,
            relative_path,
            language: Some(language),
            id_hash: Some(id_hash),
            source_file: None,
            statistics,
        }
    }

    /// A copy equal to `self`, the contained source file included.
    pub fn duplicate(&self) -> (r: Self)
        ensures
            r == *self,
        decreases self,
    {
        let language = match &self.language {
            Some(l) => Some(l.duplicate()),
            None => None,
        };
        let id_hash = match &self.id_hash {
            Some(h) => Some(h.clone()),
            None => None,
        };
        let source_file = match &self.source_file {
            Some(sf) => {
                let parent = sf.parent.duplicate();
                Some(Box::new(SourceFile { parent, contents: sf.contents.clone() }))
            },
            None => None,
        };
        SourceFileInfo {
            name: self.name.clone(),
            relative_path: self.relative_path.clone(),
            language,
            id_hash,
            source_file,
            statistics: self.statistics,
        }
    }

    /// Stores `contents` as this file's source, together with a copy of the
    /// information held before the call.
    pub fn set_source_file_contents(&mut self, contents: String)
        ensures
            final(self).source_file == Some(Box::new(SourceFile { parent: *old(self), contents })),
            final(self).name == old(self).name,
            final(self).relative_path == old(self).relative_path,
            final(self).language == old(self).language,
            final(self).id_hash == old(self).id_hash,
            final(self).statistics == old(self).statistics,
    {
        let parent = self.duplicate();
        self.source_file = Some(Box::new(SourceFile { parent, contents }));
    }

    /// The stored source contents, or an empty text when none are stored.
    pub open spec fn stored_contents(self) -> Seq<char> {
        match self.source_file {
            Some(sf) => sf.contents@,
            None => Seq::<char>::empty(),
        }
    }

    /// The stored source contents, or an empty string when none are stored.
    pub fn get_source_file_contents(&self) -> (r: String)
        ensures
            r@ == self.stored_contents(),
    {
        match &self.source_file {
            Some(sf) => sf.contents.clone(),
            None => String::new(),
        }
    }
}

/// How often a file changed: the commits that touched it, all commits, and
/// their ratio (an `f32`, as its bit pattern).
#[derive(Clone, Copy, Debug, PartialEq, Eq, Structural)]
pub struct SourceFileChangeFrequency {
    pub file_commits: i32,
    pub total_commits: i32,
    pub frequency_bits: u32,
}

impl SourceFileChangeFrequency {
    /// The change frequency as [`Statistics`]: commits and frequency, all else zero.
    pub fn get_as_statistics(&self) -> (r: Statistics)
        ensures
            r == (Statistics {
                size: 0,
                loc: 0,
                num_files: 0,
                num_commits: self.file_commits,
                frequency_bits: self.frequency_bits,
            }),
    {
        Statistics {
            size: 0,
            loc: 0,
            num_files: 0,
            num_commits: self.file_commits,
            frequency_bits: self.frequency_bits,
        }
    }
}

/// An error met while reading the git history.
#[derive(Clone, Debug)]
pub enum SourceFileError {
    GitError(String),
}

impl SourceFileError {
    /// The error as text: `Git error: ` and the message.
    pub fn to_text(&self) -> (r: String)
        ensures
            r@ == match self {
                SourceFileError::GitError(m) => "Git error: "@ + m@,
            },
    {
        match self {
            SourceFileError::GitError(m) => {
                let mut out = crate::text::chars_of("Git error: ");
                crate::text::push_all(&mut out, &crate::text::chars_of(m.as_str()));
                crate::text::string_of(&out)
            },
        }
    }
}

/// Reading the contents back gives what was stored: after
/// `set_source_file_contents(c)`, `get_source_file_contents` returns `c`.
pub proof fn lemma_contents_read_back(before: SourceFileInfo, after: SourceFileInfo, contents: String)
    requires
        after.source_file == Some(Box::new(SourceFile { parent: before, contents })),
    ensures
        after.stored_contents() == contents@,
{
}

} // verus!
