//! Code statistics: lines of code, file size, content hash, the language
//! analysis of a file and the RAG status of a reviewed file.
use crate::retrieval::data::{LanguageType, SourceFileInfo};
use crate::review::data::{RAGStatus, SecurityIssue, Severity, SourceFileReview};
use crate::text::{chars_of, ends_with, has_prefix, has_suffix, lines, lines_state, starts_with, strip_cr, trim, trim_chars};
use sha2::Digest;
use vstd::prelude::*;
use vstd::string::StringSliceAdditionalSpecFns;

verus! {

// ---------------------------------------------------------------------------
// Lines of code
// ---------------------------------------------------------------------------

/// The prefixes that mark a comment line: `//`, `///`, `//!`, `#` and `""" `.
pub open spec fn comment_prefixes() -> Seq<Seq<char>> {
    seq![seq!['/', '/'], seq!['/', '/', '/'], seq!['/', '/', '!'], seq!['#'], seq!['"', '"', '"', ' ']]
}

/// Whether a (trimmed) line begins with one of the comment prefixes.
pub open spec fn is_comment_line(t: Seq<char>) -> bool {
    exists|k: int| 0 <= k < comment_prefixes().len() && starts_with(t, #[trigger] comment_prefixes()[k])
}

/// One line of the count: the state is (inside a `/* */` block, lines counted).
///
/// A trimmed line that starts with `/*` opens a block; one that ends with
/// `*/` closes it and is not counted; empty lines, comment lines and lines
/// inside a block are not counted; every other line is.
pub open spec fn loc_step(state: (bool, int), line: Seq<char>) -> (bool, int) {
    let t = trim(line);
    let block = if starts_with(t, seq!['/', '*']) { true } else { state.0 };
    if ends_with(t, seq!['*', '/']) {
        (false, state.1)
    } else if t.len() == 0 || is_comment_line(t) || block {
        (block, state.1)
    } else {
        (block, state.1 + 1)
    }
}

/// The count over a sequence of lines, taken from the first.
pub open spec fn loc_fold(ls: Seq<Seq<char>>) -> (bool, int)
    decreases ls.len(),
{
    if ls.len() == 0 {
        (false, 0)
    } else {
        loc_step(loc_fold(ls.drop_last()), ls.last())
    }
}

/// The lines of code in `content`, skipping comments.
pub open spec fn spec_count_lines_of_code(content: Seq<char>) -> int {
    loc_fold(lines(content)).1
}

/// Whether a trimmed line starts with a comment prefix.
fn starts_with_comment_prefix(t: &[char]) -> (r: bool)
    ensures
        r == is_comment_line(t@),
{
    let p0 = ['/', '/'];
    let p1 = ['/', '/', '/'];
    let p2 = ['/', '/', '!'];
    let p3 = ['#'];
    let p4 = ['"', '"', '"', ' '];
    let r = has_prefix(t, &p0) || has_prefix(t, &p1) || has_prefix(t, &p2) || has_prefix(t, &p3)
        || has_prefix(t, &p4);
    proof {
        assert(p0@ =~= comment_prefixes()[0]);
        assert(p1@ =~= comment_prefixes()[1]);
        assert(p2@ =~= comment_prefixes()[2]);
        assert(p3@ =~= comment_prefixes()[3]);
        assert(p4@ =~= comment_prefixes()[4]);
        if is_comment_line(t@) {
            let k = choose|k: int| 0 <= k < comment_prefixes().len() && starts_with(t@, #[trigger] comment_prefixes()[k]);
            assert(0 <= k < 5);
        }
    }
    r
}

/// One step of the count, on one line.
fn loc_line_step(block: bool, count: i64, line: &[char]) -> (r: (bool, i64))
    requires
        count < i64::MAX,
    ensures
        (r.0, r.1 as int) == loc_step((block, count as int), line@),
{
    let t = trim_chars(line);
    let open = ['/', '*'];
    let close = ['*', '/'];
    assert(open@ =~= seq!['/', '*']);
    assert(close@ =~= seq!['*', '/']);
    let mut block = block;
    if has_prefix(&t, &open) {
        block = true;
    }
    if has_suffix(&t, &close) {
        return (false, count);
    }
    if t.len() == 0 || starts_with_comment_prefix(&t) || block {
        return (block, count);
    }
    (block, count + 1)
}

proof fn lemma_loc_fold_bound(ls: Seq<Seq<char>>)
    ensures
        0 <= loc_fold(ls).1 <= ls.len(),
    decreases ls.len(),
{
    if ls.len() > 0 {
        lemma_loc_fold_bound(ls.drop_last());
    }
}

proof fn lemma_lines_state_bound(s: Seq<char>)
    ensures
        lines_state(s).0.len() <= s.len(),
        lines_state(s).1.len() <= s.len(),
    decreases s.len(),
{
    if s.len() > 0 {
        lemma_lines_state_bound(s.drop_last());
    }
}

/// Counts the lines of code in a file, skipping empty lines, comment lines,
/// lines in `/* */` blocks and the lines that close such a block.
pub fn count_lines_of_code(file_content: String) -> (r: Result<i64, &'static str>)
    requires
        file_content@.len() < i64::MAX,
    ensures
        r matches Ok(n) && n as int == spec_count_lines_of_code(file_content@),
        // never more than the number of lines
        r matches Ok(n) && 0 <= n <= lines(file_content@).len(),
{
    let cs = chars_of(file_content.as_str());
    let ghost s = cs@;
    let mut block = false;
    let mut count: i64 = 0;
    let mut cur: Vec<char> = Vec::new();
    let mut i: usize = 0;
    assert(s.take(0) =~= Seq::<char>::empty());
    while i < cs.len()
        invariant
            s == cs@,
            s.len() < i64::MAX,
            i <= s.len(),
            (block, count as int) == loc_fold(lines_state(s.take(i as int)).0),
            cur@ == lines_state(s.take(i as int)).1,
        decreases s.len() - i,
    {
        proof {
            assert(s.take(i + 1).drop_last() =~= s.take(i as int));
            lemma_loc_fold_bound(lines_state(s.take(i as int)).0);
            lemma_lines_state_bound(s.take(i as int));
        }
        let c = cs[i];
        if c == '\n' {
            let stripped = if cur.len() > 0 && cur[cur.len() - 1] == '\r' {
                let mut d = cur.clone();
                d.pop();
                d
            } else {
                cur.clone()
            };
            assert(stripped@ == strip_cr(cur@));
            let (b, n) = loc_line_step(block, count, &stripped);
            block = b;
            count = n;
            cur = Vec::new();
            proof {
                let done = lines_state(s.take(i as int)).0;
                assert(done.push(strip_cr(lines_state(s.take(i as int)).1)).drop_last() =~= done);
            }
        } else {
            cur.push(c);
        }
        i = i + 1;
    }
    assert(s.take(i as int) =~= s);
    if cur.len() > 0 {
        proof {
            lemma_loc_fold_bound(lines_state(s).0);
            lemma_lines_state_bound(s);
        }
        let (b, n) = loc_line_step(block, count, &cur);
        proof {
            let done = lines_state(s).0;
            assert(done.push(cur@).drop_last() =~= done);
        }
        count = n;
    }
    proof {
        lemma_loc_fold_bound(lines(s));
    }
    Ok(count)
}

/// Whether the trimmed line `t` is code as the count sees it: not empty,
/// not starting with `//` (which covers `///` and `//!`), `#` or `""" `, and
/// neither opening (`/*`) nor closing (`*/`) a block comment.
pub open spec fn plain_code_text(t: Seq<char>) -> bool {
    &&& t.len() > 0
    &&& !starts_with(t, seq!['/', '/'])
    &&& !starts_with(t, seq!['#'])
    &&& !starts_with(t, seq!['"', '"', '"', ' '])
    &&& !starts_with(t, seq!['/', '*'])
    &&& !ends_with(t, seq!['*', '/'])
}

proof fn lemma_not_comment_line(t: Seq<char>)
    requires
        plain_code_text(t),
    ensures
        !is_comment_line(t),
{
    assert forall|k: int| 0 <= k < comment_prefixes().len() implies !starts_with(t, #[trigger] comment_prefixes()[k]) by {
        if k == 1 || k == 2 {
            if starts_with(t, comment_prefixes()[k]) {
                assert(t.take(2) =~= t.take(3).take(2));
                assert(comment_prefixes()[k].take(2) =~= seq!['/', '/']);
                assert(starts_with(t, seq!['/', '/']));
            }
        }
    }
}

/// Lines of which none opens a block comment leave the count outside any block.
proof fn lemma_no_block_opened(ls: Seq<Seq<char>>)
    requires
        forall|i: int| 0 <= i < ls.len() ==> !starts_with(trim(#[trigger] ls[i]), seq!['/', '*']),
    ensures
        loc_fold(ls).0 == false,
    decreases ls.len(),
{
    if ls.len() > 0 {
        assert forall|i: int| 0 <= i < ls.drop_last().len() implies !starts_with(trim(#[trigger] ls.drop_last()[i]), seq!['/', '*']) by {
            assert(ls.drop_last()[i] == ls[i]);
        }
        lemma_no_block_opened(ls.drop_last());
        assert(!starts_with(trim(ls[ls.len() - 1]), seq!['/', '*']));
    }
}

/// Splitting text that ends a line (or is empty), followed by a piece with
/// no line break, leaves that piece as the line in progress.
proof fn lemma_lines_state_append(content: Seq<char>, piece: Seq<char>)
    requires
        content.len() == 0 || content.last() == '\n',
        forall|i: int| 0 <= i < piece.len() ==> piece[i] != '\n',
    ensures
        lines_state(content + piece) == (lines_state(content).0, piece),
    decreases piece.len(),
{
    if piece.len() == 0 {
        assert(content + piece =~= content);
        if content.len() > 0 {
            assert(content.drop_last() + seq!['\n'] =~= content);
        }
    } else {
        lemma_lines_state_append(content, piece.drop_last());
        assert((content + piece).drop_last() =~= content + piece.drop_last());
        assert(piece.drop_last().push(piece.last()) =~= piece);
    }
}

/// Every line of code counts once: a line that, trimmed, is not empty, is
/// not a comment and neither opens nor closes a block comment adds exactly
/// one to the count of the lines before it, when none of those opened a
/// block comment.
pub proof fn law_code_line_counts_once(content: Seq<char>, line: Seq<char>)
    requires
        content.len() == 0 || content.last() == '\n',
        forall|i: int| 0 <= i < line.len() ==> line[i] != '\n' && line[i] != '\r',
        plain_code_text(trim(line)),
        forall|i: int| 0 <= i < lines(content).len() ==> !starts_with(trim(#[trigger] lines(content)[i]), seq!['/', '*']),
    ensures
        spec_count_lines_of_code(content + line + seq!['\n']) == spec_count_lines_of_code(content) + 1,
        spec_count_lines_of_code(content + line) == spec_count_lines_of_code(content) + 1,
{
    let done = lines_state(content).0;
    lemma_lines_state_append(content, Seq::empty());
    assert(content + Seq::<char>::empty() =~= content);
    assert(lines(content) == done);
    lemma_lines_state_append(content, line);
    let whole = content + line + seq!['\n'];
    assert(whole.drop_last() =~= content + line);
    assert(strip_cr(line) == line) by {
        if line.len() > 0 {
            assert(line[line.len() - 1] != '\r');
        }
    }
    assert(lines_state(whole) == (done.push(line), Seq::<char>::empty()));
    assert(lines(whole) == done.push(line));
    assert(done.push(line).drop_last() =~= done);
    lemma_no_block_opened(done);
    lemma_not_comment_line(trim(line));
    if line.len() > 0 {
        assert(lines(content + line) == done.push(line));
    } else {
        assert(trim(line) =~= Seq::<char>::empty()) by {
            assert(crate::text::trim_start(line) == line);
            assert(crate::text::trim_end(line) == line);
        }
    }
}

/// A text made only of lines of code (each, trimmed, not empty, not a
/// comment and neither opening nor closing a block comment) counts every
/// one of its lines.
pub proof fn law_code_lines_all_count(content: Seq<char>)
    requires
        forall|i: int| 0 <= i < lines(content).len() ==> plain_code_text(trim(#[trigger] lines(content)[i])),
    ensures
        spec_count_lines_of_code(content) == lines(content).len(),
{
    lemma_all_code_fold(lines(content));
}

proof fn lemma_all_code_fold(ls: Seq<Seq<char>>)
    requires
        forall|i: int| 0 <= i < ls.len() ==> plain_code_text(trim(#[trigger] ls[i])),
    ensures
        loc_fold(ls) == (false, ls.len() as int),
    decreases ls.len(),
{
    if ls.len() > 0 {
        assert forall|i: int| 0 <= i < ls.drop_last().len() implies plain_code_text(trim(#[trigger] ls.drop_last()[i])) by {
            assert(ls.drop_last()[i] == ls[i]);
        }
        lemma_all_code_fold(ls.drop_last());
        assert(plain_code_text(trim(ls[ls.len() - 1])));
        lemma_not_comment_line(trim(ls.last()));
    }
}

// ---------------------------------------------------------------------------
// File size and content hash
// ---------------------------------------------------------------------------

/// The size of the file contents in bytes (their UTF-8 encoding).
pub fn get_file_contents_size(file_contents: &str) -> (r: Result<u64, &'static str>)
    ensures
        r matches Ok(n) && n == file_contents.spec_bytes().len() as usize,
{
    let n = file_contents.len();
    Ok(n as u64)
}

/// What the SHA-256 digest of the `sha2` crate returns for `data`.
pub uninterp spec fn sha256_of(data: Seq<u8>) -> Seq<u8>;

/// `sha2::Sha256::digest`: the SHA-256 digest of `data`, which is 32 bytes
/// long (the output size of SHA-256). Nothing else is stated of its value.
#[verifier::external_body]
fn sha256_digest(data: &[u8]) -> (r: Vec<u8>)
    ensures
        r@ == sha256_of(data@),
        r@.len() == 32,
{
    sha2::Sha256::digest(data).to_vec()
}

/// The lowercase hexadecimal digit for `d` (0..16).
pub open spec fn hex_digit(d: int) -> char {
    if d < 10 {
        ((d + 48) as u8) as char
    } else {
        ((d - 10 + 97) as u8) as char
    }
}

/// Lowercase hexadecimal of `bytes`, two digits per byte, high nibble first.
pub open spec fn hex_lower(bytes: Seq<u8>) -> Seq<char>
    decreases bytes.len(),
{
    if bytes.len() == 0 {
        Seq::empty()
    } else {
        hex_lower(bytes.drop_last()) + seq![hex_digit((bytes.last() / 16) as int), hex_digit((bytes.last() % 16) as int)]
    }
}

fn hex_char(d: u8) -> (r: char)
    requires
        d < 16,
    ensures
        r == hex_digit(d as int),
{
    if d < 10 {
        (d + 48) as char
    } else {
        (d - 10 + 97) as char
    }
}

proof fn lemma_hex_lower_len(bytes: Seq<u8>)
    ensures
        hex_lower(bytes).len() == 2 * bytes.len(),
    decreases bytes.len(),
{
    if bytes.len() > 0 {
        lemma_hex_lower_len(bytes.drop_last());
    }
}

/// The bytes as lowercase hexadecimal, two digits per byte, high nibble
/// first (as `{:x}` formats a digest).
pub fn hex_lower_string(bytes: &[u8]) -> (r: String)
    ensures
        r@ == hex_lower(bytes@),
        r@.len() == 2 * bytes@.len(),
{
    let mut out: Vec<char> = Vec::new();
    let mut i: usize = 0;
    while i < bytes.len()
        invariant
            i <= bytes@.len(),
            out@ == hex_lower(bytes@.take(i as int)),
        decreases bytes@.len() - i,
    {
        let b = bytes[i];
        out.push(hex_char(b / 16));
        out.push(hex_char(b % 16));
        assert(bytes@.take(i + 1).drop_last() =~= bytes@.take(i as int));
        i = i + 1;
    }
    assert(bytes@.take(i as int) =~= bytes@);
    proof {
        lemma_hex_lower_len(bytes@);
    }
    crate::text::string_of(&out)
}

/// Calculates the SHA-256 hash of `content` as lowercase hexadecimal.
pub fn calculate_hash_from(content: &str) -> (r: String)
    ensures
        r@ == hex_lower(sha256_of(content.spec_bytes())),
        r@.len() == 64,
{
    let digest = sha256_digest(content.as_bytes());
    hex_lower_string(&digest)
}

// ---------------------------------------------------------------------------
// RAG status of a reviewed file
// ---------------------------------------------------------------------------

/// Whether `count / loc <= num / den`, with the quotient taken as a
/// floating-point (`f64`) division gives it: a negative `loc` gives a quotient of at most
/// zero, which is within any of the (positive) thresholds; a zero `loc`
/// gives NaN or +infinity, which is within none. For `loc` and `count`
/// below 7 * 10^14 the `f64` comparison and this exact one agree.
pub open spec fn ratio_within(count: int, loc: int, num: int, den: int) -> bool {
    if loc > 0 {
        count * den <= num * loc
    } else if loc < 0 {
        true
    } else {
        false
    }
}

/// The number of items in an optional list (zero when absent).
pub open spec fn opt_len<T>(o: Option<Vec<T>>) -> int {
    match o {
        Some(v) => v@.len() as int,
        None => 0,
    }
}

/// Whether the list holds a security issue of high or critical severity.
pub open spec fn has_severe_issue(o: Option<Vec<SecurityIssue>>) -> bool {
    match o {
        Some(v) => exists|i: int|
            0 <= i < v@.len() && (#[trigger] v@[i].severity == Severity::High || v@[i].severity
                == Severity::Critical),
        None => false,
    }
}

/// The RAG status of a reviewed file with these counts and lines of code.
///
/// Red when any security issue is high or critical. Green when errors are
/// at most 7%, security issues at most 5% and improvements at most 15% of
/// the lines of code; else Amber when they are at most 18%, 12% and 40%;
/// else Red.
pub open spec fn spec_rag_status(severe: bool, errors: int, security: int, improvements: int, loc: int) -> RAGStatus {
    if severe {
        RAGStatus::Red
    } else if ratio_within(errors, loc, 7, 100) && ratio_within(security, loc, 5, 100)
        && ratio_within(improvements, loc, 15, 100) {
        RAGStatus::Green
    } else if ratio_within(errors, loc, 18, 100) && ratio_within(security, loc, 12, 100)
        && ratio_within(improvements, loc, 40, 100) {
        RAGStatus::Amber
    } else {
        RAGStatus::Red
    }
}

/// The RAG status of `r`, by the rule of [`spec_rag_status`].
pub open spec fn spec_rag_status_for_reviewed_file(r: SourceFileReview) -> RAGStatus {
    spec_rag_status(
        has_severe_issue(r.security_issues),
        opt_len(r.errors),
        opt_len(r.security_issues),
        opt_len(r.improvements),
        r.source_file_info.statistics.loc as int,
    )
}

fn within(count: usize, loc: i64, num: i128, den: i128) -> (r: bool)
    requires
        0 < num <= 100,
        0 < den <= 100,
    ensures
        r == ratio_within(count as int, loc as int, num as int, den as int),
{
    if loc > 0 {
        proof {
            assert(0 <= count as int * den <= 100 * 0x1_0000_0000_0000_0000) by (nonlinear_arith)
                requires 0 < den <= 100, count <= 0xffff_ffff_ffff_ffff;
            assert(0 <= num * loc as int <= 100 * 0x8000_0000_0000_0000) by (nonlinear_arith)
                requires 0 < num <= 100, 0 < loc <= 0x7fff_ffff_ffff_ffff;
        }
        (count as i128) * den <= num * (loc as i128)
    } else if loc < 0 {
        true
    } else {
        false
    }
}

fn opt_vec_len<T>(o: &Option<Vec<T>>) -> (r: usize)
    ensures
        r as int == opt_len(*o),
{
    match o {
        Some(v) => v.len(),
        None => 0,
    }
}

/// Calculates the RAG status for a reviewed file from its counts of errors,
/// improvements and security issues relative to its lines of code.
///
/// Any security issue of high or critical severity makes it Red.
pub fn calculate_rag_status_for_reviewed_file(reviewed_file: &SourceFileReview) -> (r: Option<RAGStatus>)
    ensures
        r == Some(spec_rag_status_for_reviewed_file(*reviewed_file)),
        has_severe_issue(reviewed_file.security_issues) ==> r == Some(RAGStatus::Red),
{
    let errors_count = opt_vec_len(&reviewed_file.errors);
    let improvements_count = opt_vec_len(&reviewed_file.improvements);
    let security_issues_count = opt_vec_len(&reviewed_file.security_issues);
    let loc = reviewed_file.source_file_info.statistics.loc;

    if let Some(security_issues) = &reviewed_file.security_issues {
        let mut i: usize = 0;
        while i < security_issues.len()
            invariant
                reviewed_file.security_issues == Some(*security_issues),
                i <= security_issues@.len(),
                forall|j: int|
                    0 <= j < i ==> !(#[trigger] security_issues@[j].severity == Severity::High
                        || security_issues@[j].severity == Severity::Critical),
            decreases security_issues@.len() - i,
        {
            match security_issues[i].severity {
                Severity::High | Severity::Critical => return Some(RAGStatus::Red),
                _ => {},
            }
            i = i + 1;
        }
    }
    if within(errors_count, loc, 7, 100) && within(security_issues_count, loc, 5, 100) && within(
        improvements_count,
        loc,
        15,
        100,
    ) {
        return Some(RAGStatus::Green);
    } else if within(errors_count, loc, 18, 100) && within(security_issues_count, loc, 12, 100)
        && within(improvements_count, loc, 40, 100) {
        return Some(RAGStatus::Amber);
    }
    Some(RAGStatus::Red)
}

// ---------------------------------------------------------------------------
// Language analysis of a file
// ---------------------------------------------------------------------------

/// The scope of a language, as GitHub Linguist classifies it.
#[derive(Clone, Copy, Debug, PartialEq, Eq, Structural)]
pub enum LanguageScope {
    Programming,
    Markup,
    Data,
    Prose,
}

/// A language resolved for a file's contents: its name, its file
/// extensions in the order the language data lists them (`None` for one that
/// is not valid UTF-8), and its scope.
#[derive(Debug)]
pub struct ResolvedLanguage {
    pub name: String,
    pub extensions: Vec<Option<String>>,
    pub scope: LanguageScope,
}

/// The extension a language type takes from a resolved language: its first
/// extension; empty when it has none or the first is not valid UTF-8.
pub open spec fn first_extension(extensions: Seq<Option<String>>) -> Seq<char> {
    if extensions.len() > 0 && extensions[0] is Some {
        extensions[0]->0@
    } else {
        Seq::empty()
    }
}

/// Whether `l` is the language type of the resolved language `res`: its
/// name, its first extension, and no statistics yet.
pub open spec fn is_language_type_of(l: LanguageType, res: ResolvedLanguage) -> bool {
    &&& l.name@ == res.name@
    &&& l.extension@ == first_extension(res.extensions@)
    &&& l.statistics is None
}

impl LanguageType {
    /// The language type of a resolved language: its name and first
    /// extension, with no statistics yet (they are counted later).
    pub fn from_language(language: &ResolvedLanguage) -> (r: LanguageType)
        ensures
            is_language_type_of(r, *language),
    {
        let extension = if language.extensions.len() > 0 {
            match &language.extensions[0] {
                Some(e) => e.clone(),
                None => String::new(),
            }
        } else {
            String::new()
        };
        LanguageType { name: language.name.clone(), extension, statistics: None }
    }
}

/// What the GitHub Linguist data says of a file: whether its path is
/// vendored code, documentation or a dot file, whether its extension is a
/// configuration format, and the language resolved from its contents.
#[derive(Debug)]
pub struct FileClassification {
    pub is_vendor: bool,
    pub is_documentation: bool,
    pub is_dotfile: bool,
    pub is_configuration: bool,
    pub resolved: Option<ResolvedLanguage>,
}

/// Whether the classification excludes the file from the review:
/// vendored, documentation, a dot file, or (for a file with a language) configuration.
pub open spec fn is_excluded(file_info: SourceFileInfo, c: FileClassification) -> bool {
    c.is_vendor || c.is_documentation || c.is_dotfile || (file_info.language is Some && c.is_configuration)
}

/// Whether the classification makes the file a source file to review.
pub open spec fn is_reviewable(file_info: SourceFileInfo, c: FileClassification) -> bool {
    &&& !is_excluded(file_info, c)
    &&& c.resolved matches Some(res)
    &&& (res.scope == LanguageScope::Programming || res.scope == LanguageScope::Markup)
}

/// Analyses a file's language: a file that is not excluded and whose
/// resolved language is a programming or markup language gets that
/// language (its name and first extension, with no statistics), its size in bytes, its lines of code and one more file counted;
/// the result says whether it did. Otherwise the file is left as it was.
pub fn analyse_file_language(file_info: &mut SourceFileInfo, classification: &FileClassification) -> (r: bool)
    requires
        old(file_info).language is Some || classification.is_vendor || classification.is_documentation
            || classification.is_dotfile,
        old(file_info).statistics.num_files < i32::MAX,
        match old(file_info).source_file {
            Some(sf) => sf.contents@.len() < i64::MAX,
            None => true,
        },
    ensures
        r == is_reviewable(*old(file_info), *classification),
        !r ==> *final(file_info) == *old(file_info),
        r ==> {
            let contents = match old(file_info).source_file {
                Some(sf) => sf.contents@,
                None => Seq::<char>::empty(),
            };
            &&& final(file_info).language matches Some(l) && is_language_type_of(l, classification.resolved->0)
            &&& final(file_info).statistics.size == (vstd::utf8::encode_utf8(contents).len() as usize) as i64
            &&& final(file_info).statistics.loc == spec_count_lines_of_code(contents)
            &&& final(file_info).statistics.num_files == old(file_info).statistics.num_files + 1
            &&& final(file_info).statistics.num_commits == old(file_info).statistics.num_commits
            &&& final(file_info).statistics.frequency_bits == old(file_info).statistics.frequency_bits
            &&& final(file_info).name == old(file_info).name
            &&& final(file_info).relative_path == old(file_info).relative_path
            &&& final(file_info).id_hash == old(file_info).id_hash
            &&& final(file_info).source_file == old(file_info).source_file
        },
{
    if classification.is_vendor || classification.is_documentation || classification.is_dotfile || (
    file_info.language.is_some() && classification.is_configuration) {
        return false;
    }
    let language = match &classification.resolved {
        Some(res) => {
            if res.scope != LanguageScope::Programming && res.scope != LanguageScope::Markup {
                return false;
            }
            LanguageType::from_language(res)
        },
        None => return false,
    };
    let contents = file_info.get_source_file_contents();
    let file_size: i64 = match get_file_contents_size(contents.as_str()) {
        Ok(size) => size as i64,
        Err(_) => 0,
    };
    let loc: i64 = match count_lines_of_code(contents) {
        Ok(num_lines) => num_lines,
        Err(_) => 0,
    };
    file_info.language = Some(language);
    file_info.statistics.size = file_size;
    file_info.statistics.loc = loc;
    file_info.statistics.num_files = file_info.statistics.num_files + 1;
    true
}

/// The severity order of the statuses: Green, then Amber, then Red.
pub open spec fn rag_rank(r: RAGStatus) -> int {
    match r {
        RAGStatus::Green => 0,
        RAGStatus::Amber => 1,
        RAGStatus::Red => 2,
    }
}

/// The thresholds of a reviewed file's status, as fractions of its lines
/// of code: with no high or critical security issue and some lines of code,
/// it is Green exactly when errors are at most 7%, security issues at most
/// 5% and improvements at most 15% of them; Amber exactly when it is not
/// Green and they are at most 18%, 12% and 40%; Red otherwise. A high or
/// critical security issue, or no lines of code, makes it Red.
pub proof fn law_file_rag_thresholds(review: SourceFileReview)
    ensures
        ({
            let loc = review.source_file_info.statistics.loc as int;
            let errors = opt_len(review.errors);
            let security = opt_len(review.security_issues);
            let improvements = opt_len(review.improvements);
            let status = spec_rag_status_for_reviewed_file(review);
            let green = errors * 100 <= 7 * loc && security * 100 <= 5 * loc && improvements * 100 <= 15 * loc;
            let amber = errors * 100 <= 18 * loc && security * 100 <= 12 * loc && improvements * 100 <= 40 * loc;
            &&& has_severe_issue(review.security_issues) ==> status == RAGStatus::Red
            &&& loc == 0 ==> status == RAGStatus::Red
            &&& (loc > 0 && !has_severe_issue(review.security_issues)) ==> {
                &&& (status == RAGStatus::Green <==> green)
                &&& (status == RAGStatus::Amber <==> !green && amber)
                &&& (status == RAGStatus::Red <==> !green && !amber)
            }
        }),
{
}

/// More errors, security issues or improvements in a file of the same
/// size, or a severe issue, never make its status better.
pub proof fn lemma_rag_status_monotonic(
    severe: bool,
    errors: int,
    security: int,
    improvements: int,
    more_severe: bool,
    more_errors: int,
    more_security: int,
    more_improvements: int,
    loc: int,
)
    requires
        severe ==> more_severe,
        errors <= more_errors,
        security <= more_security,
        improvements <= more_improvements,
    ensures
        rag_rank(spec_rag_status(severe, errors, security, improvements, loc)) <= rag_rank(
            spec_rag_status(more_severe, more_errors, more_security, more_improvements, loc),
        ),
{
}

} // verus!
