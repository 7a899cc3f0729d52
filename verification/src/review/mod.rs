//! The review of a repository: summaries, RAG rules, and the handling of
//! the responses returned by a generative AI provider.
pub mod code;
pub mod data;
pub mod report;
pub mod tools;

use crate::patterns::regex_replace_all;
use crate::retrieval::code::calculate_rag_status_for_reviewed_file;
use crate::retrieval::code::spec_rag_status_for_reviewed_file;
use crate::retrieval::data::{str_eq, LanguageType, SourceFileInfo, Statistics};
use crate::review::data::{
    RAGStatus, RepositoryReview, ReviewSummary, SecurityIssue, SecurityIssueBreakdown, Severity,
    SourceFileReview,
};
use crate::text::{without_c0_controls, chars_of, first_index_of, last_index_of, find_char, rfind_char, slice_chars, string_of};
use crate::provider::prompts::{filled_prompt, review_prompt_content, PromptData, TokenError};
use crate::provider::api::ProviderCompletionResponse;
use crate::settings::{ProviderSettings, ReviewType, Settings};
use vstd::prelude::*;

verus! {

// ---------------------------------------------------------------------------
// Repository statistics
// ---------------------------------------------------------------------------

/// Adds a processed file's size and lines of code to the repository
/// statistics and counts one more file.
pub fn update_repository_review_statistics(review: &mut RepositoryReview, file_info: &SourceFileInfo)
    requires
        i64::MIN <= old(review).statistics.size + file_info.statistics.size <= i64::MAX,
        i64::MIN <= old(review).statistics.loc + file_info.statistics.loc <= i64::MAX,
        old(review).statistics.num_files < i32::MAX,
    ensures
        final(review).statistics == (Statistics {
            size: (old(review).statistics.size + file_info.statistics.size) as i64,
            loc: (old(review).statistics.loc + file_info.statistics.loc) as i64,
            num_files: (old(review).statistics.num_files + 1) as i32,
            ..old(review).statistics
        }),
        final(review).file_reviews == old(review).file_reviews,
        final(review).summary == old(review).summary,
        final(review).repository_name == old(review).repository_name,
{
    review.statistics.size = review.statistics.size + file_info.statistics.size;
    review.statistics.loc = review.statistics.loc + file_info.statistics.loc;
    review.statistics.num_files = review.statistics.num_files + 1;
}

// ---------------------------------------------------------------------------
// Language type breakdown
// ---------------------------------------------------------------------------

/// Index of the first language type named `name`.
pub open spec fn first_named(ls: Seq<LanguageType>, name: Seq<char>) -> Option<int> {
    if exists|i: int| 0 <= i < ls.len() && (#[trigger] ls[i]).name@ == name {
        Some(choose|i: int| 0 <= i < ls.len() && (#[trigger] ls[i]).name@ == name && forall|j: int| 0 <= j < i ==> ls[j].name@ != name)
    } else {
        None
    }
}

/// No two language types share a name.
pub open spec fn names_unique(ls: Seq<LanguageType>) -> bool {
    forall|i: int, j: int| 0 <= i < j < ls.len() ==> (#[trigger] ls[i]).name@ != (#[trigger] ls[j]).name@
}

/// `l` with a file's size and lines of code added and one more file counted,
/// when it has statistics; unchanged otherwise.
pub open spec fn with_file_added(l: LanguageType, s: Statistics) -> LanguageType {
    match l.statistics {
        Some(st) => LanguageType {
            statistics: Some(Statistics {
                size: (st.size + s.size) as i64,
                loc: (st.loc + s.loc) as i64,
                num_files: (st.num_files + 1) as i32,
                ..st
            }),
            ..l
        },
        None => l,
    }
}

/// Whether adding the file's statistics to the breakdown stays within range.
pub open spec fn breakdown_update_fits(ls: Seq<LanguageType>, f: SourceFileInfo) -> bool {
    match first_named(ls, f.language->0.name@) {
        Some(i) => match ls[i].statistics {
            Some(st) => {
                &&& i64::MIN <= st.size + f.statistics.size <= i64::MAX
                &&& i64::MIN <= st.loc + f.statistics.loc <= i64::MAX
                &&& st.num_files < i32::MAX
            },
            None => true,
        },
        None => true,
    }
}

/// The breakdown after one more file: its language type, found by name,
/// has the file's statistics added; a new language type is appended with
/// the file's statistics otherwise.
pub open spec fn spec_breakdown_after(ls: Seq<LanguageType>, f: SourceFileInfo) -> Seq<LanguageType> {
    let lang = f.language->0;
    match first_named(ls, lang.name@) {
        Some(i) => ls.update(i, with_file_added(ls[i], f.statistics)),
        None => ls.push(LanguageType { statistics: Some(f.statistics), ..lang }),
    }
}

/// Updates the language type statistics with a processed file, adding a
/// new language type for a language not seen before.
pub fn update_language_type_statistics(lang_type_breakdown: &mut Vec<LanguageType>, file_info: &SourceFileInfo)
    requires
        file_info.language is Some,
        breakdown_update_fits(old(lang_type_breakdown)@, *file_info),
    ensures
        final(lang_type_breakdown)@ == spec_breakdown_after(old(lang_type_breakdown)@, *file_info),
        // names stay unique
        names_unique(old(lang_type_breakdown)@) ==> names_unique(final(lang_type_breakdown)@),
{
    let lang = match &file_info.language {
        Some(l) => l,
        None => { return; },
    };
    let ghost ls = lang_type_breakdown@;
    let mut i: usize = 0;
    let mut found: Option<usize> = None;
    while i < lang_type_breakdown.len()
        invariant_except_break
            found is None,
        invariant
            ls == lang_type_breakdown@,
            i <= ls.len(),
            forall|j: int| 0 <= j < i ==> ls[j].name@ != lang.name@,
        ensures
            match found {
                Some(k) => k < ls.len() && ls[k as int].name@ == lang.name@ && forall|j: int| 0 <= j < k ==> ls[j].name@ != lang.name@,
                None => forall|j: int| 0 <= j < ls.len() ==> ls[j].name@ != lang.name@,
            },
        decreases ls.len() - i,
    {
        if str_eq(lang_type_breakdown[i].name.as_str(), lang.name.as_str()) {
            found = Some(i);
            break;
        }
        i = i + 1;
    }
    match found {
        Some(index) => {
            proof {
                let k = choose|k: int| 0 <= k < ls.len() && (#[trigger] ls[k]).name@ == lang.name@ && forall|j: int| 0 <= j < k ==> ls[j].name@ != lang.name@;
                assert(0 <= k < ls.len() && ls[k].name@ == lang.name@ && forall|j: int| 0 <= j < k ==> ls[j].name@ != lang.name@);
                if k < index {
                    assert(ls[k].name@ != lang.name@);
                } else if k > index {
                    assert(ls[index as int].name@ != lang.name@);
                }
                assert(k == index);
            }
            let old_entry = lang_type_breakdown[index].duplicate();
            let updated = match old_entry.statistics {
                Some(st) => LanguageType {
                    name: old_entry.name,
                    extension: old_entry.extension,
                    statistics: Some(Statistics {
                        size: st.size + file_info.statistics.size,
                        loc: st.loc + file_info.statistics.loc,
                        num_files: st.num_files + 1,
                        ..st
                    }),
                },
                None => old_entry,
            };
            lang_type_breakdown.set(index, updated);
            assert(lang_type_breakdown@ =~= ls.update(index as int, with_file_added(ls[index as int], file_info.statistics)));
        },
        None => {
            let new_lang_type = LanguageType {
                name: lang.name.clone(),
                extension: lang.extension.clone(),
                statistics: Some(file_info.statistics),
            };
            lang_type_breakdown.push(new_lang_type);
        },
    }
}

// ---------------------------------------------------------------------------
// Review summary
// ---------------------------------------------------------------------------

/// An empty [`ReviewSummary`]: no text, all counts zero, no documentation state.
pub fn initialise_review_summary_section() -> (r: ReviewSummary)
    ensures
        r.text@ == Seq::<char>::empty(),
        r.security_issues == (SecurityIssueBreakdown { low: 0, medium: 0, high: 0, critical: 0, total: 0 }),
        r.errors == 0,
        r.improvements == 0,
        r.documentation is None,
{
    ReviewSummary {
        text: String::new(),
        security_issues: SecurityIssueBreakdown { low: 0, medium: 0, high: 0, critical: 0, total: 0 },
        errors: 0,
        improvements: 0,
        documentation: None,
    }
}

/// The number of issues of severity `sev` in `v`.
pub open spec fn count_severity(v: Seq<SecurityIssue>, sev: Severity) -> int
    decreases v.len(),
{
    if v.len() == 0 {
        0
    } else {
        count_severity(v.drop_last(), sev) + if v.last().severity == sev { 1int } else { 0int }
    }
}

/// The issues in an optional list (none when absent).
pub open spec fn issues_of(o: Option<Vec<SecurityIssue>>) -> Seq<SecurityIssue> {
    match o {
        Some(v) => v@,
        None => Seq::empty(),
    }
}

/// The breakdown with the issues of `v` counted.
pub open spec fn breakdown_after(b: SecurityIssueBreakdown, v: Seq<SecurityIssue>) -> SecurityIssueBreakdown {
    SecurityIssueBreakdown {
        low: (b.low + count_severity(v, Severity::Low)) as i32,
        medium: (b.medium + count_severity(v, Severity::Medium)) as i32,
        high: (b.high + count_severity(v, Severity::High)) as i32,
        critical: (b.critical + count_severity(v, Severity::Critical)) as i32,
        total: (b.total + v.len()) as i32,
    }
}

/// Whether counting the issues of `v` into `b` stays within range.
pub open spec fn breakdown_fits(b: SecurityIssueBreakdown, v: Seq<SecurityIssue>) -> bool {
    &&& b.low + count_severity(v, Severity::Low) <= i32::MAX
    &&& b.medium + count_severity(v, Severity::Medium) <= i32::MAX
    &&& b.high + count_severity(v, Severity::High) <= i32::MAX
    &&& b.critical + count_severity(v, Severity::Critical) <= i32::MAX
    &&& b.total + v.len() <= i32::MAX
}

/// The breakdown's total equals the sum of its severities.
pub open spec fn breakdown_consistent(b: SecurityIssueBreakdown) -> bool {
    b.total == b.low + b.medium + b.high + b.critical
}

proof fn lemma_count_severity_bounds(v: Seq<SecurityIssue>)
    ensures
        count_severity(v, Severity::Low) + count_severity(v, Severity::Medium) + count_severity(v, Severity::High)
            + count_severity(v, Severity::Critical) == v.len(),
        0 <= count_severity(v, Severity::Low) <= v.len(),
        0 <= count_severity(v, Severity::Medium) <= v.len(),
        0 <= count_severity(v, Severity::High) <= v.len(),
        0 <= count_severity(v, Severity::Critical) <= v.len(),
    decreases v.len(),
{
    if v.len() > 0 {
        lemma_count_severity_bounds(v.drop_last());
    }
}

/// Counts a file's issues into `breakdown`, by severity and in total.
fn count_issues(breakdown: &mut SecurityIssueBreakdown, issues: &Vec<SecurityIssue>)
    requires
        breakdown_fits(*old(breakdown), issues@),
    ensures
        *final(breakdown) == breakdown_after(*old(breakdown), issues@),
{
    let ghost b0 = *breakdown;
    let mut i: usize = 0;
    proof {
        lemma_count_severity_bounds(issues@);
    }
    assert(issues@.take(0) =~= Seq::<SecurityIssue>::empty());
    while i < issues.len()
        invariant
            i <= issues@.len(),
            breakdown_fits(b0, issues@),
            breakdown.low == b0.low + count_severity(issues@.take(i as int), Severity::Low),
            breakdown.medium == b0.medium + count_severity(issues@.take(i as int), Severity::Medium),
            breakdown.high == b0.high + count_severity(issues@.take(i as int), Severity::High),
            breakdown.critical == b0.critical + count_severity(issues@.take(i as int), Severity::Critical),
            breakdown.total == b0.total + i,
        decreases issues@.len() - i,
    {
        proof {
            let t = issues@.take(i + 1);
            assert(t.drop_last() =~= issues@.take(i as int));
            lemma_count_severity_bounds(t);
            lemma_count_severity_bounds(issues@);
            lemma_count_severity_prefix(issues@, i + 1);
        }
        breakdown.total = breakdown.total + 1;
        match issues[i].severity {
            Severity::Low => breakdown.low = breakdown.low + 1,
            Severity::Medium => breakdown.medium = breakdown.medium + 1,
            Severity::High => breakdown.high = breakdown.high + 1,
            Severity::Critical => breakdown.critical = breakdown.critical + 1,
        }
        i = i + 1;
    }
    assert(issues@.take(i as int) =~= issues@);
}

proof fn lemma_count_severity_prefix(v: Seq<SecurityIssue>, k: int)
    requires
        0 <= k <= v.len(),
    ensures
        count_severity(v.take(k), Severity::Low) <= count_severity(v, Severity::Low),
        count_severity(v.take(k), Severity::Medium) <= count_severity(v, Severity::Medium),
        count_severity(v.take(k), Severity::High) <= count_severity(v, Severity::High),
        count_severity(v.take(k), Severity::Critical) <= count_severity(v, Severity::Critical),
    decreases v.len() - k,
{
    if k < v.len() {
        lemma_count_severity_prefix(v, k + 1);
        assert(v.take(k + 1).drop_last() =~= v.take(k));
        lemma_count_severity_bounds(v.take(k + 1));
    } else {
        assert(v.take(k) =~= v);
    }
}

/// Whether folding a reviewed file into the summary stays within range.
pub open spec fn summary_update_fits(s: ReviewSummary, f: SourceFileReview) -> bool {
    &&& opt_count(f.errors) <= i32::MAX
    &&& opt_count(f.improvements) <= i32::MAX
    &&& s.errors + opt_count(f.errors) <= i32::MAX
    &&& s.improvements + opt_count(f.improvements) <= i32::MAX
    &&& breakdown_fits(s.security_issues, issues_of(f.security_issues))
}

/// The number of items in an optional list (zero when absent).
pub open spec fn opt_count<T>(o: Option<Vec<T>>) -> int {
    match o {
        Some(v) => v@.len() as int,
        None => 0,
    }
}

/// Updates the [`ReviewSummary`] with a reviewed file: its errors and
/// improvements are counted, its security issues are counted by severity,
/// its summary is appended as a line of the text, and the file's RAG status
/// is set by [`calculate_rag_status_for_reviewed_file`].
pub fn update_review_summary(review_summary: &mut ReviewSummary, reviewed_file: &mut SourceFileReview)
    requires
        summary_update_fits(*old(review_summary), *old(reviewed_file)),
    ensures
        final(review_summary).errors == old(review_summary).errors + opt_count(old(reviewed_file).errors),
        final(review_summary).improvements == old(review_summary).improvements + opt_count(old(reviewed_file).improvements),
        final(review_summary).security_issues == breakdown_after(old(review_summary).security_issues, issues_of(old(reviewed_file).security_issues)),
        final(review_summary).text@ == old(review_summary).text@ + old(reviewed_file).summary@ + seq!['\n'],
        final(review_summary).documentation == old(review_summary).documentation,
        *final(reviewed_file) == (SourceFileReview {
            file_rag_status: spec_rag_status_for_reviewed_file(*old(reviewed_file)),
            ..*old(reviewed_file)
        }),
        // the total stays the sum of the severities
        breakdown_consistent(old(review_summary).security_issues) ==> breakdown_consistent(final(review_summary).security_issues),
{
    let errors = match &reviewed_file.errors {
        Some(v) => v.len(),
        None => 0,
    };
    let improvements = match &reviewed_file.improvements {
        Some(v) => v.len(),
        None => 0,
    };
    review_summary.errors = review_summary.errors + errors as i32;
    review_summary.improvements = review_summary.improvements + improvements as i32;
    if let Some(issues) = &reviewed_file.security_issues {
        count_issues(&mut review_summary.security_issues, issues);
    } else {
        assert(issues_of(reviewed_file.security_issues) =~= Seq::<SecurityIssue>::empty());
        assert(breakdown_after(review_summary.security_issues, Seq::<SecurityIssue>::empty()) == review_summary.security_issues);
    }
    proof {
        lemma_count_severity_bounds(issues_of(old(reviewed_file).security_issues));
    }
    let mut text = chars_of(review_summary.text.as_str());
    let summary = chars_of(reviewed_file.summary.as_str());
    crate::text::push_all(&mut text, &summary);
    text.push('\n');
    review_summary.text = string_of(&text);
    let status = calculate_rag_status_for_reviewed_file(reviewed_file);
    reviewed_file.file_rag_status = match status {
        Some(s) => s,
        None => RAGStatus::Green,
    };
}

// ---------------------------------------------------------------------------
// Overall RAG status
// ---------------------------------------------------------------------------

/// Whether `count / files > num / den`, with the quotient taken as a
/// floating-point (`f64`) division gives it: with no files, a positive count gives
/// +infinity, which exceeds the threshold, and a zero or negative count gives
/// NaN or -infinity, which does not. For 32-bit counts the `f64`
/// comparison and this exact one agree.
pub open spec fn ratio_exceeds(count: int, files: int, num: int, den: int) -> bool {
    if files > 0 {
        count * den > num * files
    } else if files == 0 {
        count > 0
    } else {
        count * den < num * files
    }
}

/// The overall RAG status of a review: Red when its summary counts a high
/// or critical security issue; Amber when security issues exceed 5%,
/// errors 8% or improvements 60% of the files reviewed; Green otherwise,
/// and Green when it has no summary.
pub open spec fn spec_overall_rag(summary: Option<ReviewSummary>, files: int) -> RAGStatus {
    match summary {
        Some(b) => if b.security_issues.high > 0 || b.security_issues.critical > 0 {
            RAGStatus::Red
        } else if ratio_exceeds(b.security_issues.total as int, files, 5, 100) || ratio_exceeds(
            b.errors as int,
            files,
            8,
            100,
        ) || ratio_exceeds(b.improvements as int, files, 60, 100) {
            RAGStatus::Amber
        } else {
            RAGStatus::Green
        },
        None => RAGStatus::Green,
    }
}

proof fn lemma_severe_counted(v: Seq<SecurityIssue>, i: int)
    requires
        0 <= i < v.len(),
        v[i].severity == Severity::High || v[i].severity == Severity::Critical,
    ensures
        count_severity(v, Severity::High) + count_severity(v, Severity::Critical) > 0,
    decreases v.len(),
{
    lemma_count_severity_bounds(v.drop_last());
    if i < v.len() - 1 {
        assert(v.drop_last()[i] == v[i]);
        lemma_severe_counted(v.drop_last(), i);
    }
}

/// A reviewed file with a high or critical security issue, once counted
/// into the summary (as `update_review_summary` does), makes the
/// repository Red, whatever the other files hold.
pub proof fn lemma_severe_file_makes_repository_red(summary: ReviewSummary, file: SourceFileReview, files: int)
    requires
        crate::retrieval::code::has_severe_issue(file.security_issues),
        summary.security_issues.high >= 0,
        summary.security_issues.critical >= 0,
        breakdown_fits(summary.security_issues, issues_of(file.security_issues)),
    ensures
        spec_overall_rag(
            Some(
                ReviewSummary {
                    security_issues: breakdown_after(summary.security_issues, issues_of(file.security_issues)),
                    ..summary
                },
            ),
            files,
        ) == RAGStatus::Red,
{
    let v = issues_of(file.security_issues);
    let i = choose|i: int|
        0 <= i < v.len() && (#[trigger] v[i].severity == Severity::High || v[i].severity == Severity::Critical);
    lemma_severe_counted(v, i);
    lemma_count_severity_bounds(v);
}

/// More security issues, errors or improvements over the same files never
/// make the repository's status better.
pub proof fn lemma_overall_rag_monotonic(fewer: ReviewSummary, more: ReviewSummary, files: int)
    requires
        0 <= files,
        fewer.security_issues.high <= more.security_issues.high,
        fewer.security_issues.critical <= more.security_issues.critical,
        fewer.security_issues.total <= more.security_issues.total,
        fewer.errors <= more.errors,
        fewer.improvements <= more.improvements,
    ensures
        crate::retrieval::code::rag_rank(spec_overall_rag(Some(fewer), files))
            <= crate::retrieval::code::rag_rank(spec_overall_rag(Some(more), files)),
{
}

/// The thresholds of the repository's status, as fractions of the files
/// reviewed: with a summary that counts no high or critical security issue
/// and some files, it is Amber exactly when security issues exceed 5%,
/// errors 8% or improvements 60% of the files, and Green otherwise. A
/// counted high or critical issue makes it Red; no summary makes it Green.
pub proof fn law_overall_rag_thresholds(b: ReviewSummary, files: int)
    ensures
        spec_overall_rag(None, files) == RAGStatus::Green,
        b.security_issues.high > 0 || b.security_issues.critical > 0
            ==> spec_overall_rag(Some(b), files) == RAGStatus::Red,
        ({
            let over = b.security_issues.total * 100 > 5 * files || b.errors * 100 > 8 * files
                || b.improvements * 100 > 60 * files;
            (b.security_issues.high <= 0 && b.security_issues.critical <= 0 && files > 0) ==> {
                &&& (spec_overall_rag(Some(b), files) == RAGStatus::Amber <==> over)
                &&& (spec_overall_rag(Some(b), files) == RAGStatus::Green <==> !over)
            }
        }),
{
}

/// Adding a file of a language already in the breakdown adds its size and
/// lines of code to that language's and counts one more file there; the
/// language keeps its name and extension, its other statistics, and every
/// other entry is unchanged.
pub proof fn law_breakdown_adds_file_to_its_language(ls: Seq<LanguageType>, f: SourceFileInfo, i: int)
    requires
        f.language is Some,
        0 <= i < ls.len(),
        ls[i].name@ == f.language->0.name@,
        forall|j: int| 0 <= j < i ==> ls[j].name@ != f.language->0.name@,
        ls[i].statistics is Some,
        i64::MIN <= ls[i].statistics->0.size + f.statistics.size <= i64::MAX,
        i64::MIN <= ls[i].statistics->0.loc + f.statistics.loc <= i64::MAX,
        ls[i].statistics->0.num_files < i32::MAX,
    ensures
        ({
            let after = spec_breakdown_after(ls, f);
            let before = ls[i].statistics->0;
            &&& after.len() == ls.len()
            &&& after[i].name == ls[i].name
            &&& after[i].extension == ls[i].extension
            &&& after[i].statistics matches Some(st) && {
                &&& st.size == before.size + f.statistics.size
                &&& st.loc == before.loc + f.statistics.loc
                &&& st.num_files == before.num_files + 1
                &&& st.num_commits == before.num_commits
                &&& st.frequency_bits == before.frequency_bits
            }
            &&& forall|j: int| 0 <= j < ls.len() && j != i ==> after[j] == ls[j]
        }),
{
    let name = f.language->0.name@;
    assert(exists|k: int| 0 <= k < ls.len() && (#[trigger] ls[k]).name@ == name);
    let k = choose|k: int| 0 <= k < ls.len() && (#[trigger] ls[k]).name@ == name && forall|j: int| 0 <= j < k ==> ls[j].name@ != name;
    assert(0 <= k < ls.len() && ls[k].name@ == name && forall|j: int| 0 <= j < k ==> ls[j].name@ != name);
    if k < i {
        assert(ls[k].name@ != name);
    } else if k > i {
        assert(ls[i].name@ != name);
    }
    assert(first_named(ls, name) == Some(i));
}

/// Adding a file of a language not yet in the breakdown appends that
/// language, with the file's name, extension and statistics, after the
/// entries already there, which are unchanged.
pub proof fn law_breakdown_adds_new_language(ls: Seq<LanguageType>, f: SourceFileInfo)
    requires
        f.language is Some,
        forall|j: int| 0 <= j < ls.len() ==> ls[j].name@ != f.language->0.name@,
    ensures
        ({
            let after = spec_breakdown_after(ls, f);
            &&& after.len() == ls.len() + 1
            &&& after[ls.len() as int].name == f.language->0.name
            &&& after[ls.len() as int].extension == f.language->0.extension
            &&& after[ls.len() as int].statistics == Some(f.statistics)
            &&& forall|j: int| 0 <= j < ls.len() ==> after[j] == ls[j]
        }),
{
    assert(first_named(ls, f.language->0.name@) is None);
}

fn exceeds(count: i32, files: i32, num: i64, den: i64) -> (r: bool)
    requires
        0 < num <= 100,
        0 < den <= 100,
    ensures
        r == ratio_exceeds(count as int, files as int, num as int, den as int),
{
    proof {
        assert(-100 * 0x8000_0000 <= count as int * den <= 100 * 0x8000_0000) by (nonlinear_arith)
            requires 0 < den <= 100, -0x8000_0000 <= count <= 0x7fff_ffff;
        assert(-100 * 0x8000_0000 <= num * files as int <= 100 * 0x8000_0000) by (nonlinear_arith)
            requires 0 < num <= 100, -0x8000_0000 <= files <= 0x7fff_ffff;
    }
    if files > 0 {
        (count as i64) * den > num * (files as i64)
    } else if files == 0 {
        count > 0
    } else {
        (count as i64) * den < num * (files as i64)
    }
}

/// Gets the overall [`RAGStatus`] of a review from its summary and the
/// number of files reviewed.
pub fn get_overall_rag_for(review: &RepositoryReview) -> (r: RAGStatus)
    requires
        review.file_reviews@.len() <= i32::MAX,
    ensures
        r == spec_overall_rag(review.summary, review.file_reviews@.len() as int),
        // any high or critical issue makes the repository Red
        review.summary matches Some(b) && (b.security_issues.high > 0 || b.security_issues.critical > 0)
            ==> r == RAGStatus::Red,
{
    if let Some(breakdown) = &review.summary {
        let num_total_files = review.file_reviews.len() as i32;
        if breakdown.security_issues.high > 0 || breakdown.security_issues.critical > 0 {
            return RAGStatus::Red;
        }
        if exceeds(breakdown.security_issues.total, num_total_files, 5, 100) || exceeds(
            breakdown.errors,
            num_total_files,
            8,
            100,
        ) || exceeds(breakdown.improvements, num_total_files, 60, 100) {
            return RAGStatus::Amber;
        }
    }
    RAGStatus::Green
}

// ---------------------------------------------------------------------------
// Repository name from its path
// ---------------------------------------------------------------------------

/// An error in a repository path.
#[derive(Clone, Debug)]
pub struct PathError {
    pub message: String,
}

impl PathError {
    pub fn new(message: &str) -> (r: PathError)
        ensures
            r.message@ == message@,
    {
        PathError { message: message.to_string() }
    }

    /// The error as text: `Path error: ` and the message.
    pub fn to_text(&self) -> (r: String)
        ensures
            r@ == "Path error: "@ + self.message@,
    {
        let mut out = chars_of("Path error: ");
        let m = chars_of(self.message.as_str());
        crate::text::push_all(&mut out, &m);
        string_of(&out)
    }
}

/// Whether a path segment names something (it is neither empty nor `.`).
pub open spec fn names_component(seg: Seq<char>) -> bool {
    seg.len() > 0 && seg != seq!['.']
}

/// The last segment of `segs` that names a component.
pub open spec fn last_component(segs: Seq<Seq<char>>) -> Option<Seq<char>>
    decreases segs.len(),
{
    if segs.len() == 0 {
        None
    } else if names_component(segs.last()) {
        Some(segs.last())
    } else {
        last_component(segs.drop_last())
    }
}

/// `Path::file_name` on a Unix path: its last component, unless that is `..`
/// or there is none (as for `/` or an empty path).
pub open spec fn spec_file_name(path: Seq<char>) -> Option<Seq<char>> {
    match last_component(crate::text::split(path, '/')) {
        Some(c) => if c == seq!['.', '.'] {
            None
        } else {
            Some(c)
        },
        None => None,
    }
}

/// `Path::extension`: the part of the file name after its last `.`, when
/// that `.` is not the name's first character.
pub open spec fn spec_extension(path: Seq<char>) -> Option<Seq<char>> {
    match spec_file_name(path) {
        Some(name) => match last_index_of(name, '.') {
            Some(k) => if k == 0 {
                None
            } else {
                Some(name.skip(k + 1))
            },
            None => None,
        },
        None => None,
    }
}

/// The repository name for `path`, given whether the path is an existing
/// file: an error when it has an extension and is a file, else its file
/// name, or an error when it has none.
pub open spec fn spec_repository_name(path: Seq<char>, is_file: bool) -> Result<Seq<char>, Seq<char>> {
    if spec_extension(path) is Some && is_file {
        Err("Path points to a file, not a directory"@)
    } else {
        match spec_file_name(path) {
            Some(n) => Ok(n),
            None => Err("Invalid directory name"@),
        }
    }
}

/// The result as the spec states it: the name, or the error's message.
pub open spec fn name_result_view(r: Result<String, PathError>) -> Result<Seq<char>, Seq<char>> {
    match r {
        Ok(s) => Ok(s@),
        Err(e) => Err(e.message@),
    }
}

/// The last path component of `path` (`Path::file_name`).
pub fn file_name_of(path: &[char]) -> (r: Option<Vec<char>>)
    ensures
        match r {
            Some(n) => spec_file_name(path@) == Some(n@),
            None => spec_file_name(path@) is None,
        },
{
    // scan segments from the end
    let mut end: usize = path.len();
    assert(path@.take(end as int) =~= path@);
    loop
        invariant
            end <= path@.len(),
            last_component(crate::text::split(path@, '/')) == last_component(crate::text::split(path@.take(end as int), '/')),
        decreases end,
    {
        // find the start of the segment that ends at `end`
        let mut start: usize = end;
        while start > 0 && path[start - 1] != '/'
            invariant
                start <= end <= path@.len(),
                forall|j: int| start <= j < end ==> path@[j] != '/',
            decreases start,
        {
            start = start - 1;
        }
        let seg = slice_chars(path, start, end);
        proof {
            lemma_split_last_segment(path@.take(end as int), start as int);
            assert(path@.take(end as int).skip(start as int) =~= seg@);
        }
        if seg.len() > 0 && !(seg.len() == 1 && seg[0] == '.') {
            proof {
                assert(names_component(seg@)) by {
                    if seg@ == seq!['.'] {
                        assert(seg@.len() == 1 && seg@[0] == '.');
                    }
                }
            }
            if seg.len() == 2 && seg[0] == '.' && seg[1] == '.' {
                assert(seg@ =~= seq!['.', '.']);
                return None;
            }
            assert(seg@ != seq!['.', '.']);
            return Some(seg);
        }
        proof {
            assert(!names_component(seg@)) by {
                if seg@.len() == 1 && seg@[0] == '.' {
                    assert(seg@ =~= seq!['.']);
                }
            }
        }
        if start == 0 {
            proof {
                lemma_split_no_sep(path@.take(end as int));
            }
            return None;
        }
        proof {
            assert(path@.take(end as int).take(start - 1) =~= path@.take(start - 1));
        }
        end = start - 1;
    }
}

proof fn lemma_split_state_no_sep(s: Seq<char>, sep: char)
    requires
        forall|j: int| 0 <= j < s.len() ==> s[j] != sep,
    ensures
        crate::text::split_state(s, sep) == (Seq::<Seq<char>>::empty(), s),
    decreases s.len(),
{
    if s.len() > 0 {
        lemma_split_state_no_sep(s.drop_last(), sep);
        assert(s.drop_last().push(s.last()) =~= s);
    }
}

proof fn lemma_split_no_sep(s: Seq<char>)
    requires
        forall|j: int| 0 <= j < s.len() ==> s[j] != '/',
        !names_component(s),
    ensures
        last_component(crate::text::split(s, '/')) is None,
{
    lemma_split_state_no_sep(s, '/');
    let segs = crate::text::split(s, '/');
    assert(segs =~= seq![s]);
    assert(segs.drop_last() =~= Seq::<Seq<char>>::empty());
    assert(segs.last() == s);
    assert(last_component(segs.drop_last()) is None);
}

/// Splitting `s` whose last separator stands just before `start`: the last
/// piece is `s.skip(start)`, and the pieces before it are those of the text
/// before that separator.
proof fn lemma_split_last_segment(s: Seq<char>, start: int)
    requires
        0 <= start <= s.len(),
        forall|j: int| start <= j < s.len() ==> s[j] != '/',
        start > 0 ==> s[start - 1] == '/',
    ensures
        crate::text::split(s, '/').last() == s.skip(start),
        start > 0 ==> crate::text::split(s, '/').drop_last() == crate::text::split(s.take(start - 1), '/'),
        start == 0 ==> crate::text::split(s, '/').drop_last().len() == 0,
    decreases s.len() - start,
{
    if start == s.len() {
        if start == 0 {
            assert(s.skip(start) =~= Seq::<char>::empty());
        } else {
            let (d, c) = crate::text::split_state(s.drop_last(), '/');
            assert(s.drop_last() =~= s.take(start - 1));
            assert(s.skip(start) =~= Seq::<char>::empty());
        }
    } else {
        lemma_split_last_segment(s.drop_last(), start);
        assert(s.drop_last().skip(start).push(s.last()) =~= s.skip(start));
        if start > 0 {
            assert(s.drop_last().take(start - 1) =~= s.take(start - 1));
        }
    }
}

/// Whether `path` is an existing file (`Path::is_file`). This reads the
/// file system, so nothing is stated of the result.
#[verifier::external_body]
fn path_is_file(path: &str) -> (r: bool) {
    std::path::Path::new(path).is_file()
}

/// The repository name from its path, given whether the path is an
/// existing file.
pub fn repository_name_from_path(path_str: &str, is_file: bool) -> (r: Result<String, PathError>)
    ensures
        name_result_view(r) == spec_repository_name(path_str@, is_file),
{
    let path = chars_of(path_str);
    let name = file_name_of(&path);
    let has_extension = match &name {
        Some(n) => match rfind_char(n, '.') {
            Some(k) => k != 0,
            None => false,
        },
        None => false,
    };
    if has_extension && is_file {
        return Err(PathError::new("Path points to a file, not a directory"));
    }
    match name {
        Some(n) => Ok(string_of(&n)),
        None => Err(PathError::new("Invalid directory name")),
    }
}

proof fn lemma_split_append(prefix: Seq<char>, piece: Seq<char>)
    requires
        prefix.len() == 0 || prefix.last() == '/',
        forall|i: int| 0 <= i < piece.len() ==> piece[i] != '/',
    ensures
        crate::text::split_state(prefix + piece, '/') == (crate::text::split_state(prefix, '/').0, piece),
    decreases piece.len(),
{
    if piece.len() == 0 {
        assert(prefix + piece =~= prefix);
    } else {
        lemma_split_append(prefix, piece.drop_last());
        assert((prefix + piece).drop_last() =~= prefix + piece.drop_last());
        assert(piece.drop_last().push(piece.last()) =~= piece);
    }
}

/// A path that is not an existing file is named by its last component,
/// whatever dots that component holds: for a directory `.../three.js` the
/// name is `three.js`.
pub proof fn law_name_of_a_non_file_is_its_last_component(prefix: Seq<char>, name: Seq<char>)
    requires
        prefix.len() == 0 || prefix.last() == '/',
        forall|i: int| 0 <= i < name.len() ==> name[i] != '/',
        name.len() > 0,
        name != seq!['.'],
        name != seq!['.', '.'],
    ensures
        spec_repository_name(prefix + name, false) == Ok::<Seq<char>, Seq<char>>(name),
{
    lemma_split_append(prefix, name);
    let done = crate::text::split_state(prefix, '/').0;
    assert(crate::text::split(prefix + name, '/') == done.push(name));
    assert(done.push(name).last() == name);
}

/// Gets the repository name from its path: the path's last component. A
/// path that has an extension and is an existing file is refused, as is one
/// with no last component.
pub fn extract_repository_name(path_str: &str) -> (r: Result<String, PathError>)
    ensures
        exists|is_file: bool| name_result_view(r) == spec_repository_name(path_str@, is_file),
        spec_extension(path_str@) is None ==> name_result_view(r) == spec_repository_name(path_str@, false),
{
    let path = chars_of(path_str);
    let name = file_name_of(&path);
    let has_extension = match &name {
        Some(n) => match rfind_char(n, '.') {
            Some(k) => k != 0,
            None => false,
        },
        None => false,
    };
    let is_file = if has_extension {
        path_is_file(path_str)
    } else {
        false
    };
    repository_name_from_path(path_str, is_file)
}

/// Initialises a new [`RepositoryReview`], named from the repository path.
pub fn initialise_repository_review(repository_path: &str) -> (r: Result<RepositoryReview, PathError>)
    ensures
        r matches Ok(rev) ==> exists|is_file: bool| spec_repository_name(repository_path@, is_file) == Ok::<Seq<char>, Seq<char>>(rev.repository_name@),
        r matches Ok(rev) ==> rev.file_reviews@.len() == 0 && rev.summary is None,
        r is Err ==> exists|is_file: bool| spec_repository_name(repository_path@, is_file) is Err,
{
    let name = extract_repository_name(repository_path)?;
    Ok(RepositoryReview::new(name))
}

// ---------------------------------------------------------------------------
// Responses from the provider
// ---------------------------------------------------------------------------

/// The part of `s` from its first `{` to its last `}`, both included; an
/// error when either is missing or the last `}` comes before the first `{`.
pub open spec fn spec_extract_json_object(s: Seq<char>) -> Result<Seq<char>, &'static str> {
    match (first_index_of(s, '{'), last_index_of(s, '}')) {
        (Some(start), Some(end)) => if start < end {
            Ok(s.subrange(start, end + 1))
        } else {
            Err("Invalid JSON structure")
        },
        _ => Err("No valid JSON found"),
    }
}

/// The result as the spec states it.
pub open spec fn json_result_view(r: Result<String, &'static str>) -> Result<Seq<char>, &'static str> {
    match r {
        Ok(s) => Ok(s@),
        Err(e) => Err(e),
    }
}

/// Cuts the JSON object out of a response: from the first `{` to the last
/// `}`, both included.
pub fn extract_json_object(sanitized: &str) -> (r: Result<String, &'static str>)
    ensures
        json_result_view(r) == spec_extract_json_object(sanitized@),
        r matches Ok(j) ==> j@.len() >= 2 && j@[0] == '{' && j@.last() == '}',
{
    let cs = chars_of(sanitized);
    match (find_char(&cs, '{'), rfind_char(&cs, '}')) {
        (Some(start), Some(end)) => {
            if start < end {
                proof {
                    crate::text::lemma_last_index_of_bounds(cs@, '}');
                    crate::text::lemma_first_index_of_bounds(cs@, '{');
                    assert(end < cs@.len());
                    assert(end < cs.len());
                    assert(cs@[start as int] == '{');
                    assert(cs@[end as int] == '}');
                }
                let part = slice_chars(&cs, start, end + 1);
                assert(part@[0] == '{');
                assert(part@.last() == '}');
                Ok(string_of(&part))
            } else {
                Err("Invalid JSON structure")
            }
        },
        _ => Err("No valid JSON found"),
    }
}

/// A provider's response with its artefacts stripped: the control
/// characters U+0000 to U+001F removed, then the part from the first `{` to
/// the last `}`.
pub open spec fn spec_strip_artifacts(orig: Seq<char>) -> Result<Seq<char>, &'static str> {
    spec_extract_json_object(without_c0_controls(orig))
}

/// Removes artefacts from a provider's response: control characters
/// (U+0000 to U+001F, removed with the `regex` crate), then anything before
/// the first `{` and after the last `}`, such as the "```json" markers
/// some providers put around their JSON.
pub fn strip_artifacts_from(orig_json_str: &str) -> (r: Result<String, &'static str>)
    ensures
        json_result_view(r) == spec_strip_artifacts(orig_json_str@),
        r matches Ok(j) ==> j@.len() >= 2 && j@[0] == '{' && j@.last() == '}',
{
    match regex_replace_all("[\\x00-\\x1F]", orig_json_str, "") {
        Some(sanitized) => extract_json_object(sanitized.as_str()),
        None => Err("No valid JSON found"),
    }
}

/// Stripping is idempotent: stripping the JSON that a strip gave back gives
/// it back unchanged.
pub proof fn lemma_strip_artifacts_idempotent(orig: Seq<char>)
    requires
        spec_strip_artifacts(orig) is Ok,
    ensures
        spec_strip_artifacts(spec_strip_artifacts(orig)->Ok_0) == spec_strip_artifacts(orig),
{
    let c = without_c0_controls(orig);
    crate::text::lemma_without_c0_controls_has_none(orig);
    crate::text::lemma_first_index_of_bounds(c, '{');
    crate::text::lemma_last_index_of_bounds(c, '}');
    let j = spec_extract_json_object(c)->Ok_0;
    let start = first_index_of(c, '{')->0;
    assert forall|i: int| 0 <= i < j.len() implies !crate::text::is_c0_control(#[trigger] j[i]) by {
        assert(j[i] == c[start + i]);
    }
    crate::text::lemma_without_c0_controls_unchanged(j);
    lemma_extract_json_object_idempotent(c);
}

/// Stripping is idempotent: cutting the JSON object out of an object that
/// was cut out before gives the same object.
pub proof fn lemma_extract_json_object_idempotent(s: Seq<char>)
    requires
        spec_extract_json_object(s) is Ok,
    ensures
        spec_extract_json_object(spec_extract_json_object(s)->Ok_0) == spec_extract_json_object(s),
{
    crate::text::lemma_first_index_of_bounds(s, '{');
    crate::text::lemma_last_index_of_bounds(s, '}');
    let start = first_index_of(s, '{')->0;
    let end = last_index_of(s, '}')->0;
    let t = s.subrange(start, end + 1);
    assert(t[0] == '{');
    assert(t[t.len() - 1] == '}');
    crate::text::lemma_first_index_is(t, '{', 0);
    assert forall|j: int| t.len() - 1 < j < t.len() implies t[j] != '}' by {}
    crate::text::lemma_last_index_is(t, '}', t.len() - 1);
    assert(t.subrange(0, t.len() as int) =~= t);
}

/// The text a provider returns for the overall summary, with each " - "
/// turned into a line break.
pub fn summary_from_response(content: &str) -> (r: String)
    ensures
        r@ == crate::text::replace_all(content@, seq![' ', '-', ' '], seq!['\n']),
{
    let cs = chars_of(content);
    let from = [' ', '-', ' '];
    let to = ['\n'];
    assert(from@ =~= seq![' ', '-', ' ']);
    assert(to@ =~= seq!['\n']);
    let out = crate::text::replace_chars(&cs, &from, &to);
    string_of(&out)
}

/// The request sent for the review of one file: "File name: ", the path, a
/// line break, the contents, and a line break.
pub fn review_request_text(code_file_path: &str, code_file_contents: &str) -> (r: String)
    ensures
        r@ == "File name: "@ + code_file_path@ + seq!['\n'] + code_file_contents@ + seq!['\n'],
{
    let mut out = chars_of("File name: ");
    let p = chars_of(code_file_path);
    let c = chars_of(code_file_contents);
    crate::text::push_all(&mut out, &p);
    out.push('\n');
    crate::text::push_all(&mut out, &c);
    out.push('\n');
    string_of(&out)
}

/// Checks that a path is a git repository: a directory (`is_dir`) that
/// holds a `.git` directory (`has_git_dir`). `repository_root` is the path
/// as it is displayed.
pub fn validate_repository(repository_root: String, is_dir: bool, has_git_dir: bool) -> (r: Result<String, PathError>)
    ensures
        !is_dir ==> (r matches Err(e) && e.message@ == "Provided path is not a directory: "@ + repository_root@),
        is_dir && !has_git_dir ==> (r matches Err(e) && e.message@ == "Provided path is not a valid Git repository: "@
            + repository_root@),
        is_dir && has_git_dir ==> (r matches Ok(p) && p@ == repository_root@),
{
    if !is_dir {
        let mut m = chars_of("Provided path is not a directory: ");
        crate::text::push_all(&mut m, &chars_of(repository_root.as_str()));
        return Err(PathError { message: string_of(&m) });
    }
    if !has_git_dir {
        let mut m = chars_of("Provided path is not a valid Git repository: ");
        crate::text::push_all(&mut m, &chars_of(repository_root.as_str()));
        return Err(PathError { message: string_of(&m) });
    }
    Ok(repository_root)
}

/// The prompt for the review type of the settings: the code review prompt
/// for a general review, the security review prompt for a security review,
/// and none when only the code statistics are wanted. The templates are
/// those of the two reviews; `file_review_schema` fills them.
pub fn get_prompt_data_based_on_review_type(
    settings: &Settings,
    code_review_template: &PromptData,
    security_review_template: &PromptData,
    file_review_schema: &str,
) -> (r: Result<Option<PromptData>, TokenError>)
    ensures
        settings.review_type is CodeStats ==> r matches Ok(None),
        settings.review_type is General ==> !(r matches Ok(None)) && filled_prompt(
            code_review_template.messages@,
            review_prompt_content(file_review_schema@),
            match r {
                Ok(Some(p)) => Ok(p),
                Ok(None) => Err(TokenError::InvalidPattern),
                Err(e) => Err(e),
            },
        ),
        settings.review_type is Security ==> !(r matches Ok(None)) && filled_prompt(
            security_review_template.messages@,
            review_prompt_content(file_review_schema@),
            match r {
                Ok(Some(p)) => Ok(p),
                Ok(None) => Err(TokenError::InvalidPattern),
                Err(e) => Err(e),
            },
        ),
{
    match settings.review_type {
        ReviewType::General => {
            match PromptData::get_code_review_prompt(code_review_template, file_review_schema) {
                Ok(p) => Ok(Some(p)),
                Err(e) => Err(e),
            }
        },
        ReviewType::Security => {
            match PromptData::get_security_review_prompt(security_review_template, file_review_schema) {
                Ok(p) => Ok(Some(p)),
                Err(e) => Err(e),
            }
        },
        ReviewType::CodeStats => Ok(None),
    }
}

/// The JSON of a file review in a provider's response: the content of its
/// first choice with the artefacts stripped, as [`strip_artifacts_from`]
/// does. Turning the JSON into a review is left to the caller.
pub fn process_llm_response(response: &ProviderCompletionResponse) -> (r: Result<String, &'static str>)
    requires
        response.choices@.len() > 0,
    ensures
        json_result_view(r) == spec_strip_artifacts(response.choices@[0].message.content@),
{
    let content = &response.choices[0].message.content;
    strip_artifacts_from(content.as_str())
}

/// The attempts at the review of one file: how many retries were made, and
/// how many the provider allows.
#[derive(Clone, Copy, Debug, PartialEq, Eq, Structural)]
pub struct ReviewAttempts {
    pub attempts: i64,
    pub max_retries: i64,
}

impl ReviewAttempts {
    /// No retry made yet; the provider's `max_retries`, or none when it sets
    /// no number.
    pub fn for_provider(provider: &ProviderSettings) -> (r: Self)
        ensures
            r.attempts == 0,
            r.max_retries == match provider.max_retries {
                Some(m) => m,
                None => 0,
            },
    {
        let max_retries = match provider.max_retries {
            Some(m) => m,
            None => 0,
        };
        ReviewAttempts { attempts: 0, max_retries }
    }

    /// After a failed attempt (the request failed, or its response could not
    /// be used): whether to try again. A retry is counted; when the retries
    /// are used up the failure stands and nothing changes. The retries never
    /// go beyond what the provider allows.
    pub fn retry_after_failure(&mut self) -> (r: bool)
        ensures
            r == (old(self).attempts < old(self).max_retries),
            r ==> final(self).attempts == old(self).attempts + 1,
            !r ==> *final(self) == *old(self),
            final(self).max_retries == old(self).max_retries,
            old(self).attempts <= old(self).max_retries ==> final(self).attempts <= final(self).max_retries,
    {
        if self.attempts < self.max_retries {
            self.attempts = self.attempts + 1;
            true
        } else {
            false
        }
    }
}

proof fn lemma_split_state_pieces(s: Seq<char>, sep: char)
    ensures
        forall|k: int| 0 <= k < crate::text::split_state(s, sep).0.len() ==> !(#[trigger] crate::text::split_state(s, sep).0[k]).contains(sep),
        !crate::text::split_state(s, sep).1.contains(sep),
    decreases s.len(),
{
    if s.len() > 0 {
        lemma_split_state_pieces(s.drop_last(), sep);
        let (done, cur) = crate::text::split_state(s.drop_last(), sep);
        if s.last() != sep {
            assert forall|j: int| 0 <= j < cur.push(s.last()).len() implies cur.push(s.last())[j] != sep by {
                if j < cur.len() {
                    assert(!cur.contains(sep));
                    assert(cur[j] != sep);
                }
            }
        } else {
            assert forall|k: int| 0 <= k < done.push(cur).len() implies !(#[trigger] done.push(cur)[k]).contains(sep) by {
                if k < done.len() {
                    assert(done.push(cur)[k] == done[k]);
                }
            }
        }
    }
}

proof fn lemma_last_component_piece(segs: Seq<Seq<char>>)
    ensures
        last_component(segs) matches Some(c) ==> names_component(c) && exists|k: int| 0 <= k < segs.len() && segs[k] == c,
    decreases segs.len(),
{
    if segs.len() > 0 {
        lemma_last_component_piece(segs.drop_last());
        if names_component(segs.last()) {
            assert(segs[segs.len() - 1] == segs.last());
        } else if let Some(c) = last_component(segs.drop_last()) {
            let k = choose|k: int| 0 <= k < segs.drop_last().len() && segs.drop_last()[k] == c;
            assert(segs[k] == c);
        }
    }
}

/// A repository name is one path component: it is not empty, holds no `/`,
/// and is neither `.` nor `..`.
pub proof fn lemma_repository_name_is_one_component(path: Seq<char>, is_file: bool)
    ensures
        spec_repository_name(path, is_file) matches Ok(n) ==> n.len() > 0 && !n.contains('/') && n != seq!['.']
            && n != seq!['.', '.'],
{
    let segs = crate::text::split(path, '/');
    lemma_split_state_pieces(path, '/');
    lemma_last_component_piece(segs);
    if let Some(c) = last_component(segs) {
        let k = choose|k: int| 0 <= k < segs.len() && segs[k] == c;
        let (done, cur) = crate::text::split_state(path, '/');
        if k < done.len() {
            assert(segs[k] == done[k]);
        }
    }
}

} // verus!
