//! Tallies drawn from the git history: how often a file was changed, and
//! how many commits each author made and when they last made one.
//!
//! The walk of the history itself reads the repository; what it yields is
//! handed to these functions as plain values.
use crate::retrieval::data::str_eq;
use vstd::prelude::*;

verus! {

// ---------------------------------------------------------------------------
// File change frequency
// ---------------------------------------------------------------------------

/// The number of touched paths that are `file_path` (a path that is not
/// UTF-8, `None`, never is).
pub open spec fn matches_in(paths: Seq<Option<String>>, file_path: Seq<char>) -> int
    decreases paths.len(),
{
    if paths.len() == 0 {
        0
    } else {
        matches_in(paths.drop_last(), file_path) + (if paths.last() matches Some(p) && p@ == file_path {
            1int
        } else {
            0int
        })
    }
}

/// The number of changes of `file_path` over the commits: each commit is
/// `None` when it has no parent, else the paths its diff against its first
/// parent touches.
pub open spec fn file_commit_count(commits: Seq<Option<Vec<Option<String>>>>, file_path: Seq<char>) -> int
    decreases commits.len(),
{
    if commits.len() == 0 {
        0
    } else {
        file_commit_count(commits.drop_last(), file_path) + match commits.last() {
            Some(paths) => matches_in(paths@, file_path),
            None => 0,
        }
    }
}

/// The number of touched paths over the commits.
pub open spec fn delta_count(commits: Seq<Option<Vec<Option<String>>>>) -> int
    decreases commits.len(),
{
    if commits.len() == 0 {
        0
    } else {
        delta_count(commits.drop_last()) + match commits.last() {
            Some(paths) => paths@.len() as int,
            None => 0,
        }
    }
}

proof fn lemma_matches_in_bound(paths: Seq<Option<String>>, file_path: Seq<char>)
    ensures
        0 <= matches_in(paths, file_path) <= paths.len(),
    decreases paths.len(),
{
    if paths.len() > 0 {
        lemma_matches_in_bound(paths.drop_last(), file_path);
    }
}

proof fn lemma_file_commit_count_bound(commits: Seq<Option<Vec<Option<String>>>>, file_path: Seq<char>)
    ensures
        0 <= file_commit_count(commits, file_path) <= delta_count(commits),
        0 <= delta_count(commits),
    decreases commits.len(),
{
    if commits.len() > 0 {
        lemma_file_commit_count_bound(commits.drop_last(), file_path);
        if let Some(paths) = commits.last() {
            lemma_matches_in_bound(paths@, file_path);
        }
    }
}

proof fn lemma_delta_count_prefix(commits: Seq<Option<Vec<Option<String>>>>, i: int)
    requires
        0 <= i <= commits.len(),
    ensures
        delta_count(commits.take(i)) <= delta_count(commits),
    decreases commits.len(),
{
    if i < commits.len() {
        assert(commits.drop_last().take(i) =~= commits.take(i));
        lemma_delta_count_prefix(commits.drop_last(), i);
        lemma_file_commit_count_bound(commits.drop_last(), Seq::empty());
    } else {
        assert(commits.take(i) =~= commits);
    }
}

/// Counts, over the commits of a walk of the history, the changes of
/// `file_path` and the commits: `(file commits, total commits)`. The
/// frequency is the first divided by the second.
pub fn count_file_changes(commits: &[Option<Vec<Option<String>>>], file_path: &str) -> (r: (usize, usize))
    requires
        delta_count(commits@) <= usize::MAX,
    ensures
        r.0 == file_commit_count(commits@, file_path@),
        r.1 == commits@.len(),
        r.0 <= delta_count(commits@),
{
    let mut file_commits: usize = 0;
    let mut i: usize = 0;
    assert(commits@.take(0) =~= Seq::<Option<Vec<Option<String>>>>::empty());
    while i < commits.len()
        invariant
            i <= commits@.len(),
            delta_count(commits@) <= usize::MAX,
            file_commits == file_commit_count(commits@.take(i as int), file_path@),
        decreases commits@.len() - i,
    {
        assert(commits@.take(i + 1).drop_last() =~= commits@.take(i as int));
        proof {
            lemma_delta_count_prefix(commits@, i + 1);
            lemma_file_commit_count_bound(commits@.take(i + 1), file_path@);
        }
        match &commits[i] {
            None => {},
            Some(paths) => {
                let ghost before = file_commits;
                let mut j: usize = 0;
                assert(paths@.take(0) =~= Seq::<Option<String>>::empty());
                while j < paths.len()
                    invariant
                        j <= paths@.len(),
                        file_commits == before + matches_in(paths@.take(j as int), file_path@),
                        before + matches_in(paths@, file_path@) <= usize::MAX,
                    decreases paths@.len() - j,
                {
                    assert(paths@.take(j + 1).drop_last() =~= paths@.take(j as int));
                    proof {
                        lemma_matches_in_bound(paths@.take(j as int), file_path@);
                        lemma_matches_in_bound(paths@.take(j + 1), file_path@);
                        assert(matches_in(paths@.take(j + 1), file_path@) <= matches_in(paths@, file_path@)) by {
                            lemma_matches_in_prefix(paths@, file_path@, j + 1);
                        }
                    }
                    match &paths[j] {
                        Some(p) => {
                            if str_eq(p.as_str(), file_path) {
                                file_commits = file_commits + 1;
                            }
                        },
                        None => {},
                    }
                    j = j + 1;
                }
                assert(paths@.take(j as int) =~= paths@);
            },
        }
        i = i + 1;
    }
    assert(commits@.take(i as int) =~= commits@);
    proof {
        lemma_file_commit_count_bound(commits@, file_path@);
    }
    (file_commits, commits.len())
}

proof fn lemma_matches_in_prefix(paths: Seq<Option<String>>, file_path: Seq<char>, j: int)
    requires
        0 <= j <= paths.len(),
    ensures
        matches_in(paths.take(j), file_path) <= matches_in(paths, file_path),
    decreases paths.len(),
{
    if j < paths.len() {
        assert(paths.drop_last().take(j) =~= paths.take(j));
        lemma_matches_in_prefix(paths.drop_last(), file_path, j);
    } else {
        assert(paths.take(j) =~= paths);
    }
}

// ---------------------------------------------------------------------------
// Contributors
// ---------------------------------------------------------------------------

/// One author's share of the history: the number of their commits and the
/// time of their latest one, in seconds since the Unix epoch.
#[derive(Clone, Debug)]
pub struct ContributorTally {
    pub name: String,
    pub num_commits: i32,
    pub last_contribution: i64,
}

/// The number of commits by `name`; each commit is (author, time).
pub open spec fn commits_by(commits: Seq<(String, i64)>, name: Seq<char>) -> int
    decreases commits.len(),
{
    if commits.len() == 0 {
        0
    } else {
        commits_by(commits.drop_last(), name) + (if commits.last().0@ == name {
            1int
        } else {
            0int
        })
    }
}

/// The time of the latest commit by `name` (meaningful when there is one).
pub open spec fn latest_by(commits: Seq<(String, i64)>, name: Seq<char>) -> i64
    decreases commits.len(),
{
    if commits.len() == 0 {
        0
    } else {
        let before = latest_by(commits.drop_last(), name);
        if commits.last().0@ == name && (commits_by(commits.drop_last(), name) == 0
            || commits.last().1 > before) {
            commits.last().1
        } else {
            before
        }
    }
}

/// The sum of the commit counts of the tallies.
pub open spec fn total_of(ts: Seq<ContributorTally>) -> int
    decreases ts.len(),
{
    if ts.len() == 0 {
        0
    } else {
        total_of(ts.drop_last()) + ts.last().num_commits
    }
}

/// No author has two tallies.
pub open spec fn names_distinct(ts: Seq<ContributorTally>) -> bool {
    forall|a: int, b: int| 0 <= a < b < ts.len() ==> (#[trigger] ts[a]).name@ != (#[trigger] ts[b]).name@
}

/// The tallies are those of the commits: one per author, with the number of
/// their commits and the time of their latest one.
pub open spec fn tallies_of(ts: Seq<ContributorTally>, commits: Seq<(String, i64)>) -> bool {
    &&& names_distinct(ts)
    &&& forall|k: int| 0 <= k < ts.len() ==> {
        &&& (#[trigger] ts[k]).num_commits == commits_by(commits, ts[k].name@)
        &&& ts[k].last_contribution == latest_by(commits, ts[k].name@)
        &&& commits_by(commits, ts[k].name@) > 0
    }
    &&& forall|n: Seq<char>| #[trigger] commits_by(commits, n) > 0 ==> exists|k: int| 0 <= k < ts.len() && ts[k].name@ == n
}

proof fn lemma_commits_by_bound(commits: Seq<(String, i64)>, name: Seq<char>)
    ensures
        0 <= commits_by(commits, name) <= commits.len(),
    decreases commits.len(),
{
    if commits.len() > 0 {
        lemma_commits_by_bound(commits.drop_last(), name);
    }
}

proof fn lemma_total_of_update(ts: Seq<ContributorTally>, j: int, t: ContributorTally)
    requires
        0 <= j < ts.len(),
    ensures
        total_of(ts.update(j, t)) == total_of(ts) - ts[j].num_commits + t.num_commits,
    decreases ts.len(),
{
    if j < ts.len() - 1 {
        assert(ts.update(j, t).drop_last() =~= ts.drop_last().update(j, t));
        lemma_total_of_update(ts.drop_last(), j, t);
    } else {
        assert(ts.update(j, t).drop_last() =~= ts.drop_last());
    }
}

/// Tallies the commits of a walk of the history by author: for each author,
/// the number of their commits and the time of their latest one; and the
/// number of commits. The order of the tallies is that in which the authors
/// first appear.
pub fn tally_contributions(commits: &[(String, i64)]) -> (r: (Vec<ContributorTally>, i32))
    requires
        commits@.len() <= i32::MAX,
    ensures
        tallies_of(r.0@, commits@),
        r.1 == commits@.len(),
        total_of(r.0@) == r.1,
{
    let mut tallies: Vec<ContributorTally> = Vec::new();
    let mut total: i32 = 0;
    let mut i: usize = 0;
    assert(commits@.take(0) =~= Seq::<(String, i64)>::empty());
    while i < commits.len()
        invariant
            commits@.len() <= i32::MAX,
            i <= commits@.len(),
            total == i,
            tallies_of(tallies@, commits@.take(i as int)),
            total_of(tallies@) == i,
        decreases commits@.len() - i,
    {
        let ghost prev = commits@.take(i as int);
        let ghost next = commits@.take(i + 1);
        assert(next.drop_last() =~= prev);
        let (name, seconds) = (&commits[i].0, commits[i].1);
        assert(next.last() == commits@[i as int]);
        let ghost before = tallies@;
        let mut j: usize = 0;
        let mut found = false;
        while j < tallies.len()
            invariant_except_break
                !found,
            invariant
                tallies@ == before,
                j <= tallies@.len(),
                forall|t: int| 0 <= t < j ==> tallies@[t].name@ != name@,
            ensures
                found ==> j < tallies@.len() && tallies@[j as int].name@ == name@,
                !found ==> forall|t: int| 0 <= t < tallies@.len() ==> tallies@[t].name@ != name@,
            decreases tallies@.len() - j,
        {
            if str_eq(tallies[j].name.as_str(), name.as_str()) {
                found = true;
                break;
            }
            j = j + 1;
        }
        proof {
            lemma_commits_by_bound(prev, name@);
        }
        if found {
            let ghost k = j as int;
            assert(before[k].num_commits == commits_by(prev, name@));
            let last = if seconds > tallies[j].last_contribution {
                seconds
            } else {
                tallies[j].last_contribution
            };
            let t = ContributorTally {
                name: name.clone(),
                num_commits: tallies[j].num_commits + 1,
                last_contribution: last,
            };
            tallies.set(j, t);
            proof {
                lemma_total_of_update(before, k, tallies@[k]);
                assert forall|a: int, b: int| 0 <= a < b < tallies@.len() implies (#[trigger] tallies@[a]).name@ != (#[trigger] tallies@[b]).name@ by {
                    assert(before[a].name@ != before[b].name@);
                }
                assert forall|m: int| 0 <= m < tallies@.len() implies {
                    &&& (#[trigger] tallies@[m]).num_commits == commits_by(next, tallies@[m].name@)
                    &&& tallies@[m].last_contribution == latest_by(next, tallies@[m].name@)
                    &&& commits_by(next, tallies@[m].name@) > 0
                } by {
                    if m != k {
                        assert(before[m] == tallies@[m]);
                        assert(before[m].name@ != before[k].name@);
                    }
                }
                assert forall|n: Seq<char>| #[trigger] commits_by(next, n) > 0 implies exists|m: int| 0 <= m < tallies@.len() && tallies@[m].name@ == n by {
                    if n == name@ {
                        assert(tallies@[k].name@ == n);
                    } else {
                        assert(commits_by(prev, n) > 0);
                        let m = choose|m: int| 0 <= m < before.len() && before[m].name@ == n;
                        assert(tallies@[m].name@ == n);
                    }
                }
            }
        } else {
            let t = ContributorTally { name: name.clone(), num_commits: 1, last_contribution: seconds };
            tallies.push(t);
            proof {
                assert(tallies@.drop_last() =~= before);
                let k = tallies@.len() - 1;
                assert(commits_by(prev, name@) == 0) by {
                    if commits_by(prev, name@) > 0 {
                        let m = choose|m: int| 0 <= m < before.len() && before[m].name@ == name@;
                        assert(before[m].name@ != name@);
                    }
                }
                assert forall|a: int, b: int| 0 <= a < b < tallies@.len() implies (#[trigger] tallies@[a]).name@ != (#[trigger] tallies@[b]).name@ by {
                    if b < k {
                        assert(before[a].name@ != before[b].name@);
                    } else {
                        assert(before[a].name@ != name@);
                    }
                }
                assert forall|m: int| 0 <= m < tallies@.len() implies {
                    &&& (#[trigger] tallies@[m]).num_commits == commits_by(next, tallies@[m].name@)
                    &&& tallies@[m].last_contribution == latest_by(next, tallies@[m].name@)
                    &&& commits_by(next, tallies@[m].name@) > 0
                } by {
                    if m != k {
                        assert(before[m] == tallies@[m]);
                        assert(before[m].name@ != name@);
                    }
                }
                assert forall|n: Seq<char>| #[trigger] commits_by(next, n) > 0 implies exists|m: int| 0 <= m < tallies@.len() && tallies@[m].name@ == n by {
                    if n == name@ {
                        assert(tallies@[k].name@ == n);
                    } else {
                        assert(commits_by(prev, n) > 0);
                        let m = choose|m: int| 0 <= m < before.len() && before[m].name@ == n;
                        assert(tallies@[m].name@ == n);
                    }
                }
            }
        }
        total = total + 1;
        i = i + 1;
    }
    assert(commits@.take(i as int) =~= commits@);
    (tallies, total)
}

/// An author's latest time is the greatest time of their commits, and is
/// the time of one of them.
pub proof fn lemma_latest_is_greatest(commits: Seq<(String, i64)>, name: Seq<char>)
    ensures
        commits_by(commits, name) > 0 ==> exists|k: int|
            0 <= k < commits.len() && (#[trigger] commits[k]).0@ == name && commits[k].1 == latest_by(commits, name),
        forall|k: int| 0 <= k < commits.len() && (#[trigger] commits[k]).0@ == name ==> commits[k].1 <= latest_by(commits, name),
    decreases commits.len(),
{
    if commits.len() > 0 {
        let d = commits.drop_last();
        lemma_latest_is_greatest(d, name);
        lemma_commits_by_bound(d, name);
        assert forall|k: int| 0 <= k < commits.len() && (#[trigger] commits[k]).0@ == name implies commits[k].1 <= latest_by(commits, name) by {
            if k < commits.len() - 1 {
                assert(d[k] == commits[k]);
                assert(commits_by(d, name) > 0) by {
                    lemma_commits_by_positive(d, name, k);
                }
            }
        }
        if commits_by(commits, name) > 0 {
            if commits.last().0@ == name && (commits_by(d, name) == 0 || commits.last().1 > latest_by(d, name)) {
                assert(commits[commits.len() - 1].0@ == name);
            } else {
                let k = choose|k: int| 0 <= k < d.len() && (#[trigger] d[k]).0@ == name && d[k].1 == latest_by(d, name);
                assert(commits[k] == d[k]);
            }
        }
    }
}

proof fn lemma_commits_by_positive(commits: Seq<(String, i64)>, name: Seq<char>, k: int)
    requires
        0 <= k < commits.len(),
        commits[k].0@ == name,
    ensures
        commits_by(commits, name) > 0,
    decreases commits.len(),
{
    lemma_commits_by_bound(commits.drop_last(), name);
    if k < commits.len() - 1 {
        assert(commits.drop_last()[k] == commits[k]);
        lemma_commits_by_positive(commits.drop_last(), name, k);
    }
}

} // verus!
