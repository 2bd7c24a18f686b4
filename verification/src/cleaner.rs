//! The selection-and-deletion pipeline: it partitions the ignored paths into
//! deletion candidates and user-excluded paths, and, in execute mode,
//! accounts for every per-item deletion outcome without ever aborting early.
use vstd::prelude::*;

use crate::cli::Cli;
use crate::paths::relative_to;
use crate::paths::strip_root;
use crate::patterns::set_excludes;
use crate::patterns::PatternMatcher;

verus! {

/// The views of a list of path strings.
pub open spec fn path_views(v: Seq<String>) -> Seq<Seq<char>> {
    v.map_values(|s: String| s@)
}

/// Why a run aborted before any deletion.
#[derive(Debug)]
pub enum CleanError {
    /// The working directory is not inside a version-controlled tree.
    NotGitRepo,
    /// The repository root holds no ignore-policy file.
    NoGitignore { root: String },
    /// An exclusion pattern has malformed glob syntax.
    InvalidPattern { pattern: String },
}

/// Where every input candidate path of a finished run landed: removed (or
/// slated for removal in a dry run), spared by an exclusion pattern, or
/// attempted and failed with a reason.
pub struct CleanResult {
    /// Paths removed, or that a dry run would remove. Absolute, as given.
    pub deleted: Vec<String>,
    /// Paths spared by an exclusion pattern, relative to the root.
    pub excluded: Vec<String>,
    /// Paths whose deletion was attempted and failed, with the reason.
    pub failed: Vec<(String, String)>,
}

impl CleanResult {
    /// The views of the deleted paths.
    pub open spec fn deleted_views(&self) -> Seq<Seq<char>> {
        path_views(self.deleted@)
    }

    /// The views of the excluded paths.
    pub open spec fn excluded_views(&self) -> Seq<Seq<char>> {
        path_views(self.excluded@)
    }

    /// The views of the paths whose deletion failed.
    pub open spec fn failed_paths(&self) -> Seq<Seq<char>> {
        self.failed@.map_values(|pr: (String, String)| pr.0@)
    }

    /// The views of the failed paths with their reasons.
    pub open spec fn failed_views(&self) -> Seq<(Seq<char>, Seq<char>)> {
        self.failed@.map_values(|pr: (String, String)| (pr.0@, pr.1@))
    }

    /// All three lists are empty.
    pub open spec fn all_empty(&self) -> bool {
        self.deleted@.len() == 0 && self.excluded@.len() == 0 && self.failed@.len() == 0
    }

    /// An empty result.
    pub fn new() -> (r: CleanResult)
        ensures
            r.all_empty(),
    {
        CleanResult { deleted: Vec::new(), excluded: Vec::new(), failed: Vec::new() }
    }
}

/// The candidates a pattern set keeps for deletion: the inputs, in order,
/// whose root-relative form no exclusion pattern spares.
pub open spec fn kept_spec(pats: Seq<Seq<char>>, root: Seq<char>, ins: Seq<Seq<char>>) -> Seq<
    Seq<char>,
> {
    ins.filter(|p: Seq<char>| !set_excludes(pats, strip_root(root, p)))
}

/// The paths a pattern set spares, in input order and rendered relative to
/// the root, as they are reported.
pub open spec fn excluded_spec(pats: Seq<Seq<char>>, root: Seq<char>, ins: Seq<Seq<char>>) -> Seq<
    Seq<char>,
> {
    ins.map_values(|p: Seq<char>| strip_root(root, p)).filter(
        |q: Seq<char>| set_excludes(pats, q),
    )
}

/// The inputs a pattern set spares, in input order and as given (not yet
/// rendered relative to the root).
pub open spec fn spared_inputs_spec(
    pats: Seq<Seq<char>>,
    root: Seq<char>,
    ins: Seq<Seq<char>>,
) -> Seq<Seq<char>> {
    ins.filter(|p: Seq<char>| set_excludes(pats, strip_root(root, p)))
}

/// Law: partitioning accounts for every input path exactly once. The kept
/// candidates and the spared inputs together are the input list; the
/// excluded report is the spared inputs rendered relative to the root, in
/// input order; and no input is both kept and spared.
pub proof fn lemma_partition_accounts_for_every_input(
    pats: Seq<Seq<char>>,
    root: Seq<char>,
    ins: Seq<Seq<char>>,
)
    ensures
        kept_spec(pats, root, ins).to_multiset().add(
            spared_inputs_spec(pats, root, ins).to_multiset(),
        ) == ins.to_multiset(),
        excluded_spec(pats, root, ins) == spared_inputs_spec(pats, root, ins).map_values(
            |p: Seq<char>| strip_root(root, p),
        ),
        kept_spec(pats, root, ins).len() + excluded_spec(pats, root, ins).len() == ins.len(),
        forall|p: Seq<char>|
            !(kept_spec(pats, root, ins).contains(p) && spared_inputs_spec(
                pats,
                root,
                ins,
            ).contains(p)),
    decreases ins.len(),
{
    broadcast use vstd::seq_lib::group_to_multiset_ensures;
    broadcast use vstd::multiset::group_multiset_axioms;
    broadcast use vstd::prelude::Seq::lemma_filter_push;
    broadcast use vstd::prelude::Seq::lemma_push_map_commute;
    broadcast use vstd::seq_lib::group_filter_ensures;

    let keptf = |p: Seq<char>| !set_excludes(pats, strip_root(root, p));
    let sparedf = |p: Seq<char>| set_excludes(pats, strip_root(root, p));
    let exclf = |q: Seq<char>| set_excludes(pats, q);
    let relf = |p: Seq<char>| strip_root(root, p);
    if ins.len() == 0 {
        assert(ins.filter(keptf) =~= Seq::<Seq<char>>::empty());
        assert(ins.filter(sparedf) =~= Seq::<Seq<char>>::empty());
        assert(ins.map_values(relf) =~= Seq::<Seq<char>>::empty());
        assert(Seq::<Seq<char>>::empty().filter(exclf) =~= Seq::<Seq<char>>::empty());
        assert(Seq::<Seq<char>>::empty().map_values(relf) =~= Seq::<Seq<char>>::empty());
        assert forall|p: Seq<char>|
            ins.to_multiset().count(p) == 0 && Seq::<Seq<char>>::empty().to_multiset().count(p)
                == 0 by {
            assert(!ins.contains(p));
            assert(!Seq::<Seq<char>>::empty().contains(p));
        }
        assert(kept_spec(pats, root, ins).to_multiset().add(
            spared_inputs_spec(pats, root, ins).to_multiset(),
        ) =~= ins.to_multiset());
    } else {
        let prefix = ins.drop_last();
        let last = ins.last();
        lemma_partition_accounts_for_every_input(pats, root, prefix);
        assert(ins =~= prefix.push(last));
        assert(ins.map_values(relf) =~= prefix.map_values(relf).push(relf(last)));
        assert(kept_spec(pats, root, ins).to_multiset().add(
            spared_inputs_spec(pats, root, ins).to_multiset(),
        ) =~= ins.to_multiset());
        assert(excluded_spec(pats, root, ins) =~= spared_inputs_spec(pats, root, ins).map_values(
            relf,
        ));
        assert forall|p: Seq<char>|
            !(kept_spec(pats, root, ins).contains(p) && spared_inputs_spec(
                pats,
                root,
                ins,
            ).contains(p)) by {
            if kept_spec(pats, root, ins).contains(p) && spared_inputs_spec(
                pats,
                root,
                ins,
            ).contains(p) {
                let i = choose|i: int|
                    0 <= i < kept_spec(pats, root, ins).len() && kept_spec(pats, root, ins)[i]
                        == p;
                let j = choose|j: int|
                    0 <= j < spared_inputs_spec(pats, root, ins).len() && spared_inputs_spec(
                        pats,
                        root,
                        ins,
                    )[j] == p;
                assert(keptf(p));
                assert(sparedf(p));
            }
        }
    }
}

/// Law: in execute mode every input path of a finished run stands in exactly
/// one of the three buckets: the deleted and failed paths together are
/// exactly the kept candidates, and with the spared inputs they are exactly
/// the input list.
pub proof fn lemma_finished_run_accounts_for_every_input(
    pats: Seq<Seq<char>>,
    root: Seq<char>,
    ins: Seq<Seq<char>>,
    deleted: Seq<Seq<char>>,
    failed: Seq<Seq<char>>,
)
    requires
        deleted.to_multiset().add(failed.to_multiset()) == kept_spec(
            pats,
            root,
            ins,
        ).to_multiset(),
    ensures
        deleted.to_multiset().add(failed.to_multiset()).add(
            spared_inputs_spec(pats, root, ins).to_multiset(),
        ) == ins.to_multiset(),
{
    lemma_partition_accounts_for_every_input(pats, root, ins);
}

/// Law: with no exclusion patterns nothing is spared: every input is kept
/// for deletion, in order, and the excluded report is empty.
pub proof fn lemma_no_patterns_keeps_every_input(root: Seq<char>, ins: Seq<Seq<char>>)
    ensures
        kept_spec(Seq::empty(), root, ins) == ins,
        excluded_spec(Seq::empty(), root, ins) == Seq::<Seq<char>>::empty(),
    decreases ins.len(),
{
    broadcast use vstd::prelude::Seq::lemma_filter_push;
    broadcast use vstd::prelude::Seq::lemma_push_map_commute;

    let pats = Seq::<Seq<char>>::empty();
    let keptf = |p: Seq<char>| !set_excludes(pats, strip_root(root, p));
    let exclf = |q: Seq<char>| set_excludes(pats, q);
    let relf = |p: Seq<char>| strip_root(root, p);
    if ins.len() == 0 {
        assert(ins.filter(keptf) =~= ins);
        assert(ins.map_values(relf) =~= Seq::<Seq<char>>::empty());
        assert(Seq::<Seq<char>>::empty().filter(exclf) =~= Seq::<Seq<char>>::empty());
    } else {
        let prefix = ins.drop_last();
        let last = ins.last();
        lemma_no_patterns_keeps_every_input(root, prefix);
        assert(ins =~= prefix.push(last));
        assert(ins.map_values(relf) =~= prefix.map_values(relf).push(relf(last)));
        assert(kept_spec(pats, root, ins) =~= ins);
        assert(excluded_spec(pats, root, ins) =~= Seq::<Seq<char>>::empty());
    }
}

/// Law: when every input is spared by some pattern, nothing is kept for
/// deletion and the excluded report is the whole input list, in order,
/// rendered relative to the root.
pub proof fn lemma_all_spared_keeps_nothing(pats: Seq<Seq<char>>, root: Seq<char>, ins: Seq<Seq<char>>)
    requires
        forall|i: int| 0 <= i < ins.len() ==> set_excludes(pats, strip_root(root, ins[i])),
    ensures
        kept_spec(pats, root, ins) == Seq::<Seq<char>>::empty(),
        excluded_spec(pats, root, ins) == ins.map_values(|p: Seq<char>| strip_root(root, p)),
    decreases ins.len(),
{
    broadcast use vstd::prelude::Seq::lemma_filter_push;
    broadcast use vstd::prelude::Seq::lemma_push_map_commute;

    let keptf = |p: Seq<char>| !set_excludes(pats, strip_root(root, p));
    let exclf = |q: Seq<char>| set_excludes(pats, q);
    let relf = |p: Seq<char>| strip_root(root, p);
    if ins.len() == 0 {
        assert(ins.filter(keptf) =~= Seq::<Seq<char>>::empty());
        assert(ins.map_values(relf) =~= Seq::<Seq<char>>::empty());
        assert(Seq::<Seq<char>>::empty().filter(exclf) =~= Seq::<Seq<char>>::empty());
    } else {
        let prefix = ins.drop_last();
        let last = ins.last();
        assert(forall|i: int| 0 <= i < prefix.len() ==> prefix[i] == ins[i]);
        lemma_all_spared_keeps_nothing(pats, root, prefix);
        assert(ins =~= prefix.push(last));
        assert(set_excludes(pats, strip_root(root, last)));
        assert(ins.map_values(relf) =~= prefix.map_values(relf).push(relf(last)));
        assert(kept_spec(pats, root, ins) =~= Seq::<Seq<char>>::empty());
        assert(excluded_spec(pats, root, ins) =~= ins.map_values(relf));
    }
}

/// Law: when the candidate list holds no duplicate path, the deleted and
/// failed lists of a finished execute run are disjoint: no path is reported
/// both as removed and as failed.
pub proof fn lemma_execute_buckets_disjoint(
    deleted: Seq<Seq<char>>,
    failed: Seq<Seq<char>>,
    cands: Seq<Seq<char>>,
)
    requires
        cands.no_duplicates(),
        deleted.to_multiset().add(failed.to_multiset()) == cands.to_multiset(),
    ensures
        forall|p: Seq<char>| !(deleted.contains(p) && failed.contains(p)),
{
    broadcast use vstd::seq_lib::group_to_multiset_ensures;
    broadcast use vstd::multiset::group_multiset_axioms;

    cands.lemma_multiset_has_no_duplicates();
    assert forall|p: Seq<char>| !(deleted.contains(p) && failed.contains(p)) by {
        if deleted.contains(p) && failed.contains(p) {
            assert(deleted.to_multiset().count(p) >= 1);
            assert(failed.to_multiset().count(p) >= 1);
            assert(cands.to_multiset().count(p) >= 2);
            assert(cands.to_multiset().contains(p));
        }
    }
}

/// The execute-mode loop, one candidate at a time: the caller performs the
/// deletion of the current candidate and reports its outcome; the executor
/// does the bookkeeping. Every candidate is attempted exactly once, and a
/// failure never stops the run.
pub struct Executor {
    result: CleanResult,
    candidates: Vec<String>,
    next: usize,
}

impl Executor {
    /// The views of the deletion candidates, in order.
    pub closed spec fn candidate_views(&self) -> Seq<Seq<char>> {
        path_views(self.candidates@)
    }

    /// How many candidates have been attempted so far.
    pub closed spec fn attempted(&self) -> int {
        self.next as int
    }

    /// The result accumulated so far.
    pub closed spec fn result_spec(&self) -> CleanResult {
        self.result
    }

    /// Every candidate attempted so far is recorded as deleted or as failed,
    /// and nothing else is.
    pub open spec fn inv(&self) -> bool {
        &&& 0 <= self.attempted() <= self.candidate_views().len()
        &&& self.result_spec().deleted_views().to_multiset().add(
            self.result_spec().failed_paths().to_multiset(),
        ) == self.candidate_views().take(self.attempted()).to_multiset()
    }

    /// Every candidate has been attempted.
    pub open spec fn done_spec(&self) -> bool {
        self.attempted() == self.candidate_views().len()
    }

    /// How many deletion candidates this run holds in all.
    pub fn candidate_count(&self) -> (r: usize)
        ensures
            r == self.candidate_views().len(),
    {
        self.candidates.len()
    }

    /// Whether every candidate has been attempted.
    pub fn is_done(&self) -> (r: bool)
        ensures
            r == self.done_spec(),
    {
        self.next == self.candidates.len()
    }

    /// The candidate to attempt next, or nothing once all are attempted.
    pub fn current(&self) -> (r: Option<String>)
        requires
            self.inv(),
        ensures
            match r {
                Some(p) => !self.done_spec() && p@ == self.candidate_views()[self.attempted()],
                None => self.done_spec(),
            },
    {
        if self.next < self.candidates.len() {
            assert(self.candidate_views()[self.attempted()] == self.candidates@.index(
                self.next as int,
            )@);
            Some(self.candidates[self.next].clone())
        } else {
            None
        }
    }

    /// Records the outcome of the current candidate's deletion attempt: no
    /// error appends it to `deleted`, an error appends it to `failed` with
    /// the reason; either way the run moves on to the next candidate.
    pub fn record_outcome(&mut self, error: Option<String>)
        requires
            old(self).inv(),
            !old(self).done_spec(),
        ensures
            final(self).inv(),
            final(self).attempted() == old(self).attempted() + 1,
            final(self).candidate_views() == old(self).candidate_views(),
            final(self).result_spec().excluded_views() == old(self).result_spec().excluded_views(),
            match error {
                None => {
                    &&& final(self).result_spec().deleted_views() == old(
                        self,
                    ).result_spec().deleted_views().push(
                        old(self).candidate_views()[old(self).attempted()],
                    )
                    &&& final(self).result_spec().failed_views() == old(
                        self,
                    ).result_spec().failed_views()
                },
                Some(reason) => {
                    &&& final(self).result_spec().failed_views() == old(
                        self,
                    ).result_spec().failed_views().push(
                        (old(self).candidate_views()[old(self).attempted()], reason@),
                    )
                    &&& final(self).result_spec().deleted_views() == old(
                        self,
                    ).result_spec().deleted_views()
                },
            },
    {
        let ghost pre = *self;
        let len = self.candidates.len();
        assert(self.next < len);
        let path = self.candidates[self.next].clone();
        match error {
            None => {
                self.result.deleted.push(path);
            },
            Some(reason) => {
                self.result.failed.push((path, reason));
            },
        }
        self.next = self.next + 1;
        proof {
            broadcast use vstd::seq_lib::group_to_multiset_ensures;
            broadcast use vstd::prelude::Seq::lemma_push_map_commute;

            let cv = pre.candidate_views();
            let k = pre.attempted();
            assert(cv.take(k + 1) =~= cv.take(k).push(cv[k]));
            assert(self.result.deleted_views().to_multiset().add(
                self.result.failed_paths().to_multiset(),
            ) =~= cv.take(k + 1).to_multiset());
        }
    }

    /// Hands the finished result out; together the deleted and failed lists
    /// hold exactly the candidates, each attempted once.
    pub fn into_result(self) -> (r: CleanResult)
        requires
            self.inv(),
            self.done_spec(),
        ensures
            r == self.result_spec(),
            r.deleted_views().to_multiset().add(r.failed_paths().to_multiset())
                == self.candidate_views().to_multiset(),
    {
        proof {
            assert(self.candidate_views().take(self.attempted()) =~= self.candidate_views());
        }
        self.result
    }
}

/// Where one run stands after selection: a terminal report, or the
/// execute-mode loop still to be driven.
pub enum RunState {
    /// No ignored paths were reported at all.
    EmptyInput { result: CleanResult },
    /// Every ignored path was spared by an exclusion pattern.
    NoCandidates { result: CleanResult },
    /// A dry run: the result lists what would be deleted; nothing is touched.
    DryRunReport { result: CleanResult },
    /// Execute mode: the caller drives the executor over the candidates.
    Executing { executor: Executor },
}

/// One cleaning run: the repository root, the safety gate, and the compiled
/// exclusion patterns.
pub struct Cleaner {
    root: String,
    dry_run: bool,
    matcher: PatternMatcher,
}

impl Cleaner {
    /// The repository root every path is rendered relative to.
    pub closed spec fn root_view(&self) -> Seq<char> {
        self.root@
    }

    /// The exclusion pattern texts, in order.
    pub closed spec fn patterns_view(&self) -> Seq<Seq<char>> {
        self.matcher@
    }

    /// Whether this run is a dry run.
    pub closed spec fn is_dry_run_spec(&self) -> bool {
        self.dry_run
    }

    /// Sets a run up: requires the ignore-policy file to be present and every
    /// exclusion pattern to compile; the first malformed pattern is reported
    /// and no cleaner is produced.
    pub fn new(cli: &Cli, root: String, has_gitignore: bool) -> (r: Result<Cleaner, CleanError>)
        ensures
            r is Ok <==> (has_gitignore && forall|i: int|
                0 <= i < cli.ignore_patterns@.len() ==> crate::patterns::glob_syntax_ok(
                    cli.ignore_patterns@[i]@,
                )),
            r matches Ok(c) ==> {
                &&& c.root_view() == root@
                &&& c.is_dry_run_spec() == !cli.execute
                &&& c.patterns_view() == path_views(cli.ignore_patterns@)
            },
            !has_gitignore ==> (r matches Err(e) && e matches CleanError::NoGitignore {
                root: rt,
            } && rt@ == root@),
            has_gitignore ==> (r matches Err(e) ==> e matches CleanError::InvalidPattern {
                pattern,
            } && exists|i: int|
                {
                    &&& 0 <= i < cli.ignore_patterns@.len()
                    &&& !crate::patterns::glob_syntax_ok(cli.ignore_patterns@[i]@)
                    &&& pattern@ == cli.ignore_patterns@[i]@
                    &&& forall|j: int|
                        0 <= j < i ==> crate::patterns::glob_syntax_ok(cli.ignore_patterns@[j]@)
                }),
    {
        if !has_gitignore {
            return Err(CleanError::NoGitignore { root });
        }
        match PatternMatcher::new(&cli.ignore_patterns) {
            Ok(matcher) => Ok(Cleaner { root, dry_run: cli.is_dry_run(), matcher }),
            Err(pattern) => Err(CleanError::InvalidPattern { pattern }),
        }
    }

    /// Partitions the ignored paths and decides the run's outcome: an empty
    /// report for empty input, a report when everything was spared, a
    /// dry-run report, or an executor over the candidates. Deletion is never
    /// attempted in a dry run.
    pub fn run(&self, ignored: &Vec<String>) -> (r: RunState)
        ensures
            ({
                let ins = path_views(ignored@);
                let kept = kept_spec(self.patterns_view(), self.root_view(), ins);
                let excl = excluded_spec(self.patterns_view(), self.root_view(), ins);
                &&& (ins.len() == 0 ==> (r matches RunState::EmptyInput { result }
                    && result.all_empty()))
                &&& (ins.len() > 0 && kept.len() == 0 ==> (r matches RunState::NoCandidates {
                    result,
                } && {
                    &&& result.excluded_views() == excl
                    &&& result.deleted@.len() == 0
                    &&& result.failed@.len() == 0
                }))
                &&& (kept.len() > 0 && self.is_dry_run_spec() ==> (r
                    matches RunState::DryRunReport { result } && {
                    &&& result.deleted_views() == kept
                    &&& result.excluded_views() == excl
                    &&& result.failed@.len() == 0
                }))
                &&& (kept.len() > 0 && !self.is_dry_run_spec() ==> (r matches RunState::Executing {
                    executor,
                } && {
                    &&& executor.inv()
                    &&& executor.attempted() == 0
                    &&& executor.candidate_views() == kept
                    &&& executor.result_spec().excluded_views() == excl
                    &&& executor.result_spec().deleted@.len() == 0
                    &&& executor.result_spec().failed@.len() == 0
                }))
            }),
    {
        let ghost ins = path_views(ignored@);
        let ghost pats = self.patterns_view();
        let ghost rootv = self.root_view();
        let n = ignored.len();
        if n == 0 {
            return RunState::EmptyInput { result: CleanResult::new() };
        }
        let mut kept: Vec<String> = Vec::new();
        let mut excl: Vec<String> = Vec::new();
        let mut idx: usize = 0;
        while idx < n
            invariant
                idx <= n,
                n == ignored@.len(),
                ins == path_views(ignored@),
                pats == self.patterns_view(),
                rootv == self.root_view(),
                path_views(kept@) == kept_spec(pats, rootv, ins.take(idx as int)),
                path_views(excl@) == excluded_spec(pats, rootv, ins.take(idx as int)),
            decreases n - idx,
        {
            let ghost old_kept = path_views(kept@);
            let ghost old_excl = path_views(excl@);
            let rel = relative_to(self.root.as_str(), ignored[idx].as_str());
            let excluded_here = self.matcher.matches(rel.as_str());
            proof {
                broadcast use vstd::prelude::Seq::lemma_filter_push;
                broadcast use vstd::prelude::Seq::lemma_push_map_commute;

                let relf = |p: Seq<char>| strip_root(rootv, p);
                assert(ins.take(idx + 1) =~= ins.take(idx as int).push(ins[idx as int]));
                assert(ins.take(idx + 1).map_values(relf) =~= ins.take(idx as int).map_values(
                    relf,
                ).push(relf(ins[idx as int])));
            }
            if excluded_here {
                excl.push(rel);
            } else {
                kept.push(ignored[idx].clone());
            }
            proof {
                broadcast use vstd::prelude::Seq::lemma_filter_push;
                broadcast use vstd::prelude::Seq::lemma_push_map_commute;

                if set_excludes(pats, strip_root(rootv, ins[idx as int])) {
                    assert(path_views(excl@) =~= old_excl.push(strip_root(rootv, ins[idx as int])));
                } else {
                    assert(path_views(kept@) =~= old_kept.push(ins[idx as int]));
                }
            }
            idx = idx + 1;
        }
        proof {
            assert(ins.take(n as int) =~= ins);
        }
        if kept.len() == 0 {
            return RunState::NoCandidates {
                result: CleanResult { deleted: Vec::new(), excluded: excl, failed: Vec::new() },
            };
        }
        if self.dry_run {
            RunState::DryRunReport {
                result: CleanResult { deleted: kept, excluded: excl, failed: Vec::new() },
            }
        } else {
            let executor = Executor {
                result: CleanResult { deleted: Vec::new(), excluded: excl, failed: Vec::new() },
                candidates: kept,
                next: 0,
            };
            proof {
                broadcast use vstd::seq_lib::group_to_multiset_ensures;

                assert(executor.candidate_views().take(0) =~= Seq::<Seq<char>>::empty());
                assert(executor.result_spec().deleted_views().to_multiset().add(
                    executor.result_spec().failed_paths().to_multiset(),
                ) =~= executor.candidate_views().take(0).to_multiset());
            }
            RunState::Executing { executor }
        }
    }
}

} // verus!
