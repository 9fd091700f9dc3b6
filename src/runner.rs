use vstd::prelude::*;
use crate::error::{
    Error, InstallServiceError, any_failed, failures, successes, join_outcomes, is_multi_install_of,
};

verus! {

/// The backend that a runner installs with.
#[derive(Clone, Copy, PartialEq, Eq, Structural, Debug)]
pub enum ProviderKind {
    Cargo,
}

/// Whether a backend's targets may install concurrently.
#[derive(Clone, Copy, PartialEq, Eq, Structural, Debug)]
pub enum MultiInstallMode {
    Parallel,
    Sequential,
}

/// The progress signal that closes one target's install.
#[derive(Clone, Copy, PartialEq, Eq, Structural, Debug)]
pub enum ProgressSignal {
    Done,
    Failed,
}

/// One backend's share of an install run: its kind, its policy and its targets.
pub struct InstallRunner {
    pub provider: ProviderKind,
    pub mode: MultiInstallMode,
    pub targets: Vec<String>,
}

/// Builds runners; one per configured backend.
pub struct InstallRunnerProvider {}

impl InstallRunnerProvider {
    pub fn new() -> (r: Self) {
        InstallRunnerProvider {}
    }

    /// A runner bound to one backend's kind, policy and targets.
    pub fn make_runner(&self, provider: ProviderKind, mode: MultiInstallMode, targets: Vec<String>) -> (r:
        InstallRunner)
        ensures
            r.provider == provider,
            r.mode == mode,
            r.targets == targets,
    {
        InstallRunner { provider, mode, targets }
    }
}

/// The index of the first failure among `outcomes`, if any.
pub open spec fn first_failure<T>(outcomes: Seq<Result<T, Error>>) -> Option<int>
    decreases outcomes.len(),
{
    if outcomes.len() == 0 {
        None
    } else {
        match first_failure(outcomes.drop_last()) {
            Some(i) => Some(i),
            None => if outcomes.last() is Err {
                Some(outcomes.len() - 1)
            } else {
                None
            },
        }
    }
}

/// Which target a sequential run installs next, given the success of those tried so
/// far: the next one in listed order, and none once one has failed.
pub open spec fn sequential_next_spec(n: nat, done: Seq<bool>) -> Option<nat> {
    if (forall|i: int| 0 <= i < done.len() ==> done[i]) && done.len() < n {
        Some(done.len())
    } else {
        None
    }
}

/// A run succeeds when no target's install failed.
pub open spec fn run_succeeds(outcomes: Seq<Result<(), Error>>) -> bool {
    !any_failed(outcomes)
}

impl InstallRunner {
    pub fn provider_type(&self) -> (r: ProviderKind)
        ensures
            r == self.provider,
    {
        self.provider
    }

    /// In sequential mode, the target to install next, given whether each target
    /// tried so far succeeded.
    pub fn next_sequential(&self, done: &Vec<bool>) -> (r: Option<usize>)
        ensures
            r matches Some(i) ==> sequential_next_spec(self.targets@.len(), done@) == Some(i as nat),
            r is None ==> sequential_next_spec(self.targets@.len(), done@) is None,
    {
        let mut i: usize = 0;
        while i < done.len()
            invariant
                i <= done@.len(),
                forall|k: int| 0 <= k < i ==> done@[k],
            decreases done@.len() - i,
        {
            if !done[i] {
                return None;
            }
            i = i + 1;
        }
        if done.len() < self.targets.len() {
            Some(done.len())
        } else {
            None
        }
    }

    /// The result of this runner's installs, from the outcome of each target that
    /// was tried, in listed order. Sequential mode hands on the first failure as it
    /// is; parallel mode reports every failure in one aggregate error.
    pub fn run_result(&self, outcomes: Vec<Result<(), Error>>) -> (r: Result<(), Error>)
        requires
            self.mode == MultiInstallMode::Parallel ==> outcomes@.len() == self.targets@.len(),
            self.mode == MultiInstallMode::Sequential ==> outcomes@.len() <= self.targets@.len(),
        ensures
            r is Ok <==> run_succeeds(outcomes@),
            self.mode == MultiInstallMode::Parallel && r is Err ==> is_multi_install_of(
                r->Err_0,
                failures(outcomes@),
            ),
            self.mode == MultiInstallMode::Sequential && r is Err ==> (first_failure(outcomes@) is Some
                && outcomes@[first_failure(outcomes@)->0] == r),
    {
        match self.mode {
            MultiInstallMode::Parallel => match join_outcomes(outcomes) {
                Ok(_) => Ok(()),
                Err(e) => Err(e),
            },
            MultiInstallMode::Sequential => sequential_result(outcomes),
        }
    }

    /// This runner's executable paths, from the outcome of each target's lookup:
    /// all of them in target order, or one aggregate error with every failure.
    pub fn bin_paths_result(&self, outcomes: Vec<Result<Vec<String>, Error>>) -> (r: Result<
        Vec<String>,
        Error,
    >)
        requires
            outcomes@.len() == self.targets@.len(),
        ensures
            match r {
                Ok(ps) => !any_failed(outcomes@) && ps@ == flatten_values(successes(outcomes@)),
                Err(e) => any_failed(outcomes@) && is_multi_install_of(e, failures(outcomes@)),
            },
    {
        match join_outcomes(outcomes) {
            Ok(lists) => Ok(flatten(lists)),
            Err(e) => Err(e),
        }
    }

    /// The result of publishing this runner's executables, from each target's
    /// outcome: every failure is reported in one aggregate error.
    pub fn install_bin_path_result(&self, outcomes: Vec<Result<(), Error>>) -> (r: Result<(), Error>)
        requires
            outcomes@.len() == self.targets@.len(),
        ensures
            r is Ok <==> !any_failed(outcomes@),
            r is Err ==> is_multi_install_of(r->Err_0, failures(outcomes@)),
    {
        match join_outcomes(outcomes) {
            Ok(_) => Ok(()),
            Err(e) => Err(e),
        }
    }
}

/// The progress signal that closes a target's install: done when it succeeded,
/// failed otherwise.
pub fn closing_signal(install: &Result<(), Error>) -> (r: ProgressSignal)
    ensures
        r == (if install is Ok {
            ProgressSignal::Done
        } else {
            ProgressSignal::Failed
        }),
{
    match install {
        Ok(()) => ProgressSignal::Done,
        Err(_) => ProgressSignal::Failed,
    }
}

/// The result of one target, from its install's outcome and that of the closing
/// progress signal: a failed signal is reported; otherwise the install's own
/// outcome is handed on unchanged.
pub fn finish_target(install: Result<(), Error>, signal: Result<(), Error>) -> (r: Result<(), Error>)
    ensures
        signal is Err ==> r == signal,
        signal is Ok ==> r == install,
{
    match signal {
        Err(e) => Err(e),
        Ok(()) => install,
    }
}

/// The first failure among `outcomes`, or success when there is none.
pub fn sequential_result(outcomes: Vec<Result<(), Error>>) -> (r: Result<(), Error>)
    ensures
        r is Ok <==> run_succeeds(outcomes@),
        r is Err ==> (first_failure(outcomes@) is Some && outcomes@[first_failure(outcomes@)->0] == r),
{
    let ghost all = outcomes@;
    let mut rest = outcomes;
    let n: usize = rest.len();
    let mut i: usize = 0;
    while i < n
        invariant
            n == all.len(),
            all == outcomes@,
            i <= n,
            rest@ == all.subrange(i as int, n as int),
            first_failure(all.subrange(0, i as int)) is None,
            !any_failed(all.subrange(0, i as int)),
        decreases n - i,
    {
        let item = rest.remove(0);
        proof {
            let pre = all.subrange(0, i as int);
            let cur = all.subrange(0, i + 1);
            assert(cur.drop_last() =~= pre);
            assert(item == all[i as int]);
        }
        match item {
            Ok(()) => {
                proof {
                    let cur = all.subrange(0, i + 1);
                    if any_failed(cur) {
                        let k = choose|k: int| 0 <= k < cur.len() && cur[k] is Err;
                        assert(all.subrange(0, i as int)[k] is Err);
                    }
                }
            },
            Err(e) => {
                proof {
                    lemma_first_failure_extends(all, i as int + 1);
                    assert(all[i as int] is Err);
                    assert(first_failure(all) == Some(i as int));
                    assert(any_failed(all));
                    assert(all[i as int] == Err::<(), Error>(e));
                }
                return Err(e);
            },
        }
        i = i + 1;
    }
    proof {
        assert(all.subrange(0, n as int) =~= all);
    }
    Ok(())
}

proof fn lemma_first_failure_extends<T>(s: Seq<Result<T, Error>>, k: int)
    requires
        0 < k <= s.len(),
        first_failure(s.subrange(0, k - 1)) is None,
        s[k - 1] is Err,
    ensures
        first_failure(s) == Some(k - 1),
    decreases s.len(),
{
    if s.len() == k {
        assert(s.drop_last() =~= s.subrange(0, k - 1));
    } else {
        assert(s.drop_last().subrange(0, k - 1) =~= s.subrange(0, k - 1));
        lemma_first_failure_extends(s.drop_last(), k);
    }
}

/// `k` answers, each a success.
pub open spec fn all_succeeded(k: nat) -> Seq<bool> {
    Seq::new(k, |i: int| true)
}

proof fn lemma_no_first_failure<T>(outcomes: Seq<Result<T, Error>>)
    requires
        !any_failed(outcomes),
    ensures
        first_failure(outcomes) is None,
    decreases outcomes.len(),
{
    if outcomes.len() > 0 {
        let init = outcomes.drop_last();
        assert(outcomes[outcomes.len() - 1] is Ok);
        assert forall|i: int| 0 <= i < init.len() implies init[i] is Ok by {
            assert(outcomes[i] is Ok);
        }
        lemma_no_first_failure(init);
    }
}

/// With every install of a runner's `n` targets succeeding, the two modes agree:
/// a sequential run asks for each target exactly once, in listed order, and then
/// stops, so it installs what a parallel run installs; its selection of the
/// first failure finds none to hand on.
pub proof fn law_modes_agree_on_success(n: nat, outcomes: Seq<Result<(), Error>>)
    requires
        outcomes.len() == n,
        !any_failed(outcomes),
    ensures
        first_failure(outcomes) is None,
        forall|k: nat|
            k <= n ==> #[trigger] sequential_next_spec(n, all_succeeded(k)) == if k < n {
                Some(k)
            } else {
                None
            },
{
    lemma_no_first_failure(outcomes);
}

/// The lists of `lists`, joined in order.
pub open spec fn flatten_values(lists: Seq<Vec<String>>) -> Seq<String>
    decreases lists.len(),
{
    if lists.len() == 0 {
        Seq::empty()
    } else {
        flatten_values(lists.drop_last()) + lists.last()@
    }
}

/// The lists of `lists`, joined in order.
pub fn flatten(lists: Vec<Vec<String>>) -> (r: Vec<String>)
    ensures
        r@ == flatten_values(lists@),
{
    let ghost all = lists@;
    let mut rest = lists;
    let mut out: Vec<String> = Vec::new();
    let n: usize = rest.len();
    let mut i: usize = 0;
    while i < n
        invariant
            n == all.len(),
            i <= n,
            rest@ == all.subrange(i as int, n as int),
            out@ == flatten_values(all.subrange(0, i as int)),
        decreases n - i,
    {
        let mut item = rest.remove(0);
        proof {
            assert(all.subrange(0, i + 1).drop_last() =~= all.subrange(0, i as int));
        }
        let ghost before = out@;
        let ghost part = item@;
        out.append(&mut item);
        proof {
            assert(out@ =~= before + part);
        }
        i = i + 1;
    }
    proof {
        assert(all.subrange(0, n as int) =~= all);
    }
    out
}

} // verus!
