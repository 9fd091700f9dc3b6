use vstd::prelude::*;

verus! {

/// Any failure of an install run.
pub enum Error {
    /// A filesystem or other I/O-class failure, with its message.
    Io(String),
    /// The configuration file path has no parent directory.
    ConfigPathNotFound,
    /// A failure that the install service itself reports.
    Service(InstallServiceError),
}

/// Failures reported by the install service.
pub enum InstallServiceError {
    /// Every failure of a concurrent fan-out, in the order of its branches.
    MultiInstall(Vec<Error>),
    /// One target of one provider failed to install.
    Install { provider: String, name: String, error_message: String, error: Box<Error> },
    /// Executable names produced more than once in one run.
    DuplicateBin(Vec<String>),
}

impl InstallServiceError {
    pub fn new_multi_install(errors: Vec<Error>) -> (r: Self)
        ensures
            r == InstallServiceError::MultiInstall(errors),
    {
        InstallServiceError::MultiInstall(errors)
    }

    pub fn new_install(provider: String, name: String, error_message: String, error: Error) -> (r:
        Self)
        ensures
            r matches InstallServiceError::Install { provider: p, name: n, error_message: m, error: e }
                && p == provider && n == name && m == error_message && *e == error,
    {
        InstallServiceError::Install { provider, name, error_message, error: Box::new(error) }
    }

    pub fn new_duplicate_bin(names: Vec<String>) -> (r: Self)
        ensures
            r == InstallServiceError::DuplicateBin(names),
    {
        InstallServiceError::DuplicateBin(names)
    }
}

/// The failures among `outcomes`, in order.
pub open spec fn failures<T>(outcomes: Seq<Result<T, Error>>) -> Seq<Error>
    decreases outcomes.len(),
{
    if outcomes.len() == 0 {
        Seq::empty()
    } else {
        let init = failures(outcomes.drop_last());
        match outcomes.last() {
            Ok(_) => init,
            Err(e) => init.push(e),
        }
    }
}

/// The successful values among `outcomes`, in order.
pub open spec fn successes<T>(outcomes: Seq<Result<T, Error>>) -> Seq<T>
    decreases outcomes.len(),
{
    if outcomes.len() == 0 {
        Seq::empty()
    } else {
        let init = successes(outcomes.drop_last());
        match outcomes.last() {
            Ok(v) => init.push(v),
            Err(_) => init,
        }
    }
}

/// Whether any of `outcomes` failed.
pub open spec fn any_failed<T>(outcomes: Seq<Result<T, Error>>) -> bool {
    exists|i: int| 0 <= i < outcomes.len() && outcomes[i] is Err
}

pub proof fn lemma_failures_empty<T>(outcomes: Seq<Result<T, Error>>)
    ensures
        failures(outcomes).len() == 0 <==> !any_failed(outcomes),
        failures(outcomes).len() + successes(outcomes).len() == outcomes.len(),
    decreases outcomes.len(),
{
    if outcomes.len() > 0 {
        let init = outcomes.drop_last();
        lemma_failures_empty(init);
        if any_failed(init) {
            let i = choose|i: int| 0 <= i < init.len() && init[i] is Err;
            assert(outcomes[i] is Err);
        }
        if any_failed(outcomes) && outcomes.last() is Ok {
            let i = choose|i: int| 0 <= i < outcomes.len() && outcomes[i] is Err;
            assert(init[i] is Err);
        }
    }
}

/// How many of `outcomes` failed.
pub open spec fn count_failed<T>(outcomes: Seq<Result<T, Error>>) -> nat
    decreases outcomes.len(),
{
    if outcomes.len() == 0 {
        0
    } else {
        count_failed(outcomes.drop_last()) + if outcomes.last() is Err {
            1nat
        } else {
            0nat
        }
    }
}

/// A fan-out's aggregate holds one entry for each failed branch, in order: when
/// K of N branches fail it holds exactly K errors, and the other N - K results
/// are all accounted for as successes.
pub proof fn law_aggregate_holds_each_failure<T>(outcomes: Seq<Result<T, Error>>)
    ensures
        failures(outcomes).len() == count_failed(outcomes),
        successes(outcomes).len() == outcomes.len() - failures(outcomes).len(),
    decreases outcomes.len(),
{
    lemma_failures_empty(outcomes);
    if outcomes.len() > 0 {
        law_aggregate_holds_each_failure(outcomes.drop_last());
    }
}

/// `e` is the aggregate error that holds exactly `errors`, in order.
pub open spec fn is_multi_install_of(e: Error, errors: Seq<Error>) -> bool {
    e matches Error::Service(InstallServiceError::MultiInstall(es)) && es@ == errors
}

/// Waits for nothing and drops nothing: every outcome of a concurrent fan-out is
/// looked at, and the result is either every success or every failure, in order.
pub fn collect_outcomes<T>(outcomes: Vec<Result<T, Error>>) -> (r: Result<Vec<T>, Vec<Error>>)
    ensures
        match r {
            Ok(vs) => !any_failed(outcomes@) && vs@ == successes(outcomes@) && vs@.len()
                == outcomes@.len(),
            Err(es) => any_failed(outcomes@) && es@ == failures(outcomes@),
        },
{
    let ghost all = outcomes@;
    let mut oks: Vec<T> = Vec::new();
    let mut errs: Vec<Error> = Vec::new();
    let mut rest = outcomes;
    let n: usize = rest.len();
    let mut i: usize = 0;
    while i < n
        invariant
            n == all.len(),
            i <= n,
            rest@ == all.subrange(i as int, n as int),
            oks@ == successes(all.subrange(0, i as int)),
            errs@ == failures(all.subrange(0, i as int)),
        decreases n - i,
    {
        let item = rest.remove(0);
        proof {
            assert(all.subrange(0, i + 1).drop_last() =~= all.subrange(0, i as int));
        }
        match item {
            Ok(v) => oks.push(v),
            Err(e) => errs.push(e),
        }
        i = i + 1;
    }
    proof {
        assert(all.subrange(0, n as int) =~= all);
        lemma_failures_empty(all);
    }
    if errs.len() == 0 {
        Ok(oks)
    } else {
        Err(errs)
    }
}

/// Joins the outcomes of a concurrent fan-out: every success, or one aggregate
/// error that holds every failure.
pub fn join_outcomes<T>(outcomes: Vec<Result<T, Error>>) -> (r: Result<Vec<T>, Error>)
    ensures
        match r {
            Ok(vs) => !any_failed(outcomes@) && vs@ == successes(outcomes@) && vs@.len()
                == outcomes@.len(),
            Err(e) => any_failed(outcomes@) && is_multi_install_of(e, failures(outcomes@)),
        },
{
    match collect_outcomes(outcomes) {
        Ok(vs) => Ok(vs),
        Err(es) => Err(Error::Service(InstallServiceError::MultiInstall(es))),
    }
}

} // verus!
