use vstd::prelude::*;
use crate::swap::{SwapAction, next_swap_action, swap_action_spec};

verus! {

/// What an install run asks to be done next.
#[derive(Clone, Copy, PartialEq, Eq, Structural, Debug)]
pub enum CommitAction {
    /// Run every runner's installs concurrently, and report whether all succeeded.
    RunInstalls,
    /// Gather every runner's executable paths and check their names; report
    /// whether that succeeded.
    CollectBinPaths,
    /// Publish every runner's executables in the staging workspace; report
    /// whether that succeeded.
    PublishBins,
    /// The next step of the swap.
    Swap(SwapAction),
    /// Stop with the error of the phase that failed; nothing is committed.
    Abort,
}

/// The order of an install run: install, check the executables, publish, swap.
/// `phases` holds whether each of the first three phases succeeded, `swap` the
/// answers of the swap so far. The first failing phase aborts the run.
pub open spec fn commit_action_spec(phases: Seq<bool>, swap: Seq<bool>) -> CommitAction {
    if phases.len() == 0 {
        CommitAction::RunInstalls
    } else if !phases[0] {
        CommitAction::Abort
    } else if phases.len() == 1 {
        CommitAction::CollectBinPaths
    } else if !phases[1] {
        CommitAction::Abort
    } else if phases.len() == 2 {
        CommitAction::PublishBins
    } else if !phases[2] {
        CommitAction::Abort
    } else {
        CommitAction::Swap(swap_action_spec(swap))
    }
}

/// The next action of an install run.
pub fn next_commit_action(phases: &Vec<bool>, swap: &Vec<bool>) -> (r: CommitAction)
    ensures
        r == commit_action_spec(phases@, swap@),
{
    let n = phases.len();
    if n == 0 {
        CommitAction::RunInstalls
    } else if !phases[0] {
        CommitAction::Abort
    } else if n == 1 {
        CommitAction::CollectBinPaths
    } else if !phases[1] {
        CommitAction::Abort
    } else if n == 2 {
        CommitAction::PublishBins
    } else if !phases[2] {
        CommitAction::Abort
    } else {
        CommitAction::Swap(next_swap_action(swap))
    }
}

/// When a phase before the swap fails (the installs, the executable check with
/// its duplicate names, or the publishing), the run aborts at once: no later
/// phase runs, nothing is published after it, and no directory is renamed or
/// cleaned, so the live root and the backup are exactly as they were.
pub proof fn law_early_failure_commits_nothing(phases: Seq<bool>, i: int)
    requires
        0 <= i < phases.len(),
        i < 3,
        !phases[i],
    ensures
        forall|swap: Seq<bool>|
            #[trigger] commit_action_spec(phases, swap) == CommitAction::Abort,
{
}

/// The swap, the one phase that touches the live root, is reached only when
/// the installs, the executable check and the publishing have all succeeded.
pub proof fn law_swap_only_after_every_phase(phases: Seq<bool>, swap: Seq<bool>)
    requires
        commit_action_spec(phases, swap) is Swap,
    ensures
        phases.len() >= 3,
        phases[0] && phases[1] && phases[2],
{
}

} // verus!
