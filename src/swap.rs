use vstd::prelude::*;

verus! {

/// The three directories that the swap moves between.
#[derive(Clone, Copy, PartialEq, Eq, Structural, Debug)]
pub enum Slot {
    /// The live workspace's active root.
    Live,
    /// The staged workspace's root, holding the new generation.
    Staged,
    /// The throwaway backup of the previous generation, under the cache area.
    Backup,
}

/// What the swap asks to be done next.
#[derive(Clone, Copy, PartialEq, Eq, Structural, Debug)]
pub enum SwapAction {
    /// Report whether the live root exists.
    CheckLive,
    /// Rename one directory to another, and report whether that succeeded.
    Rename { from: Slot, to: Slot },
    /// Remove a directory's contents, and report whether that succeeded.
    Clean(Slot),
    /// The swap is complete.
    Succeed,
    /// The swap failed with the error of the step at this index.
    FailWith(usize),
}

/// The swap protocol: the action that follows the answers in `hist`, one answer for
/// each action asked so far (for `CheckLive`, whether the live root exists; for
/// any other action, whether it succeeded).
///
/// An existing live root is first renamed to the backup; the staged root is then
/// renamed into the live position. If that fails, the backup is renamed back and
/// the failure of the move is reported (or that of the restoring rename, if it
/// fails too). If it succeeds, the backup is cleaned.
pub open spec fn swap_action_spec(hist: Seq<bool>) -> SwapAction {
    if hist.len() == 0 {
        SwapAction::CheckLive
    } else if hist[0] {
        if hist.len() == 1 {
            SwapAction::Rename { from: Slot::Live, to: Slot::Backup }
        } else if !hist[1] {
            SwapAction::FailWith(1)
        } else if hist.len() == 2 {
            SwapAction::Rename { from: Slot::Staged, to: Slot::Live }
        } else if hist[2] {
            if hist.len() == 3 {
                SwapAction::Clean(Slot::Backup)
            } else if hist[3] {
                SwapAction::Succeed
            } else {
                SwapAction::FailWith(3)
            }
        } else {
            if hist.len() == 3 {
                SwapAction::Rename { from: Slot::Backup, to: Slot::Live }
            } else if hist[3] {
                SwapAction::FailWith(2)
            } else {
                SwapAction::FailWith(3)
            }
        }
    } else {
        if hist.len() == 1 {
            SwapAction::Rename { from: Slot::Staged, to: Slot::Live }
        } else if hist[1] {
            SwapAction::Succeed
        } else {
            SwapAction::FailWith(1)
        }
    }
}

/// The next action of the swap, given the answers so far.
pub fn next_swap_action(hist: &Vec<bool>) -> (r: SwapAction)
    ensures
        r == swap_action_spec(hist@),
{
    let n = hist.len();
    if n == 0 {
        SwapAction::CheckLive
    } else if hist[0] {
        if n == 1 {
            SwapAction::Rename { from: Slot::Live, to: Slot::Backup }
        } else if !hist[1] {
            SwapAction::FailWith(1)
        } else if n == 2 {
            SwapAction::Rename { from: Slot::Staged, to: Slot::Live }
        } else if hist[2] {
            if n == 3 {
                SwapAction::Clean(Slot::Backup)
            } else if hist[3] {
                SwapAction::Succeed
            } else {
                SwapAction::FailWith(3)
            }
        } else {
            if n == 3 {
                SwapAction::Rename { from: Slot::Backup, to: Slot::Live }
            } else if hist[3] {
                SwapAction::FailWith(2)
            } else {
                SwapAction::FailWith(3)
            }
        }
    } else {
        if n == 1 {
            SwapAction::Rename { from: Slot::Staged, to: Slot::Live }
        } else if hist[1] {
            SwapAction::Succeed
        } else {
            SwapAction::FailWith(1)
        }
    }
}

/// Whether an action ends the swap.
pub open spec fn is_final(a: SwapAction) -> bool {
    a is Succeed || a is FailWith
}

/// A model of the three directories: which exist, and which generation of an
/// install tree each holds.
pub type Dirs = Map<Slot, int>;

/// The directories after `a` was carried out with answer `ok`. A failed action
/// changes nothing; cleaning leaves an empty directory (generation `-1`).
pub open spec fn dirs_after_action(d: Dirs, a: SwapAction, ok: bool) -> Dirs {
    match a {
        SwapAction::Rename { from, to } => if ok {
            d.remove(from).insert(to, d[from])
        } else {
            d
        },
        SwapAction::Clean(s) => if ok {
            d.insert(s, -1)
        } else {
            d
        },
        _ => d,
    }
}

/// The directories after the actions answered in `hist`.
pub open spec fn dirs_after(d: Dirs, hist: Seq<bool>) -> Dirs
    decreases hist.len(),
{
    if hist.len() == 0 {
        d
    } else {
        dirs_after_action(
            dirs_after(d, hist.drop_last()),
            swap_action_spec(hist.drop_last()),
            hist.last(),
        )
    }
}

/// The answers in `hist` are ones that the directories `d` can give: each was
/// asked by the swap before it ended; `CheckLive` is answered truly; a rename
/// succeeds only from an existing directory to an absent one.
pub open spec fn answers_fit(d: Dirs, hist: Seq<bool>) -> bool {
    forall|k: int|
        0 <= k < hist.len() ==> {
            let a = #[trigger] swap_action_spec(hist.take(k));
            let cur = dirs_after(d, hist.take(k));
            &&& !is_final(a)
            &&& a is CheckLive ==> hist[k] == cur.contains_key(Slot::Live)
            &&& (a is Rename && hist[k]) ==> cur.contains_key(a->from) && !cur.contains_key(a->to)
        }
}

/// Directories in which a swap may start: the staged root holds the new
/// generation, no backup exists, and the live root, if any, holds the old one.
pub open spec fn swap_start(d: Dirs, old_gen: int, new_gen: int) -> bool {
    &&& d.contains_key(Slot::Staged) && d[Slot::Staged] == new_gen
    &&& !d.contains_key(Slot::Backup)
    &&& d.contains_key(Slot::Live) ==> d[Slot::Live] == old_gen
    &&& old_gen >= 0 && new_gen >= 0 && old_gen != new_gen
}

proof fn lemma_take_prefix(hist: Seq<bool>, k: int)
    requires
        0 <= k < hist.len(),
    ensures
        hist.take(k + 1).drop_last() == hist.take(k),
        hist.take(k + 1).last() == hist[k],
{
    assert(hist.take(k + 1).drop_last() =~= hist.take(k));
}

proof fn lemma_fit_prefix(d: Dirs, hist: Seq<bool>, k: int)
    requires
        answers_fit(d, hist),
        0 <= k <= hist.len(),
    ensures
        answers_fit(d, hist.take(k)),
{
    assert forall|j: int| 0 <= j < k implies hist.take(k).take(j) == hist.take(j) && hist.take(
        k,
    )[j] == hist[j] by {
        assert(hist.take(k).take(j) =~= hist.take(j));
    }
    assert forall|j: int| 0 <= j < hist.take(k).len() implies {
        let a = #[trigger] swap_action_spec(hist.take(k).take(j));
        let cur = dirs_after(d, hist.take(k).take(j));
        &&& !is_final(a)
        &&& a is CheckLive ==> hist.take(k)[j] == cur.contains_key(Slot::Live)
        &&& (a is Rename && hist.take(k)[j]) ==> cur.contains_key(a->from) && !cur.contains_key(
            a->to,
        )
    } by {
        assert(hist.take(k).take(j) =~= hist.take(j));
    }
}

/// At every point of a swap, the live root is absent or holds a whole
/// generation, the old one or the new one: a rename moves a tree as one, and
/// nothing is written into the live root. When the swap succeeds, the live root
/// holds the new generation.
pub proof fn law_live_root_is_never_mixed(d: Dirs, hist: Seq<bool>, old_gen: int, new_gen: int)
    requires
        swap_start(d, old_gen, new_gen),
        answers_fit(d, hist),
    ensures
        forall|k: int|
            0 <= k <= hist.len() ==> {
                let cur = #[trigger] dirs_after(d, hist.take(k));
                cur.contains_key(Slot::Live) ==> (cur[Slot::Live] == old_gen || cur[Slot::Live]
                    == new_gen)
            },
        swap_action_spec(hist) is Succeed ==> dirs_after(d, hist).contains_key(Slot::Live)
            && dirs_after(d, hist)[Slot::Live] == new_gen,
{
    lemma_swap_states(d, hist, old_gen, new_gen);
    assert forall|k: int| 0 <= k <= hist.len() implies {
        let cur = #[trigger] dirs_after(d, hist.take(k));
        cur.contains_key(Slot::Live) ==> (cur[Slot::Live] == old_gen || cur[Slot::Live] == new_gen)
    } by {
        lemma_fit_prefix(d, hist, k);
        lemma_swap_states(d, hist.take(k), old_gen, new_gen);
    }
}

/// When the move of the staged root into the live position fails after the old
/// live root was moved aside, and moving it back succeeds, the live root holds
/// the old generation again and the failure of the move is reported.
pub proof fn law_failed_move_is_rolled_back(d: Dirs, hist: Seq<bool>, old_gen: int, new_gen: int)
    requires
        swap_start(d, old_gen, new_gen),
        d.contains_key(Slot::Live),
        answers_fit(d, hist),
        hist.len() == 4,
        !hist[2],
        hist[3],
    ensures
        swap_action_spec(hist) == SwapAction::FailWith(2),
        dirs_after(d, hist).contains_key(Slot::Live),
        dirs_after(d, hist)[Slot::Live] == old_gen,
        dirs_after(d, hist)[Slot::Staged] == new_gen,
{
    lemma_swap_states(d, hist, old_gen, new_gen);
}

/// The directories at each point of a swap, by the answers given so far.
proof fn lemma_swap_states(d: Dirs, hist: Seq<bool>, old_gen: int, new_gen: int)
    requires
        swap_start(d, old_gen, new_gen),
        answers_fit(d, hist),
    ensures
        hist.len() <= 4,
        ({
            let cur = dirs_after(d, hist);
            &&& cur.contains_key(Slot::Live) ==> (cur[Slot::Live] == old_gen || cur[Slot::Live]
                == new_gen)
            &&& hist.len() >= 1 && !hist[0] ==> !d.contains_key(Slot::Live)
            &&& hist.len() >= 1 && hist[0] ==> d.contains_key(Slot::Live)
            &&& hist.len() == 2 && hist[0] && hist[1] ==> !cur.contains_key(Slot::Live)
                && cur.contains_key(Slot::Backup) && cur[Slot::Backup] == old_gen
                && cur.contains_key(Slot::Staged) && cur[Slot::Staged] == new_gen
            &&& hist.len() >= 2 && !hist[0] && hist[1] ==> cur.contains_key(Slot::Live)
                && cur[Slot::Live] == new_gen
            &&& hist.len() >= 3 && hist[0] && hist[1] && hist[2] ==> cur.contains_key(Slot::Live)
                && cur[Slot::Live] == new_gen
            &&& hist.len() == 3 && hist[0] && hist[1] && !hist[2] ==> !cur.contains_key(Slot::Live)
                && cur.contains_key(Slot::Backup) && cur[Slot::Backup] == old_gen
                && cur[Slot::Staged] == new_gen
            &&& hist.len() == 4 && hist[0] && hist[1] && !hist[2] && hist[3] ==> cur.contains_key(
                Slot::Live,
            ) && cur[Slot::Live] == old_gen && cur[Slot::Staged] == new_gen
            &&& hist.len() == 4 && hist[0] && hist[1] && !hist[2] && !hist[3]
                ==> !cur.contains_key(Slot::Live)
        }),
    decreases hist.len(),
{
    if hist.len() > 0 {
        let k = hist.len() - 1;
        let init = hist.drop_last();
        assert(hist.take(k) =~= init);
        lemma_fit_prefix(d, hist, k);
        lemma_swap_states(d, init, old_gen, new_gen);
        let a = swap_action_spec(hist.take(k));
        assert(!is_final(a));
        if k >= 1 {
            assert(init[0] == hist[0]);
        }
        if k >= 2 {
            assert(init[1] == hist[1]);
        }
        if k >= 3 {
            assert(init[2] == hist[2]);
        }
        if k == 0 {
            assert(hist.take(0) =~= Seq::<bool>::empty());
            assert(dirs_after(d, init) == d);
        }
    }
}

} // verus!
