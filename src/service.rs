use vstd::prelude::*;
use crate::bins::{
    duplicate_names, duplicates_of, file_name, file_name_of, find_last_slash, last_slash, root_len,
    trim_back, trimmed_end, views,
};
use crate::error::{
    Error, InstallServiceError, any_failed, failures, successes, join_outcomes, is_multi_install_of,
};
use crate::runner::{flatten, flatten_values};
use crate::swap::Slot;
use crate::workspace::{Workspace, WorkspaceProvider, is_random_name, joined, workspace_spec};

verus! {

/// The parent directory of a path, by its components: trailing separators and
/// `.` components are set aside; a path that is empty or only the root has no
/// parent; otherwise the parent is the text before the last component, again
/// without trailing separators (empty for a single relative component).
pub open spec fn parent_of(p: Seq<char>) -> Option<Seq<char>> {
    let t = trim_back(p);
    if t.len() <= root_len(t) {
        None
    } else {
        Some(trim_back(t.subrange(0, last_slash(t) + 1)))
    }
}

/// The directory that holds a configuration file, or the error that it has none.
pub fn config_dir_of(config_path: &str) -> (r: Result<String, Error>)
    ensures
        match parent_of(config_path@) {
            Some(dir) => r matches Ok(d) && d@ == dir,
            None => r matches Err(Error::ConfigPathNotFound),
        },
{
    let n: usize = config_path.unicode_len();
    proof {
        assert(config_path@.subrange(0, n as int) =~= config_path@);
    }
    let e = trimmed_end(config_path, n);
    let ghost t = config_path@.subrange(0, e as int);
    let root: usize = if e > 0 && config_path.get_char(0) == '/' {
        1
    } else {
        0
    };
    proof {
        assert(root == root_len(t));
    }
    if e <= root {
        return Err(Error::ConfigPathNotFound);
    }
    let cut: usize = match find_last_slash(config_path, e) {
        Some(k) => k + 1,
        None => 0,
    };
    proof {
        assert(t.subrange(0, cut as int) =~= config_path@.subrange(0, cut as int));
    }
    let e2 = trimmed_end(config_path, cut);
    Ok(String::from_str(config_path.substring_char(0, e2)))
}

/// The executable names of a list of paths.
pub open spec fn bin_names(paths: Seq<String>) -> Seq<Seq<char>> {
    paths.map_values(|p: String| file_name_of(p@))
}

/// `e` is the duplicate-bin error that lists exactly `names`, in order.
pub open spec fn is_duplicate_bin_of(e: Error, names: Seq<Seq<char>>) -> bool {
    e matches Error::Service(InstallServiceError::DuplicateBin(d)) && views(d@) == names
}

/// Every runner's install succeeded.
pub struct Installed {
    checked: (),
}

/// The executables of the run have pairwise distinct names.
pub struct BinsChecked {
    checked: (),
}

/// Every runner's executables were published in the staging workspace.
pub struct Published {
    checked: (),
}

/// The install service: resolves workspaces and decides each phase of an install run.
pub struct InstallService {
    workspace_provider: WorkspaceProvider,
}

impl InstallService {
    pub closed spec fn spec_provider(&self) -> &WorkspaceProvider {
        &self.workspace_provider
    }

    pub fn new(workspace_provider: WorkspaceProvider) -> (r: Self)
        ensures
            r.spec_provider() == workspace_provider,
    {
        InstallService { workspace_provider }
    }

    /// The live workspace of a canonicalized configuration directory, and a fresh
    /// staging workspace that shares its id and cache area and stages under a
    /// random name in that cache area.
    pub fn workspaces(&self, config_dir: &str) -> (r: (Workspace, Workspace))
        ensures
            (r.0.spec_id(), r.0.spec_base_dir(), r.0.spec_cache_dir()) == workspace_spec(
                self.spec_provider().spec_root(),
                config_dir@,
            ),
            r.1.spec_id() == r.0.spec_id(),
            r.1.spec_cache_dir() == r.0.spec_cache_dir(),
            exists|name: Seq<char>|
                is_random_name(name) && r.1.spec_base_dir() == joined(r.0.spec_cache_dir(), name),
    {
        let live = self.workspace_provider.base_unique_workspace_dir_from_isobin_config_dir(
            config_dir,
        );
        let staged = live.new_staging();
        (live, staged)
    }
}

/// The first phase: the result of every runner's installs, run concurrently. Any
/// failure aborts with one aggregate error that holds every runner's failure.
pub fn check_installs(outcomes: Vec<Result<(), Error>>) -> (r: Result<Installed, Error>)
    ensures
        r is Ok <==> !any_failed(outcomes@),
        r is Err ==> is_multi_install_of(r->Err_0, failures(outcomes@)),
{
    match join_outcomes(outcomes) {
        Ok(_) => Ok(Installed { checked: () }),
        Err(e) => Err(e),
    }
}

/// The second phase: every runner's executable paths, gathered concurrently. A
/// failure aborts with one aggregate error; executable names that occur more
/// than once abort with the list of each repeated occurrence.
pub fn check_bin_paths(installed: Installed, outcomes: Vec<Result<Vec<String>, Error>>) -> (r:
    Result<BinsChecked, Error>)
    ensures
        any_failed(outcomes@) ==> r is Err && is_multi_install_of(r->Err_0, failures(outcomes@)),
        !any_failed(outcomes@) ==> {
            let names = bin_names(flatten_values(successes(outcomes@)));
            &&& r is Ok <==> duplicates_of(names).len() == 0
            &&& r is Err ==> is_duplicate_bin_of(r->Err_0, duplicates_of(names))
        },
{
    match join_outcomes(outcomes) {
        Err(e) => Err(e),
        Ok(lists) => {
            let paths = flatten(lists);
            let mut names: Vec<String> = Vec::new();
            let mut i: usize = 0;
            while i < paths.len()
                invariant
                    i <= paths@.len(),
                    views(names@) == bin_names(paths@).take(i as int),
                decreases paths@.len() - i,
            {
                let name = file_name(paths[i].as_str());
                let ghost before = names@;
                names.push(name);
                proof {
                    assert(views(names@) =~= views(before).push(name@));
                    assert(bin_names(paths@).take(i + 1) =~= bin_names(paths@).take(
                        i as int,
                    ).push(name@));
                }
                i = i + 1;
            }
            proof {
                assert(bin_names(paths@).take(i as int) =~= bin_names(paths@));
            }
            let dups = duplicate_names(&names);
            if dups.len() == 0 {
                Ok(BinsChecked { checked: () })
            } else {
                Err(Error::Service(InstallServiceError::DuplicateBin(dups)))
            }
        },
    }
}

/// The third phase: the result of publishing every runner's executables, run
/// concurrently. Any failure aborts with one aggregate error.
pub fn check_published(checked: BinsChecked, outcomes: Vec<Result<(), Error>>) -> (r: Result<
    Published,
    Error,
>)
    ensures
        r is Ok <==> !any_failed(outcomes@),
        r is Err ==> is_multi_install_of(r->Err_0, failures(outcomes@)),
{
    match join_outcomes(outcomes) {
        Ok(_) => Ok(Published { checked: () }),
        Err(e) => Err(e),
    }
}

/// The directories of the last phase, the swap: the live root, the staged root
/// and a fresh backup path in the cache area. It exists only once every earlier
/// phase has succeeded.
pub struct SwapPlan {
    live: String,
    staged: String,
    backup: String,
}

impl SwapPlan {
    pub closed spec fn spec_path(&self, slot: Slot) -> Seq<char> {
        match slot {
            Slot::Live => self.live@,
            Slot::Staged => self.staged@,
            Slot::Backup => self.backup@,
        }
    }

    pub fn new(published: Published, live: &Workspace, staged: &Workspace) -> (r: Self)
        ensures
            r.spec_path(Slot::Live) == live.spec_base_dir(),
            r.spec_path(Slot::Staged) == staged.spec_base_dir(),
            exists|name: Seq<char>|
                is_random_name(name) && r.spec_path(Slot::Backup) == joined(
                    live.spec_cache_dir(),
                    name,
                ),
    {
        SwapPlan {
            live: live.base_dir().clone(),
            staged: staged.base_dir().clone(),
            backup: live.new_backup_dir(),
        }
    }

    /// The path of one of the swap's directories.
    pub fn path(&self, slot: Slot) -> (r: &String)
        ensures
            r@ == self.spec_path(slot),
    {
        match slot {
            Slot::Live => &self.live,
            Slot::Staged => &self.staged,
            Slot::Backup => &self.backup,
        }
    }
}

} // verus!
