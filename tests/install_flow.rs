use isobin::commit::{next_commit_action, CommitAction};
use isobin::bins::{duplicate_names, file_name, find_last_slash};
use isobin::error::{collect_outcomes, join_outcomes, Error, InstallServiceError};
use isobin::option::{InstallMode, InstallServiceOptionBuilder};
use isobin::runner::{
    closing_signal, finish_target, flatten, sequential_result, InstallRunnerProvider,
    MultiInstallMode, ProgressSignal, ProviderKind,
};
use isobin::service::{
    check_bin_paths, check_installs, check_published, config_dir_of, InstallService, SwapPlan,
};
use isobin::swap::{next_swap_action, Slot, SwapAction};
use isobin::workspace::{join_path, workspace_id, Workspace, WorkspaceProvider, RANDOM_NAME_LEN};

fn io(msg: &str) -> Error {
    Error::Io(msg.to_string())
}

fn install_error(name: &str) -> Error {
    Error::Service(InstallServiceError::new_install(
        "cargo".to_string(),
        name.to_string(),
        "failed".to_string(),
        io("exit status 101"),
    ))
}

fn strings(v: &[&str]) -> Vec<String> {
    v.iter().map(|s| s.to_string()).collect()
}

fn multi_len(e: &Error) -> Option<usize> {
    match e {
        Error::Service(InstallServiceError::MultiInstall(es)) => Some(es.len()),
        _ => None,
    }
}

fn run_swap(answers: &[bool]) -> Vec<SwapAction> {
    let mut hist: Vec<bool> = Vec::new();
    let mut actions = vec![next_swap_action(&hist)];
    for a in answers {
        hist.push(*a);
        actions.push(next_swap_action(&hist));
    }
    actions
}

fn published_plan() -> (SwapPlan, Workspace, Workspace) {
    let service = InstallService::new(WorkspaceProvider::new("/home/u/.isobin".to_string()));
    let (live, staged) = service.workspaces("/home/u/proj");
    let installed = check_installs(vec![Ok(())]).ok().unwrap();
    let checked = check_bin_paths(installed, vec![Ok(strings(&["/s/bin/a"]))]).ok().unwrap();
    let published = check_published(checked, vec![Ok(())]).ok().unwrap();
    (SwapPlan::new(published, &live, &staged), live, staged)
}

#[test]
fn builder_defaults_to_all() {
    let option = InstallServiceOptionBuilder::new().build();
    assert!(*option.mode() == InstallMode::All);
}

#[test]
fn builder_keeps_specific_targets() {
    let mode = InstallMode::SpecificInstallTargetsOnly {
        specific_install_targets: strings(&["a", "b"]),
    };
    let option = InstallServiceOptionBuilder::new().mode(mode).build();
    assert!(
        *option.mode()
            == InstallMode::SpecificInstallTargetsOnly {
                specific_install_targets: strings(&["a", "b"])
            }
    );
}

#[test]
fn workspace_identity_is_stable() {
    let provider = WorkspaceProvider::new("/home/u/.isobin".to_string());
    let a = provider.base_unique_workspace_dir_from_isobin_config_dir("/home/u/proj");
    let b = provider.base_unique_workspace_dir_from_isobin_config_dir("/home/u/proj");
    assert_eq!(a.id(), b.id());
    assert_eq!(a.base_dir(), b.base_dir());
    assert_eq!(a.cache_dir(), b.cache_dir());
    assert_eq!(a.id(), "%2Fhome%2Fu%2Fproj");
    assert_eq!(a.base_dir(), "/home/u/.isobin/workspace/%2Fhome%2Fu%2Fproj");
    assert_eq!(a.cache_dir(), "/home/u/.isobin/cache/%2Fhome%2Fu%2Fproj");
}

#[test]
fn workspace_id_escapes_percent_and_slash() {
    assert_eq!(workspace_id("/a%b/c"), "%2Fa%25b%2Fc");
    assert_eq!(workspace_id(""), "");
    assert_ne!(workspace_id("/a/b"), workspace_id("/a%2Fb"));
}

#[test]
fn staging_lives_under_cache_with_random_name() {
    let service = InstallService::new(WorkspaceProvider::new("/r".to_string()));
    let (live, staged) = service.workspaces("/p");
    assert_eq!(staged.id(), live.id());
    assert_eq!(staged.cache_dir(), live.cache_dir());
    let prefix = format!("{}/", live.cache_dir());
    assert!(staged.base_dir().starts_with(&prefix));
    let name = &staged.base_dir()[prefix.len()..];
    assert_eq!(name.len(), RANDOM_NAME_LEN);
    assert!(name.chars().all(|c| c.is_ascii_alphanumeric() || c == '_' || c == '-'));
    let (_, other) = service.workspaces("/p");
    assert_ne!(staged.base_dir(), other.base_dir());
}

#[test]
fn staged_at_joins_name() {
    let w = Workspace::new("id".to_string(), "/b".to_string(), "/c".to_string());
    let s = w.staged_at("tmp1");
    assert_eq!(s.base_dir(), "/c/tmp1");
    assert_eq!(s.cache_dir(), "/c");
    assert_eq!(s.id(), "id");
    assert_eq!(join_path(&"/x".to_string(), "y"), "/x/y");
}

#[test]
fn backup_dir_is_fresh_and_under_cache() {
    let (plan, live, staged) = published_plan();
    assert_eq!(plan.path(Slot::Live), live.base_dir());
    assert_eq!(plan.path(Slot::Staged), staged.base_dir());
    let backup = plan.path(Slot::Backup);
    assert!(backup.starts_with(&format!("{}/", live.cache_dir())));
    assert_ne!(backup, staged.base_dir());
    assert_eq!(backup.len(), live.cache_dir().len() + 1 + RANDOM_NAME_LEN);
}

#[test]
fn config_dir_is_parent_of_config_file() {
    assert_eq!(config_dir_of("/home/u/proj/isobin.toml").ok().unwrap(), "/home/u/proj");
    assert_eq!(config_dir_of("/isobin.toml").ok().unwrap(), "/");
    assert_eq!(config_dir_of("isobin.toml").ok().unwrap(), "");
    assert_eq!(config_dir_of("a/b/").ok().unwrap(), "a");
    assert_eq!(config_dir_of("a/.").ok().unwrap(), "");
    assert_eq!(config_dir_of("a//b.toml").ok().unwrap(), "a");
    assert_eq!(config_dir_of("/a/./b.toml").ok().unwrap(), "/a");
    assert_eq!(config_dir_of("./b.toml").ok().unwrap(), ".");
    assert_eq!(config_dir_of("//a").ok().unwrap(), "/");
}

#[test]
fn config_path_without_parent_is_refused() {
    assert!(matches!(config_dir_of(""), Err(Error::ConfigPathNotFound)));
    assert!(matches!(config_dir_of("/"), Err(Error::ConfigPathNotFound)));
    assert!(matches!(config_dir_of("//"), Err(Error::ConfigPathNotFound)));
    assert!(matches!(config_dir_of("/."), Err(Error::ConfigPathNotFound)));
}

#[test]
fn config_dirs_follow_std_path_parent() {
    for p in ["/home/u/proj/isobin.toml", "a/b/", "a/.", "a//b", "/a/./b", "./b", "//a", "x", "/x", "a/b/."] {
        let expected = std::path::Path::new(p).parent().map(|d| d.to_str().unwrap().to_string());
        assert_eq!(config_dir_of(p).ok(), expected, "{}", p);
    }
    for p in ["", "/", "//", "/."] {
        assert!(std::path::Path::new(p).parent().is_none());
        assert!(config_dir_of(p).is_err());
    }
}

#[test]
fn phases_run_in_order_and_abort_on_failure() {
    let none: Vec<bool> = Vec::new();
    assert_eq!(next_commit_action(&vec![], &none), CommitAction::RunInstalls);
    assert_eq!(next_commit_action(&vec![true], &none), CommitAction::CollectBinPaths);
    assert_eq!(next_commit_action(&vec![true, true], &none), CommitAction::PublishBins);
    assert_eq!(
        next_commit_action(&vec![true, true, true], &none),
        CommitAction::Swap(SwapAction::CheckLive)
    );
    assert_eq!(next_commit_action(&vec![false], &none), CommitAction::Abort);
    assert_eq!(next_commit_action(&vec![true, false], &vec![true]), CommitAction::Abort);
    assert_eq!(next_commit_action(&vec![true, true, false], &none), CommitAction::Abort);
}

#[test]
fn file_names_follow_last_slash() {
    assert_eq!(file_name("/w/bin/tool"), "tool");
    assert_eq!(file_name("tool"), "tool");
    assert_eq!(file_name("/w/bin/"), "bin");
    assert_eq!(file_name("/w/bin/tool/."), "tool");
    assert_eq!(file_name("/w//tool"), "tool");
    assert_eq!(find_last_slash("a/b/c", 5), Some(3));
    assert_eq!(find_last_slash("a/b/c", 3), Some(1));
    assert_eq!(find_last_slash("abc", 3), None);
}

#[test]
fn duplicates_list_each_repetition() {
    let names = strings(&["a", "b", "a", "c", "a", "b"]);
    assert_eq!(duplicate_names(&names), strings(&["a", "b", "a", "a", "b"]));
    assert!(duplicate_names(&Vec::new()).is_empty());
    assert!(duplicate_names(&strings(&["x", "y"])).is_empty());
}

#[test]
fn aggregate_collects_every_failure() {
    let outcomes: Vec<Result<u32, Error>> =
        vec![Ok(1), Err(io("x")), Ok(3), Err(io("y")), Err(io("z"))];
    match collect_outcomes(outcomes) {
        Err(es) => {
            assert_eq!(es.len(), 3);
            assert!(matches!(&es[0], Error::Io(m) if m == "x"));
            assert!(matches!(&es[2], Error::Io(m) if m == "z"));
        }
        Ok(_) => panic!("expected failures"),
    }
    let ok: Vec<Result<u32, Error>> = vec![Ok(1), Ok(2)];
    assert_eq!(collect_outcomes(ok).ok().unwrap(), vec![1, 2]);
    let joined = join_outcomes::<u32>(vec![Err(io("a")), Ok(2)]).err().unwrap();
    assert_eq!(multi_len(&joined), Some(1));
}

#[test]
fn parallel_runner_reports_all_failures() {
    let provider = InstallRunnerProvider::new();
    let runner = provider.make_runner(
        ProviderKind::Cargo,
        MultiInstallMode::Parallel,
        strings(&["a", "b", "c", "d"]),
    );
    assert_eq!(runner.provider_type(), ProviderKind::Cargo);
    let outcomes = vec![Err(install_error("a")), Ok(()), Err(install_error("c")), Ok(())];
    let e = runner.run_result(outcomes).err().unwrap();
    assert_eq!(multi_len(&e), Some(2));
}

#[test]
fn sequential_runner_stops_after_first_failure() {
    let provider = InstallRunnerProvider::new();
    let runner = provider.make_runner(
        ProviderKind::Cargo,
        MultiInstallMode::Sequential,
        strings(&["b", "c"]),
    );
    let mut done: Vec<bool> = Vec::new();
    let mut outcomes: Vec<Result<(), Error>> = Vec::new();
    let mut attempted: Vec<usize> = Vec::new();
    while let Some(i) = runner.next_sequential(&done) {
        attempted.push(i);
        let outcome = if runner.targets[i] == "b" { Err(install_error("b")) } else { Ok(()) };
        done.push(outcome.is_ok());
        outcomes.push(outcome);
    }
    assert_eq!(attempted, vec![0]);
    let runner_error = runner.run_result(outcomes).err().unwrap();
    assert!(matches!(
        &runner_error,
        Error::Service(InstallServiceError::Install { name, .. }) if name == "b"
    ));
    let e = check_installs(vec![Err(runner_error)]).err().unwrap();
    match e {
        Error::Service(InstallServiceError::MultiInstall(es)) => {
            assert_eq!(es.len(), 1);
            assert!(matches!(
                &es[0],
                Error::Service(InstallServiceError::Install { name, .. }) if name == "b"
            ));
        }
        _ => panic!("expected an aggregate error"),
    }
}

#[test]
fn modes_agree_when_every_install_succeeds() {
    let provider = InstallRunnerProvider::new();
    let targets = strings(&["a", "b", "c"]);
    let par = provider.make_runner(ProviderKind::Cargo, MultiInstallMode::Parallel, targets.clone());
    let seq = provider.make_runner(ProviderKind::Cargo, MultiInstallMode::Sequential, targets);
    let mut done: Vec<bool> = Vec::new();
    let mut order: Vec<usize> = Vec::new();
    while let Some(i) = seq.next_sequential(&done) {
        order.push(i);
        done.push(true);
    }
    assert_eq!(order, vec![0, 1, 2]);
    assert!(par.run_result(vec![Ok(()), Ok(()), Ok(())]).is_ok());
    assert!(seq.run_result(vec![Ok(()), Ok(()), Ok(())]).is_ok());
    let lists = || vec![Ok(strings(&["/w/a"])), Ok(strings(&["/w/b"])), Ok(strings(&["/w/c"]))];
    let from_par = par.bin_paths_result(lists()).ok().unwrap();
    let from_seq = seq.bin_paths_result(lists()).ok().unwrap();
    assert_eq!(from_par, from_seq);
    assert_eq!(from_par, strings(&["/w/a", "/w/b", "/w/c"]));
}

#[test]
fn sequential_result_hands_on_first_failure() {
    let r = sequential_result(vec![Ok(()), Err(io("first")), Err(io("second"))]);
    assert!(matches!(r, Err(Error::Io(m)) if m == "first"));
    assert!(sequential_result(vec![]).is_ok());
}

#[test]
fn bin_path_failures_are_aggregated() {
    let runner = InstallRunnerProvider::new().make_runner(
        ProviderKind::Cargo,
        MultiInstallMode::Parallel,
        strings(&["a", "b"]),
    );
    let e = runner.bin_paths_result(vec![Err(io("a")), Err(io("b"))]).err().unwrap();
    assert_eq!(multi_len(&e), Some(2));
    let e = runner.install_bin_path_result(vec![Ok(()), Err(io("b"))]).err().unwrap();
    assert_eq!(multi_len(&e), Some(1));
    assert!(runner.install_bin_path_result(vec![Ok(()), Ok(())]).is_ok());
}

#[test]
fn flatten_keeps_order() {
    let lists = vec![strings(&["a", "b"]), vec![], strings(&["c"])];
    assert_eq!(flatten(lists), strings(&["a", "b", "c"]));
}

#[test]
fn progress_lifecycle() {
    assert_eq!(closing_signal(&Ok(())), ProgressSignal::Done);
    assert_eq!(closing_signal(&Err(io("x"))), ProgressSignal::Failed);
    let r = finish_target(Err(install_error("t")), Ok(()));
    assert!(matches!(r, Err(Error::Service(InstallServiceError::Install { .. }))));
    let r = finish_target(Ok(()), Err(io("progress")));
    assert!(matches!(r, Err(Error::Io(m)) if m == "progress"));
    assert!(finish_target(Ok(()), Ok(())).is_ok());
}

#[test]
fn distinct_executables_install_and_swap_in() {
    let installed = check_installs(vec![Ok(()), Ok(())]).ok().unwrap();
    let checked = check_bin_paths(
        installed,
        vec![Ok(strings(&["/s/cargo/bin/a"])), Ok(strings(&["/s/cargo/bin/b"]))],
    )
    .ok()
    .unwrap();
    let _published = check_published(checked, vec![Ok(()), Ok(())]).ok().unwrap();
    assert_eq!(
        run_swap(&[false, true]),
        vec![
            SwapAction::CheckLive,
            SwapAction::Rename { from: Slot::Staged, to: Slot::Live },
            SwapAction::Succeed,
        ]
    );
    assert_eq!(
        run_swap(&[true, true, true, true]),
        vec![
            SwapAction::CheckLive,
            SwapAction::Rename { from: Slot::Live, to: Slot::Backup },
            SwapAction::Rename { from: Slot::Staged, to: Slot::Live },
            SwapAction::Clean(Slot::Backup),
            SwapAction::Succeed,
        ]
    );
}

#[test]
fn shared_executable_name_is_refused() {
    let installed = check_installs(vec![Ok(()), Ok(())]).ok().unwrap();
    let e = check_bin_paths(
        installed,
        vec![Ok(strings(&["/s/one/bin/tool"])), Ok(strings(&["/s/two/bin/tool"]))],
    )
    .err()
    .unwrap();
    match e {
        Error::Service(InstallServiceError::DuplicateBin(names)) => {
            assert_eq!(names, strings(&["tool", "tool"]));
        }
        _ => panic!("expected a duplicate-bin error"),
    }
}

#[test]
fn failed_bin_lookup_aborts_before_collision_check() {
    let installed = check_installs(vec![]).ok().unwrap();
    let e = check_bin_paths(installed, vec![Err(io("lookup")), Ok(strings(&["/a", "/a"]))])
        .err()
        .unwrap();
    assert_eq!(multi_len(&e), Some(1));
}

#[test]
fn failed_publish_aborts() {
    let installed = check_installs(vec![Ok(())]).ok().unwrap();
    let checked = check_bin_paths(installed, vec![Ok(strings(&["/a"]))]).ok().unwrap();
    let e = check_published(checked, vec![Err(io("link"))]).err().unwrap();
    assert_eq!(multi_len(&e), Some(1));
}

#[test]
fn failed_move_in_is_rolled_back() {
    assert_eq!(
        run_swap(&[true, true, false, true]),
        vec![
            SwapAction::CheckLive,
            SwapAction::Rename { from: Slot::Live, to: Slot::Backup },
            SwapAction::Rename { from: Slot::Staged, to: Slot::Live },
            SwapAction::Rename { from: Slot::Backup, to: Slot::Live },
            SwapAction::FailWith(2),
        ]
    );
    assert_eq!(*run_swap(&[true, true, false, false]).last().unwrap(), SwapAction::FailWith(3));
    assert_eq!(*run_swap(&[true, false]).last().unwrap(), SwapAction::FailWith(1));
    assert_eq!(*run_swap(&[false, false]).last().unwrap(), SwapAction::FailWith(1));
    assert_eq!(*run_swap(&[true, true, true, false]).last().unwrap(), SwapAction::FailWith(3));
}

#[test]
fn error_constructors() {
    let e = InstallServiceError::new_duplicate_bin(strings(&["t"]));
    assert!(matches!(e, InstallServiceError::DuplicateBin(ref v) if v.len() == 1));
    let e = InstallServiceError::new_multi_install(vec![io("a")]);
    assert!(matches!(e, InstallServiceError::MultiInstall(ref v) if v.len() == 1));
}
