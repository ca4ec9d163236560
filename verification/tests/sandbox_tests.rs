use boxrun::confine::{ConfineAction, Confinement};
use boxrun::runner::{resolve_exit_code, RunState};
use boxrun::sandbox::{IsolatedFileSystem, SandboxSetupError};

#[test]
fn command_path_mirrors_into_the_sandbox() {
    let fs = IsolatedFileSystem::new();
    assert_eq!(fs.root_dir, "./sandbox");
    let plan = fs.setup_plan("/bin/echo").unwrap();
    assert_eq!(plan.root_dir, "./sandbox");
    assert_eq!(plan.dev_dir, "./sandbox/dev");
    assert_eq!(plan.dev_null, "/dev/null");
    assert_eq!(plan.command_parent_dir, "./sandbox/bin");
    assert_eq!(plan.command_dest, "./sandbox/bin/echo");
}

#[test]
fn root_level_command_has_no_extra_parent() {
    let fs = IsolatedFileSystem::new();
    let plan = fs.setup_plan("/echo").unwrap();
    assert_eq!(plan.command_parent_dir, "./sandbox");
    assert_eq!(plan.command_dest, "./sandbox/echo");
}

#[test]
fn deep_command_path_keeps_every_directory() {
    let fs = IsolatedFileSystem::new();
    let plan = fs.setup_plan("/usr/local/bin/tool").unwrap();
    assert_eq!(plan.command_parent_dir, "./sandbox/usr/local/bin");
    assert_eq!(plan.command_dest, "./sandbox/usr/local/bin/tool");
}

#[test]
fn relative_command_path_is_rejected() {
    let fs = IsolatedFileSystem::new();
    assert!(matches!(
        fs.setup_plan("bin/echo"),
        Err(SandboxSetupError::NotAbsolute)
    ));
    assert!(matches!(
        fs.setup_plan(""),
        Err(SandboxSetupError::NotAbsolute)
    ));
}

#[test]
fn replanning_setup_yields_the_same_plan() {
    let fs = IsolatedFileSystem::new();
    let first = fs.setup_plan("/bin/echo").unwrap();
    let second = fs.setup_plan("/bin/echo").unwrap();
    assert_eq!(first.root_dir, second.root_dir);
    assert_eq!(first.dev_dir, second.dev_dir);
    assert_eq!(first.dev_null, second.dev_null);
    assert_eq!(first.command_parent_dir, second.command_parent_dir);
    assert_eq!(first.command_dest, second.command_dest);
}

#[test]
fn confinement_steps_come_in_order_and_only_once() {
    let mut conf = Confinement::new("./sandbox".to_string());
    assert!(!conf.is_confined());
    assert_eq!(conf.next_action(), Some(ConfineAction::ChangeRoot));
    assert_eq!(conf.root_dir(), "./sandbox");
    conf.root_changed();
    assert_eq!(conf.next_action(), Some(ConfineAction::SetWorkdir));
    conf.workdir_reset();
    assert_eq!(conf.next_action(), None);
    assert!(conf.is_confined());
}

#[test]
fn absolute_host_paths_resolve_under_the_new_root() {
    let conf = Confinement::new("./sandbox".to_string());
    let resolved = conf.resolved_host_path("/etc/passwd");
    assert_eq!(resolved, "./sandbox/etc/passwd");
    assert_ne!(resolved, "/etc/passwd");
}

#[test]
fn child_exit_code_is_propagated() {
    assert_eq!(resolve_exit_code(Some(0)), 0);
    assert_eq!(resolve_exit_code(Some(7)), 7);
    assert_eq!(resolve_exit_code(Some(255)), 255);
}

#[test]
fn signal_termination_falls_back_to_zero() {
    assert_eq!(resolve_exit_code(None), 0);
}

#[test]
fn run_reaches_exited_and_reports_the_child_code() {
    let mut run = RunState::new();
    run.spawned();
    run.drained();
    run.exited(Some(3));
    assert_eq!(run.report(), 3);
}

#[test]
fn run_reports_the_fallback_for_a_signalled_child() {
    let mut run = RunState::new();
    run.spawned();
    run.drained();
    run.exited(None);
    assert_eq!(run.report(), 0);
}
