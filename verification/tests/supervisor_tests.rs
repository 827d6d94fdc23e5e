use pipy_rs::supervisor::{start_pipy_repo, Lifecycle, PipyRepo};

#[test]
fn never_started_handle_signals_nothing_on_disposal() {
    let mut repo = PipyRepo::new(6060);
    assert_eq!(repo.state, Lifecycle::NotStarted);
    assert!(!repo.exit());
    assert_eq!(repo.state, Lifecycle::NotStarted);
}

#[test]
fn start_hands_out_the_launch_command_once() {
    let mut repo = PipyRepo::new(7001);
    let cmd = repo.start().expect("first start launches");
    assert_eq!(cmd.args, vec!["pipy-rs".to_string(), "--admin-port=7001".to_string()]);
    assert_eq!(repo.state, Lifecycle::Running);
    assert!(repo.start().is_none());
    assert_eq!(repo.state, Lifecycle::Running);
}

#[test]
fn stop_is_idempotent() {
    let mut repo = PipyRepo::new(7002);
    repo.start().unwrap();
    assert!(repo.exit());
    assert_eq!(repo.state, Lifecycle::Stopped);
    assert!(!repo.exit());
    assert_eq!(repo.state, Lifecycle::Stopped);
}

#[test]
fn a_stopped_engine_can_be_relaunched() {
    let mut repo = PipyRepo::new(7003);
    repo.start().unwrap();
    assert!(repo.exit());
    let cmd = repo.start().expect("restart launches again");
    assert_eq!(cmd.args[1], "--admin-port=7003");
    assert_eq!(repo.state, Lifecycle::Running);
}

#[test]
fn start_pipy_repo_defaults_the_admin_port() {
    let (repo, cmd) = start_pipy_repo(None);
    assert_eq!(repo.port, 6060);
    assert_eq!(repo.state, Lifecycle::Running);
    assert_eq!(cmd.args, vec!["pipy-rs".to_string(), "--admin-port=6060".to_string()]);

    let (repo, cmd) = start_pipy_repo(Some(6001));
    assert_eq!(repo.port, 6001);
    assert_eq!(cmd.args[1], "--admin-port=6001");
}
