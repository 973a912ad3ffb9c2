use easycfg::config::{Package, Task};
use easycfg::distro::Distri;
use easycfg::exec::{Action, Event, ExecError, Executer};

fn task(name: &str) -> Task {
    Task {
        name: name.to_string(),
        path: None,
        pkg: None,
        commands: None,
        slink: None,
    }
}

fn link_task(pairs: &[(&str, &str)]) -> Task {
    let mut t = task("links");
    t.slink = Some(
        pairs
            .iter()
            .map(|(s, d)| (s.to_string(), d.to_string()))
            .collect(),
    );
    t
}

fn cmd_task(cmds: &[&str]) -> Task {
    let mut t = task("cmds");
    t.commands = Some(cmds.iter().map(|c| c.to_string()).collect());
    t
}

fn executer() -> Executer {
    Executer::new(Distri::Unknown, "/root".to_string())
}

#[test]
fn symlink_success_logs_line() {
    let t = link_task(&[("/src/a", "/dst/a")]);
    let mut run = executer().exec(&t);
    assert!(!run.done());
    match run.next_action() {
        Action::Symlink { src, dst } => {
            assert_eq!(src, "/src/a");
            assert_eq!(dst, "/dst/a");
        }
        other => panic!("unexpected action {:?}", other),
    }
    run.step(Event::LinkOk);
    assert!(run.done());
    let (log, res) = run.take_result();
    assert!(res.is_ok());
    assert_eq!(log.len(), 1);
    assert_eq!(log[0].stdout, b"[symlink] /src/a -> /dst/a".to_vec());
    assert!(log[0].stderr.is_empty());
    assert!(!log[0].failure);
}

#[test]
fn symlink_reprovision_reports_same_success() {
    // First provisioning: the destination is free.
    let t = link_task(&[("/h/.dotfiles/vimrc", "/h/.vimrc")]);
    let mut first = executer().exec(&t);
    first.step(Event::LinkOk);
    let (first_log, first_res) = first.take_result();

    // Second provisioning of the same pair: the destination already exists,
    // the engine clears it and retries.
    let mut second = executer().exec(&t);
    match second.next_action() {
        Action::Symlink { .. } => {}
        other => panic!("unexpected action {:?}", other),
    }
    second.step(Event::LinkExists("File exists".to_string()));
    match second.next_action() {
        Action::RemoveDst { dst } => assert_eq!(dst, "/h/.vimrc"),
        other => panic!("unexpected action {:?}", other),
    }
    second.step(Event::RemoveOk);
    second.step(Event::LinkOk);
    let (second_log, second_res) = second.take_result();

    assert!(first_res.is_ok());
    assert!(second_res.is_ok());
    assert_eq!(first_log.len(), 1);
    assert_eq!(second_log.len(), 1);
    let line = b"[symlink] /h/.dotfiles/vimrc -> /h/.vimrc".to_vec();
    assert_eq!(first_log[0].stdout, line);
    assert_eq!(second_log[0].stdout, line);
    assert!(!second_log[0].failure);
}

#[test]
fn symlink_missing_parent_heals() {
    let t = link_task(&[("/src/a", "/deep/dir/a")]);
    let mut run = executer().exec(&t);
    run.step(Event::LinkNoParent("No such file or directory".to_string()));
    match run.next_action() {
        Action::MakeParent { dst } => assert_eq!(dst, "/deep/dir/a"),
        other => panic!("unexpected action {:?}", other),
    }
    run.step(Event::MkdirOk);
    run.step(Event::LinkOk);
    assert!(run.done());
    let (log, res) = run.take_result();
    assert!(res.is_ok());
    assert_eq!(log.len(), 1);
    assert_eq!(log[0].stdout, b"[symlink] /src/a -> /deep/dir/a".to_vec());
}

#[test]
fn symlink_other_error_aborts() {
    let t = link_task(&[("/s", "/d"), ("/s2", "/d2")]);
    let mut run = executer().exec(&t);
    run.step(Event::LinkErr("permission denied".to_string()));
    assert!(run.done());
    let (log, res) = run.take_result();
    match res {
        Err(ExecError::IOFailure(msg)) => assert_eq!(msg, "permission denied"),
        other => panic!("unexpected outcome {:?}", other),
    }
    // Only the failing pair logged; the second pair was never attempted.
    assert_eq!(log.len(), 1);
    assert_eq!(log[0].stderr, b"[symlink] /s -> /d: permission denied".to_vec());
    assert!(log[0].stdout.is_empty());
    assert!(log[0].failure);
}

#[test]
fn command_output_behind_marker() {
    // A command that succeeds and one whose exit status the engine does not
    // inspect: both are recorded as completed entries.
    let t = cmd_task(&["echo hello", "false"]);
    let mut run = executer().exec(&t);
    match run.next_action() {
        Action::RunCommand { cmd, dir } => {
            assert_eq!(cmd, "echo hello");
            assert_eq!(dir, "/root/cmds");
        }
        other => panic!("unexpected action {:?}", other),
    }
    run.step(Event::CmdDone(b"hello\n".to_vec(), Vec::new()));
    run.step(Event::CmdDone(Vec::new(), Vec::new()));
    assert!(run.done());
    let (log, res) = run.take_result();
    assert!(res.is_ok());
    assert_eq!(log.len(), 2);
    assert_eq!(log[0].stdout, b"[exec] echo hello\nhello\n".to_vec());
    assert!(log[0].stderr.is_empty());
    assert!(!log[0].failure);
    assert_eq!(log[1].stdout, b"[exec] false\n".to_vec());
    assert!(!log[1].failure);
}

#[test]
fn command_stderr_is_recorded_not_fatal() {
    let t = cmd_task(&["warns", "next"]);
    let mut run = executer().exec(&t);
    run.step(Event::CmdDone(Vec::new(), b"careful\n".to_vec()));
    // The next command still runs.
    assert!(!run.done());
    run.step(Event::CmdDone(b"done\n".to_vec(), Vec::new()));
    let (log, res) = run.take_result();
    assert!(res.is_ok());
    assert_eq!(log.len(), 2);
    assert_eq!(log[0].stderr, b"[exec] warns\ncareful\n".to_vec());
    assert_eq!(log[1].stdout, b"[exec] next\ndone\n".to_vec());
}

#[test]
fn spawn_failure_truncates_remaining_commands() {
    let t = cmd_task(&["first", "second", "third"]);
    let mut run = executer().exec(&t);
    run.step(Event::CmdDone(b"ok\n".to_vec(), Vec::new()));
    run.step(Event::CmdSpawnErr("No such file or directory".to_string()));
    assert!(run.done());
    let (log, res) = run.take_result();
    match res {
        Err(ExecError::IOFailure(msg)) => assert_eq!(msg, "No such file or directory"),
        other => panic!("unexpected outcome {:?}", other),
    }
    // One complete entry for the command before, one failure entry for the
    // failing command, nothing for the third.
    assert_eq!(log.len(), 2);
    assert!(!log[0].failure);
    assert_eq!(log[0].stdout, b"[exec] first\nok\n".to_vec());
    assert!(log[1].failure);
    assert_eq!(log[1].stdout, b"[exec] second\n".to_vec());
    assert_eq!(log[1].stderr, b"[exec] second\n".to_vec());
}

#[test]
fn bounded_self_heal_gives_up() {
    let t = link_task(&[("/s", "/d")]);
    let mut run = executer().exec(&t);
    let mut rounds = 0usize;
    while !run.done() {
        match run.next_action() {
            Action::Symlink { .. } => run.step(Event::LinkExists("File exists".to_string())),
            Action::RemoveDst { .. } => run.step(Event::RemoveOk),
            other => panic!("unexpected action {:?}", other),
        }
        rounds += 1;
        assert!(rounds < 1000, "self-heal retries are not bounded");
    }
    let (log, res) = run.take_result();
    assert!(res.is_err());
    assert_eq!(log.len(), 1);
    assert!(log[0].failure);
}

#[test]
fn pkg_stub_fails_closed_on_matching_distro() {
    let t = Task {
        name: "packages".to_string(),
        path: None,
        pkg: Some(vec![Package {
            distri: Distri::Arch,
            install: Some(vec!["vim".to_string(), "git".to_string()]),
            remove: Some(vec!["nano".to_string()]),
        }]),
        commands: None,
        slink: None,
    };
    let ex = Executer::new(Distri::Arch, "/root".to_string());
    let run = ex.exec(&t);
    assert!(run.done());
    let (log, res) = run.take_result();
    match res {
        Err(ExecError::IOFailure(msg)) => {
            assert_eq!(msg, "package application is not implemented")
        }
        other => panic!("the package stub must not claim success: {:?}", other),
    }
    assert_eq!(log.len(), 1);
    assert!(log[0].failure);
    assert_eq!(
        log[0].stderr,
        b"[pkg] vim git nano: package application is not implemented".to_vec()
    );
}

#[test]
fn pkg_entry_for_other_distro_is_ignored() {
    let t = Task {
        name: "packages".to_string(),
        path: None,
        pkg: Some(vec![Package {
            distri: Distri::OpenSUSE,
            install: Some(vec!["vim".to_string()]),
            remove: None,
        }]),
        commands: None,
        slink: None,
    };
    // Whatever the host is, a non-matching entry reaches no driver: the task
    // finishes clean and logs nothing, for the unknown host too.
    for host in [Distri::Unknown, Distri::Arch] {
        let run = Executer::new(host, "/root".to_string()).exec(&t);
        assert!(run.done());
        let (log, res) = run.take_result();
        assert!(res.is_ok());
        assert!(log.is_empty());
    }
}

#[test]
fn working_directory_resolution() {
    let ex = executer();
    let mut named = task("mytask");
    named.commands = Some(vec!["x".to_string()]);
    match ex.exec(&named).next_action() {
        Action::RunCommand { dir, .. } => assert_eq!(dir, "/root/mytask"),
        other => panic!("unexpected action {:?}", other),
    }

    let mut pathed = task("mytask");
    pathed.path = Some("sub/dir".to_string());
    pathed.commands = Some(vec!["x".to_string()]);
    match ex.exec(&pathed).next_action() {
        Action::RunCommand { dir, .. } => assert_eq!(dir, "/root/sub/dir"),
        other => panic!("unexpected action {:?}", other),
    }

    let mut absolute = task("mytask");
    absolute.path = Some("/abs".to_string());
    absolute.commands = Some(vec!["x".to_string()]);
    match ex.exec(&absolute).next_action() {
        Action::RunCommand { dir, .. } => assert_eq!(dir, "/abs"),
        other => panic!("unexpected action {:?}", other),
    }

    let slashed = Executer::new(Distri::Unknown, "/root/".to_string());
    let mut under = task("t");
    under.commands = Some(vec!["x".to_string()]);
    match slashed.exec(&under).next_action() {
        Action::RunCommand { dir, .. } => assert_eq!(dir, "/root/t"),
        other => panic!("unexpected action {:?}", other),
    }
}

#[test]
fn phases_run_symlinks_before_commands() {
    let mut t = link_task(&[("/s", "/d")]);
    t.commands = Some(vec!["after".to_string()]);
    let mut run = executer().exec(&t);
    match run.next_action() {
        Action::Symlink { .. } => {}
        other => panic!("symlinks must come first, got {:?}", other),
    }
    run.step(Event::LinkOk);
    match run.next_action() {
        Action::RunCommand { .. } => {}
        other => panic!("commands must follow symlinks, got {:?}", other),
    }
    run.step(Event::CmdDone(Vec::new(), Vec::new()));
    assert!(run.done());
}
