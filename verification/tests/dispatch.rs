use easycfg::config::{LinuxConfig, Package, Task};
use easycfg::distro::Distri;
use easycfg::exec::{Action, Event, ExecError};
use easycfg::server::{Run, Server, ServerBuilder};

fn cmd_task(name: &str, cmds: &[&str]) -> Task {
    Task {
        name: name.to_string(),
        path: None,
        pkg: None,
        commands: Some(cmds.iter().map(|c| c.to_string()).collect()),
        slink: None,
    }
}

fn server(tasks: Vec<Task>) -> Server {
    Server::new(Distri::Unknown, LinuxConfig { tasks }, "/root".to_string())
}

/// Answer every command action as if the command printed its own name;
/// commands named "fail" refuse to spawn.
fn drive(run: &mut Run) {
    while !run.done() {
        match run.next_action() {
            Action::RunCommand { cmd, .. } => {
                if cmd == "fail" {
                    run.step(Event::CmdSpawnErr("spawn failed".to_string()));
                } else {
                    let mut out = cmd.clone().into_bytes();
                    out.push(b'\n');
                    run.step(Event::CmdDone(out, Vec::new()));
                }
            }
            Action::Symlink { .. } => run.step(Event::LinkOk),
            Action::RemoveDst { .. } => run.step(Event::RemoveOk),
            Action::MakeParent { .. } => run.step(Event::MkdirOk),
        }
    }
}

#[test]
fn exec_by_index_out_of_range_is_not_found() {
    let s = server(vec![cmd_task("a", &["x"]), cmd_task("b", &["y"])]);
    // Exactly the task count: out of range, nothing logged, nothing run.
    match s.exec_by_index(2) {
        Err(ExecError::NotFound) => {}
        other => panic!("unexpected outcome {:?}", other.map(|_| ())),
    }
    match s.exec_by_index(usize::MAX) {
        Err(ExecError::NotFound) => {}
        other => panic!("unexpected outcome {:?}", other.map(|_| ())),
    }
}

#[test]
fn exec_by_index_runs_the_selected_task() {
    let s = server(vec![cmd_task("a", &["first"]), cmd_task("b", &["second"])]);
    let mut run = s.exec_by_index(1).unwrap();
    match run.next_action() {
        Action::RunCommand { cmd, .. } => assert_eq!(cmd, "second"),
        other => panic!("unexpected action {:?}", other),
    }
    drive(&mut run);
    let (log, res) = run.take_result();
    assert!(res.is_ok());
    assert_eq!(log.len(), 1);
    assert_eq!(log[0].stdout, b"[exec] second\nsecond\n".to_vec());
}

#[test]
fn exec_unknown_name_is_not_found() {
    let s = server(vec![cmd_task("a", &["x"])]);
    match s.exec("missing") {
        Err(ExecError::NotFound) => {}
        other => panic!("unexpected outcome {:?}", other.map(|_| ())),
    }
}

#[test]
fn exec_by_name_runs_the_named_task() {
    let s = server(vec![cmd_task("a", &["first"]), cmd_task("b", &["second"])]);
    let mut run = s.exec("b").unwrap();
    match run.next_action() {
        Action::RunCommand { cmd, .. } => assert_eq!(cmd, "second"),
        other => panic!("unexpected action {:?}", other),
    }
    drive(&mut run);
    let (_, res) = run.take_result();
    assert!(res.is_ok());
}

#[test]
fn exec_all_stops_at_first_failing_task() {
    // A succeeds, B's second command fails to spawn, C never runs.
    let s = server(vec![
        cmd_task("A", &["a1"]),
        cmd_task("B", &["b1", "fail"]),
        cmd_task("C", &["c1"]),
    ]);
    let mut run = s.exec_all();
    drive(&mut run);
    let (log, res) = run.take_result();
    match res {
        Err(ExecError::IOFailure(msg)) => assert_eq!(msg, "spawn failed"),
        other => panic!("unexpected outcome {:?}", other),
    }
    // A's full log, B's partial log, nothing of C.
    assert_eq!(log.len(), 3);
    assert_eq!(log[0].stdout, b"[exec] a1\na1\n".to_vec());
    assert!(!log[0].failure);
    assert_eq!(log[1].stdout, b"[exec] b1\nb1\n".to_vec());
    assert!(!log[1].failure);
    assert_eq!(log[2].stdout, b"[exec] fail\n".to_vec());
    assert!(log[2].failure);
}

#[test]
fn exec_all_merges_everything_in_order() {
    let s = server(vec![
        cmd_task("A", &["a1", "a2"]),
        cmd_task("empty", &[]),
        cmd_task("C", &["c1"]),
    ]);
    let mut run = s.exec_all();
    drive(&mut run);
    let (log, res) = run.take_result();
    assert!(res.is_ok());
    assert_eq!(log.len(), 3);
    assert_eq!(log[0].stdout, b"[exec] a1\na1\n".to_vec());
    assert_eq!(log[1].stdout, b"[exec] a2\na2\n".to_vec());
    assert_eq!(log[2].stdout, b"[exec] c1\nc1\n".to_vec());
}

#[test]
fn exec_all_over_no_tasks_succeeds_empty() {
    let s = server(Vec::new());
    let run = s.exec_all();
    assert!(run.done());
    let (log, res) = run.take_result();
    assert!(res.is_ok());
    assert!(log.is_empty());
}

#[test]
fn builder_detects_need_for_root() {
    let with_pkg = Task {
        name: "p".to_string(),
        path: None,
        pkg: Some(vec![Package {
            distri: Distri::Arch,
            install: Some(vec!["vim".to_string()]),
            remove: None,
        }]),
        commands: None,
        slink: None,
    };
    let cfg = LinuxConfig { tasks: vec![cmd_task("plain", &["x"]), with_pkg] };

    let mut arch = ServerBuilder::new();
    arch.distri = Distri::Arch;
    assert!(arch.needs_root(&cfg));

    let other = ServerBuilder::new();
    assert_eq!(other.distri, Distri::Unknown);
    assert!(!other.needs_root(&cfg));
}

#[test]
fn builder_passes_configuration_through() {
    let mut b = ServerBuilder::new();
    b.distri = Distri::OpenSUSE;
    let b = b.current_dir("/prov".to_string());
    let s = b.build(LinuxConfig { tasks: vec![cmd_task("t", &["x"])] });
    assert_eq!(s.cfg.tasks.len(), 1);
    assert_eq!(s.cfg.tasks[0].name, "t");
    let mut run = s.exec_by_index(0).unwrap();
    match run.next_action() {
        Action::RunCommand { dir, .. } => assert_eq!(dir, "/prov/t"),
        other => panic!("unexpected action {:?}", other),
    }
    drive(&mut run);
}
