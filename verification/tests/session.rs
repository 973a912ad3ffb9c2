use easycfg::config::{LinuxConfig, Task};
use easycfg::distro::Distri;
use easycfg::exec::{Action, Event};
use easycfg::log::LogEntry;
use easycfg::server::Server;
use easycfg::tui::{visible_start, Key, Tui};

fn cmd_task(name: &str, cmds: &[&str]) -> Task {
    Task {
        name: name.to_string(),
        path: None,
        pkg: None,
        commands: Some(cmds.iter().map(|c| c.to_string()).collect()),
        slink: None,
    }
}

fn session(n: usize) -> Tui {
    let tasks = (0..n).map(|i| cmd_task(&format!("t{}", i), &["x"])).collect();
    Tui::new(Server::new(
        Distri::Unknown,
        LinuxConfig { tasks },
        "/root".to_string(),
    ))
}

#[test]
fn cursor_moves_clamped() {
    let mut s = session(3);
    assert_eq!(s.selected, 0);
    assert_eq!(s.handle_key(Key::Up), None);
    assert_eq!(s.selected, 0);
    assert_eq!(s.handle_key(Key::Down), None);
    assert_eq!(s.selected, 1);
    s.handle_key(Key::Down);
    assert_eq!(s.selected, 2);
    s.handle_key(Key::Down);
    assert_eq!(s.selected, 2);
    s.handle_key(Key::Up);
    assert_eq!(s.selected, 1);
    assert!(!s.exit);
}

#[test]
fn cursor_on_empty_task_list_stays_put() {
    let mut s = session(0);
    s.handle_key(Key::Down);
    assert_eq!(s.selected, 0);
    s.handle_key(Key::Up);
    assert_eq!(s.selected, 0);
}

#[test]
fn quit_ends_the_session() {
    let mut s = session(2);
    assert!(!s.exit);
    assert_eq!(s.handle_key(Key::Quit), None);
    assert!(s.exit);
}

#[test]
fn other_keys_are_ignored() {
    let mut s = session(2);
    s.handle_key(Key::Down);
    assert_eq!(s.handle_key(Key::Other), None);
    assert_eq!(s.selected, 1);
    assert!(!s.exit);
}

#[test]
fn select_names_the_task_to_run() {
    let mut s = session(3);
    s.handle_key(Key::Down);
    assert_eq!(s.handle_key(Key::Select), Some(1));
    assert_eq!(s.selected, 1);
}

#[test]
fn merge_splits_lines_and_drops_empty_ones() {
    let mut s = session(1);
    let entries = vec![
        LogEntry {
            stdout: b"one\n\ntwo".to_vec(),
            stderr: Vec::new(),
            failure: false,
        },
        LogEntry {
            stdout: b"\nthree\n".to_vec(),
            stderr: b"oops\n".to_vec(),
            failure: false,
        },
    ];
    s.merge(&entries);
    assert_eq!(s.outlog, vec!["one", "two", "three"]);
    assert_eq!(s.errlog, vec!["oops"]);

    // Merging again appends.
    s.merge(&entries);
    assert_eq!(s.outlog, vec!["one", "two", "three", "one", "two", "three"]);
}

#[test]
fn merge_keeps_invalid_bytes_readable() {
    let mut s = session(1);
    let entries = vec![LogEntry {
        stdout: vec![0xff, 0xfe, b'\n', b'o', b'k'],
        stderr: Vec::new(),
        failure: false,
    }];
    s.merge(&entries);
    assert_eq!(s.outlog.len(), 2);
    assert_eq!(s.outlog[1], "ok");
    assert!(!s.outlog[0].is_empty());
}

#[test]
fn selected_task_runs_and_logs_merge() {
    let mut s = session(2);
    let picked = s.handle_key(Key::Select).unwrap();
    let mut run = s.server.exec_by_index(picked).unwrap();
    while !run.done() {
        match run.next_action() {
            Action::RunCommand { .. } => {
                run.step(Event::CmdDone(b"hello\n".to_vec(), Vec::new()))
            }
            _ => panic!("only commands expected"),
        }
    }
    let (log, res) = run.take_result();
    assert!(res.is_ok());
    s.merge(&log);
    assert_eq!(s.outlog, vec!["[exec] x", "hello"]);
    assert!(s.errlog.is_empty());
}

#[test]
fn viewport_shows_the_most_recent_tail() {
    assert_eq!(visible_start(10, 4), 7);
    assert_eq!(visible_start(2, 4), 0);
    assert_eq!(visible_start(3, 4), 0);
    assert_eq!(visible_start(4, 4), 1);
    assert_eq!(visible_start(0, 4), 0);
    assert_eq!(visible_start(5, 1), 5);
    assert_eq!(visible_start(5, 0), 5);
}
