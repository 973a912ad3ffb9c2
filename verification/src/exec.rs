//! The task execution engine, as a step machine.
//!
//! Creating symlinks, removing obstacles, making directories and spawning
//! commands touch the filesystem and process boundary, which stays outside
//! this library. The engine instead decides every step: `next_action` names
//! the action to perform, and `step` consumes the outcome as an [`Event`],
//! appends the corresponding log entry and picks the next state. The caller
//! loops: perform the action, hand back the event.
//!
//! Phase order within a task is fixed: symlinks, then commands, then
//! packages. The first failing step ends the task; the log gathered so far
//! is kept and returned beside the error.

use vstd::prelude::*;
use vstd::string::{StrSliceExecFns, StringExecFns};

use crate::config::{Package, Task};
use crate::distro::{Distri, DistriOpt};
use crate::log::{
    cmd_entry, link_err_entry, link_ok_entry, make_cmd_entry, make_link_err, make_link_ok,
    make_pkg_stub, make_spawn_err, pkg_stub_entry, spawn_err_entry, EntryV, LogEntry,
};

verus! {

/// Bound on the self-heal retries of one symlink pair, so that a
/// pathological filesystem race cannot livelock the engine.
pub const MAX_HEAL_ATTEMPTS: u32 = 16;

/// A terminal error of one execution: an unknown task, or an OS failure
/// carrying the underlying error text.
#[derive(Debug)]
pub enum ExecError {
    NotFound,
    IOFailure(String),
}

/// Ghost image of [`ExecError`].
#[verifier::ext_equal]
pub enum ErrV {
    NotFound,
    IOFailure(Seq<char>),
}

impl View for ExecError {
    type V = ErrV;

    open spec fn view(&self) -> ErrV {
        match self {
            ExecError::NotFound => ErrV::NotFound,
            ExecError::IOFailure(m) => ErrV::IOFailure(m@),
        }
    }
}

/// One step of a task: place a symlink, or run a command in a directory.
#[derive(Debug)]
pub enum Step {
    Link { src: String, dst: String },
    Cmd { cmd: String, dir: String },
}

/// Ghost image of [`Step`].
#[verifier::ext_equal]
pub enum StepV {
    Link { src: Seq<char>, dst: Seq<char> },
    Cmd { cmd: Seq<char>, dir: Seq<char> },
}

impl View for Step {
    type V = StepV;

    open spec fn view(&self) -> StepV {
        match self {
            Step::Link { src, dst } => StepV::Link { src: src@, dst: dst@ },
            Step::Cmd { cmd, dir } => StepV::Cmd { cmd: cmd@, dir: dir@ },
        }
    }
}

/// Substate of a symlink step's self-heal loop: try the link, or first
/// clear an existing destination, or first create the missing parent.
#[derive(Clone, Copy, Debug, PartialEq, Eq, Structural)]
pub enum Heal {
    TryLink,
    RemoveDst,
    MakeParent,
}

/// What the caller must do next at the filesystem/process boundary.
#[derive(Debug)]
pub enum Action {
    /// Create a symlink at `dst` pointing to `src`.
    Symlink { src: String, dst: String },
    /// Remove whatever exists at `dst` (a file, or a directory recursively).
    RemoveDst { dst: String },
    /// Create the parent directory of `dst`, recursively.
    MakeParent { dst: String },
    /// Spawn `cmd` through a shell with `dir` as its working directory.
    RunCommand { cmd: String, dir: String },
}

/// Ghost image of [`Action`].
#[verifier::ext_equal]
pub enum ActionV {
    Symlink { src: Seq<char>, dst: Seq<char> },
    RemoveDst { dst: Seq<char> },
    MakeParent { dst: Seq<char> },
    RunCommand { cmd: Seq<char>, dir: Seq<char> },
}

impl View for Action {
    type V = ActionV;

    open spec fn view(&self) -> ActionV {
        match self {
            Action::Symlink { src, dst } => ActionV::Symlink { src: src@, dst: dst@ },
            Action::RemoveDst { dst } => ActionV::RemoveDst { dst: dst@ },
            Action::MakeParent { dst } => ActionV::MakeParent { dst: dst@ },
            Action::RunCommand { cmd, dir } => ActionV::RunCommand { cmd: cmd@, dir: dir@ },
        }
    }
}

/// The outcome of one performed action, fed back to the engine. Error
/// variants carry the OS error text.
#[derive(Debug)]
pub enum Event {
    /// The symlink was created.
    LinkOk,
    /// Creating the symlink failed because the destination already exists.
    LinkExists(String),
    /// Creating the symlink failed because a path component was missing.
    LinkNoParent(String),
    /// Creating the symlink failed for any other reason.
    LinkErr(String),
    /// The destination was removed.
    RemoveOk,
    /// Removing the destination failed.
    RemoveErr(String),
    /// The parent directory was created.
    MkdirOk,
    /// The destination has no parent component at all.
    MkdirNoParent,
    /// Creating the parent directory failed.
    MkdirErr(String),
    /// The command ran to completion with these stdout and stderr bytes.
    CmdDone(Vec<u8>, Vec<u8>),
    /// The command could not be spawned.
    CmdSpawnErr(String),
}

/// Ghost image of [`Event`].
#[verifier::ext_equal]
pub enum EventV {
    LinkOk,
    LinkExists(Seq<char>),
    LinkNoParent(Seq<char>),
    LinkErr(Seq<char>),
    RemoveOk,
    RemoveErr(Seq<char>),
    MkdirOk,
    MkdirNoParent,
    MkdirErr(Seq<char>),
    CmdDone(Seq<u8>, Seq<u8>),
    CmdSpawnErr(Seq<char>),
}

impl View for Event {
    type V = EventV;

    open spec fn view(&self) -> EventV {
        match self {
            Event::LinkOk => EventV::LinkOk,
            Event::LinkExists(m) => EventV::LinkExists(m@),
            Event::LinkNoParent(m) => EventV::LinkNoParent(m@),
            Event::LinkErr(m) => EventV::LinkErr(m@),
            Event::RemoveOk => EventV::RemoveOk,
            Event::RemoveErr(m) => EventV::RemoveErr(m@),
            Event::MkdirOk => EventV::MkdirOk,
            Event::MkdirNoParent => EventV::MkdirNoParent,
            Event::MkdirErr(m) => EventV::MkdirErr(m@),
            Event::CmdDone(out, errb) => EventV::CmdDone(out@, errb@),
            Event::CmdSpawnErr(m) => EventV::CmdSpawnErr(m@),
        }
    }
}

pub open spec fn steps_view(v: Seq<Step>) -> Seq<StepV> {
    v.map_values(|s: Step| s@)
}

pub open spec fn log_view(v: Seq<LogEntry>) -> Seq<EntryV> {
    v.map_values(|e: LogEntry| e@)
}

/// Ghost image of a running task: the step list, the fail-closed package
/// stub kept for the end, the cursor, the self-heal substate, and the log
/// and outcome gathered so far.
#[verifier::ext_equal]
pub struct TaskRunV {
    pub steps: Seq<StepV>,
    pub pkg: Option<(EntryV, Seq<char>)>,
    pub pos: int,
    pub heal: Heal,
    pub attempts: int,
    pub pending: Seq<char>,
    pub log: Seq<EntryV>,
    pub done: bool,
    pub error: Option<ErrV>,
}

/// The entry a completed step leaves in the log.
pub open spec fn entry_for(e: EntryV, s: StepV) -> bool {
    match s {
        StepV::Link { src, dst } => e == link_ok_entry(src, dst),
        StepV::Cmd { cmd, dir: _ } => exists|out: Seq<u8>, errb: Seq<u8>| e == cmd_entry(cmd, out, errb),
    }
}

/// The entry a failing step leaves in the log.
pub open spec fn fail_entry_for(e: EntryV, s: StepV) -> bool {
    match s {
        StepV::Link { src, dst } => exists|msg: Seq<char>| e == link_err_entry(src, dst, msg),
        StepV::Cmd { cmd, dir: _ } => e == spawn_err_entry(cmd),
    }
}

impl TaskRunV {
    /// Well-formedness: the log mirrors the steps processed so far, and the
    /// terminal state carries exactly one failing entry when it failed.
    pub open spec fn wf(self) -> bool {
        &&& 0 <= self.pos <= self.steps.len()
        &&& 0 <= self.attempts
        &&& (self.pkg matches Some(pm) ==> pm.0.failure)
        &&& (forall|i: int|
            0 <= i < self.pos ==> entry_for(#[trigger] self.log[i], self.steps[i])
                && !self.log[i].failure)
        &&& (!self.done ==> {
            &&& self.pos < self.steps.len()
            &&& self.error is None
            &&& self.log.len() == self.pos
            &&& (self.heal != Heal::TryLink ==> self.steps[self.pos] is Link)
        })
        &&& (self.done ==> match self.error {
            Option::None => self.pos == self.steps.len() && self.log.len() == self.pos,
            Option::Some(err) => {
                &&& err is IOFailure
                &&& self.log.len() == self.pos + 1
                &&& self.log[self.pos].failure
                &&& (self.pos < self.steps.len() ==> fail_entry_for(
                    self.log[self.pos],
                    self.steps[self.pos],
                ))
            },
        })
    }
}

/// End of a task whose steps all completed: with no package stub the task
/// succeeded; a pending stub fails closed, as the last entry of the log.
pub open spec fn finish_of(m: TaskRunV) -> TaskRunV {
    match m.pkg {
        Option::None => TaskRunV { done: true, error: Option::None, ..m },
        Option::Some(pm) => TaskRunV {
            log: m.log.push(pm.0),
            done: true,
            error: Option::Some(ErrV::IOFailure(pm.1)),
            pkg: Option::None,
            ..m
        },
    }
}

/// The state after the step at the cursor completed.
pub open spec fn step_completed(m: TaskRunV) -> TaskRunV {
    let next = TaskRunV { pos: m.pos + 1, heal: Heal::TryLink, attempts: 0, ..m };
    if m.pos + 1 == m.steps.len() {
        finish_of(next)
    } else {
        next
    }
}

/// The state after the step at the cursor failed with entry `e` and error
/// text `msg`.
pub open spec fn failed_with(m: TaskRunV, e: EntryV, msg: Seq<char>) -> TaskRunV {
    TaskRunV { log: m.log.push(e), done: true, error: Option::Some(ErrV::IOFailure(msg)), ..m }
}

/// Whether event `e` answers the action the engine expects next.
pub open spec fn event_fits(m: TaskRunV, e: EventV) -> bool {
    match (m.steps[m.pos], m.heal, e) {
        (StepV::Link { .. }, Heal::TryLink, EventV::LinkOk) => true,
        (StepV::Link { .. }, Heal::TryLink, EventV::LinkExists(_)) => true,
        (StepV::Link { .. }, Heal::TryLink, EventV::LinkNoParent(_)) => true,
        (StepV::Link { .. }, Heal::TryLink, EventV::LinkErr(_)) => true,
        (StepV::Link { .. }, Heal::RemoveDst, EventV::RemoveOk) => true,
        (StepV::Link { .. }, Heal::RemoveDst, EventV::RemoveErr(_)) => true,
        (StepV::Link { .. }, Heal::MakeParent, EventV::MkdirOk) => true,
        (StepV::Link { .. }, Heal::MakeParent, EventV::MkdirNoParent) => true,
        (StepV::Link { .. }, Heal::MakeParent, EventV::MkdirErr(_)) => true,
        (StepV::Cmd { .. }, _, EventV::CmdDone(_, _)) => true,
        (StepV::Cmd { .. }, _, EventV::CmdSpawnErr(_)) => true,
        _ => false,
    }
}

/// The action the engine expects to be performed next.
pub open spec fn expected_action(m: TaskRunV) -> ActionV {
    match (m.steps[m.pos], m.heal) {
        (StepV::Link { src, dst }, Heal::TryLink) => ActionV::Symlink { src, dst },
        (StepV::Link { src: _, dst }, Heal::RemoveDst) => ActionV::RemoveDst { dst },
        (StepV::Link { src: _, dst }, Heal::MakeParent) => ActionV::MakeParent { dst },
        (StepV::Cmd { cmd, dir }, _) => ActionV::RunCommand { cmd, dir },
    }
}

/// The transition of the engine: the state after consuming event `e`.
pub open spec fn task_run_step(m: TaskRunV, e: EventV) -> TaskRunV {
    match (m.steps[m.pos], e) {
        (StepV::Link { src, dst }, EventV::LinkOk) => step_completed(
            TaskRunV { log: m.log.push(link_ok_entry(src, dst)), ..m },
        ),
        (StepV::Link { src, dst }, EventV::LinkExists(msg)) => if m.attempts
            < MAX_HEAL_ATTEMPTS as int {
            TaskRunV { heal: Heal::RemoveDst, attempts: m.attempts + 1, ..m }
        } else {
            failed_with(m, link_err_entry(src, dst, msg), msg)
        },
        (StepV::Link { src, dst }, EventV::LinkNoParent(msg)) => if m.attempts
            < MAX_HEAL_ATTEMPTS as int {
            TaskRunV { heal: Heal::MakeParent, attempts: m.attempts + 1, pending: msg, ..m }
        } else {
            failed_with(m, link_err_entry(src, dst, msg), msg)
        },
        (StepV::Link { src, dst }, EventV::LinkErr(msg)) => failed_with(
            m,
            link_err_entry(src, dst, msg),
            msg,
        ),
        (StepV::Link { .. }, EventV::RemoveOk) => TaskRunV { heal: Heal::TryLink, ..m },
        (StepV::Link { src, dst }, EventV::RemoveErr(msg)) => failed_with(
            m,
            link_err_entry(src, dst, msg),
            msg,
        ),
        (StepV::Link { .. }, EventV::MkdirOk) => TaskRunV { heal: Heal::TryLink, ..m },
        (StepV::Link { src, dst }, EventV::MkdirNoParent) => failed_with(
            m,
            link_err_entry(src, dst, m.pending),
            m.pending,
        ),
        (StepV::Link { src, dst }, EventV::MkdirErr(msg)) => failed_with(
            m,
            link_err_entry(src, dst, msg),
            msg,
        ),
        (StepV::Cmd { cmd, dir: _ }, EventV::CmdDone(out, errb)) => step_completed(
            TaskRunV { log: m.log.push(cmd_entry(cmd, out, errb)), ..m },
        ),
        (StepV::Cmd { cmd, dir: _ }, EventV::CmdSpawnErr(msg)) => failed_with(
            m,
            spawn_err_entry(cmd),
            msg,
        ),
        _ => m,
    }
}

/// The initial state over `steps` with package stub `pkg`: a task without
/// steps is finished at once.
pub open spec fn initial_run(steps: Seq<StepV>, pkg: Option<(EntryV, Seq<char>)>) -> TaskRunV {
    let m = TaskRunV {
        steps,
        pkg,
        pos: 0,
        heal: Heal::TryLink,
        attempts: 0,
        pending: Seq::empty(),
        log: Seq::empty(),
        done: false,
        error: Option::None,
    };
    if steps.len() == 0 {
        finish_of(m)
    } else {
        m
    }
}

/// A task mid-execution: the engine's state between two events.
#[derive(Debug)]
pub struct TaskRun {
    steps: Vec<Step>,
    pkg: Option<(LogEntry, String)>,
    pos: usize,
    heal: Heal,
    attempts: u32,
    pending: String,
    log: Vec<LogEntry>,
    done: bool,
    error: Option<ExecError>,
}

impl View for TaskRun {
    type V = TaskRunV;

    closed spec fn view(&self) -> TaskRunV {
        TaskRunV {
            steps: steps_view(self.steps@),
            pkg: match self.pkg {
                Option::Some(pm) => Option::Some((pm.0@, pm.1@)),
                Option::None => Option::None,
            },
            pos: self.pos as int,
            heal: self.heal,
            attempts: self.attempts as int,
            pending: self.pending@,
            log: log_view(self.log@),
            done: self.done,
            error: match self.error {
                Option::Some(e) => Option::Some(e@),
                Option::None => Option::None,
            },
        }
    }
}

impl TaskRun {
    pub(crate) fn make(steps: Vec<Step>, pkg: Option<(LogEntry, String)>) -> (r: TaskRun)
        requires
            pkg matches Some(pm) ==> pm.0@.failure,
        ensures
            r@ == initial_run(steps_view(steps@), match pkg {
                Option::Some(pm) => Option::Some((pm.0@, pm.1@)),
                Option::None => Option::<(EntryV, Seq<char>)>::None,
            }),
            r@.wf(),
    {
        let empty = steps.len() == 0;
        let mut r = TaskRun {
            steps,
            pkg,
            pos: 0,
            heal: Heal::TryLink,
            attempts: 0,
            pending: String::new(),
            log: Vec::new(),
            done: false,
            error: Option::None,
        };
        proof {
            assert(log_view(r.log@) =~= Seq::<EntryV>::empty());
        }
        if empty {
            proof {
                lemma_finish_preserves_wf(r@);
            }
            r.finish();
        }
        r
    }

    /// Whether the task has reached its terminal state.
    pub fn done(&self) -> (r: bool)
        ensures
            r == self@.done,
    {
        self.done
    }

    /// The action to perform next.
    pub fn next_action(&self) -> (r: Action)
        requires
            !self@.done,
            self@.wf(),
        ensures
            r@ == expected_action(self@),
    {
        match &self.steps[self.pos] {
            Step::Link { src, dst } => match self.heal {
                Heal::TryLink => Action::Symlink { src: src.clone(), dst: dst.clone() },
                Heal::RemoveDst => Action::RemoveDst { dst: dst.clone() },
                Heal::MakeParent => Action::MakeParent { dst: dst.clone() },
            },
            Step::Cmd { cmd, dir } => Action::RunCommand { cmd: cmd.clone(), dir: dir.clone() },
        }
    }

    /// Consume the outcome of the expected action and move to the next state.
    pub fn step(&mut self, e: Event)
        requires
            old(self)@.wf(),
            !old(self)@.done,
            event_fits(old(self)@, e@),
        ensures
            final(self)@ == task_run_step(old(self)@, e@),
            final(self)@.wf(),
    {
        proof {
            lemma_step_preserves_wf(old(self)@, e@);
        }
        match e {
            Event::LinkOk => {
                let (src, dst) = self.link_fields();
                let entry = make_link_ok(&src, &dst);
                self.log.push(entry);
                proof {
                    assert(self@ =~= TaskRunV {
                        log: old(self)@.log.push(entry@),
                        ..old(self)@
                    });
                }
                self.advance();
            },
            Event::LinkExists(msg) => {
                if self.attempts < MAX_HEAL_ATTEMPTS {
                    self.heal = Heal::RemoveDst;
                    self.attempts = self.attempts + 1;
                    proof {
                        assert(self@ =~= task_run_step(old(self)@, e@));
                    }
                } else {
                    let (src, dst) = self.link_fields();
                    let entry = make_link_err(&src, &dst, &msg);
                    self.fail(entry, msg);
                }
            },
            Event::LinkNoParent(msg) => {
                if self.attempts < MAX_HEAL_ATTEMPTS {
                    self.heal = Heal::MakeParent;
                    self.attempts = self.attempts + 1;
                    self.pending = msg;
                    proof {
                        assert(self@ =~= task_run_step(old(self)@, e@));
                    }
                } else {
                    let (src, dst) = self.link_fields();
                    let entry = make_link_err(&src, &dst, &msg);
                    self.fail(entry, msg);
                }
            },
            Event::LinkErr(msg) => {
                let (src, dst) = self.link_fields();
                let entry = make_link_err(&src, &dst, &msg);
                self.fail(entry, msg);
            },
            Event::RemoveOk => {
                self.heal = Heal::TryLink;
                proof {
                    assert(self@ =~= task_run_step(old(self)@, e@));
                }
            },
            Event::RemoveErr(msg) => {
                let (src, dst) = self.link_fields();
                let entry = make_link_err(&src, &dst, &msg);
                self.fail(entry, msg);
            },
            Event::MkdirOk => {
                self.heal = Heal::TryLink;
                proof {
                    assert(self@ =~= task_run_step(old(self)@, e@));
                }
            },
            Event::MkdirNoParent => {
                let (src, dst) = self.link_fields();
                let msg = self.pending.clone();
                let entry = make_link_err(&src, &dst, &msg);
                self.fail(entry, msg);
            },
            Event::MkdirErr(msg) => {
                let (src, dst) = self.link_fields();
                let entry = make_link_err(&src, &dst, &msg);
                self.fail(entry, msg);
            },
            Event::CmdDone(out, errb) => {
                let cmd = self.cmd_field();
                let entry = make_cmd_entry(&cmd, out, errb);
                self.log.push(entry);
                proof {
                    assert(self@ =~= TaskRunV {
                        log: old(self)@.log.push(entry@),
                        ..old(self)@
                    });
                }
                self.advance();
            },
            Event::CmdSpawnErr(msg) => {
                let cmd = self.cmd_field();
                let entry = make_spawn_err(&cmd);
                self.fail(entry, msg);
            },
        }
    }

    /// The log gathered so far, and the outcome, of a finished task.
    pub fn take_result(self) -> (r: (Vec<LogEntry>, Result<(), ExecError>))
        requires
            self@.done,
        ensures
            log_view(r.0@) == self@.log,
            match r.1 {
                Result::Ok(()) => self@.error is None,
                Result::Err(e) => self@.error == Option::Some(e@),
            },
    {
        let TaskRun { log, error, .. } = self;
        match error {
            Option::None => (log, Result::Ok(())),
            Option::Some(e) => (log, Result::Err(e)),
        }
    }

    /// Clones the endpoints of the symlink step at the cursor.
    fn link_fields(&self) -> (r: (String, String))
        requires
            self@.wf(),
            !self@.done,
            self@.steps[self@.pos] is Link,
        ensures
            self@.steps[self@.pos] matches StepV::Link { src, dst } && r.0@ == src && r.1@
                == dst,
    {
        match &self.steps[self.pos] {
            Step::Link { src, dst } => (src.clone(), dst.clone()),
            Step::Cmd { .. } => {
                proof {
                    assert(false);
                }
                (String::new(), String::new())
            },
        }
    }

    /// Clones the command of the command step at the cursor.
    fn cmd_field(&self) -> (r: String)
        requires
            self@.wf(),
            !self@.done,
            self@.steps[self@.pos] is Cmd,
        ensures
            self@.steps[self@.pos] matches StepV::Cmd { cmd, dir: _ } && r@ == cmd,
    {
        match &self.steps[self.pos] {
            Step::Cmd { cmd, .. } => cmd.clone(),
            Step::Link { .. } => {
                proof {
                    assert(false);
                }
                String::new()
            },
        }
    }

    /// Move the cursor past a completed step; finish when it was the last.
    fn advance(&mut self)
        requires
            !old(self)@.done,
            old(self)@.error is None,
            0 <= old(self)@.pos < old(self)@.steps.len(),
        ensures
            final(self)@ == step_completed(old(self)@),
    {
        let n = self.steps.len();
        proof {
            assert(self@.steps.len() == self.steps@.len());
            assert(self.pos < n);
        }
        self.pos = self.pos + 1;
        self.heal = Heal::TryLink;
        self.attempts = 0;
        if self.pos == n {
            self.finish();
        } else {
            proof {
                assert(self@ =~= step_completed(old(self)@));
            }
        }
    }

    /// All steps completed: succeed, or fail closed on a pending package stub.
    fn finish(&mut self)
        requires
            !old(self)@.done,
            old(self)@.error is None,
        ensures
            final(self)@ == finish_of(old(self)@),
    {
        self.done = true;
        match self.pkg.take() {
            Option::Some(pm) => {
                let (entry, msg) = pm;
                self.log.push(entry);
                self.error = Option::Some(ExecError::IOFailure(msg));
                proof {
                    assert(self@ =~= finish_of(old(self)@));
                }
            },
            Option::None => {
                proof {
                    assert(self@ =~= finish_of(old(self)@));
                }
            },
        }
    }

    /// Hand out the log gathered so far, leaving the run drained.
    pub(crate) fn take_log(&mut self) -> (r: Vec<LogEntry>)
        ensures
            log_view(r@) == old(self)@.log,
            final(self)@ == drained(old(self)@),
    {
        let mut lg: Vec<LogEntry> = Vec::new();
        core::mem::swap(&mut self.log, &mut lg);
        proof {
            assert(log_view(Seq::<LogEntry>::empty()) =~= Seq::<EntryV>::empty());
            assert(self@ =~= drained(old(self)@));
        }
        lg
    }

    /// A copy of the run's error, if it failed.
    pub(crate) fn clone_error(&self) -> (r: Option<ExecError>)
        ensures
            match r {
                Option::Some(e) => self@.error == Option::Some(e@),
                Option::None => self@.error is None,
            },
    {
        match &self.error {
            Option::None => Option::None,
            Option::Some(ExecError::NotFound) => Option::Some(ExecError::NotFound),
            Option::Some(ExecError::IOFailure(m)) => Option::Some(
                ExecError::IOFailure(m.clone()),
            ),
        }
    }

    /// Record a failing step: push its entry and end the task.
    fn fail(&mut self, entry: LogEntry, msg: String)
        ensures
            final(self)@ == failed_with(old(self)@, entry@, msg@),
    {
        self.log.push(entry);
        self.done = true;
        self.error = Option::Some(ExecError::IOFailure(msg));
        proof {
            assert(self@ =~= failed_with(old(self)@, entry@, msg@));
        }
    }
}

/// A run with its log handed out.
pub open spec fn drained(r: TaskRunV) -> TaskRunV {
    TaskRunV { log: Seq::empty(), ..r }
}

/// The transition preserves well-formedness.
pub proof fn lemma_step_preserves_wf(m: TaskRunV, e: EventV)
    requires
        m.wf(),
        !m.done,
        event_fits(m, e),
    ensures
        task_run_step(m, e).wf(),
{
    let n = task_run_step(m, e);
    match (m.steps[m.pos], e) {
        (StepV::Link { src, dst }, EventV::LinkOk) => {
            let pushed = TaskRunV { log: m.log.push(link_ok_entry(src, dst)), ..m };
            lemma_completed_wf(pushed, m.pos);
        },
        (StepV::Cmd { cmd, dir: _ }, EventV::CmdDone(out, errb)) => {
            let entry = cmd_entry(cmd, out, errb);
            let pushed = TaskRunV { log: m.log.push(entry), ..m };
            assert(entry == cmd_entry(cmd, out, errb));
            assert(entry_for(entry, m.steps[m.pos]));
            lemma_completed_wf(pushed, m.pos);
        },
        _ => {
        },
    }
}

/// After pushing the success entry of the step at `pos`, completing the
/// step leaves a well-formed state.
proof fn lemma_completed_wf(pushed: TaskRunV, pos: int)
    requires
        pushed.pos == pos,
        0 <= pos < pushed.steps.len(),
        !pushed.done,
        pushed.error is None,
        0 <= pushed.attempts,
        pushed.log.len() == pos + 1,
        forall|i: int|
            0 <= i < pos ==> entry_for(#[trigger] pushed.log[i], pushed.steps[i])
                && !pushed.log[i].failure,
        entry_for(pushed.log[pos], pushed.steps[pos]),
        !pushed.log[pos].failure,
        pushed.pkg matches Some(pm) ==> pm.0.failure,
    ensures
        step_completed(pushed).wf(),
{
    let next = TaskRunV { pos: pos + 1, heal: Heal::TryLink, attempts: 0, ..pushed };
    if pos + 1 == pushed.steps.len() {
        lemma_finish_preserves_wf(next);
    } else {
        assert(next.wf());
    }
}

/// Finishing a task whose steps all completed leaves a well-formed state.
proof fn lemma_finish_preserves_wf(m: TaskRunV)
    requires
        0 <= m.pos <= m.steps.len(),
        0 <= m.attempts,
        m.error is None,
        m.log.len() == m.pos,
        forall|i: int|
            0 <= i < m.pos ==> entry_for(#[trigger] m.log[i], m.steps[i]) && !m.log[i].failure,
        m.pkg matches Some(pm) ==> pm.0.failure,
    ensures
        m.pos == m.steps.len() ==> finish_of(m).wf(),
{
}

/// Self-healing is idempotent at the decision layer: when the destination
/// already exists, clearing it and retrying ends in exactly the state a
/// fresh link reaches, with the same log. Re-provisioning a pair that is
/// already linked therefore reports the same success as the first run.
pub proof fn lemma_self_heal_idempotent(m: TaskRunV, msg: Seq<char>)
    requires
        m.wf(),
        !m.done,
        m.steps[m.pos] is Link,
        m.heal == Heal::TryLink,
        m.attempts < MAX_HEAL_ATTEMPTS as int,
    ensures
        task_run_step(
            task_run_step(task_run_step(m, EventV::LinkExists(msg)), EventV::RemoveOk),
            EventV::LinkOk,
        ) == task_run_step(m, EventV::LinkOk),
{
    match m.steps[m.pos] {
        StepV::Link { src, dst } => {
            let healed = task_run_step(task_run_step(m, EventV::LinkExists(msg)), EventV::RemoveOk);
            assert(healed =~= TaskRunV { attempts: m.attempts + 1, ..m });
            let entry = link_ok_entry(src, dst);
            let a = TaskRunV { log: healed.log.push(entry), ..healed };
            let b = TaskRunV { log: m.log.push(entry), ..m };
            let next_a = TaskRunV { pos: a.pos + 1, heal: Heal::TryLink, attempts: 0, ..a };
            let next_b = TaskRunV { pos: b.pos + 1, heal: Heal::TryLink, attempts: 0, ..b };
            assert(next_a =~= next_b);
            assert(step_completed(a) =~= step_completed(b));
        },
        StepV::Cmd { .. } => {
            assert(false);
        },
    }
}

/// A failing step truncates the task: the final log holds exactly one
/// success entry for each step completed before it, then the failing
/// step's failure entry, and nothing for any later step.
pub proof fn lemma_failure_truncates(m: TaskRunV)
    requires
        m.wf(),
        m.done,
        m.error is Some,
        m.pos < m.steps.len(),
    ensures
        m.log.len() == m.pos + 1,
        forall|i: int|
            0 <= i < m.pos ==> entry_for(#[trigger] m.log[i], m.steps[i]) && !m.log[i].failure,
        fail_entry_for(m.log[m.pos], m.steps[m.pos]),
        m.log[m.pos].failure,
{
}

/// Index of the first package entry in `ps` that targets `host`, or
/// `ps.len()` if none does.
pub open spec fn first_match(ps: Seq<Package>, host: Distri) -> int
    decreases ps.len(),
{
    if ps.len() == 0 {
        0
    } else if ps[0].distri == host {
        0
    } else {
        1 + first_match(ps.drop_first(), host)
    }
}

pub proof fn lemma_first_match_bounds(ps: Seq<Package>, host: Distri)
    ensures
        0 <= first_match(ps, host) <= ps.len(),
        forall|j: int| 0 <= j < first_match(ps, host) ==> ps[j].distri != host,
        first_match(ps, host) < ps.len() ==> ps[first_match(ps, host)].distri == host,
    decreases ps.len(),
{
    if ps.len() != 0 && ps[0].distri != host {
        lemma_first_match_bounds(ps.drop_first(), host);
        assert forall|j: int| 0 <= j < first_match(ps, host) implies ps[j].distri != host by {
            if j > 0 {
                assert(ps[j] == ps.drop_first()[j - 1]);
            }
        }
        if first_match(ps, host) < ps.len() {
            assert(ps[first_match(ps, host)] == ps.drop_first()[first_match(ps, host) - 1]);
        }
    }
}

/// Characterizes `first_match` by its defining property.
proof fn lemma_first_match_at(ps: Seq<Package>, host: Distri, i: int)
    requires
        0 <= i <= ps.len(),
        forall|j: int| 0 <= j < i ==> ps[j].distri != host,
        i < ps.len() ==> ps[i].distri == host,
    ensures
        first_match(ps, host) == i,
    decreases i,
{
    if ps.len() != 0 && i > 0 {
        assert(ps[0].distri != host);
        assert(forall|j: int|
            0 <= j < i - 1 ==> ps.drop_first()[j] == ps[j + 1] && ps[j + 1].distri != host);
        lemma_first_match_at(ps.drop_first(), host, i - 1);
    }
}

pub open spec fn strs_view(v: Seq<String>) -> Seq<Seq<char>> {
    v.map_values(|s: String| s@)
}

/// The names of an optional name list.
pub open spec fn opt_names(o: Option<Vec<String>>) -> Seq<Seq<char>> {
    match o {
        Option::Some(v) => strs_view(v@),
        Option::None => Seq::empty(),
    }
}

/// All names a package entry asks for: the install names, then the remove
/// names.
pub open spec fn pkg_names(p: Package) -> Seq<Seq<char>> {
    opt_names(p.install) + opt_names(p.remove)
}

/// `names` joined with single spaces.
pub open spec fn joined(names: Seq<Seq<char>>) -> Seq<char>
    decreases names.len(),
{
    if names.len() == 0 {
        Seq::empty()
    } else if names.len() == 1 {
        names[0]
    } else {
        joined(names.drop_last()) + " "@ + names.last()
    }
}

/// The error text of the fail-closed package stub.
pub open spec fn stub_msg() -> Seq<char> {
    "package application is not implemented"@
}

/// The package entries of a task.
pub open spec fn pkgs_of(t: Task) -> Seq<Package> {
    match t.pkg {
        Option::Some(v) => v@,
        Option::None => Seq::empty(),
    }
}

/// The fail-closed stub a task ends with: the entry and error text of the
/// first package entry targeting the host, or nothing when none does.
pub open spec fn task_pkg_stub(t: Task, host: Distri) -> Option<(EntryV, Seq<char>)> {
    let ps = pkgs_of(t);
    let k = first_match(ps, host);
    if k == ps.len() {
        Option::None
    } else {
        Option::Some((pkg_stub_entry(joined(pkg_names(ps[k]))), stub_msg()))
    }
}

/// The symlink pairs of a task.
pub open spec fn links_of(t: Task) -> Seq<(String, String)> {
    match t.slink {
        Option::Some(v) => v@,
        Option::None => Seq::empty(),
    }
}

/// The command strings of a task.
pub open spec fn cmds_of(t: Task) -> Seq<String> {
    match t.commands {
        Option::Some(v) => v@,
        Option::None => Seq::empty(),
    }
}

/// The path component a task's working directory is resolved from: its
/// declared path, or its name.
pub open spec fn rel_of(t: Task) -> Seq<char> {
    match t.path {
        Option::Some(p) => p@,
        Option::None => t.name@,
    }
}

/// `rel` resolved against `dir`: an absolute `rel` (or an empty `dir`)
/// stands alone; otherwise the two joined with a separator.
pub open spec fn join_path(dir: Seq<char>, rel: Seq<char>) -> Seq<char> {
    if dir.len() == 0 || (rel.len() > 0 && rel[0] == '/') {
        rel
    } else if dir[dir.len() - 1] == '/' {
        dir + rel
    } else {
        dir + "/"@ + rel
    }
}

/// The working directory commands of task `t` run in, under root `dir`.
pub open spec fn work_dir_of(dir: Seq<char>, t: Task) -> Seq<char> {
    join_path(dir, rel_of(t))
}

pub open spec fn link_steps(t: Task) -> Seq<StepV> {
    links_of(t).map_values(|p: (String, String)| StepV::Link { src: p.0@, dst: p.1@ })
}

pub open spec fn cmd_steps(t: Task, d: Seq<char>) -> Seq<StepV> {
    cmds_of(t).map_values(|c: String| StepV::Cmd { cmd: c@, dir: d })
}

/// All steps of a task, in phase order: its symlinks, then its commands.
pub open spec fn task_steps(t: Task, dir: Seq<char>) -> Seq<StepV> {
    link_steps(t) + cmd_steps(t, work_dir_of(dir, t))
}

/// Space-joined names of one package entry.
fn pkg_joined_names(pkg: &Package) -> (r: String)
    ensures
        r@ == joined(pkg_names(*pkg)),
{
    let mut names: Vec<String> = Vec::new();
    if let Option::Some(v) = &pkg.install {
        let mut i: usize = 0;
        while i < v.len()
            invariant
                0 <= i <= v@.len(),
                names@.len() == i,
                forall|j: int| 0 <= j < i ==> names@[j]@ == v@[j]@,
            decreases v@.len() - i,
        {
            names.push(v[i].clone());
            i = i + 1;
        }
    }
    let ghost base = names@.len();
    if let Option::Some(v) = &pkg.remove {
        let mut i: usize = 0;
        while i < v.len()
            invariant
                0 <= i <= v@.len(),
                names@.len() == base + i,
                forall|j: int| 0 <= j < base ==> names@[j]@ == opt_names(pkg.install)[j],
                forall|j: int| 0 <= j < i ==> names@[base + j]@ == v@[j]@,
            decreases v@.len() - i,
        {
            names.push(v[i].clone());
            i = i + 1;
        }
    }
    proof {
        assert(strs_view(names@) =~= pkg_names(*pkg));
    }
    let m = names.len();
    let mut out = String::new();
    let mut i: usize = 0;
    while i < m
        invariant
            0 <= i <= m,
            m == names@.len(),
            strs_view(names@) == pkg_names(*pkg),
            out@ == joined(pkg_names(*pkg).take(i as int)),
        decreases m - i,
    {
        if i > 0 {
            out.append(" ");
        }
        out.append(names[i].as_str());
        proof {
            let nv = pkg_names(*pkg);
            assert(nv.take(i + 1).drop_last() =~= nv.take(i as int));
            assert(nv.take(i + 1).last() == names@[i as int]@);
            if i == 0 {
                assert(nv.take(1)[0] == names@[0]@);
            }
        }
        i = i + 1;
    }
    proof {
        assert(pkg_names(*pkg).take(m as int) =~= pkg_names(*pkg));
    }
    out
}

/// Runs one task's steps against the engine's distribution identity and
/// provisioning root.
#[derive(Debug)]
pub struct Executer {
    distri: DistriOpt,
    current_dir: String,
}

impl Executer {
    /// The host distribution the engine was built with.
    pub closed spec fn host(&self) -> Distri {
        self.distri.distri
    }

    /// The provisioning root working directories are resolved against.
    pub closed spec fn dir(&self) -> Seq<char> {
        self.current_dir@
    }

    pub fn new(distri: Distri, current_dir: String) -> (r: Self)
        ensures
            r.host() == distri,
            r.dir() == current_dir@,
    {
        Executer { distri: DistriOpt::from(distri), current_dir }
    }

    /// The fail-closed package step: no driver is invoked; the entry records
    /// the names that were not applied, tagged as a failure.
    pub fn pkg_apply(&self, pkg: &Package) -> (r: LogEntry)
        ensures
            r@ == pkg_stub_entry(joined(pkg_names(*pkg))),
            r@.failure,
    {
        let names = pkg_joined_names(pkg);
        make_pkg_stub(&names)
    }

    /// The stub entry of the first package entry targeting the host, if any.
    fn pkg_stub(&self, task: &Task) -> (r: Option<(LogEntry, String)>)
        ensures
            match r {
                Option::Some(pm) => task_pkg_stub(*task, self.host()) == Option::Some(
                    (pm.0@, pm.1@),
                ) && pm.0@.failure,
                Option::None => task_pkg_stub(*task, self.host()) is None,
            },
    {
        match &task.pkg {
            Option::None => Option::None,
            Option::Some(ps) => {
                let mut i: usize = 0;
                while i < ps.len()
                    invariant
                        0 <= i <= ps@.len(),
                        pkgs_of(*task) == ps@,
                        forall|j: int| 0 <= j < i ==> ps@[j].distri != self.host(),
                    decreases ps@.len() - i,
                {
                    if ps[i].distri == self.distri.distri {
                        proof {
                            lemma_first_match_at(ps@, self.host(), i as int);
                        }
                        let entry = self.pkg_apply(&ps[i]);
                        let msg = String::from_str("package application is not implemented");
                        proof {
                            assert(pkgs_of(*task) == ps@);
                            assert(first_match(pkgs_of(*task), self.host()) == i as int);
                            assert(msg@ == stub_msg());
                            assert(task_pkg_stub(*task, self.host()) == Option::Some(
                                (pkg_stub_entry(joined(pkg_names(ps@[i as int]))), stub_msg()),
                            ));
                        }
                        return Option::Some((entry, msg));
                    }
                    i = i + 1;
                }
                proof {
                    lemma_first_match_at(ps@, self.host(), ps@.len() as int);
                }
                Option::None
            },
        }
    }

    /// The working directory of `task`'s commands.
    fn work_dir(&self, task: &Task) -> (r: String)
        ensures
            r@ == work_dir_of(self.dir(), *task),
    {
        let rel: &String = match &task.path {
            Option::Some(p) => p,
            Option::None => &task.name,
        };
        proof {
            assert(rel@ == rel_of(*task));
        }
        let dn = self.current_dir.as_str().unicode_len();
        let rn = rel.as_str().unicode_len();
        if dn == 0 || (rn > 0 && rel.as_str().get_char(0) == '/') {
            rel.clone()
        } else if self.current_dir.as_str().get_char(dn - 1) == '/' {
            self.current_dir.clone().concat(rel.as_str())
        } else {
            let mut out = self.current_dir.clone();
            out.append("/");
            out.append(rel.as_str());
            out
        }
    }

    /// Compile `task` into a fresh run: its symlink steps, then its command
    /// steps, with the package stub held for the end.
    pub fn exec(&self, task: &Task) -> (r: TaskRun)
        ensures
            r@ == initial_run(
                task_steps(*task, self.dir()),
                task_pkg_stub(*task, self.host()),
            ),
            r@.wf(),
    {
        let mut steps: Vec<Step> = Vec::new();
        if let Option::Some(slinks) = &task.slink {
            let mut i: usize = 0;
            while i < slinks.len()
                invariant
                    0 <= i <= slinks@.len(),
                    steps@.len() == i,
                    links_of(*task) == slinks@,
                    forall|j: int| 0 <= j < i ==> steps@[j]@ == link_steps(*task)[j],
                decreases slinks@.len() - i,
            {
                let src = slinks[i].0.clone();
                let dst = slinks[i].1.clone();
                steps.push(Step::Link { src, dst });
                proof {
                    assert(link_steps(*task)[i as int] == StepV::Link {
                        src: slinks@[i as int].0@,
                        dst: slinks@[i as int].1@,
                    });
                }
                i = i + 1;
            }
        }
        let ghost nlinks = steps@.len();
        proof {
            assert(nlinks == link_steps(*task).len());
        }
        let dir = self.work_dir(task);
        if let Option::Some(cmds) = &task.commands {
            let mut i: usize = 0;
            while i < cmds.len()
                invariant
                    0 <= i <= cmds@.len(),
                    steps@.len() == nlinks + i,
                    nlinks == link_steps(*task).len(),
                    cmds_of(*task) == cmds@,
                    dir@ == work_dir_of(self.dir(), *task),
                    forall|j: int| 0 <= j < nlinks ==> steps@[j]@ == link_steps(*task)[j],
                    forall|j: int|
                        0 <= j < i ==> steps@[nlinks + j]@ == cmd_steps(
                            *task,
                            work_dir_of(self.dir(), *task),
                        )[j],
                decreases cmds@.len() - i,
            {
                let cmd = cmds[i].clone();
                steps.push(Step::Cmd { cmd, dir: dir.clone() });
                proof {
                    let wd = work_dir_of(self.dir(), *task);
                    assert(cmd_steps(*task, wd)[i as int] == StepV::Cmd {
                        cmd: cmds@[i as int]@,
                        dir: wd,
                    });
                }
                i = i + 1;
            }
        }
        proof {
            assert(steps_view(steps@) =~= task_steps(*task, self.dir()));
        }
        let pkg = self.pkg_stub(task);
        TaskRun::make(steps, pkg)
    }
}

/// A package entry whose target distribution differs from the host's is
/// never handed to the package step, whatever the host identity is, the
/// unknown one included: the engine's stub takes the first matching entry
/// or nothing at all.
pub proof fn lemma_nonmatching_package_ignored(t: Task, host: Distri)
    ensures
        (forall|j: int| 0 <= j < pkgs_of(t).len() ==> pkgs_of(t)[j].distri != host)
            ==> task_pkg_stub(t, host) is None,
        task_pkg_stub(t, host) matches Some(pm) ==> {
            let k = first_match(pkgs_of(t), host);
            &&& 0 <= k < pkgs_of(t).len()
            &&& pkgs_of(t)[k].distri == host
            &&& (forall|j: int| 0 <= j < k ==> pkgs_of(t)[j].distri != host)
            &&& pm.0 == pkg_stub_entry(joined(pkg_names(pkgs_of(t)[k])))
        },
{
    lemma_first_match_bounds(pkgs_of(t), host);
    if (forall|j: int| 0 <= j < pkgs_of(t).len() ==> pkgs_of(t)[j].distri != host) {
        lemma_first_match_at(pkgs_of(t), host, pkgs_of(t).len() as int);
    }
}


} // verus!
