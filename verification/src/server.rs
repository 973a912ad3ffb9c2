//! Dispatch over the task list, and runs spanning several tasks.
//!
//! A [`Run`] executes one or more tasks in declared order through the same
//! action/event loop as a single task: it stops at the first task-level
//! failure and returns everything logged through and including the failing
//! task; later tasks contribute nothing.

use vstd::prelude::*;
use vstd::string::StringExecFns;

use crate::config::{task_targets, Cfg, Task};
use crate::distro::Distri;
use crate::exec::{
    drained, event_fits, expected_action, initial_run, task_pkg_stub, task_run_step, task_steps,
    Action, ErrV, Event, EventV, ExecError, Executer, StepV, TaskRun, TaskRunV,
};
use crate::exec::{entry_for, fail_entry_for, log_view};
use crate::log::{EntryV, LogEntry};

verus! {

/// Concatenation of a sequence of logs, in order.
pub open spec fn cat_all(ss: Seq<Seq<EntryV>>) -> Seq<EntryV>
    decreases ss.len(),
{
    if ss.len() == 0 {
        Seq::empty()
    } else {
        cat_all(ss.drop_last()) + ss.last()
    }
}

/// The complete log of a task whose steps all succeeded.
pub open spec fn complete_log_for(lg: Seq<EntryV>, steps: Seq<StepV>) -> bool {
    &&& lg.len() == steps.len()
    &&& forall|i: int|
        0 <= i < lg.len() ==> entry_for(#[trigger] lg[i], steps[i]) && !lg[i].failure
}

/// The partial log of a task that stopped at a failing step: one success
/// entry per completed step, then the failure entry, nothing further.
pub open spec fn failed_log_shape(lg: Seq<EntryV>, r: TaskRunV) -> bool {
    &&& lg.len() == r.pos + 1
    &&& (forall|i: int|
        0 <= i < r.pos ==> entry_for(#[trigger] lg[i], r.steps[i]) && !lg[i].failure)
    &&& lg[r.pos].failure
    &&& (r.pos < r.steps.len() ==> fail_entry_for(lg[r.pos], r.steps[r.pos]))
}

/// Ghost image of a run over several tasks: the per-task engines, the
/// cursor, the merged output so far, and (ghost) what each finished task
/// contributed.
#[verifier::ext_equal]
pub struct RunV {
    pub runs: Seq<TaskRunV>,
    pub idx: int,
    pub outputs: Seq<EntryV>,
    pub done: bool,
    pub error: Option<ErrV>,
    pub contribs: Seq<Seq<EntryV>>,
}

impl RunV {
    /// Well-formedness: the merged output is exactly what the finished
    /// tasks contributed, completed tasks contributed their whole logs,
    /// and a failing run ends at the failing task's partial log.
    pub open spec fn wf(self) -> bool {
        &&& 0 <= self.idx <= self.runs.len()
        &&& self.outputs == cat_all(self.contribs)
        &&& (forall|j: int|
            0 <= j < self.idx ==> complete_log_for(
                #[trigger] self.contribs[j],
                self.runs[j].steps,
            ))
        &&& (!self.done ==> {
            &&& self.idx < self.runs.len()
            &&& self.contribs.len() == self.idx
            &&& self.error is None
            &&& !self.runs[self.idx].done
            &&& (forall|j: int| self.idx <= j < self.runs.len() ==> (#[trigger] self.runs[j]).wf())
        })
        &&& (self.done ==> match self.error {
            Option::None => self.idx == self.runs.len() && self.contribs.len() == self.idx,
            Option::Some(e) => {
                &&& e is IOFailure
                &&& self.idx < self.runs.len()
                &&& self.contribs.len() == self.idx + 1
                &&& failed_log_shape(self.contribs[self.idx], self.runs[self.idx])
            },
        })
    }
}

/// A state from which the run can settle: everything before the cursor is
/// merged, everything from the cursor on is a well-formed task engine.
pub open spec fn pre_settle(m: RunV) -> bool {
    &&& 0 <= m.idx <= m.runs.len()
    &&& !m.done
    &&& m.error is None
    &&& m.contribs.len() == m.idx
    &&& m.outputs == cat_all(m.contribs)
    &&& (forall|j: int|
        0 <= j < m.idx ==> complete_log_for(#[trigger] m.contribs[j], m.runs[j].steps))
    &&& (forall|j: int| m.idx <= j < m.runs.len() ==> (#[trigger] m.runs[j]).wf())
}

/// Settling: merge finished tasks in order until the run finishes (all
/// tasks done, or one failed) or reaches a task awaiting events.
pub open spec fn run_settle(m: RunV) -> RunV
    decreases m.runs.len() - m.idx,
{
    if m.idx < 0 || m.idx >= m.runs.len() {
        RunV { done: true, ..m }
    } else if !m.runs[m.idx].done {
        m
    } else {
        let r = m.runs[m.idx];
        let merged = RunV {
            runs: m.runs.update(m.idx, drained(r)),
            outputs: m.outputs + r.log,
            contribs: m.contribs.push(r.log),
            ..m
        };
        match r.error {
            Option::Some(e) => RunV { done: true, error: Option::Some(e), ..merged },
            Option::None => run_settle(RunV { idx: m.idx + 1, ..merged }),
        }
    }
}

/// A fresh, not yet settled run over the given task engines.
pub open spec fn run_initial(rs: Seq<TaskRunV>) -> RunV {
    RunV {
        runs: rs,
        idx: 0,
        outputs: Seq::empty(),
        done: false,
        error: Option::None,
        contribs: Seq::empty(),
    }
}

/// A fresh run over the given task engines, settled.
pub open spec fn run_of(rs: Seq<TaskRunV>) -> RunV {
    run_settle(run_initial(rs))
}

/// The run's transition: the current task consumes the event, then the run
/// settles.
pub open spec fn run_step_spec(m: RunV, e: EventV) -> RunV {
    run_settle(RunV { runs: m.runs.update(m.idx, task_run_step(m.runs[m.idx], e)), ..m })
}

pub open spec fn runs_view(v: Seq<TaskRun>) -> Seq<TaskRunV> {
    v.map_values(|t: TaskRun| t@)
}

/// One or more tasks mid-execution, driven by the same action/event loop
/// as a single task.
pub struct Run {
    runs: Vec<TaskRun>,
    idx: usize,
    outputs: Vec<LogEntry>,
    done: bool,
    error: Option<ExecError>,
    contribs: Ghost<Seq<Seq<EntryV>>>,
}

impl View for Run {
    type V = RunV;

    closed spec fn view(&self) -> RunV {
        RunV {
            runs: runs_view(self.runs@),
            idx: self.idx as int,
            outputs: log_view(self.outputs@),
            done: self.done,
            error: match self.error {
                Option::Some(e) => Option::Some(e@),
                Option::None => Option::None,
            },
            contribs: self.contribs@,
        }
    }
}

impl Run {
    pub(crate) fn make(runs: Vec<TaskRun>) -> (r: Run)
        requires
            forall|j: int| 0 <= j < runs@.len() ==> (#[trigger] runs@[j])@.wf(),
        ensures
            r@ == run_of(runs_view(runs@)),
            r@.wf(),
    {
        let mut r = Run {
            runs,
            idx: 0,
            outputs: Vec::new(),
            done: false,
            error: Option::None,
            contribs: Ghost(Seq::empty()),
        };
        proof {
            assert(log_view(r.outputs@) =~= Seq::<EntryV>::empty());
            assert(cat_all(Seq::empty()) =~= Seq::<EntryV>::empty());
            assert(r@ =~= run_initial(runs_view(r.runs@)));
        }
        r.settle();
        r
    }

    /// Merge finished tasks in order, stopping at a failure, at a task that
    /// awaits events, or at the end of the task list.
    fn settle(&mut self)
        requires
            pre_settle(old(self)@),
        ensures
            final(self)@ == run_settle(old(self)@),
            final(self)@.wf(),
    {
        loop
            invariant_except_break
                !self@.done,
                pre_settle(self@),
                run_settle(self@) == run_settle(old(self)@),
            ensures
                self@ == run_settle(old(self)@),
                self@.wf(),
            decreases self@.runs.len() - self@.idx,
        {
            if self.idx == self.runs.len() {
                self.done = true;
                proof {
                    assert(self@ =~= run_settle(old(self)@));
                }
                break ;
            }
            if !self.runs[self.idx].done() {
                proof {
                    assert(self@ == run_settle(old(self)@));
                }
                break ;
            }
            let ghost pre = self@;
            let i = self.idx;
            let err = self.runs[i].clone_error();
            let tr = &mut self.runs[i];
            let mut lg = tr.take_log();
            let ghost tlog = pre.runs[pre.idx].log;
            proof {
                assert(runs_view(self.runs@) =~= pre.runs.update(pre.idx, drained(
                    pre.runs[pre.idx],
                )));
                assert(log_view(lg@) == tlog);
            }
            self.outputs.append(&mut lg);
            proof {
                self.contribs@ = self.contribs@.push(tlog);
            }
            proof {
                assert(log_view(self.outputs@) =~= pre.outputs + tlog);
                assert(cat_all(self.contribs@.drop_last()) =~= cat_all(pre.contribs)) by {
                    assert(self.contribs@.drop_last() =~= pre.contribs);
                }
            }
            match err {
                Option::Some(e) => {
                    self.error = Option::Some(e);
                    self.done = true;
                    proof {
                        assert(self@ =~= run_settle(pre));
                        assert(self@.wf());
                    }
                    break ;
                },
                Option::None => {
                    self.idx = self.idx + 1;
                    proof {
                        let merged = self@;
                        assert(run_settle(pre) == run_settle(merged));
                        assert(pre_settle(merged));
                    }
                },
            }
        }
    }

    /// Whether the run has reached its terminal state.
    pub fn done(&self) -> (r: bool)
        ensures
            r == self@.done,
    {
        self.done
    }

    /// The action to perform next, for the task at the cursor.
    pub fn next_action(&self) -> (r: Action)
        requires
            !self@.done,
            self@.wf(),
        ensures
            r@ == expected_action(self@.runs[self@.idx]),
    {
        self.runs[self.idx].next_action()
    }

    /// Consume the outcome of the expected action: the current task steps,
    /// then finished tasks are merged in order.
    pub fn step(&mut self, e: Event)
        requires
            old(self)@.wf(),
            !old(self)@.done,
            event_fits(old(self)@.runs[old(self)@.idx], e@),
        ensures
            final(self)@ == run_step_spec(old(self)@, e@),
            final(self)@.wf(),
    {
        let i = self.idx;
        let tr = &mut self.runs[i];
        tr.step(e);
        proof {
            assert(runs_view(self.runs@) =~= old(self)@.runs.update(
                old(self)@.idx,
                task_run_step(old(self)@.runs[old(self)@.idx], e@),
            ));
            assert(self@ =~= RunV {
                runs: old(self)@.runs.update(
                    old(self)@.idx,
                    task_run_step(old(self)@.runs[old(self)@.idx], e@),
                ),
                ..old(self)@
            });
        }
        self.settle();
    }

    /// The merged log and the outcome of a finished run.
    pub fn take_result(self) -> (r: (Vec<LogEntry>, Result<(), ExecError>))
        requires
            self@.done,
        ensures
            log_view(r.0@) == self@.outputs,
            match r.1 {
                Result::Ok(()) => self@.error is None,
                Result::Err(e) => self@.error == Option::Some(e@),
            },
    {
        let Run { outputs, error, .. } = self;
        match error {
            Option::None => (outputs, Result::Ok(())),
            Option::Some(e) => (outputs, Result::Err(e)),
        }
    }
}

/// When a run over several tasks stops at a failing task, the merged log is
/// exactly the concatenation of the complete logs of the tasks before it
/// and the failing task's partial log; tasks after the failing one
/// contribute nothing.
pub proof fn lemma_all_stops_at_first_failure(m: RunV)
    requires
        m.wf(),
        m.done,
        m.error is Some,
    ensures
        m.idx < m.runs.len(),
        m.contribs.len() == m.idx + 1,
        m.outputs == cat_all(m.contribs),
        forall|j: int|
            0 <= j < m.idx ==> complete_log_for(#[trigger] m.contribs[j], m.runs[j].steps),
        failed_log_shape(m.contribs[m.idx], m.runs[m.idx]),
{
}

/// The engine state a task starts from.
pub open spec fn task_run_of(t: Task, dir: Seq<char>, host: Distri) -> TaskRunV {
    initial_run(task_steps(t, dir), task_pkg_stub(t, host))
}

/// The engine states of a whole task list.
pub open spec fn runs_of(tasks: Seq<Task>, dir: Seq<char>, host: Distri) -> Seq<TaskRunV> {
    tasks.map_values(|t: Task| task_run_of(t, dir, host))
}

/// Index of the first task named `name`, or `tasks.len()` if none is.
pub open spec fn find_task(tasks: Seq<Task>, name: Seq<char>) -> int
    decreases tasks.len(),
{
    if tasks.len() == 0 {
        0
    } else if tasks[0].name@ == name {
        0
    } else {
        1 + find_task(tasks.drop_first(), name)
    }
}

/// Characterizes `find_task` by its defining property.
proof fn lemma_find_task_at(tasks: Seq<Task>, name: Seq<char>, i: int)
    requires
        0 <= i <= tasks.len(),
        forall|j: int| 0 <= j < i ==> tasks[j].name@ != name,
        i < tasks.len() ==> tasks[i].name@ == name,
    ensures
        find_task(tasks, name) == i,
    decreases i,
{
    if tasks.len() != 0 && i > 0 {
        assert(tasks[0].name@ != name);
        assert(forall|j: int|
            0 <= j < i - 1 ==> tasks.drop_first()[j] == tasks[j + 1] && tasks[j + 1].name@
                != name);
        lemma_find_task_at(tasks.drop_first(), name, i - 1);
    }
}

/// Dispatches execution over the configuration's task list.
#[derive(Debug)]
pub struct Server {
    pub cfg: Cfg,
    pub runner: Executer,
}

impl Server {
    /// The host distribution the server was built with.
    pub closed spec fn host(&self) -> Distri {
        self.runner.host()
    }

    /// The provisioning root working directories are resolved against.
    pub closed spec fn dir(&self) -> Seq<char> {
        self.runner.dir()
    }

    pub fn new(distri: Distri, cfg: Cfg, current_dir: String) -> (r: Self)
        ensures
            r.cfg == cfg,
            r.host() == distri,
            r.dir() == current_dir@,
    {
        Server { cfg, runner: Executer::new(distri, current_dir) }
    }

    /// Start a run of the unique task named `name`; `NotFound` if none is.
    pub fn exec(&self, name: &str) -> (r: Result<Run, ExecError>)
        ensures
            ({
                let k = find_task(self.cfg.tasks@, name@);
                match r {
                    Result::Ok(run) => k < self.cfg.tasks@.len() && run@ == run_of(
                        seq![task_run_of(self.cfg.tasks@[k], self.dir(), self.host())],
                    ) && run@.wf(),
                    Result::Err(e) => k == self.cfg.tasks@.len() && e@ == ErrV::NotFound,
                }
            }),
    {
        let name_s = String::from_str(name);
        let n = self.cfg.tasks.len();
        let mut i: usize = 0;
        while i < n
            invariant
                0 <= i <= n,
                n == self.cfg.tasks@.len(),
                name_s@ == name@,
                forall|j: int| 0 <= j < i ==> self.cfg.tasks@[j].name@ != name@,
            decreases n - i,
        {
            if self.cfg.tasks[i].name == name_s {
                proof {
                    lemma_find_task_at(self.cfg.tasks@, name@, i as int);
                }
                return Result::Ok(self.start_one(i));
            }
            i = i + 1;
        }
        proof {
            lemma_find_task_at(self.cfg.tasks@, name@, n as int);
        }
        Result::Err(ExecError::NotFound)
    }

    /// Start a run of the task at `index`; `NotFound` when `index` is out
    /// of range, with nothing logged.
    pub fn exec_by_index(&self, index: usize) -> (r: Result<Run, ExecError>)
        ensures
            index < self.cfg.tasks@.len() ==> (r matches Result::Ok(run) && run@ == run_of(
                seq![task_run_of(self.cfg.tasks@[index as int], self.dir(), self.host())],
            ) && run@.wf()),
            index >= self.cfg.tasks@.len() ==> (r matches Result::Err(e) && e@
                == ErrV::NotFound),
    {
        if index >= self.cfg.tasks.len() {
            Result::Err(ExecError::NotFound)
        } else {
            Result::Ok(self.start_one(index))
        }
    }

    /// Start a run of every task, in declared order.
    pub fn exec_all(&self) -> (r: Run)
        ensures
            r@ == run_of(runs_of(self.cfg.tasks@, self.dir(), self.host())),
            r@.wf(),
    {
        let n = self.cfg.tasks.len();
        let mut v: Vec<TaskRun> = Vec::new();
        let mut i: usize = 0;
        while i < n
            invariant
                0 <= i <= n,
                n == self.cfg.tasks@.len(),
                v@.len() == i,
                forall|j: int|
                    0 <= j < i ==> (#[trigger] v@[j])@ == task_run_of(
                        self.cfg.tasks@[j],
                        self.dir(),
                        self.host(),
                    ) && v@[j]@.wf(),
            decreases n - i,
        {
            v.push(self.runner.exec(&self.cfg.tasks[i]));
            i = i + 1;
        }
        proof {
            assert(runs_view(v@) =~= runs_of(self.cfg.tasks@, self.dir(), self.host()));
        }
        Run::make(v)
    }

    /// Run over the single task at `index` (in range).
    fn start_one(&self, index: usize) -> (r: Run)
        requires
            index < self.cfg.tasks@.len(),
        ensures
            r@ == run_of(seq![task_run_of(self.cfg.tasks@[index as int], self.dir(), self.host())]),
            r@.wf(),
    {
        let tr = self.runner.exec(&self.cfg.tasks[index]);
        let mut v: Vec<TaskRun> = Vec::new();
        v.push(tr);
        proof {
            assert(runs_view(v@) =~= seq![
                task_run_of(self.cfg.tasks@[index as int], self.dir(), self.host()),
            ]);
        }
        Run::make(v)
    }
}

/// Gathers what a server needs: the host identity and the provisioning
/// root. Detection of both happens outside; they reach the builder as
/// plain data.
#[derive(Debug)]
pub struct ServerBuilder {
    pub distri: Distri,
    pub current_dir: String,
}

impl ServerBuilder {
    /// The provisioning root set so far.
    pub open spec fn cur_dir(&self) -> Seq<char> {
        self.current_dir@
    }

    pub fn new() -> (r: Self)
        ensures
            r.distri == Distri::Unknown,
            r.cur_dir() == Seq::<char>::empty(),
    {
        let r = ServerBuilder { distri: Distri::Unknown, current_dir: String::new() };
        r
    }

    pub fn current_dir(self, current_dir: String) -> (r: Self)
        ensures
            r.distri == self.distri,
            r.cur_dir() == current_dir@,
    {
        ServerBuilder { current_dir, ..self }
    }

    /// Whether any task of `cfg` has a package entry targeting the builder's
    /// distribution, so that applying packages would need root credentials.
    pub fn needs_root(&self, cfg: &Cfg) -> (r: bool)
        ensures
            r == exists|i: int|
                0 <= i < cfg.tasks@.len() && task_targets(#[trigger] cfg.tasks@[i], self.distri),
    {
        let n = cfg.tasks.len();
        let mut i: usize = 0;
        while i < n
            invariant
                0 <= i <= n,
                n == cfg.tasks@.len(),
                forall|j: int| 0 <= j < i ==> !task_targets(#[trigger] cfg.tasks@[j], self.distri),
            decreases n - i,
        {
            if task_needs(&cfg.tasks[i], self.distri) {
                proof {
                    assert(task_targets(cfg.tasks@[i as int], self.distri));
                }
                return true;
            }
            i = i + 1;
        }
        false
    }

    pub fn build(self, cfg: Cfg) -> (r: Server)
        ensures
            r.cfg == cfg,
            r.host() == self.distri,
            r.dir() == self.cur_dir(),
    {
        let ServerBuilder { distri, current_dir } = self;
        Server::new(distri, cfg, current_dir)
    }
}

/// Whether task `t` has a package entry targeting `d`.
fn task_needs(t: &Task, d: Distri) -> (r: bool)
    ensures
        r == task_targets(*t, d),
{
    match &t.pkg {
        Option::None => false,
        Option::Some(ps) => {
            let n = ps.len();
            let mut i: usize = 0;
            while i < n
                invariant
                    0 <= i <= n,
                    n == ps@.len(),
                    t.pkg matches Option::Some(v) && v@ == ps@,
                    forall|j: int| 0 <= j < i ==> ps@[j].distri != d,
                decreases n - i,
            {
                if ps[i].distri == d {
                    return true;
                }
                i = i + 1;
            }
            false
        },
    }
}

} // verus!
