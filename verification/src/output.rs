//! Buffered output of commands run in several projects at once: the status
//! of each project's job and the summary of all of them.
use vstd::prelude::*;
use vstd::string::*;
use vstd::pervasive::VecAdditionalExecFns;
use std::time::Duration;
use std::time::Instant;

use crate::text;

verus! {

/// The monotonic clock's instants, carried through opaquely.
#[verifier::external_type_specification]
#[verifier::external_body]
pub struct ExInstant(Instant);

/// Reads the monotonic clock (wraps `Instant::now`); nothing is stated of the
/// reading, which depends on the time.
#[verifier::external_body]
fn instant_now() -> Instant {
    Instant::now()
}

/// The time passed since `start` (wraps `Instant::elapsed`); nothing is stated
/// of it, as it depends on the time.
#[verifier::external_body]
fn elapsed_since(start: &Instant) -> Duration {
    start.elapsed()
}

/// The state of one project's job.
#[derive(Debug, Clone, Copy, PartialEq, Eq, Structural)]
pub enum JobStatus {
    Pending,
    Running,
    Completed,
    Failed,
}

/// What one project's job produced.
#[derive(Debug)]
pub struct ProjectOutput {
    pub name: String,
    pub stdout: Vec<u8>,
    pub stderr: Vec<u8>,
    pub exit_code: Option<i32>,
    pub duration: Option<Duration>,
    pub status: JobStatus,
    pub start_time: Option<Instant>,
    pub command: Option<String>,
}

/// The mathematical value of a [`ProjectOutput`].
pub struct ProjectOutputView {
    pub name: Seq<char>,
    pub stdout: Seq<u8>,
    pub stderr: Seq<u8>,
    pub exit_code: Option<i32>,
    pub duration: Option<Duration>,
    pub status: JobStatus,
    pub start_time: Option<Instant>,
    pub command: Option<Seq<char>>,
}

impl View for ProjectOutput {
    type V = ProjectOutputView;

    open spec fn view(&self) -> ProjectOutputView {
        ProjectOutputView {
            name: self.name@,
            stdout: self.stdout@,
            stderr: self.stderr@,
            exit_code: self.exit_code,
            duration: self.duration,
            status: self.status,
            start_time: self.start_time,
            command: match self.command {
                Some(c) => Some(c@),
                None => None,
            },
        }
    }
}

/// A pending job of the named project, with nothing produced yet.
pub open spec fn fresh_output(name: Seq<char>) -> ProjectOutputView {
    ProjectOutputView {
        name,
        stdout: Seq::empty(),
        stderr: Seq::empty(),
        exit_code: None,
        duration: None,
        status: JobStatus::Pending,
        start_time: None,
        command: None,
    }
}

/// `n` is `o` once started: running, with a start time, the rest unchanged.
pub open spec fn started_from(n: ProjectOutputView, o: ProjectOutputView) -> bool {
    &&& n.status == JobStatus::Running
    &&& n.start_time is Some
    &&& n == ProjectOutputView { status: JobStatus::Running, start_time: n.start_time, ..o }
}

/// `n` is `o` once finished with the given exit code and output: completed
/// for exit code 0 and failed otherwise; it gets a duration exactly when it
/// had a start time.
pub open spec fn completed_from(
    n: ProjectOutputView,
    o: ProjectOutputView,
    exit_code: i32,
    stdout: Seq<u8>,
    stderr: Seq<u8>,
) -> bool {
    &&& n.status == (if exit_code == 0 {
        JobStatus::Completed
    } else {
        JobStatus::Failed
    })
    &&& (n.duration is Some <==> (o.start_time is Some || o.duration is Some))
    &&& (o.start_time is None ==> n.duration == o.duration)
    &&& n == ProjectOutputView {
        exit_code: Some(exit_code),
        stdout,
        stderr,
        status: n.status,
        duration: n.duration,
        ..o
    }
}

/// A copy of a byte vector.
fn copy_bytes(v: &Vec<u8>) -> (r: Vec<u8>)
    ensures
        r@ == v@,
{
    let mut r: Vec<u8> = Vec::new();
    let mut i: usize = 0;
    while i < v.len()
        invariant
            i <= v.len(),
            r@ == v@.take(i as int),
        decreases v.len() - i,
    {
        r.push(v[i]);
        assert(v@.take(i as int).push(v@[i as int]) =~= v@.take(i + 1));
        i += 1;
    }
    assert(v@.take(v.len() as int) =~= v@);
    r
}

impl ProjectOutput {
    /// A pending job of the named project.
    pub fn new(name: String) -> (r: Self)
        ensures
            r@ == fresh_output(name@),
    {
        ProjectOutput {
            name,
            stdout: Vec::new(),
            stderr: Vec::new(),
            exit_code: None,
            duration: None,
            status: JobStatus::Pending,
            start_time: None,
            command: None,
        }
    }

    /// Marks the job as running, from now.
    pub fn start(&mut self)
        ensures
            started_from(final(self)@, old(self)@),
    {
        self.status = JobStatus::Running;
        self.start_time = Some(instant_now());
    }

    /// Records the job's end: exit code and output, status completed for exit
    /// code 0 and failed otherwise, and the time since it started.
    pub fn complete(&mut self, exit_code: i32, stdout: Vec<u8>, stderr: Vec<u8>)
        ensures
            completed_from(final(self)@, old(self)@, exit_code, stdout@, stderr@),
    {
        if let Some(start_time) = &self.start_time {
            self.duration = Some(elapsed_since(start_time));
        }
        self.exit_code = Some(exit_code);
        self.stdout = stdout;
        self.stderr = stderr;
        self.status = if exit_code == 0 {
            JobStatus::Completed
        } else {
            JobStatus::Failed
        };
    }

    /// A copy with the same value.
    pub fn duplicate(&self) -> (r: Self)
        ensures
            r@ == self@,
    {
        ProjectOutput {
            name: self.name.clone(),
            stdout: copy_bytes(&self.stdout),
            stderr: copy_bytes(&self.stderr),
            exit_code: self.exit_code,
            duration: self.duration,
            status: self.status,
            start_time: self.start_time,
            command: match &self.command {
                Some(c) => Some(c.clone()),
                None => None,
            },
        }
    }
}

/// The views of a sequence of outputs.
pub open spec fn outputs_view(v: Seq<ProjectOutput>) -> Seq<ProjectOutputView> {
    v.map_values(|o: ProjectOutput| o@)
}

/// The project names of a sequence of outputs.
pub open spec fn names_of(v: Seq<ProjectOutputView>) -> Seq<Seq<char>> {
    v.map_values(|o: ProjectOutputView| o.name)
}

/// The first occurrence of each name of `names`, in order.
pub open spec fn distinct_names(names: Seq<Seq<char>>) -> Seq<Seq<char>>
    decreases names.len(),
{
    if names.len() == 0 {
        Seq::empty()
    } else {
        let d = distinct_names(names.drop_last());
        if d.contains(names.last()) {
            d
        } else {
            d.push(names.last())
        }
    }
}

/// How many outputs have the given status.
pub open spec fn count_status(v: Seq<ProjectOutputView>, s: JobStatus) -> nat
    decreases v.len(),
{
    if v.len() == 0 {
        0
    } else {
        count_status(v.drop_last(), s) + (if v.last().status == s {
            1nat
        } else {
            0nat
        })
    }
}

/// The output recorded for `name`, if any.
pub open spec fn lookup(v: Seq<ProjectOutputView>, name: Seq<char>) -> Option<ProjectOutputView> {
    if exists|i: int| 0 <= i < v.len() && v[i].name == name {
        Some(v[choose|i: int| 0 <= i < v.len() && v[i].name == name])
    } else {
        None
    }
}

/// How many names of `order` ended completed.
pub open spec fn successes(v: Seq<ProjectOutputView>, order: Seq<Seq<char>>) -> nat
    decreases order.len(),
{
    if order.len() == 0 {
        0
    } else {
        successes(v, order.drop_last()) + (if lookup(v, order.last()) matches Some(o)
            && o.status == JobStatus::Completed {
            1nat
        } else {
            0nat
        })
    }
}

/// The names of `order` that ended failed, in order.
pub open spec fn failures(v: Seq<ProjectOutputView>, order: Seq<Seq<char>>) -> Seq<Seq<char>>
    decreases order.len(),
{
    if order.len() == 0 {
        Seq::empty()
    } else {
        let f = failures(v, order.drop_last());
        if lookup(v, order.last()) matches Some(o) && o.status == JobStatus::Failed {
            f.push(order.last())
        } else {
            f
        }
    }
}

/// Collects the jobs of several projects.
pub struct OutputManager {
    outputs: Vec<ProjectOutput>,
    project_order: Vec<String>,
    total_projects: usize,
    start_time: Instant,
}

/// The mathematical value of an [`OutputManager`]: one output per distinct
/// project name, in the order the names first appear, and the names as given.
pub struct OutputManagerView {
    pub outputs: Seq<ProjectOutputView>,
    pub order: Seq<Seq<char>>,
    pub total: int,
}

impl View for OutputManager {
    type V = OutputManagerView;

    closed spec fn view(&self) -> OutputManagerView {
        OutputManagerView {
            outputs: outputs_view(self.outputs@),
            order: text::strings_view(self.project_order@),
            total: self.total_projects as int,
        }
    }
}

/// A manager's state as it is kept: one output for each distinct name
/// given, in the order the names first appear, and the count of the names
/// given.
pub open spec fn manager_wf(v: OutputManagerView) -> bool {
    &&& names_of(v.outputs) == distinct_names(v.order)
    &&& v.total == v.order.len()
}

impl OutputManager {
    /// Each project has one output, whatever the mutations.
    #[verifier::type_invariant]
    spec fn names_distinct(self) -> bool {
        names_of(outputs_view(self.outputs@)).no_duplicates()
    }

    /// The index of the output of `name`.
    fn position(&self, name: &str) -> (r: Option<usize>)
        ensures
            match r {
                Some(i) => i < self@.outputs.len() && self@.outputs[i as int].name == name@,
                None => forall|j: int| 0 <= j < self@.outputs.len() ==> self@.outputs[j].name != name@,
            },
    {
        let n = String::from_str(name);
        let mut i: usize = 0;
        while i < self.outputs.len()
            invariant
                i <= self.outputs.len(),
                n@ == name@,
                forall|j: int| 0 <= j < i ==> self@.outputs[j].name != name@,
            decreases self.outputs.len() - i,
        {
            if self.outputs[i].name == n {
                return Some(i);
            }
            i += 1;
        }
        None
    }

    /// A manager for the given projects, all pending.
    pub fn new(project_names: Vec<String>) -> (r: Self)
        ensures
            r@.order == text::strings_view(project_names@),
            r@.total == project_names@.len(),
            names_of(r@.outputs) == distinct_names(text::strings_view(project_names@)),
            forall|i: int| 0 <= i < r@.outputs.len() ==> r@.outputs[i] == fresh_output(r@.outputs[i].name),
            manager_wf(r@),
    {
        let ghost names = text::strings_view(project_names@);
        let mut outputs: Vec<ProjectOutput> = Vec::new();
        let mut k: usize = 0;
        while k < project_names.len()
            invariant
                k <= project_names.len(),
                names == text::strings_view(project_names@),
                names_of(outputs_view(outputs@)) == distinct_names(names.take(k as int)),
                names_of(outputs_view(outputs@)).no_duplicates(),
                forall|i: int|
                    0 <= i < outputs@.len() ==> outputs@[i]@ == fresh_output(outputs@[i]@.name),
            decreases project_names.len() - k,
        {
            let ghost before = outputs@;
            assert(names.take(k + 1).drop_last() =~= names.take(k as int));
            assert(names.take(k + 1).last() == project_names@[k as int]@);
            let mut present = false;
            let mut j: usize = 0;
            while j < outputs.len()
                invariant
                    j <= outputs.len(),
                    k < project_names.len(),
                    outputs@ == before,
                    present == (exists|m: int| 0 <= m < j && outputs@[m]@.name == project_names@[k as int]@),
                decreases outputs.len() - j,
            {
                if outputs[j].name == project_names[k] {
                    present = true;
                }
                j += 1;
            }
            assert(present == names_of(outputs_view(before)).contains(project_names@[k as int]@)) by {
                if present {
                    let m = choose|m: int| 0 <= m < j && outputs@[m]@.name == project_names@[k as int]@;
                    assert(names_of(outputs_view(before))[m] == project_names@[k as int]@);
                }
                if names_of(outputs_view(before)).contains(project_names@[k as int]@) {
                    let m = choose|m: int| 0 <= m < names_of(outputs_view(before)).len() && names_of(outputs_view(before))[m] == project_names@[k as int]@;
                    assert(outputs@[m]@.name == project_names@[k as int]@);
                }
            }
            if !present {
                let o = ProjectOutput::new(project_names[k].clone());
                outputs.push(o);
                assert(names_of(outputs_view(outputs@)) =~= names_of(outputs_view(before)).push(
                    project_names@[k as int]@,
                ));
            }
            k += 1;
        }
        assert(names.take(project_names.len() as int) =~= names);
        let total = project_names.len();
        OutputManager {
            outputs,
            project_order: project_names,
            total_projects: total,
            start_time: instant_now(),
        }
    }

    /// The number of projects the manager was given.
    pub fn total_projects(&self) -> (r: usize)
        ensures
            r == self@.total,
    {
        self.total_projects
    }

    /// The time since the manager was made.
    pub fn elapsed(&self) -> Duration {
        elapsed_since(&self.start_time)
    }

    /// The project names in the order given.
    pub fn project_order(&self) -> (r: &Vec<String>)
        ensures
            text::strings_view(r@) == self@.order,
    {
        &self.project_order
    }

    /// A copy of the output of the named project.
    pub fn get_project_output(&self, name: &str) -> (r: Option<ProjectOutput>)
        ensures
            match r {
                Some(o) => exists|i: int| 0 <= i < self@.outputs.len() && self@.outputs[i].name == name@ && o@ == self@.outputs[i],
                None => forall|j: int| 0 <= j < self@.outputs.len() ==> self@.outputs[j].name != name@,
            },
    {
        match self.position(name) {
            Some(i) => Some(self.outputs[i].duplicate()),
            None => None,
        }
    }

    /// Marks the named project's job as running.
    pub fn start_project(&mut self, name: &str)
        ensures
            final(self)@.order == old(self)@.order,
            final(self)@.total == old(self)@.total,
            names_of(final(self)@.outputs) == names_of(old(self)@.outputs),
            manager_wf(old(self)@) ==> manager_wf(final(self)@),
            final(self)@.outputs.len() == old(self)@.outputs.len(),
            forall|j: int|
                0 <= j < old(self)@.outputs.len() ==> if old(self)@.outputs[j].name == name@ {
                    started_from(final(self)@.outputs[j], old(self)@.outputs[j])
                } else {
                    final(self)@.outputs[j] == old(self)@.outputs[j]
                },
    {
        proof {
            use_type_invariant(&*self);
        }
        if let Some(i) = self.position(name) {
            let mut o = self.outputs[i].duplicate();
            o.start();
            let ghost before = self.outputs@;
            let mut outs: Vec<ProjectOutput> = Vec::new();
            std::mem::swap(&mut outs, &mut self.outputs);
            outs.set(i, o);
            proof {
                assert forall|j: int| 0 <= j < before.len() && j != i implies before[j]@.name != name@ by {
                    assert(names_of(outputs_view(before))[j] != names_of(outputs_view(before))[i as int]);
                }
                assert(names_of(outputs_view(outs@)) =~= names_of(outputs_view(before)));
            }
            self.outputs = outs;
        }
    }

    /// Records the command the named project's job ran.
    pub fn set_project_command(&mut self, name: &str, command: String)
        ensures
            final(self)@.order == old(self)@.order,
            final(self)@.total == old(self)@.total,
            names_of(final(self)@.outputs) == names_of(old(self)@.outputs),
            manager_wf(old(self)@) ==> manager_wf(final(self)@),
            final(self)@.outputs.len() == old(self)@.outputs.len(),
            forall|j: int|
                0 <= j < old(self)@.outputs.len() ==> if old(self)@.outputs[j].name == name@ {
                    final(self)@.outputs[j] == (ProjectOutputView {
                        command: Some(command@),
                        ..old(self)@.outputs[j]
                    })
                } else {
                    final(self)@.outputs[j] == old(self)@.outputs[j]
                },
    {
        proof {
            use_type_invariant(&*self);
        }
        if let Some(i) = self.position(name) {
            let mut o = self.outputs[i].duplicate();
            o.command = Some(command);
            let ghost before = self.outputs@;
            let mut outs: Vec<ProjectOutput> = Vec::new();
            std::mem::swap(&mut outs, &mut self.outputs);
            outs.set(i, o);
            proof {
                assert forall|j: int| 0 <= j < before.len() && j != i implies before[j]@.name != name@ by {
                    assert(names_of(outputs_view(before))[j] != names_of(outputs_view(before))[i as int]);
                }
                assert(names_of(outputs_view(outs@)) =~= names_of(outputs_view(before)));
            }
            self.outputs = outs;
        }
    }

    /// Records the end of the named project's job.
    pub fn complete_project(&mut self, name: &str, exit_code: i32, stdout: Vec<u8>, stderr: Vec<u8>)
        ensures
            final(self)@.order == old(self)@.order,
            final(self)@.total == old(self)@.total,
            names_of(final(self)@.outputs) == names_of(old(self)@.outputs),
            manager_wf(old(self)@) ==> manager_wf(final(self)@),
            final(self)@.outputs.len() == old(self)@.outputs.len(),
            forall|j: int|
                0 <= j < old(self)@.outputs.len() ==> if old(self)@.outputs[j].name == name@ {
                    completed_from(final(self)@.outputs[j], old(self)@.outputs[j], exit_code, stdout@, stderr@)
                } else {
                    final(self)@.outputs[j] == old(self)@.outputs[j]
                },
    {
        proof {
            use_type_invariant(&*self);
        }
        if let Some(i) = self.position(name) {
            let mut o = self.outputs[i].duplicate();
            o.complete(exit_code, stdout, stderr);
            let ghost before = self.outputs@;
            let mut outs: Vec<ProjectOutput> = Vec::new();
            std::mem::swap(&mut outs, &mut self.outputs);
            outs.set(i, o);
            proof {
                assert forall|j: int| 0 <= j < before.len() && j != i implies before[j]@.name != name@ by {
                    assert(names_of(outputs_view(before))[j] != names_of(outputs_view(before))[i as int]);
                }
                assert(names_of(outputs_view(outs@)) =~= names_of(outputs_view(before)));
            }
            self.outputs = outs;
        }
    }

    /// `(finished, running, failed)`: how many jobs have ended (completed or
    /// failed), how many are running and how many have failed.
    pub fn get_status_summary(&self) -> (r: (usize, usize, usize))
        ensures
            r.0 == count_status(self@.outputs, JobStatus::Completed) + count_status(
                self@.outputs,
                JobStatus::Failed,
            ),
            r.1 == count_status(self@.outputs, JobStatus::Running),
            r.2 == count_status(self@.outputs, JobStatus::Failed),
    {
        let ghost v = self@.outputs;
        let mut completed: usize = 0;
        let mut running: usize = 0;
        let mut failed: usize = 0;
        let mut i: usize = 0;
        while i < self.outputs.len()
            invariant
                i <= self.outputs.len(),
                v == self@.outputs,
                completed == count_status(v.take(i as int), JobStatus::Completed),
                running == count_status(v.take(i as int), JobStatus::Running),
                failed == count_status(v.take(i as int), JobStatus::Failed),
                completed + running + failed <= i,
            decreases self.outputs.len() - i,
        {
            assert(v.take(i + 1).drop_last() =~= v.take(i as int));
            assert(v.take(i + 1).last() == self.outputs@[i as int]@);
            match self.outputs[i].status {
                JobStatus::Completed => completed += 1,
                JobStatus::Running => running += 1,
                JobStatus::Failed => failed += 1,
                JobStatus::Pending => {},
            }
            i += 1;
        }
        assert(v.take(self.outputs.len() as int) =~= v);
        (completed + failed, running, failed)
    }

    /// Whether every job has ended, completed or failed.
    pub fn all_completed(&self) -> (r: bool)
        ensures
            r == forall|i: int|
                0 <= i < self@.outputs.len() ==> (self@.outputs[i].status == JobStatus::Completed
                    || self@.outputs[i].status == JobStatus::Failed),
    {
        let mut i: usize = 0;
        while i < self.outputs.len()
            invariant
                i <= self.outputs.len(),
                forall|k: int|
                    0 <= k < i ==> (self@.outputs[k].status == JobStatus::Completed
                        || self@.outputs[k].status == JobStatus::Failed),
            decreases self.outputs.len() - i,
        {
            match self.outputs[i].status {
                JobStatus::Completed => {},
                JobStatus::Failed => {},
                _ => {
                    assert(self@.outputs[i as int] == self.outputs@[i as int]@);
                    return false;
                },
            }
            i += 1;
        }
        true
    }

    /// The final tally in the order the projects were given: how many
    /// completed, and the names of those that failed.
    pub fn final_tally(&self) -> (r: (usize, Vec<String>))
        ensures
            r.0 == successes(self@.outputs, self@.order),
            text::strings_view(r.1@) == failures(self@.outputs, self@.order),
    {
        proof {
            use_type_invariant(self);
        }
        let ghost v = self@.outputs;
        let ghost order = self@.order;
        let mut ok: usize = 0;
        let mut failed: Vec<String> = Vec::new();
        let mut k: usize = 0;
        while k < self.project_order.len()
            invariant
                k <= self.project_order.len(),
                v == self@.outputs,
                order == self@.order,
                names_of(v).no_duplicates(),
                ok == successes(v, order.take(k as int)),
                ok <= k,
                text::strings_view(failed@) == failures(v, order.take(k as int)),
            decreases self.project_order.len() - k,
        {
            assert(order.take(k + 1).drop_last() =~= order.take(k as int));
            assert(order.take(k + 1).last() == self.project_order@[k as int]@);
            let name = &self.project_order[k];
            let pos = self.position(name.as_str());
            match pos {
                Some(i) => {
                    assert(lookup(v, name@) == Some(v[i as int])) by {
                        let c = choose|c: int| 0 <= c < v.len() && v[c].name == name@;
                        if c != i {
                            assert(names_of(v)[c] == names_of(v)[i as int]);
                        }
                    }
                    match self.outputs[i].status {
                        JobStatus::Completed => {
                            ok += 1;
                        },
                        JobStatus::Failed => {
                            let ghost before = failed@;
                            let nm = name.clone();
                            failed.push(nm);
                            proof {
                                text::lemma_strings_view_push(before, nm);
                            }
                        },
                        _ => {},
                    }
                },
                None => {
                    assert(lookup(v, name@) is None);
                },
            }
            k += 1;
        }
        assert(order.take(self.project_order.len() as int) =~= order);
        (ok, failed)
    }
}

/// The summary never counts more failed jobs than finished ones, nor more
/// finished and running jobs than there are projects.
pub proof fn law_summary_bounds(v: Seq<ProjectOutputView>)
    ensures
        count_status(v, JobStatus::Failed) <= count_status(v, JobStatus::Completed) + count_status(
            v,
            JobStatus::Failed,
        ),
        count_status(v, JobStatus::Completed) + count_status(v, JobStatus::Failed) + count_status(
            v,
            JobStatus::Running,
        ) <= v.len(),
    decreases v.len(),
{
    if v.len() > 0 {
        law_summary_bounds(v.drop_last());
    }
}

/// Counting a status after one job changes: the count moves by the change at
/// that position only.
proof fn lemma_count_update(v: Seq<ProjectOutputView>, i: int, x: ProjectOutputView, s: JobStatus)
    requires
        0 <= i < v.len(),
    ensures
        count_status(v.update(i, x), s) + (if v[i].status == s {
            1int
        } else {
            0int
        }) == count_status(v, s) + (if x.status == s {
            1int
        } else {
            0int
        }),
    decreases v.len(),
{
    if i == v.len() - 1 {
        assert(v.update(i, x).drop_last() =~= v.drop_last());
    } else {
        assert(v.update(i, x).drop_last() =~= v.drop_last().update(i, x));
        lemma_count_update(v.drop_last(), i, x, s);
    }
}

/// Completing a running job moves it from the running count to the finished
/// count: finished grows by one and running shrinks by one.
pub proof fn law_completing_running_job(
    v: Seq<ProjectOutputView>,
    i: int,
    n: ProjectOutputView,
    exit_code: i32,
    stdout: Seq<u8>,
    stderr: Seq<u8>,
)
    requires
        0 <= i < v.len(),
        v[i].status == JobStatus::Running,
        completed_from(n, v[i], exit_code, stdout, stderr),
    ensures
        count_status(v.update(i, n), JobStatus::Completed) + count_status(
            v.update(i, n),
            JobStatus::Failed,
        ) == count_status(v, JobStatus::Completed) + count_status(v, JobStatus::Failed) + 1,
        count_status(v.update(i, n), JobStatus::Running) + 1 == count_status(v, JobStatus::Running),
{
    lemma_count_update(v, i, n, JobStatus::Completed);
    lemma_count_update(v, i, n, JobStatus::Failed);
    lemma_count_update(v, i, n, JobStatus::Running);
}


/// A name is among the distinct names exactly when it is among the names,
/// and there are no more distinct names than names.
proof fn lemma_distinct_names(ns: Seq<Seq<char>>, x: Seq<char>)
    ensures
        distinct_names(ns).contains(x) <==> ns.contains(x),
        distinct_names(ns).len() <= ns.len(),
    decreases ns.len(),
{
    if ns.len() > 0 {
        let rest = ns.drop_last();
        lemma_distinct_names(rest, x);
        lemma_distinct_names(rest, ns.last());
        let d = distinct_names(rest);
        assert(ns =~= rest.push(ns.last()));
        if ns.contains(x) {
            let k = choose|k: int| 0 <= k < ns.len() && ns[k] == x;
            if k < ns.len() - 1 {
                assert(rest[k] == x);
            }
        }
        if rest.contains(x) {
            let k = choose|k: int| 0 <= k < rest.len() && rest[k] == x;
            assert(ns[k] == x);
        }
        if !d.contains(ns.last()) {
            assert(d.push(ns.last())[d.len() as int] == ns.last());
            if d.contains(x) {
                let k = choose|k: int| 0 <= k < d.len() && d[k] == x;
                assert(d.push(ns.last())[k] == x);
            }
            if d.push(ns.last()).contains(x) && x != ns.last() {
                let k = choose|k: int| 0 <= k < d.len() + 1 && d.push(ns.last())[k] == x;
                assert(d[k] == x);
            }
        }
    }
}

/// In a kept manager, a project has an output exactly when its name was
/// given, whatever jobs have started or ended since.
pub proof fn law_output_exactly_for_given_names(v: OutputManagerView, name: Seq<char>)
    requires
        manager_wf(v),
    ensures
        (exists|i: int| 0 <= i < v.outputs.len() && v.outputs[i].name == name) <==> v.order.contains(name),
{
    lemma_distinct_names(v.order, name);
    let ns = names_of(v.outputs);
    if exists|i: int| 0 <= i < v.outputs.len() && v.outputs[i].name == name {
        let i = choose|i: int| 0 <= i < v.outputs.len() && v.outputs[i].name == name;
        assert(ns[i] == name);
    }
    if v.order.contains(name) {
        let k = choose|k: int| 0 <= k < ns.len() && ns[k] == name;
        assert(v.outputs[k].name == name);
    }
}

/// In a kept manager, the summary counts at most one job per distinct name
/// given: finished and running jobs together are no more than that.
pub proof fn law_summary_within_names(v: OutputManagerView)
    requires
        manager_wf(v),
    ensures
        count_status(v.outputs, JobStatus::Completed) + count_status(v.outputs, JobStatus::Failed)
            + count_status(v.outputs, JobStatus::Running) <= distinct_names(v.order).len(),
        distinct_names(v.order).len() <= v.total,
{
    law_summary_bounds(v.outputs);
    lemma_distinct_names(v.order, Seq::empty());
    assert(names_of(v.outputs).len() == v.outputs.len());
}

/// When every job has ended, the summary counts every job as finished and
/// none as running.
pub proof fn law_all_ended_summary(v: Seq<ProjectOutputView>)
    requires
        forall|i: int|
            0 <= i < v.len() ==> (v[i].status == JobStatus::Completed || v[i].status == JobStatus::Failed),
    ensures
        count_status(v, JobStatus::Completed) + count_status(v, JobStatus::Failed) == v.len(),
        count_status(v, JobStatus::Running) == 0,
    decreases v.len(),
{
    if v.len() > 0 {
        let rest = v.drop_last();
        assert forall|i: int| 0 <= i < rest.len() implies (rest[i].status == JobStatus::Completed
            || rest[i].status == JobStatus::Failed) by {
            assert(rest[i] == v[i]);
        }
        law_all_ended_summary(rest);
        assert(v.last() == v[v.len() - 1]);
    }
}

/// In a kept manager where every job has ended, the finished count is the
/// number of distinct names given and the running count is zero.
pub proof fn law_all_ended_counts_every_project(v: OutputManagerView)
    requires
        manager_wf(v),
        forall|i: int|
            0 <= i < v.outputs.len() ==> (v.outputs[i].status == JobStatus::Completed || v.outputs[i].status
                == JobStatus::Failed),
    ensures
        count_status(v.outputs, JobStatus::Completed) + count_status(v.outputs, JobStatus::Failed)
            == distinct_names(v.order).len(),
        count_status(v.outputs, JobStatus::Running) == 0,
{
    law_all_ended_summary(v.outputs);
    assert(names_of(v.outputs).len() == v.outputs.len());
}

} // verus!
