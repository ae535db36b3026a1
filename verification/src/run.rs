//! One download run: the worklist, the place it has come to, and what each
//! event of the run does to it.
//!
//! A run is started for one mod. Its tasks are taken strictly in their order,
//! one at a time. Whoever drives the run performs the transfer of the current
//! task and reports what happened: progress, a failure, or success together
//! with the dependencies that the downloaded mod declares. A success may add
//! tasks at the end of the worklist; nothing is ever taken from it or moved
//! within it. The first failure ends the run, whatever is still waiting.
//! Each report is answered with the snapshots to hand on, in their order.

use crate::mods::{DependencyView, LocalMod, LocalModView, ModDependency};
use crate::paths::{compatible_name, join_path, joined_path, make_path_compatible_name};
use crate::plan::{lemma_plan_fits, plan_dependencies, plan_spec, PlanView};
use crate::registry::{ModInfoView, ModRegistry};
use crate::tasks::{
    duplicate_tasks, DownloadInfo, DownloadStatus, RunState, Snapshot, SnapshotView, TaskView,
};
use vstd::prelude::*;

verus! {

/// The progress text of a task that is done.
pub open spec fn done_mark() -> Seq<char> {
    "100"@
}

/// One transfer to perform.
#[derive(Debug)]
pub struct FetchRequest {
    pub url: String,
    pub dest: String,
    pub multi_thread: bool,
}

pub struct FetchView {
    pub url: Seq<char>,
    pub dest: Seq<char>,
    pub multi_thread: bool,
}

impl View for FetchRequest {
    type V = FetchView;

    open spec fn view(&self) -> FetchView {
        FetchView { url: self.url@, dest: self.dest@, multi_thread: self.multi_thread }
    }
}

impl DeepView for FetchRequest {
    type V = FetchView;

    open spec fn deep_view(&self) -> FetchView {
        self@
    }
}

/// The answer of a run to one report: the snapshots to hand on, in their
/// order; the file to delete, where a transfer was given up; the names of
/// the declared dependencies that the registry does not know; and the
/// declared dependencies that could not be judged because a version cannot
/// be read. The last two are for warnings: neither ends the run.
#[derive(Debug)]
pub struct Reaction {
    pub snapshots: Vec<Snapshot>,
    pub remove: Option<String>,
    pub unresolved: Vec<String>,
    pub unreadable: Vec<ModDependency>,
}

pub struct ReactionView {
    pub snapshots: Seq<SnapshotView>,
    pub remove: Option<Seq<char>>,
    pub unresolved: Seq<Seq<char>>,
    pub unreadable: Seq<DependencyView>,
}

impl View for Reaction {
    type V = ReactionView;

    open spec fn view(&self) -> ReactionView {
        ReactionView {
            snapshots: self.snapshots.deep_view(),
            remove: self.remove.deep_view(),
            unresolved: self.unresolved.deep_view(),
            unreadable: self.unreadable.deep_view(),
        }
    }
}

impl ReactionView {
    /// The answer to a report that changes nothing.
    pub open spec fn nothing() -> ReactionView {
        ReactionView {
            snapshots: Seq::empty(),
            remove: None,
            unresolved: Seq::empty(),
            unreadable: Seq::empty(),
        }
    }
}

/// A run as a plain value.
pub struct RunView {
    /// The worklist, in the order in which the tasks were added.
    pub tasks: Seq<TaskView>,
    /// The id of the mod of each task but the first, in the order of the tasks.
    pub scheduled: Seq<i64>,
    /// The index of the task that the run is at.
    pub cursor: int,
    pub state: RunState,
    pub multi_thread: bool,
}

impl RunView {
    /// What holds of every run: each task after the first stands for a mod
    /// of its own; the tasks before the cursor are done, the tasks after it
    /// wait, and the task at the cursor is as the state of the run says.
    pub open spec fn wf(self) -> bool {
        &&& self.tasks.len() == self.scheduled.len() + 1
        &&& self.scheduled.no_duplicates()
        &&& 0 <= self.cursor <= self.tasks.len()
        &&& forall|i: int|
            0 <= i < self.cursor ==> (#[trigger] self.tasks[i]).status == DownloadStatus::Finished
                && self.tasks[i].data == done_mark()
        &&& forall|i: int|
            self.cursor < i < self.tasks.len() ==> (#[trigger] self.tasks[i]).status
                == DownloadStatus::Waiting
        &&& match self.state {
            RunState::Pending => self.cursor < self.tasks.len() && (self.current().status
                == DownloadStatus::Waiting || self.current().status
                == DownloadStatus::Downloading),
            RunState::Failed => self.cursor < self.tasks.len() && self.current().status
                == DownloadStatus::Failed,
            RunState::Finished => self.cursor == self.tasks.len(),
        }
    }

    /// The task that the run is at.
    pub open spec fn current(self) -> TaskView {
        self.tasks[self.cursor]
    }

    /// The worklist as it stands, reported under `state`.
    pub open spec fn snapshot(self, state: RunState) -> SnapshotView {
        SnapshotView { state, tasks: self.tasks }
    }

    /// A run that has the one task it was started for, waiting.
    pub open spec fn initial(
        name: Seq<char>,
        url: Seq<char>,
        dest: Seq<char>,
        multi_thread: bool,
    ) -> RunView {
        RunView {
            tasks: seq![
                TaskView { name, url, dest, status: DownloadStatus::Waiting, data: Seq::empty() },
            ],
            scheduled: Seq::empty(),
            cursor: 0,
            state: RunState::Pending,
            multi_thread,
        }
    }

    /// The run with its current task marked as being downloaded.
    pub open spec fn start(self) -> RunView {
        if self.state == RunState::Pending {
            RunView {
                tasks: self.tasks.update(
                    self.cursor,
                    TaskView { status: DownloadStatus::Downloading, ..self.current() },
                ),
                ..self
            }
        } else {
            self
        }
    }

    /// The transfer of the current task, where the run is still at work.
    pub open spec fn request(self) -> Option<FetchView> {
        if self.state == RunState::Pending {
            Some(
                FetchView {
                    url: self.current().url,
                    dest: self.current().dest,
                    multi_thread: self.multi_thread,
                },
            )
        } else {
            None
        }
    }

    /// The run after its current transfer has reported `text`.
    pub open spec fn progress(self, text: Seq<char>) -> RunView {
        if self.state == RunState::Pending {
            RunView {
                tasks: self.tasks.update(self.cursor, TaskView { data: text, ..self.current() }),
                ..self
            }
        } else {
            self
        }
    }

    pub open spec fn progress_reaction(self, text: Seq<char>) -> ReactionView {
        if self.state == RunState::Pending {
            ReactionView {
                snapshots: seq![self.progress(text).snapshot(RunState::Pending)],
                ..ReactionView::nothing()
            }
        } else {
            ReactionView::nothing()
        }
    }

    /// The run after its current task has failed with `error`: the task is
    /// marked, the run is over, and no other task is touched.
    pub open spec fn fail(self, error: Seq<char>) -> RunView {
        if self.state == RunState::Pending {
            RunView {
                tasks: self.tasks.update(
                    self.cursor,
                    TaskView { status: DownloadStatus::Failed, data: error, ..self.current() },
                ),
                state: RunState::Failed,
                ..self
            }
        } else {
            self
        }
    }

    pub open spec fn fail_reaction(self, error: Seq<char>) -> ReactionView {
        if self.state == RunState::Pending {
            ReactionView {
                snapshots: seq![self.fail(error).snapshot(RunState::Failed)],
                remove: Some(self.current().dest),
                ..ReactionView::nothing()
            }
        } else {
            ReactionView::nothing()
        }
    }

    /// The run after its current task is done and `plan` is added: the task
    /// is marked, the new tasks stand at the end of the worklist, and the
    /// cursor is at the next task, which is marked as being downloaded. With
    /// no next task the run is finished.
    pub open spec fn finish_task(self, plan: PlanView) -> RunView {
        let done = TaskView {
            status: DownloadStatus::Finished,
            data: done_mark(),
            ..self.current()
        };
        let grown = self.tasks.update(self.cursor, done) + plan.tasks;
        let next = self.cursor + 1;
        if next < grown.len() {
            RunView {
                tasks: grown.update(
                    next,
                    TaskView { status: DownloadStatus::Downloading, ..grown[next] },
                ),
                scheduled: self.scheduled + plan.ids,
                cursor: next,
                state: RunState::Pending,
                multi_thread: self.multi_thread,
            }
        } else {
            RunView {
                tasks: grown,
                scheduled: self.scheduled + plan.ids,
                cursor: next,
                state: RunState::Finished,
                multi_thread: self.multi_thread,
            }
        }
    }

    pub open spec fn finish_reaction(self, plan: PlanView) -> ReactionView {
        let after = self.finish_task(plan);
        ReactionView {
            snapshots: if after.state == RunState::Finished {
                seq![after.snapshot(RunState::Pending), after.snapshot(RunState::Finished)]
            } else {
                seq![after.snapshot(RunState::Pending)]
            },
            remove: None,
            unresolved: plan.unresolved,
            unreadable: plan.unreadable,
        }
    }

    /// What the declarations `deps` add to this run.
    pub open spec fn plan(
        self,
        deps: Seq<DependencyView>,
        installed: Seq<LocalModView>,
        registry: Map<Seq<char>, ModInfoView>,
    ) -> PlanView {
        plan_spec(deps, installed, registry, self.scheduled, self.tasks[0].dest)
    }

    /// The run after the transfer of its current task has succeeded and the
    /// downloaded mod has declared `deps`: the task is finished, whatever
    /// its declarations are, and what they add to the run is added.
    pub open spec fn complete(
        self,
        deps: Seq<DependencyView>,
        installed: Seq<LocalModView>,
        registry: Map<Seq<char>, ModInfoView>,
    ) -> RunView {
        if self.state == RunState::Pending {
            self.finish_task(self.plan(deps, installed, registry))
        } else {
            self
        }
    }

    pub open spec fn complete_reaction(
        self,
        deps: Seq<DependencyView>,
        installed: Seq<LocalModView>,
        registry: Map<Seq<char>, ModInfoView>,
    ) -> ReactionView {
        if self.state == RunState::Pending {
            self.finish_reaction(self.plan(deps, installed, registry))
        } else {
            ReactionView::nothing()
        }
    }
}

/// What can be reported to a run.
pub enum Event {
    /// The current task is about to be transferred.
    Start,
    /// The transfer of the current task reports this text on its progress.
    Progress(Seq<char>),
    /// The current task has failed with this error.
    Failure(Seq<char>),
    /// The transfer of the current task has succeeded, and the downloaded
    /// mod declares `deps`.
    Success {
        deps: Seq<DependencyView>,
        installed: Seq<LocalModView>,
        registry: Map<Seq<char>, ModInfoView>,
    },
}

impl RunView {
    /// The run after one event.
    pub open spec fn after(self, event: Event) -> RunView {
        match event {
            Event::Start => self.start(),
            Event::Progress(text) => self.progress(text),
            Event::Failure(error) => self.fail(error),
            Event::Success { deps, installed, registry } => self.complete(
                deps,
                installed,
                registry,
            ),
        }
    }

    /// The answer of the run to one event.
    pub open spec fn reaction(self, event: Event) -> ReactionView {
        match event {
            Event::Start => ReactionView::nothing(),
            Event::Progress(text) => self.progress_reaction(text),
            Event::Failure(error) => self.fail_reaction(error),
            Event::Success { deps, installed, registry } => self.complete_reaction(
                deps,
                installed,
                registry,
            ),
        }
    }

    /// The run after a series of events, taken from the first to the last.
    pub open spec fn after_all(self, events: Seq<Event>) -> RunView
        decreases events.len(),
    {
        if events.len() == 0 {
            self
        } else {
            self.after(events[0]).after_all(events.skip(1))
        }
    }
}

/// A download run.
pub struct DownloadRun {
    tasks: Vec<DownloadInfo>,
    scheduled: Vec<i64>,
    cursor: usize,
    state: RunState,
    multi_thread: bool,
}

impl View for DownloadRun {
    type V = RunView;

    closed spec fn view(&self) -> RunView {
        RunView {
            tasks: self.tasks.deep_view(),
            scheduled: self.scheduled@,
            cursor: self.cursor as int,
            state: self.state,
            multi_thread: self.multi_thread,
        }
    }
}

fn no_reaction() -> (reaction: Reaction)
    ensures
        reaction@ == ReactionView::nothing(),
{
    let reaction = Reaction {
        snapshots: Vec::new(),
        remove: None,
        unresolved: Vec::new(),
        unreadable: Vec::new(),
    };
    assert(reaction@.snapshots =~= Seq::empty());
    assert(reaction@.unresolved =~= Seq::empty());
    assert(reaction@.unreadable =~= Seq::empty());
    reaction
}

impl DownloadRun {
    /// The run is as every run is: see [`RunView::wf`].
    pub open spec fn wf(&self) -> bool {
        self@.wf()
    }

    /// A run for the mod `name` from `url`, written into the folder
    /// `mods_dir` under the file name that stands for `name`.
    pub fn new(name: String, url: String, mods_dir: &str, multi_thread: bool) -> (run: DownloadRun)
        ensures
            run.wf(),
            run@ == RunView::initial(
                name@,
                url@,
                joined_path(mods_dir@, compatible_name(name@) + ".zip"@),
                multi_thread,
            ),
    {
        let file = make_path_compatible_name(name.as_str()).concat(".zip");
        let dest = join_path(mods_dir, file.as_str());
        let task = DownloadInfo {
            name,
            url,
            dest,
            status: DownloadStatus::Waiting,
            data: String::new(),
        };
        let mut tasks: Vec<DownloadInfo> = Vec::new();
        tasks.push(task);
        let run = DownloadRun {
            tasks,
            scheduled: Vec::new(),
            cursor: 0,
            state: RunState::Pending,
            multi_thread,
        };
        assert(run@.tasks =~= seq![task@]);
        run
    }

    /// The worklist.
    pub fn tasks(&self) -> (tasks: &Vec<DownloadInfo>)
        ensures
            tasks.deep_view() == self@.tasks,
    {
        &self.tasks
    }

    /// The ids of the mods that the run has put on its worklist.
    pub fn scheduled_ids(&self) -> (ids: &Vec<i64>)
        ensures
            ids@ == self@.scheduled,
    {
        &self.scheduled
    }

    /// The index of the task that the run is at.
    pub fn cursor(&self) -> (cursor: usize)
        ensures
            cursor == self@.cursor,
    {
        self.cursor
    }

    pub fn state(&self) -> (state: RunState)
        ensures
            state == self@.state,
    {
        self.state
    }

    /// A copy of the worklist as it stands, reported under `state`.
    pub fn snapshot(&self, state: RunState) -> (snapshot: Snapshot)
        ensures
            snapshot@ == self@.snapshot(state),
    {
        Snapshot { state, tasks: duplicate_tasks(&self.tasks) }
    }

    /// Marks the current task as being downloaded and says what to
    /// transfer. A run that is over is left as it is and asks for nothing.
    pub fn start_task(&mut self) -> (request: Option<FetchRequest>)
        requires
            old(self).wf(),
        ensures
            final(self).wf(),
            final(self)@ == old(self)@.start(),
            request.deep_view() == old(self)@.request(),
    {
        match self.state {
            RunState::Pending => {},
            _ => {
                return None;
            },
        }
        let ghost before = self.tasks.deep_view();
        self.tasks[self.cursor].status = DownloadStatus::Downloading;
        assert(self.tasks.deep_view() =~= before.update(
            self.cursor as int,
            TaskView { status: DownloadStatus::Downloading, ..before[self.cursor as int] },
        ));
        let task = &self.tasks[self.cursor];
        Some(
            FetchRequest {
                url: task.url.clone(),
                dest: task.dest.clone(),
                multi_thread: self.multi_thread,
            },
        )
    }

    /// Records what the transfer of the current task reports of its
    /// progress. A run that is over is left as it is.
    pub fn on_progress(&mut self, progress: String) -> (reaction: Reaction)
        requires
            old(self).wf(),
        ensures
            final(self).wf(),
            final(self)@ == old(self)@.progress(progress@),
            reaction@ == old(self)@.progress_reaction(progress@),
    {
        match self.state {
            RunState::Pending => {},
            _ => {
                return no_reaction();
            },
        }
        let ghost before = self.tasks.deep_view();
        self.tasks[self.cursor].data = progress;
        assert(self.tasks.deep_view() =~= before.update(
            self.cursor as int,
            TaskView { data: progress@, ..before[self.cursor as int] },
        ));
        let mut snapshots: Vec<Snapshot> = Vec::new();
        let snapshot = self.snapshot(RunState::Pending);
        snapshots.push(snapshot);
        let reaction = Reaction {
            snapshots,
            remove: None,
            unresolved: Vec::new(),
            unreadable: Vec::new(),
        };
        assert(reaction@.snapshots =~= seq![snapshot@]);
        assert(reaction@.unresolved =~= Seq::empty());
        assert(reaction@.unreadable =~= Seq::empty());
        reaction
    }

    /// Ends the run because the current task has failed: its transfer, or
    /// the reading of what was transferred. The task keeps `error` as its
    /// text, and what was written of it is to be deleted. A run that is
    /// over is left as it is.
    pub fn on_failure(&mut self, error: String) -> (reaction: Reaction)
        requires
            old(self).wf(),
        ensures
            final(self).wf(),
            final(self)@ == old(self)@.fail(error@),
            reaction@ == old(self)@.fail_reaction(error@),
    {
        match self.state {
            RunState::Pending => {},
            _ => {
                return no_reaction();
            },
        }
        let ghost before = self.tasks.deep_view();
        self.tasks[self.cursor].status = DownloadStatus::Failed;
        self.tasks[self.cursor].data = error;
        self.state = RunState::Failed;
        assert(self.tasks.deep_view() =~= before.update(
            self.cursor as int,
            TaskView {
                status: DownloadStatus::Failed,
                data: error@,
                ..before[self.cursor as int]
            },
        ));
        let mut snapshots: Vec<Snapshot> = Vec::new();
        let snapshot = self.snapshot(RunState::Failed);
        snapshots.push(snapshot);
        let remove = self.tasks[self.cursor].dest.clone();
        let reaction = Reaction {
            snapshots,
            remove: Some(remove),
            unresolved: Vec::new(),
            unreadable: Vec::new(),
        };
        assert(reaction@.snapshots =~= seq![snapshot@]);
        assert(reaction@.unresolved =~= Seq::empty());
        assert(reaction@.unreadable =~= Seq::empty());
        reaction
    }

    /// Finishes the current task, whose transfer has succeeded, and puts
    /// the mods that it depends on at the end of the worklist: those of
    /// `deps` that no mod of `installed` meets, that `registry` knows, and
    /// that the run has not scheduled before. The run then stands at the
    /// next task, or is finished where there is none. A declaration that
    /// the registry does not know, or that cannot be judged for a version
    /// that cannot be read, is handed back for a warning and changes
    /// nothing else. A run that is over is left as it is.
    pub fn on_success(
        &mut self,
        deps: &Vec<ModDependency>,
        installed: &Vec<LocalMod>,
        registry: &ModRegistry,
    ) -> (reaction: Reaction)
        requires
            old(self).wf(),
        ensures
            final(self).wf(),
            final(self)@ == old(self)@.complete(deps.deep_view(), installed.deep_view(), registry@),
            reaction@ == old(self)@.complete_reaction(
                deps.deep_view(),
                installed.deep_view(),
                registry@,
            ),
    {
        match self.state {
            RunState::Pending => {},
            _ => {
                return no_reaction();
            },
        }
        let mut plan = plan_dependencies(
            deps,
            installed,
            registry,
            &self.scheduled,
            self.tasks[0].dest.as_str(),
        );
        assert(self.tasks.deep_view()[0].dest == self.tasks@[0].dest@);
        let ghost start = self@;
        let ghost added = plan@;
        proof {
            lemma_plan_fits(
                deps.deep_view(),
                installed.deep_view(),
                registry@,
                start.scheduled,
                start.tasks[0].dest,
            );
        }
        self.tasks[self.cursor].status = DownloadStatus::Finished;
        self.tasks[self.cursor].data = "100".to_owned();
        let ghost marked = self.tasks.deep_view();
        assert(marked =~= start.tasks.update(
            start.cursor,
            TaskView { status: DownloadStatus::Finished, data: done_mark(), ..start.current() },
        ));
        self.tasks.append(&mut plan.tasks);
        let ghost grown = self.tasks.deep_view();
        assert(grown =~= marked + added.tasks);
        self.scheduled.append(&mut plan.ids);
        assert(self.cursor < self.tasks.len());
        self.cursor = self.cursor + 1;
        if self.cursor < self.tasks.len() {
            self.tasks[self.cursor].status = DownloadStatus::Downloading;
            assert(self.tasks.deep_view() =~= grown.update(
                self.cursor as int,
                TaskView { status: DownloadStatus::Downloading, ..grown[self.cursor as int] },
            ));
        } else {
            self.state = RunState::Finished;
        }
        assert(self@ == start.finish_task(added));
        let mut snapshots: Vec<Snapshot> = Vec::new();
        let pending = self.snapshot(RunState::Pending);
        snapshots.push(pending);
        let ghost first = pending@;
        match self.state {
            RunState::Finished => {
                let finished = self.snapshot(RunState::Finished);
                snapshots.push(finished);
                assert(snapshots.deep_view() =~= seq![first, finished@]);
            },
            _ => {
                assert(snapshots.deep_view() =~= seq![first]);
            },
        }
        Reaction {
            snapshots,
            remove: None,
            unresolved: plan.unresolved,
            unreadable: plan.unreadable,
        }
    }
}

} // verus!
