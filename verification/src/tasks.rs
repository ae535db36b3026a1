//! The worklist of a download run: its tasks, and the copies of it that are
//! handed to whoever watches the run.

use vstd::prelude::*;

verus! {

/// How far a task has come.
#[derive(Debug, Clone, Copy, PartialEq, Eq, Structural)]
pub enum DownloadStatus {
    Waiting,
    Downloading,
    Finished,
    Failed,
}

/// One download of the worklist. `data` is free text on its progress: the
/// last figure that the transfer reported, or the error that ended it.
#[derive(Debug)]
pub struct DownloadInfo {
    pub name: String,
    pub url: String,
    pub dest: String,
    pub status: DownloadStatus,
    pub data: String,
}

pub struct TaskView {
    pub name: Seq<char>,
    pub url: Seq<char>,
    pub dest: Seq<char>,
    pub status: DownloadStatus,
    pub data: Seq<char>,
}

impl View for DownloadInfo {
    type V = TaskView;

    open spec fn view(&self) -> TaskView {
        TaskView {
            name: self.name@,
            url: self.url@,
            dest: self.dest@,
            status: self.status,
            data: self.data@,
        }
    }
}

impl DeepView for DownloadInfo {
    type V = TaskView;

    open spec fn deep_view(&self) -> TaskView {
        self@
    }
}

impl DownloadInfo {
    /// A copy of the task.
    pub fn duplicate(&self) -> (copy: DownloadInfo)
        ensures
            copy@ == self@,
    {
        DownloadInfo {
            name: self.name.clone(),
            url: self.url.clone(),
            dest: self.dest.clone(),
            status: self.status,
            data: self.data.clone(),
        }
    }
}

/// A copy of a worklist, task by task.
pub fn duplicate_tasks(tasks: &Vec<DownloadInfo>) -> (copy: Vec<DownloadInfo>)
    ensures
        copy.deep_view() == tasks.deep_view(),
{
    let mut copy: Vec<DownloadInfo> = Vec::new();
    let mut i: usize = 0;
    while i < tasks.len()
        invariant
            i <= tasks.len(),
            copy.deep_view() == tasks.deep_view().take(i as int),
        decreases tasks.len() - i,
    {
        let ghost before = copy.deep_view();
        let task = tasks[i].duplicate();
        copy.push(task);
        assert(copy.deep_view() =~= before.push(task@));
        assert(tasks.deep_view()[i as int] == task@);
        i += 1;
        assert(copy.deep_view() =~= tasks.deep_view().take(i as int));
    }
    assert(tasks.deep_view().take(tasks.len() as int) =~= tasks.deep_view());
    copy
}

/// How a run stands: still at work, ended by a failure, or ended with
/// every task done.
#[derive(Debug, Clone, Copy, PartialEq, Eq, Structural)]
pub enum RunState {
    Pending,
    Failed,
    Finished,
}

impl RunState {
    pub open spec fn tag(self) -> Seq<char> {
        match self {
            RunState::Pending => "pending"@,
            RunState::Failed => "failed"@,
            RunState::Finished => "finished"@,
        }
    }

    /// The word under which a snapshot in this state is reported.
    pub fn as_str(&self) -> (word: &'static str)
        ensures
            word@ == self.tag(),
    {
        match self {
            RunState::Pending => "pending",
            RunState::Failed => "failed",
            RunState::Finished => "finished",
        }
    }
}

/// The whole worklist as it stood at one moment, with the state of the run
/// at that moment.
#[derive(Debug)]
pub struct Snapshot {
    pub state: RunState,
    pub tasks: Vec<DownloadInfo>,
}

pub struct SnapshotView {
    pub state: RunState,
    pub tasks: Seq<TaskView>,
}

impl View for Snapshot {
    type V = SnapshotView;

    open spec fn view(&self) -> SnapshotView {
        SnapshotView { state: self.state, tasks: self.tasks.deep_view() }
    }
}

impl DeepView for Snapshot {
    type V = SnapshotView;

    open spec fn deep_view(&self) -> SnapshotView {
        self@
    }
}

} // verus!
