//! What holds of every download run, whatever is reported to it.

use crate::mods::{met, satisfied_spec, unmet, DependencyView, LocalModView};
use crate::plan::{dependency_task, lemma_plan_fits, plan_fits, PlanView};
use crate::registry::ModInfoView;
use crate::run::{done_mark, Event, ReactionView, RunView};
use crate::tasks::{DownloadStatus, RunState, TaskView};
use vstd::prelude::*;

verus! {

/// Finishing the current task with a plan that fits the run gives a run.
pub proof fn lemma_finish_task_keeps_wf(run: RunView, plan: PlanView)
    requires
        run.wf(),
        run.state == RunState::Pending,
        plan_fits(plan, run.scheduled),
    ensures
        run.finish_task(plan).wf(),
{
    let after = run.finish_task(plan);
    let done = TaskView { status: DownloadStatus::Finished, data: done_mark(), ..run.current() };
    let grown = run.tasks.update(run.cursor, done) + plan.tasks;
    assert forall|i: int| 0 <= i < after.cursor implies (#[trigger] after.tasks[i]).status
        == DownloadStatus::Finished && after.tasks[i].data == done_mark() by {
        if i < run.cursor {
            assert(run.tasks[i].status == DownloadStatus::Finished);
        }
    }
    assert forall|i: int| after.cursor < i < after.tasks.len() implies (
    #[trigger] after.tasks[i]).status == DownloadStatus::Waiting by {
        if i < run.tasks.len() {
            assert(run.tasks[i].status == DownloadStatus::Waiting);
        } else {
            assert(plan.tasks[i - run.tasks.len()].status == DownloadStatus::Waiting);
        }
    }
    if after.cursor < grown.len() {
        let next = after.cursor;
        if next < run.tasks.len() {
            assert(run.tasks[next].status == DownloadStatus::Waiting);
        } else {
            assert(plan.tasks[next - run.tasks.len()].status == DownloadStatus::Waiting);
        }
    }
}

/// Every event leaves a run a run.
pub proof fn lemma_after_keeps_wf(run: RunView, event: Event)
    requires
        run.wf(),
    ensures
        run.after(event).wf(),
{
    if run.state == RunState::Pending {
        match event {
            Event::Success { deps, installed, registry } => {
                lemma_plan_fits(deps, installed, registry, run.scheduled, run.tasks[0].dest);
                lemma_finish_task_keeps_wf(run, run.plan(deps, installed, registry));
            },
            _ => {},
        }
    }
}

pub proof fn lemma_after_all_keeps_wf(run: RunView, events: Seq<Event>)
    requires
        run.wf(),
    ensures
        run.after_all(events).wf(),
    decreases events.len(),
{
    if events.len() > 0 {
        lemma_after_keeps_wf(run, events[0]);
        lemma_after_all_keeps_wf(run.after(events[0]), events.skip(1));
    }
}

/// In every run that was started for one mod, whatever has been reported to
/// it since: no two tasks stand for the same mod, the tasks before the
/// cursor are finished, the tasks after it wait, and the run is over
/// exactly where its state says so.
pub proof fn law_every_run_is_well_formed(
    name: Seq<char>,
    url: Seq<char>,
    dest: Seq<char>,
    multi_thread: bool,
    events: Seq<Event>,
)
    ensures
        RunView::initial(name, url, dest, multi_thread).after_all(events).wf(),
{
    lemma_after_all_keeps_wf(RunView::initial(name, url, dest, multi_thread), events);
}

/// Task `k` of the plan is the download of a mod that the registry has
/// under id `k` of the plan.
pub open spec fn planned_from_registry(
    plan: PlanView,
    registry: Map<Seq<char>, ModInfoView>,
    root_dest: Seq<char>,
    k: int,
) -> bool {
    exists|name: Seq<char>|
        {
            &&& registry.contains_key(name)
            &&& registry[name].game_banana_id == plan.ids[k]
            &&& plan.tasks[k] == dependency_task(name, registry[name].download_url, root_dest)
        }
}

proof fn lemma_planned_tasks_come_from_registry(
    plan: PlanView,
    deps: Seq<DependencyView>,
    installed: Seq<LocalModView>,
    registry: Map<Seq<char>, ModInfoView>,
    scheduled: Seq<i64>,
    root_dest: Seq<char>,
)
    requires
        plan.tasks.len() == plan.ids.len(),
        forall|k: int|
            0 <= k < plan.ids.len() ==> planned_from_registry(plan, registry, root_dest, k),
    ensures
        ({
            let last = plan.with_all(deps, installed, registry, scheduled, root_dest);
            &&& last.tasks.len() == last.ids.len()
            &&& forall|k: int|
                0 <= k < last.ids.len() ==> planned_from_registry(last, registry, root_dest, k)
        }),
    decreases deps.len(),
{
    if deps.len() > 0 {
        let next = plan.with(deps[0], installed, registry, scheduled, root_dest);
        assert forall|k: int| 0 <= k < next.ids.len() implies planned_from_registry(
            next,
            registry,
            root_dest,
            k,
        ) by {
            let name = if k < plan.ids.len() {
                assert(planned_from_registry(plan, registry, root_dest, k));
                choose|name: Seq<char>|
                    {
                        &&& registry.contains_key(name)
                        &&& registry[name].game_banana_id == plan.ids[k]
                        &&& plan.tasks[k] == dependency_task(
                            name,
                            registry[name].download_url,
                            root_dest,
                        )
                    }
            } else {
                deps[0].name
            };
            assert(registry.contains_key(name) && registry[name].game_banana_id == next.ids[k]
                && next.tasks[k] == dependency_task(name, registry[name].download_url, root_dest));
        }
        lemma_planned_tasks_come_from_registry(
            next,
            deps.skip(1),
            installed,
            registry,
            scheduled,
            root_dest,
        );
    }
}

/// The mods that a success schedules are new to the run: of the ids that
/// the run holds afterwards no two are the same, whatever the manifest
/// declares and however often it names a mod. Each new task is the download
/// of the mod that the registry has under the new id.
pub proof fn law_no_mod_is_scheduled_twice(
    run: RunView,
    deps: Seq<DependencyView>,
    installed: Seq<LocalModView>,
    registry: Map<Seq<char>, ModInfoView>,
)
    requires
        run.wf(),
        run.state == RunState::Pending,
    ensures
        ({
            let plan = run.plan(deps, installed, registry);
            let after = run.complete(deps, installed, registry);
            &&& after.scheduled == run.scheduled + plan.ids
            &&& after.scheduled.no_duplicates()
            &&& after.tasks.len() == after.scheduled.len() + 1
            &&& forall|k: int|
                0 <= k < plan.ids.len() ==> !run.scheduled.contains(#[trigger] plan.ids[k])
            &&& forall|k: int|
                0 <= k < plan.ids.len() ==> planned_from_registry(
                    plan,
                    registry,
                    run.tasks[0].dest,
                    k,
                )
        }),
{
    let plan = run.plan(deps, installed, registry);
    let root = run.tasks[0].dest;
    lemma_plan_fits(deps, installed, registry, run.scheduled, root);
    lemma_finish_task_keeps_wf(run, plan);
    let all = run.scheduled + plan.ids;
    assert forall|k: int| 0 <= k < plan.ids.len() implies !run.scheduled.contains(
        #[trigger] plan.ids[k],
    ) by {
        if run.scheduled.contains(plan.ids[k]) {
            let i = choose|i: int| 0 <= i < run.scheduled.len() && run.scheduled[i] == plan.ids[k];
            assert(all[i] == all[run.scheduled.len() + k]);
        }
    }
    lemma_planned_tasks_come_from_registry(
        PlanView::empty(),
        deps,
        installed,
        registry,
        run.scheduled,
        root,
    );
}

/// The ids under which a registry knows its mods.
pub open spec fn registry_ids(registry: Map<Seq<char>, ModInfoView>) -> Set<i64> {
    registry.dom().map(|name: Seq<char>| registry[name].game_banana_id)
}

/// Every success among `events` was judged against `registry`.
pub open spec fn judged_against(events: Seq<Event>, registry: Map<Seq<char>, ModInfoView>) -> bool {
    forall|k: int|
        0 <= k < events.len() ==> match #[trigger] events[k] {
            Event::Success { deps, installed, registry: used } => used == registry,
            _ => true,
        }
}

/// Every mod that the run has scheduled is a mod of `registry`.
pub open spec fn scheduled_from(run: RunView, registry: Map<Seq<char>, ModInfoView>) -> bool {
    forall|k: int|
        0 <= k < run.scheduled.len() ==> registry_ids(registry).contains(
            #[trigger] run.scheduled[k],
        )
}

proof fn lemma_after_keeps_scheduled_from(
    run: RunView,
    event: Event,
    registry: Map<Seq<char>, ModInfoView>,
)
    requires
        run.wf(),
        scheduled_from(run, registry),
        judged_against(seq![event], registry),
    ensures
        scheduled_from(run.after(event), registry),
{
    assert(seq![event][0] == event);
    let after = run.after(event);
    if run.state == RunState::Pending {
        match event {
            Event::Success { deps, installed, registry: used } => {
                let plan = run.plan(deps, installed, registry);
                law_no_mod_is_scheduled_twice(run, deps, installed, registry);
                assert forall|k: int| 0 <= k < after.scheduled.len() implies registry_ids(
                    registry,
                ).contains(#[trigger] after.scheduled[k]) by {
                    if k < run.scheduled.len() {
                        assert(after.scheduled[k] == run.scheduled[k]);
                    } else {
                        let j = k - run.scheduled.len();
                        assert(after.scheduled[k] == plan.ids[j]);
                        assert(planned_from_registry(plan, registry, run.tasks[0].dest, j));
                        let name = choose|name: Seq<char>|
                            {
                                &&& registry.contains_key(name)
                                &&& registry[name].game_banana_id == plan.ids[j]
                                &&& plan.tasks[j] == dependency_task(
                                    name,
                                    registry[name].download_url,
                                    run.tasks[0].dest,
                                )
                            };
                        assert(registry.dom().contains(name));
                    }
                }
            },
            _ => {},
        }
    }
}

proof fn lemma_after_all_keeps_scheduled_from(
    run: RunView,
    events: Seq<Event>,
    registry: Map<Seq<char>, ModInfoView>,
)
    requires
        run.wf(),
        scheduled_from(run, registry),
        judged_against(events, registry),
    ensures
        scheduled_from(run.after_all(events), registry),
    decreases events.len(),
{
    if events.len() > 0 {
        let rest = events.skip(1);
        assert(judged_against(seq![events[0]], registry)) by {
            assert(seq![events[0]][0] == events[0]);
        }
        assert(judged_against(rest, registry)) by {
            assert forall|k: int| 0 <= k < rest.len() implies match #[trigger] rest[k] {
                Event::Success { deps, installed, registry: used } => used == registry,
                _ => true,
            } by {
                assert(rest[k] == events[k + 1]);
            }
        }
        lemma_after_keeps_scheduled_from(run, events[0], registry);
        lemma_after_keeps_wf(run, events[0]);
        lemma_after_all_keeps_scheduled_from(run.after(events[0]), rest, registry);
    }
}

/// A run that judges every manifest against one registry never holds more
/// tasks than that registry has mods, and the one that it was started for:
/// so a run whose transfers all end comes to an end.
pub proof fn law_worklist_is_bounded(
    name: Seq<char>,
    url: Seq<char>,
    dest: Seq<char>,
    multi_thread: bool,
    events: Seq<Event>,
    registry: Map<Seq<char>, ModInfoView>,
)
    requires
        registry.dom().finite(),
        judged_against(events, registry),
    ensures
        RunView::initial(name, url, dest, multi_thread).after_all(events).tasks.len()
            <= registry.dom().len() + 1,
{
    let start = RunView::initial(name, url, dest, multi_thread);
    let end = start.after_all(events);
    lemma_after_all_keeps_wf(start, events);
    lemma_after_all_keeps_scheduled_from(start, events, registry);
    let ids = registry_ids(registry);
    vstd::set_lib::lemma_map_size_bound(
        registry.dom(),
        ids,
        |name: Seq<char>| registry[name].game_banana_id,
    );
    end.scheduled.unique_seq_to_set();
    assert(end.scheduled.to_set().subset_of(ids)) by {
        assert forall|id: i64| end.scheduled.to_set().contains(id) implies ids.contains(id) by {
            let k = choose|k: int| 0 <= k < end.scheduled.len() && end.scheduled[k] == id;
            assert(ids.contains(end.scheduled[k]));
        }
    }
    vstd::set_lib::lemma_len_subset(end.scheduled.to_set(), ids);
}

/// A failure ends the run at once: the failed task keeps the error as its
/// text, the tasks before it are finished, the tasks after it still wait,
/// the file of the failed task is to be deleted, and the one snapshot that
/// is handed on says that the run has failed.
pub proof fn law_failure_ends_the_run(run: RunView, error: Seq<char>)
    requires
        run.wf(),
        run.state == RunState::Pending,
    ensures
        ({
            let after = run.fail(error);
            let reaction = run.fail_reaction(error);
            &&& after.state == RunState::Failed
            &&& after.cursor == run.cursor
            &&& after.tasks.len() == run.tasks.len()
            &&& after.current().status == DownloadStatus::Failed
            &&& after.current().data == error
            &&& forall|i: int|
                0 <= i < after.cursor ==> (#[trigger] after.tasks[i]).status
                    == DownloadStatus::Finished && after.tasks[i].data == done_mark()
            &&& forall|i: int|
                after.cursor < i < after.tasks.len() ==> (#[trigger] after.tasks[i]).status
                    == DownloadStatus::Waiting
            &&& forall|i: int|
                0 <= i < run.tasks.len() && i != run.cursor ==> after.tasks[i] == run.tasks[i]
            &&& reaction.snapshots == seq![after.snapshot(RunState::Failed)]
            &&& reaction.remove == Some(run.current().dest)
        }),
{
    let after = run.fail(error);
    assert forall|i: int| 0 <= i < after.cursor implies (#[trigger] after.tasks[i]).status
        == DownloadStatus::Finished && after.tasks[i].data == done_mark() by {
        assert(run.tasks[i].status == DownloadStatus::Finished);
    }
    assert forall|i: int| after.cursor < i < after.tasks.len() implies (
    #[trigger] after.tasks[i]).status == DownloadStatus::Waiting by {
        assert(run.tasks[i].status == DownloadStatus::Waiting);
    }
}

/// A run that is over stays as it is: no event changes it, none is
/// answered with a snapshot, and no transfer is asked for any more. So a run
/// hands on one snapshot that says failed or finished, and none after it.
pub proof fn law_a_run_that_is_over_stays_over(run: RunView, events: Seq<Event>)
    requires
        run.state != RunState::Pending,
    ensures
        run.after_all(events) == run,
        run.request() is None,
        forall|k: int|
            0 <= k < events.len() ==> run.reaction(#[trigger] events[k]) == ReactionView::nothing(),
    decreases events.len(),
{
    if events.len() > 0 {
        law_a_run_that_is_over_stays_over(run, events.skip(1));
    }
}

/// Every snapshot shows the worklist as the event has left it. Only the last
/// snapshot of an answer can say that the run is over, and it does so
/// exactly when the event has ended the run: so a run says once that it has
/// failed or that it is finished, and never both. Only a reported failure
/// asks for a file to be deleted.
pub proof fn law_one_final_snapshot(run: RunView, event: Event)
    requires
        run.wf(),
    ensures
        ({
            let after = run.after(event);
            let snapshots = run.reaction(event).snapshots;
            &&& forall|k: int|
                0 <= k < snapshots.len() ==> (#[trigger] snapshots[k]).tasks == after.tasks
            &&& forall|k: int|
                0 <= k < snapshots.len() - 1 ==> (#[trigger] snapshots[k]).state
                    == RunState::Pending
            &&& run.state == RunState::Pending && after.state != RunState::Pending
                ==> snapshots.len() > 0 && snapshots.last().state == after.state
            &&& after.state == RunState::Pending ==> forall|k: int|
                0 <= k < snapshots.len() ==> (#[trigger] snapshots[k]).state == RunState::Pending
            &&& run.reaction(event).remove is Some ==> event is Failure && after.state
                == RunState::Failed
        }),
{
}

/// A success finishes its task, whatever the manifest declares, whatever is
/// installed and whatever the registry knows: no declaration fails a task or
/// asks for a file to be deleted. The run then stands at the next task, and
/// it is finished exactly when no task is left.
pub proof fn law_success_finishes_the_task(
    run: RunView,
    deps: Seq<DependencyView>,
    installed: Seq<LocalModView>,
    registry: Map<Seq<char>, ModInfoView>,
)
    requires
        run.wf(),
        run.state == RunState::Pending,
    ensures
        ({
            let after = run.complete(deps, installed, registry);
            let reaction = run.complete_reaction(deps, installed, registry);
            &&& after.state != RunState::Failed
            &&& after.cursor == run.cursor + 1
            &&& after.tasks[run.cursor].status == DownloadStatus::Finished
            &&& after.tasks[run.cursor].data == done_mark()
            &&& after.state == RunState::Finished <==> after.cursor == after.tasks.len()
            &&& reaction.remove is None
            &&& reaction.snapshots.last().state == after.state
            &&& reaction.snapshots.last().tasks == after.tasks
        }),
{
}

/// A run to which no failure is reported does not fail, whatever its
/// manifests declare, whatever is installed and whatever the registry knows:
/// it is at work while a task is left, and finished from then on.
pub proof fn law_run_without_failure_finishes(run: RunView, events: Seq<Event>)
    requires
        run.wf(),
        run.state != RunState::Failed,
        forall|k: int| 0 <= k < events.len() ==> !(#[trigger] events[k] is Failure),
    ensures
        ({
            let end = run.after_all(events);
            &&& end.state != RunState::Failed
            &&& end.state == RunState::Finished <==> end.cursor == end.tasks.len()
        }),
    decreases events.len(),
{
    if events.len() > 0 {
        let rest = events.skip(1);
        lemma_after_keeps_wf(run, events[0]);
        assert forall|k: int| 0 <= k < rest.len() implies !(#[trigger] rest[k] is Failure) by {
            assert(rest[k] == events[k + 1]);
        }
        assert(!(events[0] is Failure));
        law_run_without_failure_finishes(run.after(events[0]), rest);
    }
}

/// While no failure is reported to a run, no snapshot that it hands on says
/// that it has failed: the answer to each event, given after the events
/// before it, holds snapshots that say pending or finished alone.
pub proof fn law_no_failure_no_failed_snapshot(run: RunView, events: Seq<Event>, k: int)
    requires
        run.wf(),
        run.state != RunState::Failed,
        forall|i: int| 0 <= i < events.len() ==> !(#[trigger] events[i] is Failure),
        0 <= k < events.len(),
    ensures
        ({
            let snapshots = run.after_all(events.take(k)).reaction(events[k]).snapshots;
            forall|j: int|
                0 <= j < snapshots.len() ==> (#[trigger] snapshots[j]).state != RunState::Failed
        }),
{
    let before = events.take(k);
    assert forall|i: int| 0 <= i < before.len() implies !(#[trigger] before[i] is Failure) by {
        assert(before[i] == events[i]);
    }
    law_run_without_failure_finishes(run, before);
    lemma_after_all_keeps_wf(run, before);
    assert(!(events[k] is Failure));
    law_one_final_snapshot(run.after_all(before), events[k]);
}

/// What a success adds to the worklist is the plan, at the end and in the
/// plan's order; of an added task at most the status is changed, where the
/// run goes on with it.
pub proof fn lemma_added_tasks_are_the_plan(
    run: RunView,
    deps: Seq<DependencyView>,
    installed: Seq<LocalModView>,
    registry: Map<Seq<char>, ModInfoView>,
)
    requires
        run.wf(),
        run.state == RunState::Pending,
    ensures
        ({
            let after = run.complete(deps, installed, registry);
            let plan = run.plan(deps, installed, registry);
            &&& after.tasks.len() == run.tasks.len() + plan.tasks.len()
            &&& forall|i: int|
                run.tasks.len() <= i < after.tasks.len() ==> {
                    &&& (#[trigger] after.tasks[i]).name == plan.tasks[i - run.tasks.len()].name
                    &&& after.tasks[i].url == plan.tasks[i - run.tasks.len()].url
                    &&& after.tasks[i].dest == plan.tasks[i - run.tasks.len()].dest
                    &&& after.tasks[i].data == plan.tasks[i - run.tasks.len()].data
                }
        }),
{
}

/// A dependency that an installed mod meets adds nothing to a plan.
pub proof fn law_satisfied_dependency_adds_nothing(
    plan: PlanView,
    dep: DependencyView,
    installed: Seq<LocalModView>,
    registry: Map<Seq<char>, ModInfoView>,
    scheduled: Seq<i64>,
    root_dest: Seq<char>,
)
    requires
        satisfied_spec(installed, dep.name, dep.version) == met(),
    ensures
        plan.with(dep, installed, registry, scheduled, root_dest) == plan,
{
}

/// A dependency that no installed mod meets and that the registry does not
/// know is passed over: it adds no task, and its name is kept for a warning.
pub proof fn law_unknown_dependency_is_passed_over(
    plan: PlanView,
    dep: DependencyView,
    installed: Seq<LocalModView>,
    registry: Map<Seq<char>, ModInfoView>,
    scheduled: Seq<i64>,
    root_dest: Seq<char>,
)
    requires
        !registry.contains_key(dep.name),
        satisfied_spec(installed, dep.name, dep.version) == unmet(),
    ensures
        plan.with(dep, installed, registry, scheduled, root_dest) == (PlanView {
            unresolved: plan.unresolved.push(dep.name),
            ..plan
        }),
{
}

/// A dependency that cannot be judged, because an installed mod of its name
/// cannot be compared with the version that it asks for, is passed over:
/// it adds no task, and it is handed back as it was declared.
pub proof fn law_unreadable_dependency_is_handed_back(
    plan: PlanView,
    dep: DependencyView,
    installed: Seq<LocalModView>,
    registry: Map<Seq<char>, ModInfoView>,
    scheduled: Seq<i64>,
    root_dest: Seq<char>,
)
    requires
        satisfied_spec(installed, dep.name, dep.version) is Err,
    ensures
        plan.with(dep, installed, registry, scheduled, root_dest) == (PlanView {
            unreadable: plan.unreadable.push(dep),
            ..plan
        }),
{
}

/// No declaration of `deps` under the name `name` asks for a download: each
/// is met by an installed mod or cannot be judged, or the registry has no
/// mod of that name.
pub open spec fn never_wanted(
    deps: Seq<DependencyView>,
    installed: Seq<LocalModView>,
    registry: Map<Seq<char>, ModInfoView>,
    name: Seq<char>,
) -> bool {
    forall|k: int|
        0 <= k < deps.len() && (#[trigger] deps[k]).name == name ==> satisfied_spec(
            installed,
            name,
            deps[k].version,
        ) != unmet() || !registry.contains_key(name)
}

proof fn lemma_never_wanted_is_never_planned(
    plan: PlanView,
    deps: Seq<DependencyView>,
    installed: Seq<LocalModView>,
    registry: Map<Seq<char>, ModInfoView>,
    scheduled: Seq<i64>,
    root_dest: Seq<char>,
    name: Seq<char>,
)
    requires
        never_wanted(deps, installed, registry, name),
        forall|k: int| 0 <= k < plan.tasks.len() ==> (#[trigger] plan.tasks[k]).name != name,
    ensures
        ({
            let last = plan.with_all(deps, installed, registry, scheduled, root_dest);
            forall|k: int| 0 <= k < last.tasks.len() ==> (#[trigger] last.tasks[k]).name != name
        }),
    decreases deps.len(),
{
    if deps.len() > 0 {
        let next = plan.with(deps[0], installed, registry, scheduled, root_dest);
        let rest = deps.skip(1);
        assert(never_wanted(rest, installed, registry, name)) by {
            assert forall|k: int| 0 <= k < rest.len() && (#[trigger] rest[k]).name
                == name implies satisfied_spec(installed, name, rest[k].version) != unmet()
                || !registry.contains_key(name) by {
                assert(rest[k] == deps[k + 1]);
            }
        }
        assert forall|k: int| 0 <= k < next.tasks.len() implies (#[trigger] next.tasks[k]).name
            != name by {
            if k < plan.tasks.len() {
                assert(plan.tasks[k].name != name);
            } else {
                assert(deps[0].name != name);
            }
        }
        lemma_never_wanted_is_never_planned(
            next,
            rest,
            installed,
            registry,
            scheduled,
            root_dest,
            name,
        );
    }
}

/// A success puts no task on the worklist under a name of which every
/// declaration is met by an installed mod, nor under a name that the
/// registry does not know: the tasks that it adds all have other names.
pub proof fn law_unwanted_mod_is_not_downloaded(
    run: RunView,
    deps: Seq<DependencyView>,
    installed: Seq<LocalModView>,
    registry: Map<Seq<char>, ModInfoView>,
    name: Seq<char>,
)
    requires
        run.wf(),
        run.state == RunState::Pending,
        never_wanted(deps, installed, registry, name),
    ensures
        ({
            let after = run.complete(deps, installed, registry);
            forall|i: int|
                run.tasks.len() <= i < after.tasks.len() ==> (#[trigger] after.tasks[i]).name
                    != name
        }),
{
    lemma_added_tasks_are_the_plan(run, deps, installed, registry);
    lemma_never_wanted_is_never_planned(
        PlanView::empty(),
        deps,
        installed,
        registry,
        run.scheduled,
        run.tasks[0].dest,
        name,
    );
    let plan = run.plan(deps, installed, registry);
    let after = run.complete(deps, installed, registry);
    assert forall|i: int| run.tasks.len() <= i < after.tasks.len() implies (
    #[trigger] after.tasks[i]).name != name by {
        assert(plan.tasks[i - run.tasks.len()].name != name);
    }
}

/// The names that a manifest gives to warn of: of each declaration that no
/// installed mod meets and that the registry does not know, in the order of
/// the declarations, and as often as they are declared.
pub open spec fn unknown_names(
    deps: Seq<DependencyView>,
    installed: Seq<LocalModView>,
    registry: Map<Seq<char>, ModInfoView>,
) -> Seq<Seq<char>>
    decreases deps.len(),
{
    if deps.len() == 0 {
        Seq::empty()
    } else {
        let first = deps[0];
        let rest = unknown_names(deps.skip(1), installed, registry);
        if satisfied_spec(installed, first.name, first.version) == unmet()
            && !registry.contains_key(first.name) {
            seq![first.name] + rest
        } else {
            rest
        }
    }
}

/// The declarations of a manifest that cannot be judged, in their order.
pub open spec fn unreadable_declarations(
    deps: Seq<DependencyView>,
    installed: Seq<LocalModView>,
) -> Seq<DependencyView>
    decreases deps.len(),
{
    if deps.len() == 0 {
        Seq::empty()
    } else {
        let first = deps[0];
        let rest = unreadable_declarations(deps.skip(1), installed);
        if satisfied_spec(installed, first.name, first.version) is Err {
            seq![first] + rest
        } else {
            rest
        }
    }
}

proof fn lemma_warnings_of_plan(
    plan: PlanView,
    deps: Seq<DependencyView>,
    installed: Seq<LocalModView>,
    registry: Map<Seq<char>, ModInfoView>,
    scheduled: Seq<i64>,
    root_dest: Seq<char>,
)
    ensures
        ({
            let last = plan.with_all(deps, installed, registry, scheduled, root_dest);
            &&& last.unresolved == plan.unresolved + unknown_names(deps, installed, registry)
            &&& last.unreadable == plan.unreadable + unreadable_declarations(deps, installed)
        }),
    decreases deps.len(),
{
    let last = plan.with_all(deps, installed, registry, scheduled, root_dest);
    if deps.len() > 0 {
        let next = plan.with(deps[0], installed, registry, scheduled, root_dest);
        lemma_warnings_of_plan(next, deps.skip(1), installed, registry, scheduled, root_dest);
        assert(last.unresolved =~= plan.unresolved + unknown_names(deps, installed, registry));
        assert(last.unreadable =~= plan.unreadable + unreadable_declarations(deps, installed));
    } else {
        assert(last.unresolved =~= plan.unresolved + unknown_names(deps, installed, registry));
        assert(last.unreadable =~= plan.unreadable + unreadable_declarations(deps, installed));
    }
}

/// What a success hands back for warnings is fixed by the manifest, by what
/// is installed and by the registry alone: one name for each declaration
/// that is not met and not known, and each declaration that cannot be
/// judged, whatever the run has scheduled before.
pub proof fn law_warnings_name_what_was_passed_over(
    run: RunView,
    deps: Seq<DependencyView>,
    installed: Seq<LocalModView>,
    registry: Map<Seq<char>, ModInfoView>,
)
    requires
        run.state == RunState::Pending,
    ensures
        run.complete_reaction(deps, installed, registry).unresolved == unknown_names(
            deps,
            installed,
            registry,
        ),
        run.complete_reaction(deps, installed, registry).unreadable == unreadable_declarations(
            deps,
            installed,
        ),
{
    lemma_warnings_of_plan(
        PlanView::empty(),
        deps,
        installed,
        registry,
        run.scheduled,
        run.tasks[0].dest,
    );
    assert(Seq::<Seq<char>>::empty() + unknown_names(deps, installed, registry) =~= unknown_names(
        deps,
        installed,
        registry,
    ));
    assert(Seq::<DependencyView>::empty() + unreadable_declarations(deps, installed)
        =~= unreadable_declarations(deps, installed));
}

/// Plans that hold the same downloads hold the same downloads after the
/// same declarations, whatever they hold for warnings.
proof fn lemma_warnings_change_no_task(
    one: PlanView,
    other: PlanView,
    deps: Seq<DependencyView>,
    installed: Seq<LocalModView>,
    registry: Map<Seq<char>, ModInfoView>,
    scheduled: Seq<i64>,
    root_dest: Seq<char>,
)
    requires
        one.tasks == other.tasks,
        one.ids == other.ids,
    ensures
        one.with_all(deps, installed, registry, scheduled, root_dest).tasks == other.with_all(
            deps,
            installed,
            registry,
            scheduled,
            root_dest,
        ).tasks,
        one.with_all(deps, installed, registry, scheduled, root_dest).ids == other.with_all(
            deps,
            installed,
            registry,
            scheduled,
            root_dest,
        ).ids,
    decreases deps.len(),
{
    if deps.len() > 0 {
        lemma_warnings_change_no_task(
            one.with(deps[0], installed, registry, scheduled, root_dest),
            other.with(deps[0], installed, registry, scheduled, root_dest),
            deps.skip(1),
            installed,
            registry,
            scheduled,
            root_dest,
        );
    }
}

proof fn lemma_passed_over_changes_no_task(
    plan: PlanView,
    before: Seq<DependencyView>,
    dep: DependencyView,
    behind: Seq<DependencyView>,
    installed: Seq<LocalModView>,
    registry: Map<Seq<char>, ModInfoView>,
    scheduled: Seq<i64>,
    root_dest: Seq<char>,
)
    requires
        satisfied_spec(installed, dep.name, dep.version) != unmet() || !registry.contains_key(
            dep.name,
        ),
    ensures
        plan.with_all(
            before + seq![dep] + behind,
            installed,
            registry,
            scheduled,
            root_dest,
        ).tasks == plan.with_all(before + behind, installed, registry, scheduled, root_dest).tasks,
        plan.with_all(
            before + seq![dep] + behind,
            installed,
            registry,
            scheduled,
            root_dest,
        ).ids == plan.with_all(before + behind, installed, registry, scheduled, root_dest).ids,
    decreases before.len(),
{
    let with_dep = before + seq![dep] + behind;
    let without = before + behind;
    if before.len() == 0 {
        assert(with_dep[0] == dep);
        assert(with_dep.skip(1) =~= behind);
        assert(without =~= behind);
        lemma_warnings_change_no_task(
            plan.with(dep, installed, registry, scheduled, root_dest),
            plan,
            behind,
            installed,
            registry,
            scheduled,
            root_dest,
        );
    } else {
        assert(with_dep[0] == before[0]);
        assert(without[0] == before[0]);
        assert(with_dep.skip(1) =~= before.skip(1) + seq![dep] + behind);
        assert(without.skip(1) =~= before.skip(1) + behind);
        lemma_passed_over_changes_no_task(
            plan.with(before[0], installed, registry, scheduled, root_dest),
            before.skip(1),
            dep,
            behind,
            installed,
            registry,
            scheduled,
            root_dest,
        );
    }
}

/// A declaration that is passed over, because the registry does not know
/// its mod, because an installed mod meets it, or because it cannot be
/// judged, changes nothing for the declarations around it: the worklist
/// comes out as it would without that declaration, and the task is
/// finished all the same.
pub proof fn law_passed_over_declaration_changes_no_task(
    run: RunView,
    before: Seq<DependencyView>,
    dep: DependencyView,
    behind: Seq<DependencyView>,
    installed: Seq<LocalModView>,
    registry: Map<Seq<char>, ModInfoView>,
)
    requires
        run.wf(),
        run.state == RunState::Pending,
        satisfied_spec(installed, dep.name, dep.version) != unmet() || !registry.contains_key(
            dep.name,
        ),
    ensures
        run.complete(before + seq![dep] + behind, installed, registry) == run.complete(
            before + behind,
            installed,
            registry,
        ),
{
    lemma_passed_over_changes_no_task(
        PlanView::empty(),
        before,
        dep,
        behind,
        installed,
        registry,
        run.scheduled,
        run.tasks[0].dest,
    );
}

/// Tasks are finished in the order of the worklist: a finished task has
/// only finished tasks before it.
pub proof fn law_finished_tasks_are_a_prefix(run: RunView, i: int, j: int)
    requires
        run.wf(),
        0 <= i <= j < run.tasks.len(),
        run.tasks[j].status == DownloadStatus::Finished,
    ensures
        run.tasks[i].status == DownloadStatus::Finished,
{
    if j > run.cursor {
        assert(run.tasks[j].status == DownloadStatus::Waiting);
    }
    if j == run.cursor {
        assert(run.current().status != DownloadStatus::Finished);
    }
}

/// No event takes a task from the worklist, moves one, or touches a task
/// that the run has done with: the cursor never goes back and goes forward
/// by one task at most, every task keeps its place, name, address and
/// destination, and the tasks before the cursor stay as they are.
pub proof fn law_worklist_only_grows(run: RunView, event: Event)
    requires
        run.wf(),
    ensures
        ({
            let after = run.after(event);
            &&& run.cursor <= after.cursor <= run.cursor + 1
            &&& run.tasks.len() <= after.tasks.len()
            &&& forall|i: int|
                0 <= i < run.tasks.len() ==> {
                    &&& (#[trigger] after.tasks[i]).name == run.tasks[i].name
                    &&& after.tasks[i].url == run.tasks[i].url
                    &&& after.tasks[i].dest == run.tasks[i].dest
                }
            &&& forall|i: int| 0 <= i < run.cursor ==> #[trigger] after.tasks[i] == run.tasks[i]
            &&& forall|i: int|
                0 <= i < run.scheduled.len() ==> #[trigger] after.scheduled[i] == run.scheduled[i]
        }),
{
}

} // verus!
