//! From the dependencies that a downloaded mod declares to the downloads
//! that they add to the worklist.
//!
//! Each declaration is judged in turn, required and optional ones alike. One
//! that an installed mod already meets adds nothing, nor does one whose mod
//! the registry does not know, nor one whose mod the run has scheduled
//! before: mods are told apart by the id that their origin gave them, not by
//! name. One that cannot be judged, because a version cannot be read, adds
//! nothing either and is handed back as it is. Every other declaration adds
//! one waiting download. No declaration stops the ones after it.

use crate::mods::{satisfied, satisfied_spec, DependencyView, LocalMod, LocalModView, ModDependency};
use crate::paths::{sibling_path, with_file_name};
use crate::registry::{ModInfoView, ModRegistry};
use crate::tasks::{DownloadInfo, DownloadStatus, TaskView};
use vstd::prelude::*;

verus! {

/// What becomes of one declared dependency.
#[derive(Debug, Clone, Copy, PartialEq, Eq, Structural)]
pub enum Verdict {
    /// An installed mod of that name is new enough.
    Satisfied,
    /// The registry has no mod of that name.
    Unresolved,
    /// The mod is on the worklist of this run already.
    Scheduled,
    /// The mod is to be downloaded.
    Wanted,
    /// An installed mod of that name cannot be compared with the version
    /// that the declaration asks for: it is neither new enough nor too old.
    Invalid,
}

/// The verdict on `dep`, where `scheduled` holds the ids of the mods that
/// the run has put on its worklist so far.
pub open spec fn verdict(
    dep: DependencyView,
    installed: Seq<LocalModView>,
    registry: Map<Seq<char>, ModInfoView>,
    scheduled: Seq<i64>,
) -> Verdict {
    match satisfied_spec(installed, dep.name, dep.version) {
        Err(_) => Verdict::Invalid,
        Ok(true) => Verdict::Satisfied,
        Ok(false) => if !registry.contains_key(dep.name) {
            Verdict::Unresolved
        } else if scheduled.contains(registry[dep.name].game_banana_id) {
            Verdict::Scheduled
        } else {
            Verdict::Wanted
        },
    }
}

/// The download that a wanted dependency adds: it waits, and it will be
/// written beside the download that the run was started for.
pub open spec fn dependency_task(name: Seq<char>, url: Seq<char>, root_dest: Seq<char>) -> TaskView {
    TaskView {
        name,
        url,
        dest: sibling_path(root_dest, name + ".zip"@),
        status: DownloadStatus::Waiting,
        data: "0"@,
    }
}

/// What the declarations of one manifest add to a run: downloads, the ids of
/// their mods in the same order, the names that the registry does not know,
/// and the declarations that could not be judged.
#[derive(Debug)]
pub struct Plan {
    pub tasks: Vec<DownloadInfo>,
    pub ids: Vec<i64>,
    pub unresolved: Vec<String>,
    pub unreadable: Vec<ModDependency>,
}

pub struct PlanView {
    pub tasks: Seq<TaskView>,
    pub ids: Seq<i64>,
    pub unresolved: Seq<Seq<char>>,
    pub unreadable: Seq<DependencyView>,
}

impl View for Plan {
    type V = PlanView;

    open spec fn view(&self) -> PlanView {
        PlanView {
            tasks: self.tasks.deep_view(),
            ids: self.ids@,
            unresolved: self.unresolved.deep_view(),
            unreadable: self.unreadable.deep_view(),
        }
    }
}

impl PlanView {
    pub open spec fn empty() -> PlanView {
        PlanView {
            tasks: Seq::empty(),
            ids: Seq::empty(),
            unresolved: Seq::empty(),
            unreadable: Seq::empty(),
        }
    }

    /// The plan after one more declaration.
    pub open spec fn with(
        self,
        dep: DependencyView,
        installed: Seq<LocalModView>,
        registry: Map<Seq<char>, ModInfoView>,
        scheduled: Seq<i64>,
        root_dest: Seq<char>,
    ) -> PlanView {
        match verdict(dep, installed, registry, scheduled + self.ids) {
            Verdict::Satisfied => self,
            Verdict::Scheduled => self,
            Verdict::Invalid => PlanView { unreadable: self.unreadable.push(dep), ..self },
            Verdict::Unresolved => PlanView { unresolved: self.unresolved.push(dep.name), ..self },
            Verdict::Wanted => PlanView {
                tasks: self.tasks.push(
                    dependency_task(dep.name, registry[dep.name].download_url, root_dest),
                ),
                ids: self.ids.push(registry[dep.name].game_banana_id),
                ..self
            },
        }
    }

    /// The plan after all of `deps`, taken from the first to the last.
    pub open spec fn with_all(
        self,
        deps: Seq<DependencyView>,
        installed: Seq<LocalModView>,
        registry: Map<Seq<char>, ModInfoView>,
        scheduled: Seq<i64>,
        root_dest: Seq<char>,
    ) -> PlanView
        decreases deps.len(),
    {
        if deps.len() == 0 {
            self
        } else {
            self.with(deps[0], installed, registry, scheduled, root_dest).with_all(
                deps.skip(1),
                installed,
                registry,
                scheduled,
                root_dest,
            )
        }
    }
}

/// What the declarations `deps` add to a run that has scheduled the mods
/// `scheduled` and writes its first download to `root_dest`.
pub open spec fn plan_spec(
    deps: Seq<DependencyView>,
    installed: Seq<LocalModView>,
    registry: Map<Seq<char>, ModInfoView>,
    scheduled: Seq<i64>,
    root_dest: Seq<char>,
) -> PlanView {
    PlanView::empty().with_all(deps, installed, registry, scheduled, root_dest)
}

/// What the plan adds is new to a run that has scheduled `scheduled`: one id
/// for each download, no id twice, none that the run has already, and every
/// download waiting.
pub open spec fn plan_fits(plan: PlanView, scheduled: Seq<i64>) -> bool {
    &&& plan.tasks.len() == plan.ids.len()
    &&& (scheduled + plan.ids).no_duplicates()
    &&& forall|k: int|
        0 <= k < plan.tasks.len() ==> (#[trigger] plan.tasks[k]).status == DownloadStatus::Waiting
}

/// A plan that fits the run still fits it after more declarations.
pub proof fn lemma_with_all_fits(
    plan: PlanView,
    deps: Seq<DependencyView>,
    installed: Seq<LocalModView>,
    registry: Map<Seq<char>, ModInfoView>,
    scheduled: Seq<i64>,
    root_dest: Seq<char>,
)
    requires
        plan_fits(plan, scheduled),
    ensures
        plan_fits(plan.with_all(deps, installed, registry, scheduled, root_dest), scheduled),
    decreases deps.len(),
{
    if deps.len() > 0 {
        let next = plan.with(deps[0], installed, registry, scheduled, root_dest);
        if verdict(deps[0], installed, registry, scheduled + plan.ids) == Verdict::Wanted {
            let id = registry[deps[0].name].game_banana_id;
            assert(scheduled + next.ids =~= (scheduled + plan.ids).push(id));
        }
        lemma_with_all_fits(next, deps.skip(1), installed, registry, scheduled, root_dest);
    }
}

/// What a plan adds to a run whose scheduled ids are all different is new to
/// that run.
pub proof fn lemma_plan_fits(
    deps: Seq<DependencyView>,
    installed: Seq<LocalModView>,
    registry: Map<Seq<char>, ModInfoView>,
    scheduled: Seq<i64>,
    root_dest: Seq<char>,
)
    requires
        scheduled.no_duplicates(),
    ensures
        plan_fits(plan_spec(deps, installed, registry, scheduled, root_dest), scheduled),
{
    assert(scheduled + PlanView::empty().ids =~= scheduled);
    lemma_with_all_fits(PlanView::empty(), deps, installed, registry, scheduled, root_dest);
}

fn holds_id(ids: &Vec<i64>, id: i64) -> (b: bool)
    ensures
        b == ids@.contains(id),
{
    let mut i: usize = 0;
    while i < ids.len()
        invariant
            i <= ids.len(),
            forall|j: int| 0 <= j < i ==> ids@[j] != id,
        decreases ids.len() - i,
    {
        if ids[i] == id {
            return true;
        }
        i += 1;
    }
    false
}

/// Judges one declared dependency. `scheduled` and `planned` together hold
/// the ids of the mods that are on the worklist or about to be put there.
pub fn judge(
    dep: &ModDependency,
    installed: &Vec<LocalMod>,
    registry: &ModRegistry,
    scheduled: &Vec<i64>,
    planned: &Vec<i64>,
) -> (v: Verdict)
    ensures
        v == verdict(dep@, installed.deep_view(), registry@, scheduled@ + planned@),
{
    match satisfied(installed, dep.name.as_str(), dep.version.as_str()) {
        Err(_) => Verdict::Invalid,
        Ok(true) => Verdict::Satisfied,
        Ok(false) => match registry.get(dep.name.as_str()) {
            None => Verdict::Unresolved,
            Some(record) => {
                let id = record.game_banana_id;
                let known = holds_id(scheduled, id) || holds_id(planned, id);
                assert(known == (scheduled@ + planned@).contains(id)) by {
                    let all = scheduled@ + planned@;
                    if scheduled@.contains(id) {
                        let i = choose|i: int| 0 <= i < scheduled@.len() && scheduled@[i] == id;
                        assert(all[i] == id);
                    }
                    if planned@.contains(id) {
                        let i = choose|i: int| 0 <= i < planned@.len() && planned@[i] == id;
                        assert(all[scheduled@.len() + i] == id);
                    }
                    if all.contains(id) {
                        let i = choose|i: int| 0 <= i < all.len() && all[i] == id;
                        if i < scheduled@.len() {
                            assert(scheduled@[i] == id);
                        } else {
                            assert(planned@[i - scheduled@.len()] == id);
                        }
                    }
                }
                if known {
                    Verdict::Scheduled
                } else {
                    Verdict::Wanted
                }
            },
        },
    }
}

/// Judges the declarations of one manifest in their order and collects what
/// they add to the run.
pub fn plan_dependencies(
    deps: &Vec<ModDependency>,
    installed: &Vec<LocalMod>,
    registry: &ModRegistry,
    scheduled: &Vec<i64>,
    root_dest: &str,
) -> (plan: Plan)
    ensures
        plan@ == plan_spec(
            deps.deep_view(),
            installed.deep_view(),
            registry@,
            scheduled@,
            root_dest@,
        ),
{
    let ghost all = deps.deep_view();
    let ghost mods = installed.deep_view();
    let mut plan = Plan {
        tasks: Vec::new(),
        ids: Vec::new(),
        unresolved: Vec::new(),
        unreadable: Vec::new(),
    };
    let mut i: usize = 0;
    assert(all.skip(0) =~= all);
    assert(plan@.tasks =~= Seq::empty());
    assert(plan@.unresolved =~= Seq::empty());
    assert(plan@.unreadable =~= Seq::empty());
    assert(plan@ == PlanView::empty());
    while i < deps.len()
        invariant
            i <= deps.len(),
            all == deps.deep_view(),
            mods == installed.deep_view(),
            plan_spec(all, mods, registry@, scheduled@, root_dest@) == plan@.with_all(
                all.skip(i as int),
                mods,
                registry@,
                scheduled@,
                root_dest@,
            ),
        decreases deps.len() - i,
    {
        let dep = &deps[i];
        let ghost rest = all.skip(i as int);
        let ghost before = plan@;
        proof {
            assert(rest[0] == dep@);
            assert(rest.skip(1) =~= all.skip(i + 1));
        }
        match judge(dep, installed, registry, scheduled, &plan.ids) {
            Verdict::Satisfied => {},
            Verdict::Scheduled => {},
            Verdict::Invalid => {
                let copy = ModDependency {
                    name: dep.name.clone(),
                    version: dep.version.clone(),
                    optional: dep.optional,
                };
                plan.unreadable.push(copy);
                assert(plan@.unreadable =~= before.unreadable.push(dep@));
            },
            Verdict::Unresolved => {
                let name = dep.name.clone();
                plan.unresolved.push(name);
                assert(plan@.unresolved =~= before.unresolved.push(dep@.name));
            },
            Verdict::Wanted => {
                let record = registry.get(dep.name.as_str()).unwrap();
                let file = dep.name.clone().concat(".zip");
                let task = DownloadInfo {
                    name: dep.name.clone(),
                    url: record.download_url.clone(),
                    dest: with_file_name(root_dest, file.as_str()),
                    status: DownloadStatus::Waiting,
                    data: "0".to_owned(),
                };
                assert(task@ == dependency_task(
                    dep@.name,
                    registry@[dep@.name].download_url,
                    root_dest@,
                ));
                plan.tasks.push(task);
                plan.ids.push(record.game_banana_id);
                assert(plan@.tasks =~= before.tasks.push(task@));
            },
        }
        i += 1;
    }
    plan
}

} // verus!
