//! What a mod declares about itself: the mods it depends on, and the record
//! of a mod that is installed in the mods folder.

use crate::version::{compare_spec, compare_version, is_version, InvalidVersion};
use vstd::prelude::*;

verus! {

/// One dependency that a manifest declares: a mod's name and the oldest
/// version of it that will do.
#[derive(Debug)]
pub struct ModDependency {
    pub name: String,
    pub version: String,
    pub optional: bool,
}

pub struct DependencyView {
    pub name: Seq<char>,
    pub version: Seq<char>,
    pub optional: bool,
}

impl View for ModDependency {
    type V = DependencyView;

    open spec fn view(&self) -> DependencyView {
        DependencyView { name: self.name@, version: self.version@, optional: self.optional }
    }
}

impl DeepView for ModDependency {
    type V = DependencyView;

    open spec fn deep_view(&self) -> DependencyView {
        self@
    }
}

/// A mod found in the mods folder.
#[derive(Debug)]
pub struct LocalMod {
    pub game_banana_id: i64,
    pub name: String,
    pub deps: Vec<ModDependency>,
    pub version: String,
    pub file: String,
}

pub struct LocalModView {
    pub game_banana_id: i64,
    pub name: Seq<char>,
    pub deps: Seq<DependencyView>,
    pub version: Seq<char>,
    pub file: Seq<char>,
}

impl View for LocalMod {
    type V = LocalModView;

    open spec fn view(&self) -> LocalModView {
        LocalModView {
            game_banana_id: self.game_banana_id,
            name: self.name@,
            deps: self.deps.deep_view(),
            version: self.version@,
            file: self.file@,
        }
    }
}

impl DeepView for LocalMod {
    type V = LocalModView;

    open spec fn deep_view(&self) -> LocalModView {
        self@
    }
}

/// The installed mod at `i` is called `name`, and its version cannot be
/// compared with `min_version`.
pub open spec fn blocks_comparison(
    installed: Seq<LocalModView>,
    name: Seq<char>,
    min_version: Seq<char>,
    i: int,
) -> bool {
    &&& 0 <= i < installed.len()
    &&& installed[i].name == name
    &&& !(is_version(installed[i].version) && is_version(min_version))
}

/// The installed mod at `i` is called `name` and is at least as new as
/// `min_version`.
pub open spec fn meets(
    installed: Seq<LocalModView>,
    name: Seq<char>,
    min_version: Seq<char>,
    i: int,
) -> bool {
    &&& 0 <= i < installed.len()
    &&& installed[i].name == name
    &&& is_version(installed[i].version)
    &&& is_version(min_version)
    &&& compare_spec(installed[i].version, min_version) >= 0
}

/// The answer that an installed mod meets the dependency.
pub open spec fn met() -> Result<bool, InvalidVersion> {
    Ok(true)
}

/// The answer that no installed mod meets the dependency.
pub open spec fn unmet() -> Result<bool, InvalidVersion> {
    Ok(false)
}

/// Whether a dependency on `name` at `min_version` is met by what is
/// installed. No answer is given where an installed mod of that name cannot
/// be compared with `min_version`: an unreadable version counts neither as
/// new enough nor as too old.
pub open spec fn satisfied_spec(
    installed: Seq<LocalModView>,
    name: Seq<char>,
    min_version: Seq<char>,
) -> Result<bool, InvalidVersion> {
    if exists|i: int| blocks_comparison(installed, name, min_version, i) {
        Err(InvalidVersion)
    } else {
        Ok(exists|i: int| meets(installed, name, min_version, i))
    }
}

/// Whether an installed mod called `name` is at version `min_version` or
/// newer. Mods of other names are never compared, whatever their versions.
pub fn satisfied(installed: &Vec<LocalMod>, name: &str, min_version: &str) -> (r: Result<
    bool,
    InvalidVersion,
>)
    ensures
        r == satisfied_spec(installed.deep_view(), name@, min_version@),
{
    let ghost mods = installed.deep_view();
    let wanted = name.to_owned();
    let mut found = false;
    let mut i: usize = 0;
    while i < installed.len()
        invariant
            i <= installed.len(),
            mods == installed.deep_view(),
            wanted@ == name@,
            forall|j: int| 0 <= j < i ==> !blocks_comparison(mods, name@, min_version@, j),
            found <==> exists|j: int| 0 <= j < i && meets(mods, name@, min_version@, j),
        decreases installed.len() - i,
    {
        let entry = &installed[i];
        assert(mods[i as int] == entry@);
        if entry.name == wanted {
            match compare_version(entry.version.as_str(), min_version) {
                Err(e) => {
                    assert(blocks_comparison(mods, name@, min_version@, i as int));
                    return Err(e);
                },
                Ok(order) => {
                    if order >= 0 {
                        assert(meets(mods, name@, min_version@, i as int));
                        found = true;
                    }
                },
            }
        }
        i += 1;
    }
    Ok(found)
}

} // verus!
