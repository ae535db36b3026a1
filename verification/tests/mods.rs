use celemod::mods::{satisfied, LocalMod};
use celemod::version::InvalidVersion;

fn installed(name: &str, version: &str) -> LocalMod {
    LocalMod {
        game_banana_id: 1,
        name: name.to_string(),
        deps: vec![],
        version: version.to_string(),
        file: format!("{name}.zip"),
    }
}

#[test]
fn a_newer_or_equal_installed_version_satisfies() {
    let mods = vec![installed("X", "2.0.0")];
    assert_eq!(satisfied(&mods, "X", "1.5.0"), Ok(true));
    assert_eq!(satisfied(&mods, "X", "2.0.0"), Ok(true));
    assert_eq!(satisfied(&mods, "X", "2"), Ok(true));
}

#[test]
fn an_older_installed_version_does_not_satisfy() {
    let mods = vec![installed("X", "2.0.0")];
    assert_eq!(satisfied(&mods, "X", "2.0.1"), Ok(false));
    assert_eq!(satisfied(&mods, "X", "10"), Ok(false));
}

#[test]
fn a_mod_that_is_not_installed_does_not_satisfy() {
    let mods = vec![installed("X", "2.0.0")];
    assert_eq!(satisfied(&mods, "Y", "1.0.0"), Ok(false));
    assert_eq!(satisfied(&mods, "x", "1.0.0"), Ok(false));
    assert_eq!(satisfied(&vec![], "X", "1.0.0"), Ok(false));
}

#[test]
fn mods_of_other_names_are_never_compared() {
    let mods = vec![installed("Broken", "not a version"), installed("X", "2.0.0")];
    assert_eq!(satisfied(&mods, "X", "1.0.0"), Ok(true));
    assert_eq!(satisfied(&mods, "Y", "also-bad"), Ok(false));
}

#[test]
fn any_installed_copy_that_is_new_enough_satisfies() {
    let mods = vec![installed("X", "1.0.0"), installed("X", "3.0.0")];
    assert_eq!(satisfied(&mods, "X", "2.0.0"), Ok(true));
    let mods = vec![installed("X", "3.0.0"), installed("X", "1.0.0")];
    assert_eq!(satisfied(&mods, "X", "2.0.0"), Ok(true));
}

#[test]
fn an_unreadable_version_is_neither_satisfied_nor_unsatisfied() {
    let mods = vec![installed("X", "2.0.0-beta")];
    assert_eq!(satisfied(&mods, "X", "1.0.0"), Err(InvalidVersion));
    let mods = vec![installed("X", "2.0.0")];
    assert_eq!(satisfied(&mods, "X", "1.x"), Err(InvalidVersion));
    assert_eq!(satisfied(&mods, "X", ""), Err(InvalidVersion));
    let mods = vec![installed("X", "2.0.0"), installed("X", "oops")];
    assert_eq!(satisfied(&mods, "X", "1.0.0"), Err(InvalidVersion));
    let mods = vec![installed("X", "oops"), installed("X", "2.0.0")];
    assert_eq!(satisfied(&mods, "X", "1.0.0"), Err(InvalidVersion));
}
