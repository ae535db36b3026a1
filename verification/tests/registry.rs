use celemod::registry::{get_mod_cached_new, is_using_cache, ModInfoCached};

fn record(name: &str, version: &str, id: i64) -> ModInfoCached {
    ModInfoCached {
        name: name.to_string(),
        version: version.to_string(),
        game_banana_id: id,
        game_banana_file_id: id * 10,
        download_url: format!("https://mods.example/{name}/{version}"),
    }
}

#[test]
fn fetched_list_is_used_and_is_not_stale() {
    let registry = get_mod_cached_new(
        Some(vec![record("A", "1.0.0", 1)]),
        Some(vec![record("A", "0.9.0", 1), record("B", "1.0.0", 2)]),
    );
    assert!(!is_using_cache(&registry));
    assert_eq!(registry.get("A").unwrap().version, "1.0.0");
    assert!(registry.get("B").is_none());
    assert!(!registry.contains_key("B"));
}

#[test]
fn kept_list_stands_in_when_the_fetch_failed() {
    let registry = get_mod_cached_new(None, Some(vec![record("A", "0.9.0", 1)]));
    assert!(is_using_cache(&registry));
    let found = registry.get("A").unwrap();
    assert_eq!(found.version, "0.9.0");
    assert_eq!(found.game_banana_id, 1);
    assert_eq!(found.game_banana_file_id, 10);
    assert_eq!(found.download_url, "https://mods.example/A/0.9.0");
}

#[test]
fn with_neither_list_the_registry_is_empty_and_not_stale() {
    let registry = get_mod_cached_new(None, None);
    assert!(!is_using_cache(&registry));
    assert!(registry.entries().is_empty());
    assert!(registry.get("A").is_none());
}

#[test]
fn an_empty_fetched_list_is_still_the_fetched_list() {
    let registry = get_mod_cached_new(Some(vec![]), Some(vec![record("A", "1", 1)]));
    assert!(!is_using_cache(&registry));
    assert!(registry.get("A").is_none());
}

#[test]
fn the_last_record_of_a_name_stands_for_it() {
    let registry = get_mod_cached_new(
        Some(vec![
            record("A", "1.0.0", 1),
            record("B", "1.0.0", 2),
            record("A", "2.0.0", 3),
            record("C", "1.0.0", 4),
            record("A", "3.0.0", 5),
        ]),
        None,
    );
    let a = registry.get("A").unwrap();
    assert_eq!(a.version, "3.0.0");
    assert_eq!(a.game_banana_id, 5);
    assert_eq!(registry.entries().len(), 3);
    let mut names: Vec<&str> = registry.entries().iter().map(|m| m.name.as_str()).collect();
    names.sort();
    assert_eq!(names, vec!["A", "B", "C"]);
    assert_eq!(registry.get("B").unwrap().game_banana_id, 2);
    assert_eq!(registry.get("C").unwrap().game_banana_id, 4);
}

#[test]
fn names_are_told_apart_by_case() {
    let registry = get_mod_cached_new(Some(vec![record("Mod", "1", 1), record("mod", "2", 2)]), None);
    assert_eq!(registry.get("Mod").unwrap().game_banana_id, 1);
    assert_eq!(registry.get("mod").unwrap().game_banana_id, 2);
    assert!(registry.get("MOD").is_none());
    assert!(registry.contains_key("mod"));
}
