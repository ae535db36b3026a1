use celemod::manifest::{
    manifest_entry, manifest_text, needs_extraction, wanted_dependencies, DependencyEntry, Manifest,
    ManifestError, VersionField,
};
use celemod::version::{compare_version, InvalidVersion};
use celemod::mods::LocalMod;
use celemod::registry::{get_mod_cached_new, ModInfoCached, ModRegistry};

fn entry(name: Option<&str>, version: VersionField) -> DependencyEntry {
    DependencyEntry { name: name.map(|n| n.to_string()), version }
}

fn text(v: &str) -> VersionField {
    VersionField::Text(v.to_string())
}

fn registry() -> ModRegistry {
    get_mod_cached_new(
        Some(vec![ModInfoCached {
            name: "Known".to_string(),
            version: "1.0.0".to_string(),
            game_banana_id: 42,
            game_banana_file_id: 4200,
            download_url: "https://mods.example/Known".to_string(),
        }]),
        None,
    )
}

#[test]
fn the_manifest_is_found_under_either_of_its_names() {
    let names = vec!["Maps/a.bin".to_string(), "everest.yaml".to_string(), "everest.yml".to_string()];
    assert_eq!(manifest_entry(&names), Ok(1));
    let names = vec!["everest.yml".to_string()];
    assert_eq!(manifest_entry(&names), Ok(0));
}

#[test]
fn a_mod_without_a_manifest_is_reported() {
    let names = vec!["Everest.yaml".to_string(), "dir/everest.yaml".to_string(), "everest.yaml.bak".to_string()];
    assert_eq!(manifest_entry(&names), Err(ManifestError::ManifestMissing));
    assert_eq!(manifest_entry(&vec![]), Err(ManifestError::ManifestMissing));
}

#[test]
fn a_byte_order_mark_is_taken_off_the_manifest() {
    let mut bytes = vec![0xef, 0xbb, 0xbf];
    bytes.extend_from_slice("- Name: A\n".as_bytes());
    assert_eq!(manifest_text(bytes), Ok("- Name: A\n".to_string()));
}

#[test]
fn a_manifest_without_a_byte_order_mark_is_kept_whole() {
    assert_eq!(manifest_text("- Name: 蔚蓝\n".as_bytes().to_vec()), Ok("- Name: 蔚蓝\n".to_string()));
    assert_eq!(manifest_text(vec![]), Ok(String::new()));
}

#[test]
fn only_a_leading_byte_order_mark_is_taken_off() {
    let source = "\u{feff}\u{feff}a\u{feff}";
    assert_eq!(manifest_text(source.as_bytes().to_vec()), Ok("\u{feff}a\u{feff}".to_string()));
}

#[test]
fn a_manifest_that_is_not_text_is_reported() {
    assert_eq!(manifest_text(vec![0x2d, 0xff, 0x20]), Err(ManifestError::NotUtf8));
    assert_eq!(manifest_text(vec![0xef, 0xbb]), Err(ManifestError::NotUtf8));
}

fn manifest(
    name: Option<&str>,
    version: VersionField,
    dependencies: Vec<DependencyEntry>,
    optional_dependencies: Vec<DependencyEntry>,
) -> Manifest {
    Manifest { name: name.map(|n| n.to_string()), version, dependencies, optional_dependencies }
}

fn listed(deps: &Vec<celemod::mods::ModDependency>) -> Vec<(&str, &str, bool)> {
    deps.iter().map(|d| (d.name.as_str(), d.version.as_str(), d.optional)).collect()
}

#[test]
fn a_wanted_version_is_handed_on_as_it_is_written() {
    let m = manifest(
        Some("A"),
        text("1.0.0"),
        vec![
            entry(Some("A"), text("1.2.3")),
            entry(Some("B"), text("1.0.0-beta")),
            entry(Some("C"), VersionField::Number("1.1".to_string())),
            entry(Some("D"), text("")),
            entry(Some("E"), text("...")),
            entry(Some("F"), text("1.0 ")),
        ],
        vec![],
    );
    let deps = wanted_dependencies(&m).unwrap();
    assert_eq!(
        listed(&deps),
        vec![
            ("A", "1.2.3", false),
            ("B", "1.0.0-beta", false),
            ("C", "1.1", false),
            ("D", "", false),
            ("E", "...", false),
            ("F", "1.0 ", false),
        ]
    );
}

#[test]
fn a_version_that_is_no_version_is_refused_by_the_comparison() {
    let m = manifest(Some("A"), text("1.0.0"), vec![entry(Some("B"), text("1.0.0-beta"))], vec![]);
    let deps = wanted_dependencies(&m).unwrap();
    assert_eq!(deps[0].version, "1.0.0-beta");
    assert_eq!(compare_version("1.0.0", &deps[0].version), Err(InvalidVersion));
}

#[test]
fn only_a_dependency_without_a_version_asks_for_one_zero_zero() {
    let m = manifest(Some("A"), text("1.0.0"), vec![entry(Some("B"), VersionField::Missing)], vec![]);
    assert_eq!(listed(&wanted_dependencies(&m).unwrap()), vec![("B", "1.0.0", false)]);
}

#[test]
fn optional_dependencies_are_wanted_after_the_required_ones() {
    let m = manifest(
        Some("A"),
        text("1.0.0"),
        vec![entry(Some("B"), text("1.0.0")), entry(Some("C"), text("2.0.0"))],
        vec![entry(Some("O"), text("3.0.0")), entry(Some("P"), VersionField::Missing)],
    );
    assert_eq!(
        listed(&wanted_dependencies(&m).unwrap()),
        vec![("B", "1.0.0", false), ("C", "2.0.0", false), ("O", "3.0.0", true), ("P", "1.0.0", true)]
    );
}

#[test]
fn a_dependency_without_a_name_spoils_the_manifest() {
    let m = manifest(
        Some("A"),
        text("1.0.0"),
        vec![entry(Some("B"), text("1.0.0")), entry(None, text("1.0.0"))],
        vec![],
    );
    assert_eq!(wanted_dependencies(&m).err(), Some(ManifestError::InterruptedDependency));
    let m = manifest(Some("A"), text("1.0.0"), vec![], vec![entry(None, text("1.0.0"))]);
    assert_eq!(wanted_dependencies(&m).err(), Some(ManifestError::InterruptedDependency));
    assert_eq!(
        LocalMod::from_manifest(&m, "A.zip".to_string(), &registry()).err(),
        Some(ManifestError::InterruptedDependency)
    );
    assert_eq!(ManifestError::InterruptedDependency.message(), "Interrupted yaml dependency");
    assert_eq!(ManifestError::ManifestMissing.message(), "Failed to find everest.yaml");
}

#[test]
fn a_manifest_without_dependencies_wants_none() {
    let m = manifest(None, VersionField::Missing, vec![], vec![]);
    assert!(wanted_dependencies(&m).unwrap().is_empty());
}

#[test]
fn an_installed_mod_gets_the_id_of_the_registry_and_both_dependency_lists() {
    let m = manifest(
        Some("Known"),
        text("2.1.0"),
        vec![entry(Some("Everest"), text("1.3000.0")), entry(Some("Helper"), VersionField::Missing)],
        vec![
            entry(Some("Extra"), VersionField::Number("1.1".to_string())),
            entry(Some("Odd"), text("1.0-rc")),
        ],
    );
    let found: LocalMod = LocalMod::from_manifest(&m, "Known.zip".to_string(), &registry()).unwrap();
    assert_eq!(found.game_banana_id, 42);
    assert_eq!(found.name, "Known");
    assert_eq!(found.version, "2.1.0");
    assert_eq!(found.file, "Known.zip");
    assert_eq!(
        listed(&found.deps),
        vec![
            ("Everest", "1.3000.0", false),
            ("Helper", "0.0.0", false),
            ("Extra", "1.1", true),
            ("Odd", "1.0-rc", true),
        ]
    );
}

#[test]
fn an_installed_mod_that_the_registry_does_not_know_has_a_record_too() {
    let m = manifest(Some("Homemade"), text("0.1.0"), vec![], vec![]);
    let found = LocalMod::from_manifest(&m, "Homemade".to_string(), &registry()).unwrap();
    assert_eq!(found.game_banana_id, -1);
    assert_eq!(found.name, "Homemade");
    assert_eq!(found.version, "0.1.0");
    assert_eq!(found.file, "Homemade");
    assert!(found.deps.is_empty());
}

#[test]
fn a_version_written_as_a_number_is_kept_in_its_dotted_form() {
    let m = manifest(Some("Known"), VersionField::Number("1.1".to_string()), vec![], vec![]);
    let found = LocalMod::from_manifest(&m, "Known.zip".to_string(), &registry()).unwrap();
    assert_eq!(found.version, "1.1");
    assert_eq!(compare_version(&found.version, "1.1.0"), Ok(0));
}

#[test]
fn a_manifest_without_name_or_version_is_reported() {
    let nameless = manifest(None, text("1.0.0"), vec![], vec![]);
    assert_eq!(
        LocalMod::from_manifest(&nameless, "x.zip".to_string(), &registry()).err(),
        Some(ManifestError::MissingName)
    );
    let versionless = manifest(Some("Known"), VersionField::Missing, vec![], vec![]);
    assert_eq!(
        LocalMod::from_manifest(&versionless, "x.zip".to_string(), &registry()).err(),
        Some(ManifestError::MissingVersion)
    );
    let neither = manifest(None, VersionField::Missing, vec![], vec![]);
    assert_eq!(
        LocalMod::from_manifest(&neither, "x.zip".to_string(), &registry()).err(),
        Some(ManifestError::MissingName)
    );
}

#[test]
fn a_manifest_is_taken_out_again_when_its_copy_is_missing_or_older() {
    assert!(needs_extraction(false, None, 10));
    assert!(needs_extraction(false, Some(20), 10));
    assert!(needs_extraction(true, None, 10));
    assert!(needs_extraction(true, Some(9), 10));
    assert!(needs_extraction(true, Some(-5), -4));
}

#[test]
fn a_copy_that_is_as_new_as_its_archive_is_kept() {
    assert!(!needs_extraction(true, Some(10), 10));
    assert!(!needs_extraction(true, Some(11), 10));
    assert!(!needs_extraction(true, Some(0), -1));
}
