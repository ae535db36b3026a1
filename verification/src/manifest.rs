//! What a mod's manifest says, as plain values, and what is made of it: the
//! dependencies that a downloaded mod asks for, and the record of a mod that
//! is installed.

use crate::mods::{DependencyView, LocalMod, LocalModView, ModDependency};
use crate::registry::{ModInfoView, ModRegistry};
use strip_bom::StripBom;
use vstd::prelude::*;
use vstd::utf8::{decode_utf8, encode_utf8, valid_utf8};

verus! {

/// Why a manifest could not be used.
#[derive(Debug, Clone, Copy, PartialEq, Eq, Structural)]
pub enum ManifestError {
    /// The mod holds no manifest.
    ManifestMissing,
    /// The manifest is not text.
    NotUtf8,
    /// The manifest does not name its mod.
    MissingName,
    /// The manifest does not give the version of its mod.
    MissingVersion,
    /// A dependency of the manifest has no name.
    InterruptedDependency,
}

impl ManifestError {
    pub open spec fn text(self) -> Seq<char> {
        match self {
            ManifestError::ManifestMissing => "Failed to find everest.yaml"@,
            ManifestError::NotUtf8 => "The manifest is not valid UTF-8"@,
            ManifestError::MissingName => "The manifest names no mod"@,
            ManifestError::MissingVersion => "The manifest gives no version"@,
            ManifestError::InterruptedDependency => "Interrupted yaml dependency"@,
        }
    }

    /// The error in words.
    pub fn message(&self) -> (message: String)
        ensures
            message@ == self.text(),
    {
        match self {
            ManifestError::ManifestMissing => "Failed to find everest.yaml".to_owned(),
            ManifestError::NotUtf8 => "The manifest is not valid UTF-8".to_owned(),
            ManifestError::MissingName => "The manifest names no mod".to_owned(),
            ManifestError::MissingVersion => "The manifest gives no version".to_owned(),
            ManifestError::InterruptedDependency => "Interrupted yaml dependency".to_owned(),
        }
    }
}

/// The name under which a mod keeps its manifest.
pub open spec fn is_manifest_name(name: Seq<char>) -> bool {
    name == "everest.yaml"@ || name == "everest.yml"@
}

/// The index of the first of `names` that is the name of a manifest.
pub fn manifest_entry(names: &Vec<String>) -> (r: Result<usize, ManifestError>)
    ensures
        match r {
            Ok(i) => i < names.len() && is_manifest_name(names@[i as int]@) && forall|j: int|
                0 <= j < i ==> !is_manifest_name(#[trigger] names@[j]@),
            Err(e) => e == ManifestError::ManifestMissing && forall|j: int|
                0 <= j < names.len() ==> !is_manifest_name(#[trigger] names@[j]@),
        },
{
    let long = "everest.yaml".to_owned();
    let short = "everest.yml".to_owned();
    let mut i: usize = 0;
    while i < names.len()
        invariant
            i <= names.len(),
            long@ == "everest.yaml"@,
            short@ == "everest.yml"@,
            forall|j: int| 0 <= j < i ==> !is_manifest_name(#[trigger] names@[j]@),
        decreases names.len() - i,
    {
        if names[i] == long || names[i] == short {
            return Ok(i);
        }
        i += 1;
    }
    Err(ManifestError::ManifestMissing)
}

/// `text` without the byte order mark that it may begin with.
pub open spec fn without_bom(text: Seq<char>) -> Seq<char> {
    if text.len() > 0 && text[0] == '\u{feff}' {
        text.skip(1)
    } else {
        text
    }
}

/// `String::from_utf8` of std: it gives a string exactly for bytes that are
/// UTF-8, and the string is then the text that these bytes encode.
#[verifier::external_body]
fn text_of_utf8(bytes: Vec<u8>) -> (text: Option<String>)
    ensures
        text is Some <==> valid_utf8(bytes@),
        text is Some ==> encode_utf8(text->Some_0@) == bytes@,
{
    String::from_utf8(bytes).ok()
}

/// `StripBom::strip_bom` for `str`, of the crate strip_bom: where the text
/// begins with U+FEFF the result is the text after that one character, and
/// else it is the whole text.
#[verifier::external_body]
fn strip_leading_bom(text: &str) -> (rest: &str)
    ensures
        rest@ == without_bom(text@),
{
    text.strip_bom()
}

/// The text of a manifest from the bytes of its file: decoded as UTF-8,
/// without the byte order mark that editors put in front of it.
pub fn manifest_text(bytes: Vec<u8>) -> (r: Result<String, ManifestError>)
    ensures
        match r {
            Ok(text) => valid_utf8(bytes@) && text@ == without_bom(decode_utf8(bytes@)),
            Err(e) => e == ManifestError::NotUtf8 && !valid_utf8(bytes@),
        },
{
    match text_of_utf8(bytes) {
        None => Err(ManifestError::NotUtf8),
        Some(text) => {
            proof {
                vstd::utf8::encode_utf8_decode_utf8(text@);
            }
            Ok(strip_leading_bom(text.as_str()).to_owned())
        },
    }
}

/// The version of a mod or of a dependency as a manifest gives it: not at
/// all, as text, or as a bare number with a fraction, of which the written
/// form is kept.
#[derive(Debug)]
pub enum VersionField {
    Missing,
    Text(String),
    Number(String),
}

pub enum VersionFieldView {
    Missing,
    Text(Seq<char>),
    Number(Seq<char>),
}

impl View for VersionField {
    type V = VersionFieldView;

    open spec fn view(&self) -> VersionFieldView {
        match self {
            VersionField::Missing => VersionFieldView::Missing,
            VersionField::Text(text) => VersionFieldView::Text(text@),
            VersionField::Number(text) => VersionFieldView::Number(text@),
        }
    }
}

/// One entry of a dependency list of a manifest.
#[derive(Debug)]
pub struct DependencyEntry {
    pub name: Option<String>,
    pub version: VersionField,
}

pub struct DependencyEntryView {
    pub name: Option<Seq<char>>,
    pub version: VersionFieldView,
}

impl View for DependencyEntry {
    type V = DependencyEntryView;

    open spec fn view(&self) -> DependencyEntryView {
        DependencyEntryView { name: self.name.deep_view(), version: self.version@ }
    }
}

impl DeepView for DependencyEntry {
    type V = DependencyEntryView;

    open spec fn deep_view(&self) -> DependencyEntryView {
        self@
    }
}

/// The manifest of a mod, as read.
#[derive(Debug)]
pub struct Manifest {
    pub name: Option<String>,
    pub version: VersionField,
    pub dependencies: Vec<DependencyEntry>,
    pub optional_dependencies: Vec<DependencyEntry>,
}

pub struct ManifestView {
    pub name: Option<Seq<char>>,
    pub version: VersionFieldView,
    pub dependencies: Seq<DependencyEntryView>,
    pub optional_dependencies: Seq<DependencyEntryView>,
}

impl View for Manifest {
    type V = ManifestView;

    open spec fn view(&self) -> ManifestView {
        ManifestView {
            name: self.name.deep_view(),
            version: self.version@,
            dependencies: self.dependencies.deep_view(),
            optional_dependencies: self.optional_dependencies.deep_view(),
        }
    }
}

/// The version that a field stands for: what is written, whatever it is,
/// and `default` where nothing is written. A number with a fraction stands
/// in its written, dotted form. Text that is no version is not mended: it
/// is handed on as it is, for the comparison to refuse.
pub open spec fn version_text(field: VersionFieldView, default: Seq<char>) -> Seq<char> {
    match field {
        VersionFieldView::Text(text) => text,
        VersionFieldView::Number(text) => text,
        VersionFieldView::Missing => default,
    }
}

/// The version that a downloaded mod asks for where it names none.
pub open spec fn wanted_default() -> Seq<char> {
    "1.0.0"@
}

/// The version that an installed mod declares where it names none.
pub open spec fn declared_default() -> Seq<char> {
    "0.0.0"@
}

pub open spec fn all_named(entries: Seq<DependencyEntryView>) -> bool {
    forall|i: int| 0 <= i < entries.len() ==> (#[trigger] entries[i]).name is Some
}

/// The dependencies that a list of entries declares, in its order.
pub open spec fn listed_dependencies(
    entries: Seq<DependencyEntryView>,
    default: Seq<char>,
    optional: bool,
) -> Seq<DependencyView> {
    Seq::new(
        entries.len(),
        |i: int|
            DependencyView {
                name: entries[i].name->Some_0,
                version: version_text(entries[i].version, default),
                optional,
            },
    )
}

/// The dependencies of a manifest: the required ones, then the optional
/// ones, each list in its order.
pub open spec fn manifest_dependencies(manifest: ManifestView, default: Seq<char>) -> Seq<
    DependencyView,
> {
    listed_dependencies(manifest.dependencies, default, false) + listed_dependencies(
        manifest.optional_dependencies,
        default,
        true,
    )
}

/// Every entry of both dependency lists has a name.
pub open spec fn dependencies_named(manifest: ManifestView) -> bool {
    all_named(manifest.dependencies) && all_named(manifest.optional_dependencies)
}

/// The dependencies that a downloaded mod asks for, or why its manifest
/// cannot be used.
pub open spec fn wanted_dependencies_spec(manifest: ManifestView) -> Result<
    Seq<DependencyView>,
    ManifestError,
> {
    if dependencies_named(manifest) {
        Ok(manifest_dependencies(manifest, wanted_default()))
    } else {
        Err(ManifestError::InterruptedDependency)
    }
}

/// The id under which the registry knows the mod called `name`: -1 where
/// it does not know it.
pub open spec fn registry_id(registry: Map<Seq<char>, ModInfoView>, name: Seq<char>) -> i64 {
    if registry.contains_key(name) {
        registry[name].game_banana_id
    } else {
        -1i64
    }
}

/// The record of the installed mod that `manifest` describes and that is
/// kept under `file`, or why the manifest cannot be used. Every manifest
/// that names its mod and the version of it gives a record, whether the
/// registry knows the mod or not.
pub open spec fn installed_record(
    manifest: ManifestView,
    file: Seq<char>,
    registry: Map<Seq<char>, ModInfoView>,
) -> Result<LocalModView, ManifestError> {
    if !dependencies_named(manifest) {
        Err(ManifestError::InterruptedDependency)
    } else if manifest.name is None {
        Err(ManifestError::MissingName)
    } else if manifest.version is Missing {
        Err(ManifestError::MissingVersion)
    } else {
        Ok(
            LocalModView {
                game_banana_id: registry_id(registry, manifest.name->Some_0),
                name: manifest.name->Some_0,
                deps: manifest_dependencies(manifest, declared_default()),
                version: version_text(manifest.version, Seq::empty()),
                file,
            },
        )
    }
}

fn version_of(field: &VersionField, default: &str) -> (version: String)
    ensures
        version@ == version_text(field@, default@),
{
    match field {
        VersionField::Text(text) => text.clone(),
        VersionField::Number(text) => text.clone(),
        VersionField::Missing => default.to_owned(),
    }
}

/// The dependencies that a list of entries declares, or nothing where an
/// entry has no name.
fn dependencies_of(entries: &Vec<DependencyEntry>, default: &str, optional: bool) -> (r: Option<
    Vec<ModDependency>,
>)
    ensures
        r is Some <==> all_named(entries.deep_view()),
        r is Some ==> r->Some_0.deep_view() == listed_dependencies(
            entries.deep_view(),
            default@,
            optional,
        ),
{
    let ghost all = entries.deep_view();
    let ghost listed = listed_dependencies(all, default@, optional);
    let mut deps: Vec<ModDependency> = Vec::new();
    let mut i: usize = 0;
    while i < entries.len()
        invariant
            i <= entries.len(),
            all == entries.deep_view(),
            listed == listed_dependencies(all, default@, optional),
            forall|j: int| 0 <= j < i ==> (#[trigger] all[j]).name is Some,
            deps.deep_view() == listed.take(i as int),
        decreases entries.len() - i,
    {
        let entry = &entries[i];
        assert(all[i as int] == entry@);
        let name = match &entry.name {
            Some(name) => name.clone(),
            None => {
                return None;
            },
        };
        let ghost before = deps.deep_view();
        let dep = ModDependency { name, version: version_of(&entry.version, default), optional };
        deps.push(dep);
        assert(deps.deep_view() =~= before.push(dep@));
        i += 1;
        assert(deps.deep_view() =~= listed.take(i as int));
    }
    assert(listed.take(entries.len() as int) =~= listed);
    Some(deps)
}

/// The dependencies of a manifest, required ones before optional ones, or
/// nothing where an entry of either list has no name.
fn dependencies_of_manifest(manifest: &Manifest, default: &str) -> (r: Option<Vec<ModDependency>>)
    ensures
        r is Some <==> dependencies_named(manifest@),
        r is Some ==> r->Some_0.deep_view() == manifest_dependencies(manifest@, default@),
{
    let mut deps = match dependencies_of(&manifest.dependencies, default, false) {
        Some(deps) => deps,
        None => {
            return None;
        },
    };
    let mut optional = match dependencies_of(&manifest.optional_dependencies, default, true) {
        Some(deps) => deps,
        None => {
            return None;
        },
    };
    let ghost first = deps.deep_view();
    let ghost second = optional.deep_view();
    deps.append(&mut optional);
    assert(deps.deep_view() =~= first + second);
    Some(deps)
}

/// The dependencies that a downloaded mod asks for: those that its manifest
/// requires, then those that it calls optional, which are wanted alike. A
/// dependency without a version asks for `1.0.0`. An entry without a name
/// makes the whole manifest unusable.
pub fn wanted_dependencies(manifest: &Manifest) -> (r: Result<Vec<ModDependency>, ManifestError>)
    ensures
        match wanted_dependencies_spec(manifest@) {
            Ok(deps) => r is Ok && r->Ok_0.deep_view() == deps,
            Err(e) => r is Err && r->Err_0 == e,
        },
{
    match dependencies_of_manifest(manifest, "1.0.0") {
        Some(deps) => Ok(deps),
        None => Err(ManifestError::InterruptedDependency),
    }
}

impl LocalMod {
    /// The record of the installed mod that `manifest` describes and that
    /// is kept under `file`. Its id is the one that `registry` has for its
    /// name, and -1 where the registry does not know the mod. A dependency
    /// without a version counts as declared at `0.0.0`.
    pub fn from_manifest(manifest: &Manifest, file: String, registry: &ModRegistry) -> (r: Result<
        LocalMod,
        ManifestError,
    >)
        ensures
            match installed_record(manifest@, file@, registry@) {
                Ok(record) => r is Ok && r->Ok_0@ == record,
                Err(e) => r is Err && r->Err_0 == e,
            },
    {
        let deps = match dependencies_of_manifest(manifest, "0.0.0") {
            Some(deps) => deps,
            None => {
                return Err(ManifestError::InterruptedDependency);
            },
        };
        let name = match &manifest.name {
            Some(name) => name.clone(),
            None => {
                return Err(ManifestError::MissingName);
            },
        };
        let version = match &manifest.version {
            VersionField::Missing => {
                return Err(ManifestError::MissingVersion);
            },
            found => version_of(found, ""),
        };
        let game_banana_id = match registry.get(name.as_str()) {
            Some(record) => record.game_banana_id,
            None => -1,
        };
        Ok(LocalMod { game_banana_id, name, deps, version, file })
    }
}

/// Whether the manifest of an archive has to be taken out of it again: the
/// copy kept of it is not there, or has no time of change, or was changed
/// before the archive was.
pub open spec fn needs_extraction_spec(
    copy_exists: bool,
    copy_changed: Option<i128>,
    archive_changed: i128,
) -> bool {
    !copy_exists || copy_changed is None || copy_changed->Some_0 < archive_changed
}

/// Whether the manifest of an archive has to be taken out of it again,
/// from the times at which the archive and the copy kept of its manifest
/// were last changed.
pub fn needs_extraction(copy_exists: bool, copy_changed: Option<i128>, archive_changed: i128) -> (b:
    bool)
    ensures
        b == needs_extraction_spec(copy_exists, copy_changed, archive_changed),
{
    if !copy_exists {
        return true;
    }
    match copy_changed {
        None => true,
        Some(changed) => changed < archive_changed,
    }
}

} // verus!
