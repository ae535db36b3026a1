//! The rules of a mod manager for a game whose mods depend on one another.
//!
//! A download run starts with one mod. Each mod that has been downloaded
//! declares the mods it depends on; those that are not installed in a version
//! that is new enough, and that the registry of published mods knows, are put
//! at the end of the worklist, each mod once. The run takes its tasks in
//! order and ends with the last of them, or with the first that fails.
//!
//! - [`version`]: the order of dotted versions; [`version_laws`]: what holds
//!   of that order.
//! - [`registry`]: the published mods by name; [`wegfan`]: the mod list that
//!   the registry is made of.
//! - [`mods`], [`manifest`]: what a mod declares, and what is installed.
//! - [`tasks`], [`plan`], [`run`]: the worklist, what a manifest adds to it,
//!   and the run itself; [`laws`]: what holds of every run.
//! - [`paths`], [`text`], [`search`]: file names, characters, and finding
//!   one text in another.
//! - [`everest`], [`aria2c`]: reading the build of the mod loader out of the
//!   game's files, and the progress out of what the download program prints.
//!
//! Nothing here reads or writes a file, talks to the network or starts a
//! program: whoever uses the library does that, and hands over what came of
//! it.

pub mod aria2c;
pub mod everest;
pub mod laws;
pub mod manifest;
pub mod mods;
pub mod paths;
pub mod plan;
pub mod registry;
pub mod run;
pub mod search;
pub mod tasks;
pub mod text;
pub mod version;
pub mod version_laws;
pub mod wegfan;
