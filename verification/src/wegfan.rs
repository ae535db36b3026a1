//! The mod list as the mod list service sends it, and the registry records
//! that are made of it.

use crate::registry::{ModInfoCached, ModInfoView};
use vstd::prelude::*;

verus! {

/// A JSON value of any shape. The mod list carries some; nothing here looks
/// into one.
#[verifier::external_type_specification]
#[verifier::external_body]
pub struct ExJsonValue(serde_json::Value);

/// One mod of the mod list.
#[derive(Debug)]
pub struct Mod {
    pub id: String,
    pub create_time: String,
    pub update_time: String,
    pub delete_time: Option<serde_json::Value>,
    pub name: String,
    pub version: String,
    pub xx_hash: Vec<String>,
    pub submission_file: SubmissionFile,
}

/// The file that a mod of the mod list is downloaded as.
#[derive(Debug)]
pub struct SubmissionFile {
    pub id: String,
    pub create_time: String,
    pub update_time: String,
    pub delete_time: Option<serde_json::Value>,
    pub url: String,
    pub description: String,
    pub downloads: i64,
    pub size: i64,
    pub game_banana_id: Option<i64>,
    pub submission: Submission,
}

/// The submission that a file of the mod list belongs to.
#[derive(Debug)]
pub struct Submission {
    pub id: String,
    pub create_time: String,
    pub update_time: String,
    pub delete_time: Option<serde_json::Value>,
    pub name: String,
    pub submission_type: String,
    pub submitter: String,
    pub page_url: Option<String>,
    pub game_banana_section: Option<String>,
    pub game_banana_id: Option<i64>,
    pub category_id: Option<i64>,
    pub category_name: Option<String>,
    pub sub_category_id: Option<i64>,
    pub sub_category_name: Option<String>,
    pub latest_update_added_time: String,
}

/// An id as the registry keeps it: -1 where the mod list gives none.
pub open spec fn id_or_none(id: Option<i64>) -> i64 {
    match id {
        Some(id) => id,
        None => -1i64,
    }
}

impl Mod {
    /// The registry record that this mod of the mod list stands for. The
    /// id of the mod is that of its submission, and the id of its file is
    /// that of the file.
    pub open spec fn record(&self) -> ModInfoView {
        ModInfoView {
            name: self.name@,
            version: self.version@,
            game_banana_id: id_or_none(self.submission_file.submission.game_banana_id),
            game_banana_file_id: id_or_none(self.submission_file.game_banana_id),
            download_url: self.submission_file.url@,
        }
    }

    /// The registry record of this mod.
    pub fn to_mod_info(&self) -> (info: ModInfoCached)
        ensures
            info@ == self.record(),
    {
        ModInfoCached {
            name: self.name.clone(),
            version: self.version.clone(),
            game_banana_id: match self.submission_file.submission.game_banana_id {
                Some(id) => id,
                None => -1,
            },
            game_banana_file_id: match self.submission_file.game_banana_id {
                Some(id) => id,
                None => -1,
            },
            download_url: self.submission_file.url.clone(),
        }
    }
}

/// The registry records of a mod list, one for each mod and in its order.
pub fn mod_infos(listing: &Vec<Mod>) -> (infos: Vec<ModInfoCached>)
    ensures
        infos.deep_view() == listing@.map_values(|listed: Mod| listed.record()),
{
    let mut infos: Vec<ModInfoCached> = Vec::new();
    let mut i: usize = 0;
    while i < listing.len()
        invariant
            i <= listing.len(),
            infos.len() == i,
            forall|j: int| 0 <= j < i ==> infos.deep_view()[j] == listing@[j].record(),
        decreases listing.len() - i,
    {
        let ghost before = infos.deep_view();
        let info = listing[i].to_mod_info();
        infos.push(info);
        assert(infos.deep_view() =~= before.push(info@));
        i += 1;
    }
    assert(infos.deep_view() =~= listing@.map_values(|listed: Mod| listed.record()));
    infos
}

} // verus!
