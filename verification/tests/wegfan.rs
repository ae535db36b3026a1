use celemod::wegfan::{mod_infos, Mod, Submission, SubmissionFile};

fn listing(name: &str, version: &str, file_id: Option<i64>, mod_id: Option<i64>) -> Mod {
    Mod {
        id: "m1".to_string(),
        create_time: "2023-01-01".to_string(),
        update_time: "2023-01-02".to_string(),
        delete_time: None,
        name: name.to_string(),
        version: version.to_string(),
        xx_hash: vec!["abcd".to_string()],
        submission_file: SubmissionFile {
            id: "f1".to_string(),
            create_time: "2023-01-01".to_string(),
            update_time: "2023-01-02".to_string(),
            delete_time: Some(serde_json::Value::Null),
            url: format!("https://files.example/{name}.zip"),
            description: "".to_string(),
            downloads: 10,
            size: 1000,
            game_banana_id: file_id,
            submission: Submission {
                id: "s1".to_string(),
                create_time: "2023-01-01".to_string(),
                update_time: "2023-01-02".to_string(),
                delete_time: None,
                name: "Submission name".to_string(),
                submission_type: "Mod".to_string(),
                submitter: "someone".to_string(),
                page_url: None,
                game_banana_section: None,
                game_banana_id: mod_id,
                category_id: None,
                category_name: None,
                sub_category_id: None,
                sub_category_name: None,
                latest_update_added_time: "2023-01-02".to_string(),
            },
        },
    }
}

#[test]
fn a_record_takes_the_ids_of_submission_and_file() {
    let info = listing("A", "1.2.3", Some(700), Some(55)).to_mod_info();
    assert_eq!(info.name, "A");
    assert_eq!(info.version, "1.2.3");
    assert_eq!(info.game_banana_id, 55);
    assert_eq!(info.game_banana_file_id, 700);
    assert_eq!(info.download_url, "https://files.example/A.zip");
}

#[test]
fn a_missing_id_is_kept_as_minus_one() {
    let info = listing("A", "1.2.3", None, None).to_mod_info();
    assert_eq!(info.game_banana_id, -1);
    assert_eq!(info.game_banana_file_id, -1);
    let info = listing("A", "1.2.3", Some(0), None).to_mod_info();
    assert_eq!(info.game_banana_id, -1);
    assert_eq!(info.game_banana_file_id, 0);
}

#[test]
fn a_mod_list_gives_its_records_in_order() {
    let infos = mod_infos(&vec![
        listing("B", "2", Some(2), Some(20)),
        listing("A", "1", Some(1), Some(10)),
        listing("B", "3", Some(3), Some(30)),
    ]);
    let got: Vec<(&str, &str, i64)> =
        infos.iter().map(|m| (m.name.as_str(), m.version.as_str(), m.game_banana_id)).collect();
    assert_eq!(got, vec![("B", "2", 20), ("A", "1", 10), ("B", "3", 30)]);
    assert!(mod_infos(&vec![]).is_empty());
}
