use ficdata::metadata::FicMetadata;
use ficdata::persistence::{
    get_next_version, highest_version, should_download_fic, update_existing_metadata_fields,
    update_fic_metadata,
};

fn fic(id: &str, updated: &str) -> FicMetadata {
    FicMetadata::new(
        id.to_string(),
        format!("Fic {id}"),
        format!("https://archiveofourown.org/works/{id}"),
        updated.to_string(),
    )
}

#[test]
fn first_save_gets_version_one_and_later_saves_increment() {
    let mut saved = Vec::new();
    assert_eq!(get_next_version(&saved, "1"), 1);
    update_fic_metadata(&mut saved, fic("1", "2024-01-01"));
    assert_eq!(saved[0].version, 1);
    update_fic_metadata(&mut saved, fic("2", "2024-01-01"));
    update_fic_metadata(&mut saved, fic("1", "2024-02-01"));
    assert_eq!(saved.len(), 3);
    assert_eq!(saved[1].version, 1);
    assert_eq!(saved[2].version, 2);
    assert_eq!(saved[0].last_updated, "2024-01-01");
    assert_eq!(get_next_version(&saved, "1"), 3);
    assert_eq!(get_next_version(&saved, "2"), 2);
    assert_eq!(highest_version(&saved, "3"), 0);
}

#[test]
fn download_needed_for_new_or_updated_fics_only() {
    let mut saved = Vec::new();
    assert!(should_download_fic(&saved, &fic("1", "2024-01-01")));
    update_fic_metadata(&mut saved, fic("1", "2024-01-01"));
    assert!(!should_download_fic(&saved, &fic("1", "2024-01-01")));
    assert!(should_download_fic(&saved, &fic("1", "2024-03-01")));
    update_fic_metadata(&mut saved, fic("1", "2024-03-01"));
    assert!(!should_download_fic(&saved, &fic("1", "2024-03-01")));
    assert!(should_download_fic(&saved, &fic("1", "2024-01-01")));
}

#[test]
fn latest_version_decides_even_when_saved_out_of_order() {
    let mut a = fic("7", "new");
    a.version = 5;
    let mut b = fic("7", "old");
    b.version = 2;
    let saved = vec![a, b];
    assert!(!should_download_fic(&saved, &fic("7", "new")));
    assert!(should_download_fic(&saved, &fic("7", "old")));
}

#[test]
fn refreshing_keeps_versions_and_other_fics() {
    let mut saved = Vec::new();
    update_fic_metadata(&mut saved, fic("1", "2024-01-01"));
    update_fic_metadata(&mut saved, fic("2", "2024-01-01"));
    update_fic_metadata(&mut saved, fic("1", "2024-02-01"));
    saved[0].merged_tags = Some(vec!["x".to_string()]);
    let newer = fic("1", "2024-05-05").with_kudos(Some(10)).with_description("new".to_string());
    update_existing_metadata_fields(&mut saved, &newer);
    assert_eq!(saved.len(), 3);
    assert_eq!(saved[0].version, 1);
    assert_eq!(saved[2].version, 2);
    assert_eq!(saved[0].last_updated, "2024-05-05");
    assert_eq!(saved[2].kudos, Some(10));
    assert_eq!(saved[0].description, "new");
    assert_eq!(saved[0].merged_tags, Some(vec!["x".to_string()]));
    assert_eq!(saved[1].last_updated, "2024-01-01");
    assert_eq!(saved[1].kudos, None);
    assert!(!should_download_fic(&saved, &newer));
    assert_eq!(get_next_version(&saved, "1"), 3);
}

#[test]
fn refreshing_twice_is_refreshing_once() {
    let mut saved = Vec::new();
    update_fic_metadata(&mut saved, fic("1", "2024-01-01"));
    update_fic_metadata(&mut saved, fic("2", "2024-01-01"));
    update_fic_metadata(&mut saved, fic("1", "2024-02-01"));
    let newer = fic("1", "2024-06-06").with_hits(Some(3));
    update_existing_metadata_fields(&mut saved, &newer);
    let once: Vec<(String, u32, String, Option<u32>)> =
        saved.iter().map(|m| (m.id.clone(), m.version, m.last_updated.clone(), m.hits)).collect();
    update_existing_metadata_fields(&mut saved, &newer);
    let twice: Vec<(String, u32, String, Option<u32>)> =
        saved.iter().map(|m| (m.id.clone(), m.version, m.last_updated.clone(), m.hits)).collect();
    assert_eq!(once, twice);
    assert_eq!(twice[2], ("1".to_string(), 2, "2024-06-06".to_string(), Some(3)));
}
