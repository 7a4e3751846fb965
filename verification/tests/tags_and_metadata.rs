use ficdata::metadata::{merge_tag, FicMetadata};
use ficdata::tag_map::TagMap;

fn sample() -> FicMetadata {
    FicMetadata::new(
        "12345".to_string(),
        "My Fic".to_string(),
        "https://archiveofourown.org/works/12345".to_string(),
        "2024-01-01".to_string(),
    )
}

#[test]
fn new_metadata_has_version_zero_and_empty_fields() {
    let m = sample();
    assert_eq!(m.id, "12345");
    assert_eq!(m.name, "My Fic");
    assert_eq!(m.last_updated, "2024-01-01");
    assert_eq!(m.version, 0);
    assert_eq!(m.description, "");
    assert!(m.authors.is_empty());
    assert_eq!(m.tags.len(), 0);
    assert_eq!(m.kudos, None);
    assert_eq!(m.merged_tags, None);
}

#[test]
fn builders_set_their_field() {
    let m = sample()
        .with_description("desc".to_string())
        .with_authors(vec!["a".to_string()])
        .with_kudos(Some(3))
        .with_words(Some(100))
        .with_hits(None)
        .with_language(Some("English".to_string()))
        .with_chapters(Some("1/1".to_string()))
        .with_series(vec!["S".to_string()])
        .with_fandom(vec!["F".to_string()])
        .with_ship_type(vec!["M/M".to_string()]);
    assert_eq!(m.description, "desc");
    assert_eq!(m.authors, vec!["a"]);
    assert_eq!(m.kudos, Some(3));
    assert_eq!(m.words, Some(100));
    assert_eq!(m.language.as_deref(), Some("English"));
    assert_eq!(m.chapters.as_deref(), Some("1/1"));
    assert_eq!(m.series, vec!["S"]);
    assert_eq!(m.fandom, vec!["F"]);
    assert_eq!(m.ship_type, vec!["M/M"]);
    assert_eq!(m.id, "12345");
}

#[test]
fn tag_map_insert_replaces_and_push_appends() {
    let mut t = TagMap::new();
    t.insert("freeforms".to_string(), vec!["Fluff".to_string()]);
    t.insert("warnings".to_string(), vec!["None".to_string()]);
    t.insert("freeforms".to_string(), vec!["Angst".to_string()]);
    assert_eq!(t.len(), 2);
    assert_eq!(*t.get("freeforms").unwrap(), vec!["Angst"]);
    t.push_value("freeforms".to_string(), "Fluff".to_string());
    t.push_value("rating".to_string(), "Teen".to_string());
    assert_eq!(*t.get("freeforms").unwrap(), vec!["Angst", "Fluff"]);
    assert_eq!(*t.get("rating").unwrap(), vec!["Teen"]);
    assert!(t.get("missing").is_none());
    assert_eq!(t.all_values(), vec!["Angst", "Fluff", "None", "Teen"]);
}

#[test]
fn get_tags_and_merge_tag() {
    let mut t = TagMap::new();
    t.insert("freeforms".to_string(), vec!["Fluff".to_string(), "Angst".to_string()]);
    t.insert("warnings".to_string(), vec!["No Archive Warnings Apply".to_string()]);
    let m = sample().with_tags(t);
    assert_eq!(m.get_tags("freeforms"), vec!["Fluff", "Angst"]);
    assert!(m.get_tags("relationships").is_empty());
    assert_eq!(merge_tag(&m), vec!["Fluff", "Angst", "No Archive Warnings Apply"]);
}

#[test]
fn file_names_carry_the_version_above_one() {
    let mut m = sample();
    assert_eq!(m.file_base_name(), "12345");
    m.version = 1;
    assert_eq!(m.file_base_name(), "12345");
    m.version = 12;
    assert_eq!(m.file_base_name(), "12345_v12");
    assert_eq!(
        m.download_file_paths("./out"),
        vec![
            "./out/12345_v12.html",
            "./out/12345_v12.pdf",
            "./out/12345_v12.epub",
            "./out/12345_v12.mobi",
            "./out/12345_v12.azw3",
        ]
    );
}
