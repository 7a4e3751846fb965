use ficdata::errors::FicDataError;
use ficdata::loading::{load_step, LoadAction, LoadEvent, LoadStage};
use ficdata::metadata::FicMetadata;
use ficdata::rows::{to_i32_opt, to_row, to_u32_opt, FicMetadataRow};
use ficdata::tag_map::TagMap;

fn sample() -> FicMetadata {
    let mut tags = TagMap::new();
    tags.insert("warnings".to_string(), vec!["None".to_string()]);
    tags.insert("freeforms".to_string(), vec!["Fluff \"quoted\"".to_string(), "Angst".to_string()]);
    let mut m = FicMetadata::new(
        "42".to_string(),
        "Title".to_string(),
        "https://archiveofourown.org/works/42".to_string(),
        "2024-01-01".to_string(),
    )
    .with_tags(tags)
    .with_authors(vec!["a".to_string(), "b".to_string()])
    .with_kudos(Some(5))
    .with_hits(Some(2147483647))
    .with_language(Some("English".to_string()));
    m.version = 3;
    m.merged_tags = Some(vec!["Fluff".to_string()]);
    m
}

fn message(e: FicDataError) -> String {
    match e {
        FicDataError::GenericError(m) => m,
        other => panic!("unexpected error {other:?}"),
    }
}

#[test]
fn row_round_trip_restores_the_metadata() {
    let m = sample();
    let row = to_row(&m).expect("row");
    assert_eq!(row.version, 3);
    assert_eq!(row.authors_json, "[\"a\",\"b\"]");
    assert_eq!(row.kudos, Some(5));
    let back = FicMetadata::try_from(row).expect("metadata");
    assert_eq!(back.id, "42");
    assert_eq!(back.version, 3);
    assert_eq!(back.authors, vec!["a", "b"]);
    assert_eq!(back.hits, Some(2147483647));
    assert_eq!(back.language.as_deref(), Some("English"));
    assert_eq!(*back.tags.get("freeforms").unwrap(), vec!["Fluff \"quoted\"", "Angst"]);
    assert_eq!(*back.tags.get("warnings").unwrap(), vec!["None"]);
    assert_eq!(back.merged_tags, None);
}

#[test]
fn values_out_of_range_are_refused_with_their_value() {
    let mut m = sample();
    m.version = 3000000000;
    assert_eq!(message(to_row(&m).unwrap_err()), "version value out of range: 3000000000");
    let m = sample().with_words(Some(4294967295));
    assert_eq!(message(to_row(&m).unwrap_err()), "words value out of range: 4294967295");
    assert_eq!(message(to_u32_opt(Some(-7), "kudos").unwrap_err()), "kudos value out of range: -7");
    assert_eq!(
        message(to_u32_opt(Some(i32::MIN), "hits").unwrap_err()),
        "hits value out of range: -2147483648"
    );
    assert_eq!(to_u32_opt(Some(0), "hits").unwrap(), Some(0));
    assert_eq!(to_i32_opt(None, "hits").unwrap(), None);
}

#[test]
fn bad_rows_are_refused() {
    let mut row: FicMetadataRow = to_row(&sample()).unwrap();
    row.version = -1;
    assert_eq!(
        message(FicMetadata::try_from(row).unwrap_err()),
        "metadata version out of range for fic 42"
    );
    let mut row = to_row(&sample()).unwrap();
    row.fandom_json = "not json".to_string();
    assert!(message(FicMetadata::try_from(row).unwrap_err())
        .starts_with("failed to parse fandom_json JSON field: "));
    let mut row = to_row(&sample()).unwrap();
    row.words = Some(-3);
    assert_eq!(message(FicMetadata::try_from(row).unwrap_err()), "words value out of range: -3");
}

fn run(exists: bool, sqlite: Option<Vec<FicMetadata>>, bz2: Option<Vec<FicMetadata>>, json: Option<Vec<FicMetadata>>) -> (Vec<FicMetadata>, bool) {
    let mut stage = LoadStage::Start;
    let mut event = LoadEvent::Begin;
    let (mut sqlite, mut bz2, mut json) = (sqlite, bz2, json);
    let mut imported = false;
    loop {
        let (next, action) = load_step(stage, event);
        stage = next;
        event = match action {
            LoadAction::CheckSqliteFile => LoadEvent::SqliteFileExists(exists),
            LoadAction::ReadSqlite => LoadEvent::SqliteRead(sqlite.take()),
            LoadAction::ReadBzip2Export => LoadEvent::ExportRead(bz2.take()),
            LoadAction::ReadJsonExport => LoadEvent::ExportRead(json.take()),
            LoadAction::ImportIntoSqlite(v) => {
                imported = true;
                LoadEvent::Imported(v)
            }
            LoadAction::Done(v) => return (v, imported),
        };
    }
}

fn ids(v: &[FicMetadata]) -> Vec<String> {
    v.iter().map(|m| m.id.clone()).collect()
}

fn one(id: &str) -> Option<Vec<FicMetadata>> {
    Some(vec![FicMetadata::new(id.to_string(), String::new(), String::new(), String::new())])
}

#[test]
fn loading_prefers_sqlite_then_exports() {
    let (v, imp) = run(true, one("db"), one("bz"), one("js"));
    assert_eq!((ids(&v), imp), (vec!["db".to_string()], false));
    let (v, imp) = run(true, None, one("bz"), one("js"));
    assert_eq!((ids(&v), imp), (vec!["bz".to_string()], false));
    let (v, imp) = run(false, one("db"), None, one("js"));
    assert_eq!((ids(&v), imp), (vec!["js".to_string()], true));
    let (v, imp) = run(false, None, None, None);
    assert_eq!((ids(&v), imp), (Vec::<String>::new(), false));
    let (_, next) = load_step(LoadStage::Importing, LoadEvent::Begin);
    assert!(matches!(next, LoadAction::Done(ref v) if v.is_empty()));
}
