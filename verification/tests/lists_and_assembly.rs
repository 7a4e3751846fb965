use ficdata::compress::{compress_export, decompress_export};
use ficdata::errors::FicDataError;
use ficdata::extraction::{assemble_metadata, build_work_url, parse_labeled_dd, parse_stats_value, PageFields};
use ficdata::metadata::FicMetadata;
use ficdata::rows::{metadata_of_rows, rows_of, to_row};
use ficdata::tag_map::TagMap;
use ficdata::text::normalize_text;

fn record(id: &str, version: u32) -> FicMetadata {
    let mut tags = TagMap::new();
    tags.insert("fandoms".to_string(), vec!["F".to_string()]);
    let mut m = FicMetadata::new(
        id.to_string(),
        format!("Title {id}"),
        format!("https://archiveofourown.org/works/{id}"),
        "2024-02-03".to_string(),
    )
    .with_tags(tags)
    .with_series(vec!["S".to_string()])
    .with_words(Some(1000));
    m.version = version;
    m.merged_tags = Some(vec!["F".to_string()]);
    m
}

fn message(e: FicDataError) -> String {
    match e {
        FicDataError::GenericError(m) => m,
        other => panic!("unexpected error {other:?}"),
    }
}

#[test]
fn a_list_stored_as_rows_reads_back_in_order() {
    let list = vec![record("1", 1), record("2", 4), record("1", 2)];
    let rows = rows_of(&list).expect("rows");
    assert_eq!(rows.len(), 3);
    assert_eq!(rows[1].id, "2");
    assert_eq!(rows[1].version, 4);
    let back = metadata_of_rows(rows).expect("metadata");
    assert_eq!(back.len(), 3);
    for (b, m) in back.iter().zip(list.iter()) {
        assert_eq!(b.id, m.id);
        assert_eq!(b.version, m.version);
        assert_eq!(b.name, m.name);
        assert_eq!(b.series, m.series);
        assert_eq!(b.words, m.words);
        assert_eq!(*b.tags.get("fandoms").unwrap(), vec!["F"]);
        assert_eq!(b.merged_tags, None);
    }
    assert!(metadata_of_rows(Vec::new()).unwrap().is_empty());
    assert!(rows_of(&Vec::new()).unwrap().is_empty());
}

#[test]
fn a_list_with_an_unstorable_record_gives_its_error() {
    let list = vec![record("1", 1), record("2", 3000000000), record("3", 4000000000)];
    assert_eq!(message(rows_of(&list).unwrap_err()), "version value out of range: 3000000000");
}

#[test]
fn a_list_of_rows_with_a_bad_row_gives_the_first_error() {
    let mut rows = rows_of(&vec![record("1", 1), record("2", 2), record("3", 3)]).unwrap();
    rows[1].version = -1;
    rows[2].kudos = Some(-5);
    assert_eq!(
        message(metadata_of_rows(rows).unwrap_err()),
        "metadata version out of range for fic 2"
    );
    let mut row = to_row(&record("4", 1)).unwrap();
    row.series_json = "{".to_string();
    assert!(message(metadata_of_rows(vec![row]).unwrap_err())
        .starts_with("failed to parse series_json JSON field: "));
}

#[test]
fn compressed_exports_decompress_to_the_same_text() {
    let json = "[{\"id\":\"1\",\"name\":\"Ünïcode ✓\"}]";
    let data = compress_export(json).expect("compressed");
    assert_ne!(data.as_slice(), json.as_bytes());
    assert!(data.starts_with(b"BZh9"));
    assert_eq!(decompress_export(&data).as_deref(), Some(json));
    assert_eq!(decompress_export(b"not bzip2"), None);
    let empty = compress_export("").unwrap();
    assert_eq!(decompress_export(&empty).as_deref(), Some(""));
}

#[test]
fn normalising_twice_is_normalising_once() {
    for s in ["  a \t b\n\nc  ", "", "   ", "x", "a\u{3000}b\u{85}"] {
        let once = normalize_text(s);
        assert_eq!(normalize_text(&once), once);
    }
    assert_eq!(normalize_text("  a \t b\n\nc  "), "a b c");
}

#[test]
fn labels_with_regex_characters_are_matched_literally() {
    let html = "<dl><dt>a.b (x)+:</dt><dd> value </dd></dl>";
    assert_eq!(parse_labeled_dd(html, "a.b (x)+").unwrap().as_deref(), Some("value"));
    let other = "<dl><dt>aXb x:</dt><dd>value</dd></dl>";
    assert_eq!(parse_labeled_dd(other, "a.b (x)+").unwrap(), None);
    assert_eq!(parse_stats_value("W.rds: 1,234", "W.rds").unwrap().as_deref(), Some("1,234"));
    assert_eq!(parse_stats_value("Wards: 1,234", "W.rds").unwrap(), None);
}

#[test]
fn work_urls_keep_absolute_links_only() {
    assert_eq!(build_work_url("https://example.org/works/5".to_string(), "5"), "https://example.org/works/5");
    assert_eq!(build_work_url("http://x/works/5".to_string(), "5"), "http://x/works/5");
    assert_eq!(build_work_url("/works/5/chapters/2".to_string(), "5"), "https://archiveofourown.org/works/5");
    assert_eq!(build_work_url("".to_string(), "77"), "https://archiveofourown.org/works/77");
}

fn fields() -> PageFields {
    let mut tags = TagMap::new();
    tags.insert("fandoms".to_string(), vec!["Fandom A".to_string(), "Fandom B".to_string()]);
    tags.insert("categories".to_string(), vec!["F/M".to_string()]);
    PageFields {
        id: "9".to_string(),
        url: "https://archiveofourown.org/works/9".to_string(),
        name: "Name".to_string(),
        last_updated: "2023-05-06".to_string(),
        tags,
        description: None,
        authors: vec!["au".to_string()],
        language: None,
        labeled_language: Some("English".to_string()),
        chapters: None,
        stats_chapters: Some("3/?".to_string()),
        kudos: Some("1,234".to_string()),
        words: Some("many".to_string()),
        stats_words: Some("12,345".to_string()),
        hits: Some("-4".to_string()),
        series: Vec::new(),
    }
}

#[test]
fn metadata_is_assembled_with_its_fallbacks() {
    let m = assemble_metadata(fields());
    assert_eq!(m.id, "9");
    assert_eq!(m.version, 0);
    assert_eq!(m.description, "");
    assert_eq!(m.fandom, vec!["Fandom A", "Fandom B"]);
    assert_eq!(m.ship_type, vec!["F/M"]);
    assert_eq!(m.language.as_deref(), Some("English"));
    assert_eq!(m.chapters.as_deref(), Some("3/?"));
    assert_eq!(m.kudos, Some(1234));
    assert_eq!(m.words, Some(12345));
    assert_eq!(m.hits, None);
    assert_eq!(m.authors, vec!["au"]);
    assert!(m.series.is_empty());
    assert_eq!(m.merged_tags, None);

    let mut f = fields();
    f.description = Some("Summary".to_string());
    f.language = Some("Deutsch".to_string());
    f.chapters = Some("1/1".to_string());
    f.words = Some("+7".to_string());
    f.tags = TagMap::new();
    let m = assemble_metadata(f);
    assert_eq!(m.description, "Summary");
    assert_eq!(m.language.as_deref(), Some("Deutsch"));
    assert_eq!(m.chapters.as_deref(), Some("1/1"));
    assert_eq!(m.words, Some(7));
    assert!(m.fandom.is_empty());
    assert!(m.ship_type.is_empty());
}
