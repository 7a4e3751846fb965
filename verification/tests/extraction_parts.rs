use ficdata::errors::FicDataError;
use ficdata::extraction::{
    capture_group, captured, collect_text, first_node_text, first_text, node_texts,
    parse_id_and_url, parse_labeled_dd, parse_last_updated, parse_stats_value, parse_title,
    strip_tags,
};

#[test]
fn element_texts_are_joined_and_normalised() {
    let nodes = vec![
        vec!["  Hello".to_string(), "world ".to_string()],
        vec![" ".to_string()],
        vec!["b".to_string()],
    ];
    assert_eq!(first_node_text(&nodes).as_deref(), Some("Hello world"));
    assert_eq!(node_texts(&nodes), vec!["Hello world", "b"]);
    assert_eq!(first_node_text(&vec![vec![" ".to_string()], vec!["x".to_string()]]), None);
    assert_eq!(first_node_text(&Vec::new()), None);
}

#[test]
fn selection_reads_the_document() {
    let html = "<p class='a'>one <b>two</b></p><p class='a'>three</p>";
    assert_eq!(first_text(html, "p.a").unwrap().as_deref(), Some("one two"));
    assert_eq!(collect_text(html, "p.a").unwrap(), vec!["one two", "three"]);
    assert_eq!(first_text(html, "p.b").unwrap(), None);
    assert!(matches!(first_text(html, "p[").unwrap_err(), FicDataError::SelectorError(_)));
}

#[test]
fn capture_groups() {
    let caps = Some(vec![Some("/works/12".to_string()), Some("12".to_string()), None]);
    assert_eq!(capture_group(caps.clone(), 1).as_deref(), Some("12"));
    assert_eq!(capture_group(caps.clone(), 2), None);
    assert_eq!(capture_group(caps, 5), None);
    assert_eq!(capture_group(None, 0), None);
    assert_eq!(captured("/works/(\\d+)", "see /works/77 now", 1).unwrap().as_deref(), Some("77"));
    assert_eq!(captured("/works/(\\d+)", "nothing", 0).unwrap(), None);
    assert!(matches!(captured("(", "x", 0).unwrap_err(), FicDataError::RegexError(_)));
}

#[test]
fn tags_are_stripped_and_labels_found() {
    assert_eq!(strip_tags("<a href='x'>Not</a>  <i>Rated</i>").unwrap(), "Not Rated");
    let html = "<dl><dt>Rating:</dt>\n<dd><a href='#'>General</a></dd><dt>Stats:</dt><dd>Words: 1,234 Chapters: 2/?</dd></dl>";
    assert_eq!(parse_labeled_dd(html, "Rating").unwrap().as_deref(), Some("General"));
    assert_eq!(parse_labeled_dd(html, "Fandom").unwrap(), None);
    let stats = parse_labeled_dd(html, "Stats").unwrap().unwrap();
    assert_eq!(parse_stats_value(&stats, "Words").unwrap().as_deref(), Some("1,234"));
    assert_eq!(parse_stats_value(&stats, "Chapters").unwrap().as_deref(), Some("2/?"));
    assert_eq!(parse_stats_value(&stats, "Kudos").unwrap(), None);
    assert_eq!(parse_labeled_dd("<dt>a.b</dt><dd>x</dd>", "a.b").unwrap().as_deref(), Some("x"));
    assert_eq!(parse_labeled_dd("<dt>axb</dt><dd>x</dd>", "a.b").unwrap(), None);
}

#[test]
fn title_id_url_and_date_fallbacks() {
    let html = "<html><head><title>T - Archive of Our Own</title></head><body><a href='/works/55/chapters/1'>x</a><p>2020-02-03</p></body></html>";
    assert_eq!(parse_title(html).unwrap(), "T");
    let (id, url) = parse_id_and_url(html).unwrap();
    assert_eq!(id, "55");
    assert_eq!(url, "https://archiveofourown.org/works/55");
    assert_eq!(parse_last_updated(html).unwrap(), "2020-02-03");
    let bare = "<html><body><p>nothing</p></body></html>";
    assert!(matches!(parse_title(bare).unwrap_err(), FicDataError::GenericError(m) if m == "Could not extract title from HTML"));
    assert!(matches!(parse_id_and_url(bare).unwrap_err(), FicDataError::GenericError(m) if m == "Could not extract fic id from HTML"));
    assert_eq!(parse_last_updated(bare).unwrap(), "");
}
