use ficdata::extraction::extract_metadata_from_downloaded_html;

    #[test]
    fn extracts_metadata_from_ao3_like_downloaded_html() {
        let html = r#"
<!doctype html>
<html>
<head><title>Example Fic - Archive of Our Own</title></head>
<body>
<a href="/works/12345">Work Link</a>
<h1 class="title heading">Example Fic</h1>
<h2 class="byline heading"><a rel="author" href="/users/author">author_name</a></h2>
<blockquote class="userstuff summary">A short summary.</blockquote>
<dl class="meta">
  <dd class="rating tags"><a class="tag">Teen And Up Audiences</a></dd>
  <dd class="warning tags"><a class="tag">No Archive Warnings Apply</a></dd>
  <dd class="category tags"><a class="tag">M/M</a></dd>
  <dd class="fandom tags"><a class="tag">My Fandom</a></dd>
  <dd class="relationship tags"><a class="tag">A/B</a></dd>
  <dd class="character tags"><a class="tag">Character A</a></dd>
  <dd class="freeform tags"><a class="tag">Fluff</a></dd>
  <dd class="language">English</dd>
  <dd class="chapters">3/5</dd>
  <dd class="kudos">1,234</dd>
  <dd class="words">12,345</dd>
  <dd class="hits">9,876</dd>
  <dd class="status">Updated: 2024-05-01</dd>
  <dd class="series"><a href="/series/1">Series One</a></dd>
</dl>
</body>
</html>
        "#;

        let metadata = extract_metadata_from_downloaded_html(html).expect("metadata should parse");
        assert_eq!(metadata.id, "12345");
        assert_eq!(metadata.url, "https://archiveofourown.org/works/12345");
        assert_eq!(metadata.name, "Example Fic");
        assert_eq!(metadata.last_updated, "2024-05-01");
        assert_eq!(metadata.description, "A short summary.");
        assert_eq!(metadata.authors, vec!["author_name"]);
        assert_eq!(metadata.fandom, vec!["My Fandom"]);
        assert_eq!(metadata.ship_type, vec!["M/M"]);
        assert_eq!(metadata.language.as_deref(), Some("English"));
        assert_eq!(metadata.chapters.as_deref(), Some("3/5"));
        assert_eq!(metadata.kudos, Some(1234));
        assert_eq!(metadata.words, Some(12345));
        assert_eq!(metadata.hits, Some(9876));
        assert_eq!(metadata.series, vec!["Series One"]);
        assert_eq!(*metadata.tags.get("freeforms").unwrap(), vec!["Fluff"]);
        assert_eq!(*metadata.tags.get("relationships").unwrap(), vec!["A/B"]);
    }

    #[test]
    fn extracts_from_minimal_html_using_fallbacks() {
        let html = r#"
<html>
  <head><title>Fallback Title - Archive of Our Own</title></head>
  <body>
    <a href="https://archiveofourown.org/works/7777">Link</a>
    <p>Published: 2019-01-20</p>
  </body>
</html>
        "#;

        let metadata = extract_metadata_from_downloaded_html(html).expect("metadata should parse");
        assert_eq!(metadata.id, "7777");
        assert_eq!(metadata.url, "https://archiveofourown.org/works/7777");
        assert_eq!(metadata.name, "Fallback Title");
        assert_eq!(metadata.last_updated, "2019-01-20");
    }

    #[test]
    fn extracts_metadata_from_ao3_download_export_layout() {
        let html = r##"
<!DOCTYPE html>
<html>
<head>
  <title>Test - Azutoi - test - Fandom</title>
</head>
<body>
<div id="preface">
  <p class="message">
    Posted originally on the <a href="https://archiveofourown.org/">Archive of Our Own</a> at
    <a href="https://archiveofourown.org/works/81658676">https://archiveofourown.org/works/81658676</a>.
  </p>
  <div class="meta">
    <dl class="tags">
      <dt>Rating:</dt>
      <dd><a href="https://archiveofourown.org/tags/Not%20Rated">Not Rated</a></dd>
      <dt>Archive Warning:</dt>
      <dd><a href="#">Creator Chose Not To Use Archive Warnings</a></dd>
      <dt>Fandom:</dt>
      <dd><a href="#">test - Fandom</a></dd>
      <dt>Language:</dt>
      <dd>Français</dd>
      <dt>Stats:</dt>
      <dd>
        Published: 2026-03-22
        Words: 1
        Chapters: 1/1
      </dd>
    </dl>
    <h1>Test</h1>
    <div class="byline">by <a rel="author" href="#">Azutoi</a></div>
    <blockquote class="userstuff"><p>Résumé test.</p></blockquote>
  </div>
</div>
</body>
</html>
        "##;

        let metadata = extract_metadata_from_downloaded_html(html).expect("metadata should parse");
        assert_eq!(metadata.id, "81658676");
        assert_eq!(metadata.url, "https://archiveofourown.org/works/81658676");
        assert_eq!(metadata.name, "Test");
        assert_eq!(metadata.last_updated, "2026-03-22");
        assert_eq!(metadata.authors, vec!["Azutoi"]);
        assert_eq!(metadata.language.as_deref(), Some("Français"));
        assert_eq!(metadata.words, Some(1));
        assert_eq!(metadata.chapters.as_deref(), Some("1/1"));
        assert_eq!(metadata.fandom, vec!["test - Fandom"]);
        assert_eq!(*metadata.tags.get("rating").unwrap(), vec!["Not Rated"]);
    }
