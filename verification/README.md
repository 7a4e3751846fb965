# ficdata

Data structures and metadata handling for Archive of Our Own (AO3) fanfiction,
written in Verus: each function of the library carries a contract that Verus
proves.

- `src/` is the verified library:
  - `metadata`, `tag_map`: fic metadata, its tags by category, builders, tag merging
    and the names of downloaded files;
  - `persistence`: version management (which fics need downloading, the version a
    save assigns, saving and refreshing records) and its laws;
  - `rows`, `json`: conversion between metadata and rows of the metadata table,
    record by record and list by list;
  - `compress`: bzip2 compression of the exported JSON;
  - `loading`: the decisions of loading saved metadata (SQLite first, then the
    legacy bzip2 and JSON exports);
  - `extraction`, `scrape`, `text`: metadata extraction from downloaded HTML pages.
  Calls into `scraper`, `regex`, `serde_json` and `bzip2` go through the trusted
  items of `scrape`, `json` and `compress`, whose results are named by
  uninterpreted spec functions where they take pages to state.
- `app/` holds the file-system and database plumbing (SQLite via `diesel`,
  JSON exports via `serde`) behind the storage-level functions
  (`load_metadata`, `save_metadata`, `should_download_fic`, ...).
- `tests/` exercises both.
