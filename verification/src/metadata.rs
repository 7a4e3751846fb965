//! Metadata structures for AO3 fanfiction.
use vstd::prelude::*;
use crate::tag_map::{all_values, clone_strings, lookup, strings_view, TagEntries, TagMap};
use crate::text::{decimal, push_decimal, push_str};

verus! {

/// The abstract content of an optional string.
pub open spec fn opt_view(o: Option<String>) -> Option<Seq<char>> {
    match o {
        Some(s) => Some(s@),
        None => None,
    }
}

/// The abstract content of an optional list of strings.
pub open spec fn opt_strings_view(o: Option<Vec<String>>) -> Option<Seq<Seq<char>>> {
    match o {
        Some(v) => Some(strings_view(v@)),
        None => None,
    }
}

/// The abstract content of a [`FicMetadata`].
pub struct FicMetadataView {
    pub id: Seq<char>,
    pub name: Seq<char>,
    pub url: Seq<char>,
    pub tags: TagEntries,
    pub last_updated: Seq<char>,
    pub version: u32,
    pub description: Seq<char>,
    pub authors: Seq<Seq<char>>,
    pub fandom: Seq<Seq<char>>,
    pub ship_type: Seq<Seq<char>>,
    pub language: Option<Seq<char>>,
    pub chapters: Option<Seq<char>>,
    pub kudos: Option<u32>,
    pub words: Option<u32>,
    pub series: Seq<Seq<char>>,
    pub hits: Option<u32>,
    pub merged_tags: Option<Seq<Seq<char>>>,
}

/// Metadata of a fic, as it is saved and tracked across downloads.
///
/// * `id` - The numeric ID of the fic from its URL
/// * `name` - The title of the fic
/// * `url` - The full URL to the fic on Archive of Our Own
/// * `tags` - A map of tag categories to their values
/// * `last_updated` - The date the fic was last updated (as shown on AO3)
/// * `version` - Version number for archiving (increments when the fic is updated)
/// * `authors` - Author usernames
/// * `fandom` - Fandoms of the fic
/// * `ship_type` - Relationship categories (e.g. "F/M", "Multi")
/// * `language` - The language of the fic
/// * `chapters` - Chapter information (e.g. "5/10")
/// * `kudos`, `words`, `hits` - Counts shown on AO3
/// * `series` - Series the fic belongs to
/// * `merged_tags` - A generated list of all tags
#[derive(Debug, Clone)]
pub struct FicMetadata {
    pub id: String,
    pub name: String,
    pub url: String,
    pub tags: TagMap,
    pub last_updated: String,
    pub version: u32,
    pub description: String,
    pub authors: Vec<String>,
    pub fandom: Vec<String>,
    pub ship_type: Vec<String>,
    pub language: Option<String>,
    pub chapters: Option<String>,
    pub kudos: Option<u32>,
    pub words: Option<u32>,
    pub series: Vec<String>,
    pub hits: Option<u32>,
    pub merged_tags: Option<Vec<String>>,
}

impl View for FicMetadata {
    type V = FicMetadataView;

    open spec fn view(&self) -> FicMetadataView {
        FicMetadataView {
            id: self.id@,
            name: self.name@,
            url: self.url@,
            tags: self.tags@,
            last_updated: self.last_updated@,
            version: self.version,
            description: self.description@,
            authors: strings_view(self.authors@),
            fandom: strings_view(self.fandom@),
            ship_type: strings_view(self.ship_type@),
            language: opt_view(self.language),
            chapters: opt_view(self.chapters),
            kudos: self.kudos,
            words: self.words,
            series: strings_view(self.series@),
            hits: self.hits,
            merged_tags: opt_strings_view(self.merged_tags),
        }
    }
}

/// The metadata that [`FicMetadata::new`] creates.
pub open spec fn new_metadata_view(
    id: Seq<char>,
    name: Seq<char>,
    url: Seq<char>,
    last_updated: Seq<char>,
) -> FicMetadataView {
    FicMetadataView {
        id,
        name,
        url,
        tags: TagEntries::empty(),
        last_updated,
        version: 0,
        description: Seq::empty(),
        authors: Seq::empty(),
        fandom: Seq::empty(),
        ship_type: Seq::empty(),
        language: None,
        chapters: None,
        kudos: None,
        words: None,
        series: Seq::empty(),
        hits: None,
        merged_tags: None,
    }
}

/// The tag values of category `key`, or none when the category is absent.
pub open spec fn tags_of(entries: TagEntries, key: Seq<char>) -> Seq<Seq<char>> {
    match lookup(entries, key) {
        Some(v) => v,
        None => Seq::empty(),
    }
}

/// The file name, without extension, under which version `version` of fic `id` is stored.
pub open spec fn file_base_name(id: Seq<char>, version: u32) -> Seq<char> {
    if version > 1 {
        id + "_v"@ + decimal(version as nat)
    } else {
        id
    }
}

/// The extensions of the files that a download of a fic may produce.
pub open spec fn download_extensions() -> Seq<Seq<char>> {
    seq!["html"@, "pdf"@, "epub"@, "mobi"@, "azw3"@]
}

/// The path `dir/base.ext`.
pub open spec fn file_path(dir: Seq<char>, base: Seq<char>, ext: Seq<char>) -> Seq<char> {
    dir + "/"@ + base + "."@ + ext
}

/// The values of category `key` of `tags`, or an empty list when it is absent.
pub fn safe_get_hash(tags: &TagMap, key: &str) -> (r: Vec<String>)
    ensures
        strings_view(r@) == tags_of(tags@, key@),
{
    match tags.get(key) {
        Some(tag_list) => clone_strings(tag_list),
        None => {
            let r = Vec::new();
            assert(strings_view(r@) =~= Seq::<Seq<char>>::empty());
            r
        },
    }
}

impl FicMetadata {
    /// Creates metadata with the required fields; the version is 0 until
    /// the metadata is saved, and every other field is empty.
    pub fn new(id: String, name: String, url: String, last_updated: String) -> (r: Self)
        ensures
            r@ == new_metadata_view(id@, name@, url@, last_updated@),
    {
        let r = FicMetadata {
            id,
            name,
            url,
            tags: TagMap::new(),
            last_updated,
            version: 0,
            description: String::new(),
            authors: Vec::new(),
            fandom: Vec::new(),
            ship_type: Vec::new(),
            language: None,
            chapters: None,
            kudos: None,
            words: None,
            series: Vec::new(),
            hits: None,
            merged_tags: None,
        };
        assert(strings_view(r.authors@) =~= Seq::<Seq<char>>::empty());
        assert(strings_view(r.fandom@) =~= Seq::<Seq<char>>::empty());
        assert(strings_view(r.ship_type@) =~= Seq::<Seq<char>>::empty());
        assert(strings_view(r.series@) =~= Seq::<Seq<char>>::empty());
        r
    }

    /// Sets the tags.
    pub fn with_tags(self, tags: TagMap) -> (r: Self)
        ensures
            r@ == (FicMetadataView { tags: tags@, ..self@ }),
    {
        let mut s = self;
        s.tags = tags;
        s
    }

    /// Sets the description.
    pub fn with_description(self, description: String) -> (r: Self)
        ensures
            r@ == (FicMetadataView { description: description@, ..self@ }),
    {
        let mut s = self;
        s.description = description;
        s
    }

    /// Sets the authors.
    pub fn with_authors(self, authors: Vec<String>) -> (r: Self)
        ensures
            r@ == (FicMetadataView { authors: strings_view(authors@), ..self@ }),
    {
        let mut s = self;
        s.authors = authors;
        s
    }

    /// Sets the fandoms.
    pub fn with_fandom(self, fandom: Vec<String>) -> (r: Self)
        ensures
            r@ == (FicMetadataView { fandom: strings_view(fandom@), ..self@ }),
    {
        let mut s = self;
        s.fandom = fandom;
        s
    }

    /// Sets the relationship categories.
    pub fn with_ship_type(self, ship_type: Vec<String>) -> (r: Self)
        ensures
            r@ == (FicMetadataView { ship_type: strings_view(ship_type@), ..self@ }),
    {
        let mut s = self;
        s.ship_type = ship_type;
        s
    }

    /// Sets the language.
    pub fn with_language(self, language: Option<String>) -> (r: Self)
        ensures
            r@ == (FicMetadataView { language: opt_view(language), ..self@ }),
    {
        let mut s = self;
        s.language = language;
        s
    }

    /// Sets the chapter information.
    pub fn with_chapters(self, chapters: Option<String>) -> (r: Self)
        ensures
            r@ == (FicMetadataView { chapters: opt_view(chapters), ..self@ }),
    {
        let mut s = self;
        s.chapters = chapters;
        s
    }

    /// Sets the kudos count.
    pub fn with_kudos(self, kudos: Option<u32>) -> (r: Self)
        ensures
            r@ == (FicMetadataView { kudos, ..self@ }),
    {
        let mut s = self;
        s.kudos = kudos;
        s
    }

    /// Sets the word count.
    pub fn with_words(self, words: Option<u32>) -> (r: Self)
        ensures
            r@ == (FicMetadataView { words, ..self@ }),
    {
        let mut s = self;
        s.words = words;
        s
    }

    /// Sets the series.
    pub fn with_series(self, series: Vec<String>) -> (r: Self)
        ensures
            r@ == (FicMetadataView { series: strings_view(series@), ..self@ }),
    {
        let mut s = self;
        s.series = series;
        s
    }

    /// Sets the hit count.
    pub fn with_hits(self, hits: Option<u32>) -> (r: Self)
        ensures
            r@ == (FicMetadataView { hits, ..self@ }),
    {
        let mut s = self;
        s.hits = hits;
        s
    }

    /// The tag values of category `type_`, or an empty list when there are none.
    pub fn get_tags(&self, type_: &str) -> (r: Vec<String>)
        ensures
            strings_view(r@) == tags_of(self@.tags, type_@),
    {
        safe_get_hash(&self.tags, type_)
    }

    /// The file name, without extension, of this version of the fic: the id,
    /// followed by `_v` and the version when the version is above 1.
    pub fn file_base_name(&self) -> (r: String)
        ensures
            r@ == file_base_name(self@.id, self@.version),
    {
        let mut r = self.id.clone();
        if self.version > 1 {
            push_str(&mut r, "_v");
            push_decimal(&mut r, self.version as u64);
        }
        r
    }

    /// The paths, in `output_dir`, of the files that a download of this version
    /// of the fic may have produced, one per download format.
    pub fn download_file_paths(&self, output_dir: &str) -> (r: Vec<String>)
        ensures
            strings_view(r@) == download_extensions().map_values(
                |ext: Seq<char>| file_path(output_dir@, file_base_name(self@.id, self@.version), ext),
            ),
    {
        let base = self.file_base_name();
        let exts = ["html", "pdf", "epub", "mobi", "azw3"];
        let ghost want = download_extensions().map_values(
            |ext: Seq<char>| file_path(output_dir@, base@, ext),
        );
        let mut r: Vec<String> = Vec::new();
        for i in 0..5
            invariant
                exts@.len() == 5,
                forall|k: int| 0 <= k < 5 ==> #[trigger] exts@[k]@ == download_extensions()[k],
                want == download_extensions().map_values(
                    |ext: Seq<char>| file_path(output_dir@, base@, ext),
                ),
                download_extensions().len() == 5,
                want.len() == 5,
                strings_view(r@) == want.take(i as int),
        {
            let mut p = String::new();
            push_str(&mut p, output_dir);
            push_str(&mut p, "/");
            push_str(&mut p, base.as_str());
            push_str(&mut p, ".");
            push_str(&mut p, exts[i]);
            assert(exts@[i as int]@ == download_extensions()[i as int]);
            assert(want[i as int] == file_path(output_dir@, base@, download_extensions()[i as int]));
            assert(p@ =~= want[i as int]);
            let ghost r0 = r@;
            r.push(p);
            assert(strings_view(r@) =~= strings_view(r0).push(p@));
            assert(want.take(i + 1) =~= want.take(i as int).push(want[i as int]));
        }
        assert(want.take(5) =~= want);
        r
    }
}

/// All tag values of a fic, category after category.
pub fn merge_tag(fic_metadata: &FicMetadata) -> (r: Vec<String>)
    ensures
        strings_view(r@) == all_values(fic_metadata@.tags),
{
    fic_metadata.tags.all_values()
}

} // verus!
