//! Conversion between fic metadata and the rows of the metadata table, whose
//! list- and map-valued columns hold JSON text.
use vstd::prelude::*;
use crate::errors::{FicDataError, FicDataErrorView};
use crate::json::{
    json_error_message, json_of_strings, json_of_tags, strings_from_json, strings_of_json,
    strings_to_json, tags_from_json, tags_of_json, tags_to_json,
};
use crate::metadata::{opt_view, FicMetadata, FicMetadataView};
use crate::tag_map::{
    entries_view, inserted_all, keys_distinct, law_lookup_after_insert, lemma_inserted_all_distinct, lookup, strings_view,
    TagEntries, TagMap,
};
use crate::text::{decimal, has_prefix, push_decimal, push_signed_decimal, push_str, signed_decimal};

verus! {

/// A row of the metadata table: one version of one fic.
#[derive(Debug)]
pub struct FicMetadataRow {
    pub id: String,
    pub version: i32,
    pub name: String,
    pub url: String,
    pub tags_json: String,
    pub last_updated: String,
    pub description: String,
    pub authors_json: String,
    pub fandom_json: String,
    pub ship_type_json: String,
    pub language: Option<String>,
    pub chapters: Option<String>,
    pub kudos: Option<i32>,
    pub words: Option<i32>,
    pub series_json: String,
    pub hits: Option<i32>,
}

/// The abstract content of a [`FicMetadataRow`].
pub struct FicMetadataRowView {
    pub id: Seq<char>,
    pub version: i32,
    pub name: Seq<char>,
    pub url: Seq<char>,
    pub tags_json: Seq<char>,
    pub last_updated: Seq<char>,
    pub description: Seq<char>,
    pub authors_json: Seq<char>,
    pub fandom_json: Seq<char>,
    pub ship_type_json: Seq<char>,
    pub language: Option<Seq<char>>,
    pub chapters: Option<Seq<char>>,
    pub kudos: Option<i32>,
    pub words: Option<i32>,
    pub series_json: Seq<char>,
    pub hits: Option<i32>,
}

impl View for FicMetadataRow {
    type V = FicMetadataRowView;

    open spec fn view(&self) -> FicMetadataRowView {
        FicMetadataRowView {
            id: self.id@,
            version: self.version,
            name: self.name@,
            url: self.url@,
            tags_json: self.tags_json@,
            last_updated: self.last_updated@,
            description: self.description@,
            authors_json: self.authors_json@,
            fandom_json: self.fandom_json@,
            ship_type_json: self.ship_type_json@,
            language: opt_view(self.language),
            chapters: opt_view(self.chapters),
            kudos: self.kudos,
            words: self.words,
            series_json: self.series_json@,
            hits: self.hits,
        }
    }
}

/// The message of a value that does not fit its column.
pub open spec fn out_of_range(field_name: Seq<char>, value: Seq<char>) -> FicDataErrorView {
    FicDataErrorView::GenericError(field_name + " value out of range: "@ + value)
}

/// An optional count as a column value: it must fit in an `i32`.
pub open spec fn count_to_column(value: Option<u32>, field_name: Seq<char>) -> Result<Option<i32>, FicDataErrorView> {
    match value {
        None => Ok(None),
        Some(v) => if v <= i32::MAX {
            Ok(Some(v as i32))
        } else {
            Err(out_of_range(field_name, decimal(v as nat)))
        },
    }
}

/// An optional column value as a count: it must not be negative.
pub open spec fn column_to_count(value: Option<i32>, field_name: Seq<char>) -> Result<Option<u32>, FicDataErrorView> {
    match value {
        None => Ok(None),
        Some(v) => if v >= 0 {
            Ok(Some(v as u32))
        } else {
            Err(out_of_range(field_name, signed_decimal(v as int)))
        },
    }
}

/// The row that stores `m`: the version and counts must fit in an `i32`, and
/// the list- and map-valued fields are written as JSON.
pub open spec fn row_of(m: FicMetadataView) -> Result<FicMetadataRowView, FicDataErrorView> {
    if m.version > i32::MAX {
        Err(FicDataErrorView::GenericError("version value out of range: "@ + decimal(m.version as nat)))
    } else {
        match count_to_column(m.kudos, "kudos"@) {
            Err(e) => Err(e),
            Ok(kudos) => match count_to_column(m.words, "words"@) {
                Err(e) => Err(e),
                Ok(words) => match count_to_column(m.hits, "hits"@) {
                    Err(e) => Err(e),
                    Ok(hits) => Ok(
                        FicMetadataRowView {
                            id: m.id,
                            version: m.version as i32,
                            name: m.name,
                            url: m.url,
                            tags_json: json_of_tags(m.tags),
                            last_updated: m.last_updated,
                            description: m.description,
                            authors_json: json_of_strings(m.authors),
                            fandom_json: json_of_strings(m.fandom),
                            ship_type_json: json_of_strings(m.ship_type),
                            language: m.language,
                            chapters: m.chapters,
                            kudos,
                            words,
                            series_json: json_of_strings(m.series),
                            hits,
                        },
                    ),
                },
            },
        }
    }
}

/// The outcome of reading a row back as metadata.
pub enum RowDecoding {
    /// The metadata that the row stores.
    Decoded(FicMetadataView),
    /// The row holds a value out of range; the error says which.
    Failed(FicDataErrorView),
    /// The JSON of the named column could not be read.
    BadJson(Seq<char>),
}

/// The metadata that row `row` stores, its fields read in this order: the
/// version, then the tags, authors, fandoms, relationship categories, kudos,
/// words, series and hits columns.
pub open spec fn metadata_of_row(row: FicMetadataRowView) -> RowDecoding {
    if row.version < 0 {
        RowDecoding::Failed(
            FicDataErrorView::GenericError("metadata version out of range for fic "@ + row.id),
        )
    } else {
        match tags_of_json(row.tags_json) {
            None => RowDecoding::BadJson("tags_json"@),
            Some(tags) => match strings_of_json(row.authors_json) {
                None => RowDecoding::BadJson("authors_json"@),
                Some(authors) => match strings_of_json(row.fandom_json) {
                    None => RowDecoding::BadJson("fandom_json"@),
                    Some(fandom) => match strings_of_json(row.ship_type_json) {
                        None => RowDecoding::BadJson("ship_type_json"@),
                        Some(ship_type) => match column_to_count(row.kudos, "kudos"@) {
                            Err(e) => RowDecoding::Failed(e),
                            Ok(kudos) => match column_to_count(row.words, "words"@) {
                                Err(e) => RowDecoding::Failed(e),
                                Ok(words) => match strings_of_json(row.series_json) {
                                    None => RowDecoding::BadJson("series_json"@),
                                    Some(series) => match column_to_count(row.hits, "hits"@) {
                                        Err(e) => RowDecoding::Failed(e),
                                        Ok(hits) => RowDecoding::Decoded(
                                            FicMetadataView {
                                                id: row.id,
                                                name: row.name,
                                                url: row.url,
                                                tags: inserted_all(TagEntries::empty(), tags),
                                                last_updated: row.last_updated,
                                                version: row.version as u32,
                                                description: row.description,
                                                authors,
                                                fandom,
                                                ship_type,
                                                language: row.language,
                                                chapters: row.chapters,
                                                kudos,
                                                words,
                                                series,
                                                hits,
                                                merged_tags: None,
                                            },
                                        ),
                                    },
                                },
                            },
                        },
                    },
                },
            },
        }
    }
}

/// Whether `d` is the metadata `m` read back: equal in every field, the
/// tags holding the same values under every category, and no generated tag list.
pub open spec fn restores(m: FicMetadataView, d: RowDecoding) -> bool {
    &&& d matches RowDecoding::Decoded(v)
    &&& v == (FicMetadataView { tags: v.tags, merged_tags: None, ..m })
    &&& keys_distinct(v.tags)
    &&& forall|k: Seq<char>| #[trigger] lookup(v.tags, k) == lookup(m.tags, k)
}

/// The message for a column whose JSON could not be read.
pub open spec fn bad_json_prefix(field_name: Seq<char>) -> Seq<char> {
    "failed to parse "@ + field_name + " JSON field: "@
}

/// An optional count as a column value; counts above `i32::MAX` are refused.
pub fn to_i32_opt(value: Option<u32>, field_name: &str) -> (r: Result<Option<i32>, FicDataError>)
    ensures
        match r {
            Ok(v) => count_to_column(value, field_name@) == Ok::<_, FicDataErrorView>(v),
            Err(e) => count_to_column(value, field_name@) == Err::<Option<i32>, _>(e@),
        },
{
    match value {
        None => Ok(None),
        Some(v) => {
            if v <= 2147483647 {
                Ok(Some(v as i32))
            } else {
                let mut msg = String::new();
                push_str(&mut msg, field_name);
                push_str(&mut msg, " value out of range: ");
                push_decimal(&mut msg, v as u64);
                assert(msg@ =~= field_name@ + " value out of range: "@ + decimal(v as nat));
                Err(FicDataError::GenericError(msg))
            }
        },
    }
}

/// An optional column value as a count; negative values are refused.
pub fn to_u32_opt(value: Option<i32>, field_name: &str) -> (r: Result<Option<u32>, FicDataError>)
    ensures
        match r {
            Ok(v) => column_to_count(value, field_name@) == Ok::<_, FicDataErrorView>(v),
            Err(e) => column_to_count(value, field_name@) == Err::<Option<u32>, _>(e@),
        },
{
    match value {
        None => Ok(None),
        Some(v) => {
            if v >= 0 {
                Ok(Some(v as u32))
            } else {
                let mut msg = String::new();
                push_str(&mut msg, field_name);
                push_str(&mut msg, " value out of range: ");
                push_signed_decimal(&mut msg, v as i64);
                assert(msg@ =~= field_name@ + " value out of range: "@ + signed_decimal(v as int));
                Err(FicDataError::GenericError(msg))
            }
        },
    }
}

fn bad_json_error(field_name: &str, e: &serde_json::Error) -> (r: FicDataError)
    ensures
        r matches FicDataError::GenericError(msg) && has_prefix(msg@, bad_json_prefix(field_name@)),
{
    let mut msg = String::new();
    push_str(&mut msg, "failed to parse ");
    push_str(&mut msg, field_name);
    push_str(&mut msg, " JSON field: ");
    let ghost prefix = msg@;
    assert(prefix =~= bad_json_prefix(field_name@));
    let detail = json_error_message(e);
    push_str(&mut msg, detail.as_str());
    assert(msg@.subrange(0, prefix.len() as int) =~= prefix);
    FicDataError::GenericError(msg)
}

/// Reads a list-of-strings column.
pub fn parse_json_field(raw: &str, field_name: &str) -> (r: Result<Vec<String>, FicDataError>)
    ensures
        match r {
            Ok(v) => strings_of_json(raw@) == Some(strings_view(v@)),
            Err(e) => strings_of_json(raw@) is None && (e matches FicDataError::GenericError(msg)
                && has_prefix(msg@, bad_json_prefix(field_name@))),
        },
{
    match strings_from_json(raw) {
        Ok(v) => Ok(v),
        Err(e) => Err(bad_json_error(field_name, &e)),
    }
}

/// Reads the tags column.
pub fn parse_json_tags_field(raw: &str, field_name: &str) -> (r: Result<TagMap, FicDataError>)
    ensures
        match r {
            Ok(t) => tags_of_json(raw@) matches Some(es) && t@ == inserted_all(TagEntries::empty(), es)
                && keys_distinct(es),
            Err(e) => tags_of_json(raw@) is None && (e matches FicDataError::GenericError(msg)
                && has_prefix(msg@, bad_json_prefix(field_name@))),
        },
{
    match tags_from_json(raw) {
        Ok(entries) => Ok(TagMap::from_entries(entries)),
        Err(e) => Err(bad_json_error(field_name, &e)),
    }
}

/// The row that stores `fic`. The version and the counts must fit in an
/// `i32`; the list- and map-valued fields are stored as JSON. A row made
/// here reads back (with [`FicMetadata::try_from`]) as `fic`, with the same
/// values under every tag category and no generated tag list.
pub fn to_row(fic: &FicMetadata) -> (r: Result<FicMetadataRow, FicDataError>)
    ensures
        match r {
            Ok(row) => row_of(fic@) == Ok::<_, FicDataErrorView>(row@),
            Err(e) => row_of(fic@) == Err::<FicMetadataRowView, _>(e@),
        },
        r matches Ok(row) ==> restores(fic@, metadata_of_row(row@)),
{
    if fic.version > 2147483647 {
        let mut msg = String::new();
        push_str(&mut msg, "version value out of range: ");
        push_decimal(&mut msg, fic.version as u64);
        assert(msg@ =~= "version value out of range: "@ + decimal(fic.version as nat));
        return Err(FicDataError::GenericError(msg));
    }
    let version = fic.version as i32;
    let tags_json = match tags_to_json(&fic.tags) {
        Ok(s) => s,
        Err(e) => {
            return Err(FicDataError::SerdeError(e));
        },
    };
    let authors_json = match strings_to_json(&fic.authors) {
        Ok(s) => s,
        Err(e) => {
            return Err(FicDataError::SerdeError(e));
        },
    };
    let fandom_json = match strings_to_json(&fic.fandom) {
        Ok(s) => s,
        Err(e) => {
            return Err(FicDataError::SerdeError(e));
        },
    };
    let ship_type_json = match strings_to_json(&fic.ship_type) {
        Ok(s) => s,
        Err(e) => {
            return Err(FicDataError::SerdeError(e));
        },
    };
    let kudos = to_i32_opt(fic.kudos, "kudos")?;
    let words = to_i32_opt(fic.words, "words")?;
    let series_json = match strings_to_json(&fic.series) {
        Ok(s) => s,
        Err(e) => {
            return Err(FicDataError::SerdeError(e));
        },
    };
    let hits = to_i32_opt(fic.hits, "hits")?;
    let row = FicMetadataRow {
        id: fic.id.clone(),
        version,
        name: fic.name.clone(),
        url: fic.url.clone(),
        tags_json,
        last_updated: fic.last_updated.clone(),
        description: fic.description.clone(),
        authors_json,
        fandom_json,
        ship_type_json,
        language: clone_opt(&fic.language),
        chapters: clone_opt(&fic.chapters),
        kudos,
        words,
        series_json,
        hits,
    };
    proof {
        let es = tags_of_json(row.tags_json@).unwrap();
        lemma_inserted_all_distinct(es);
        assert(metadata_of_row(row@) matches RowDecoding::Decoded(v) && v.tags == es);
    }
    Ok(row)
}

fn clone_opt(o: &Option<String>) -> (r: Option<String>)
    ensures
        opt_view(r) == opt_view(*o),
{
    match o {
        Some(s) => Some(s.clone()),
        None => None,
    }
}

impl FicMetadata {
    /// Reads a row of the metadata table back as metadata. The version must
    /// not be negative, the JSON columns must hold what they should, and the
    /// counts must not be negative; the generated tag list is left empty.
    pub fn try_from(value: FicMetadataRow) -> (r: Result<FicMetadata, FicDataError>)
        ensures
            match metadata_of_row(value@) {
                RowDecoding::Decoded(v) => r matches Ok(m) && m@ == v,
                RowDecoding::Failed(e) => r matches Err(x) && x@ == e,
                RowDecoding::BadJson(field) => r matches Err(FicDataError::GenericError(msg))
                    && has_prefix(msg@, bad_json_prefix(field)),
            },
    {
        if value.version < 0 {
            let mut msg = String::new();
            push_str(&mut msg, "metadata version out of range for fic ");
            push_str(&mut msg, value.id.as_str());
            assert(msg@ =~= "metadata version out of range for fic "@ + value.id@);
            return Err(FicDataError::GenericError(msg));
        }
        let version = value.version as u32;
        let tags = parse_json_tags_field(value.tags_json.as_str(), "tags_json")?;
        let authors = parse_json_field(value.authors_json.as_str(), "authors_json")?;
        let fandom = parse_json_field(value.fandom_json.as_str(), "fandom_json")?;
        let ship_type = parse_json_field(value.ship_type_json.as_str(), "ship_type_json")?;
        let kudos = to_u32_opt(value.kudos, "kudos")?;
        let words = to_u32_opt(value.words, "words")?;
        let series = parse_json_field(value.series_json.as_str(), "series_json")?;
        let hits = to_u32_opt(value.hits, "hits")?;
        Ok(
            FicMetadata {
                id: value.id,
                name: value.name,
                url: value.url,
                tags,
                last_updated: value.last_updated,
                version,
                description: value.description,
                authors,
                fandom,
                ship_type,
                language: value.language,
                chapters: value.chapters,
                kudos,
                words,
                series,
                hits,
                merged_tags: None,
            },
        )
    }
}


/// The rows that store the list `ms`, in order; the first record that cannot
/// be stored gives the error.
pub open spec fn rows_of_list(ms: Seq<FicMetadataView>) -> Result<Seq<FicMetadataRowView>, FicDataErrorView>
    decreases ms.len(),
{
    if ms.len() == 0 {
        Ok(Seq::empty())
    } else {
        match rows_of_list(ms.drop_last()) {
            Err(e) => Err(e),
            Ok(rows) => match row_of(ms.last()) {
                Err(e) => Err(e),
                Ok(r) => Ok(rows.push(r)),
            },
        }
    }
}

/// The abstract content of a list of rows.
pub open spec fn rows_view(rows: Seq<FicMetadataRow>) -> Seq<FicMetadataRowView> {
    rows.map_values(|r: FicMetadataRow| r@)
}

/// The abstract content of a list of metadata.
pub open spec fn metadata_list_view(ms: Seq<FicMetadata>) -> Seq<FicMetadataView> {
    ms.map_values(|m: FicMetadata| m@)
}

/// Whether the error `x` is what reading back a row with outcome `d` reports.
pub open spec fn decoding_error(d: RowDecoding, x: FicDataError) -> bool {
    match d {
        RowDecoding::Decoded(_) => false,
        RowDecoding::Failed(e) => x@ == e,
        RowDecoding::BadJson(field) => x matches FicDataError::GenericError(msg) && has_prefix(
            msg@,
            bad_json_prefix(field),
        ),
    }
}

/// Every row of `rows` reads back as metadata.
pub open spec fn all_decoded(rows: Seq<FicMetadataRowView>) -> bool {
    forall|i: int| 0 <= i < rows.len() ==> #[trigger] metadata_of_row(rows[i]) is Decoded
}

/// The rows that store `metadata`, in order. A list made here reads back
/// (with [`metadata_of_rows`]) as `metadata`, record by record, with the same
/// values under every tag category and no generated tag lists.
pub fn rows_of(metadata: &Vec<FicMetadata>) -> (r: Result<Vec<FicMetadataRow>, FicDataError>)
    ensures
        match r {
            Ok(rows) => rows_of_list(metadata_list_view(metadata@)) == Ok::<_, FicDataErrorView>(rows_view(rows@)),
            Err(e) => rows_of_list(metadata_list_view(metadata@)) == Err::<Seq<FicMetadataRowView>, _>(e@),
        },
        r matches Ok(rows) ==> rows@.len() == metadata@.len() && forall|i: int|
            0 <= i < rows@.len() ==> restores(metadata@[i]@, #[trigger] metadata_of_row(rows@[i]@)),
{
    let ghost ms = metadata_list_view(metadata@);
    let mut rows: Vec<FicMetadataRow> = Vec::new();
    let n = metadata.len();
    assert(ms.take(0) =~= Seq::<FicMetadataView>::empty());
    assert(rows_view(rows@) =~= Seq::<FicMetadataRowView>::empty());
    for i in 0..n
        invariant
            n == metadata@.len(),
            ms == metadata_list_view(metadata@),
            rows_of_list(ms.take(i as int)) == Ok::<_, FicDataErrorView>(rows_view(rows@)),
            rows@.len() == i,
            forall|j: int| 0 <= j < i ==> restores(metadata@[j]@, #[trigger] metadata_of_row(rows@[j]@)),
    {
        assert(ms.take(i + 1).drop_last() =~= ms.take(i as int));
        assert(ms.take(i + 1).last() == metadata@[i as int]@);
        let row = match to_row(&metadata[i]) {
            Ok(row) => row,
            Err(e) => {
                proof {
                    lemma_rows_of_list_err(ms, i as int + 1);
                }
                return Err(e);
            },
        };
        let ghost before = rows@;
        rows.push(row);
        assert(rows_view(rows@) =~= rows_view(before).push(rows@[i as int]@));
    }
    assert(ms.take(n as int) =~= ms);
    Ok(rows)
}

proof fn lemma_rows_of_list_err(ms: Seq<FicMetadataView>, k: int)
    requires
        0 < k <= ms.len(),
        rows_of_list(ms.take(k)) is Err,
    ensures
        rows_of_list(ms) == rows_of_list(ms.take(k)),
    decreases ms.len() - k,
{
    if k < ms.len() {
        assert(ms.take(k + 1).drop_last() =~= ms.take(k));
        lemma_rows_of_list_err(ms, k + 1);
    } else {
        assert(ms.take(k) =~= ms);
    }
}

/// Reads a list of rows back as metadata, in order. It succeeds when every
/// row reads back, and otherwise fails with the error of the first row that
/// does not.
pub fn metadata_of_rows(rows: Vec<FicMetadataRow>) -> (r: Result<Vec<FicMetadata>, FicDataError>)
    ensures
        (r is Ok) == all_decoded(rows_view(rows@)),
        r matches Ok(ms) ==> ms@.len() == rows@.len() && forall|i: int|
            0 <= i < ms@.len() ==> metadata_of_row(rows@[i]@) == RowDecoding::Decoded(#[trigger] ms@[i]@),
        r matches Err(x) ==> exists|i: int|
            0 <= i < rows@.len() && (forall|j: int| 0 <= j < i ==> #[trigger] metadata_of_row(rows@[j]@) is Decoded)
                && decoding_error(#[trigger] metadata_of_row(rows@[i]@), x),
{
    let ghost rv = rows_view(rows@);
    let ghost orig = rows@;
    assert(orig.skip(0) =~= orig);
    let mut out: Vec<FicMetadata> = Vec::new();
    let mut rest = rows;
    let n = rest.len();
    let mut i: usize = 0;
    while i < n
        invariant
            n == orig.len(),
            orig == rows@,
            rv == rows_view(orig),
            i <= n,
            rest@ == orig.skip(i as int),
            out@.len() == i,
            forall|j: int| 0 <= j < i ==> metadata_of_row(orig[j]@) == RowDecoding::Decoded(#[trigger] out@[j]@),
        decreases n - i,
    {
        let row = rest.remove(0);
        assert(row == orig[i as int]);
        assert(rest@ =~= orig.skip(i + 1));
        match FicMetadata::try_from(row) {
            Ok(m) => {
                out.push(m);
            },
            Err(x) => {
                proof {
                    assert(!all_decoded(rv)) by {
                        assert(!(metadata_of_row(rv[i as int]) is Decoded));
                    }
                    assert(decoding_error(metadata_of_row(orig[i as int]@), x));
                    assert forall|j: int| 0 <= j < i implies #[trigger] metadata_of_row(orig[j]@) is Decoded by {
                        assert(metadata_of_row(orig[j]@) == RowDecoding::Decoded(out@[j]@));
                    }
                }
                return Err(x);
            },
        }
        i = i + 1;
    }
    proof {
        assert forall|k: int| 0 <= k < rv.len() implies #[trigger] metadata_of_row(rv[k]) is Decoded by {
            assert(metadata_of_row(orig[k]@) == RowDecoding::Decoded(out@[k]@));
        }
    }
    Ok(out)
}

/// Law: a list of metadata stored as rows reads back, in order, as the same
/// list, each record equal in every field with the same values under every
/// tag category and no generated tag list.
pub proof fn law_rows_read_back(
    ms: Seq<FicMetadataView>,
    rows: Seq<FicMetadataRowView>,
    loaded: Seq<FicMetadataView>,
)
    requires
        rows.len() == ms.len(),
        forall|i: int| 0 <= i < rows.len() ==> restores(ms[i], #[trigger] metadata_of_row(rows[i])),
        loaded.len() == rows.len(),
        forall|i: int| 0 <= i < loaded.len() ==> metadata_of_row(rows[i]) == RowDecoding::Decoded(#[trigger] loaded[i]),
    ensures
        all_decoded(rows),
        loaded.len() == ms.len(),
        forall|i: int| 0 <= i < loaded.len() ==> #[trigger] loaded[i] == (FicMetadataView { tags: loaded[i].tags, merged_tags: None, ..ms[i] }),
        forall|i: int, k: Seq<char>| 0 <= i < loaded.len() ==> #[trigger] lookup(loaded[i].tags, k) == lookup(ms[i].tags, k),
{
    assert forall|i: int| 0 <= i < rows.len() implies #[trigger] metadata_of_row(rows[i]) is Decoded by {
        assert(restores(ms[i], metadata_of_row(rows[i])));
    }
    assert forall|i: int| 0 <= i < loaded.len() implies #[trigger] loaded[i] == (FicMetadataView { tags: loaded[i].tags, merged_tags: None, ..ms[i] }) by {
        assert(restores(ms[i], metadata_of_row(rows[i])));
        assert(metadata_of_row(rows[i]) == RowDecoding::Decoded(loaded[i]));
    }
    assert forall|i: int, k: Seq<char>| 0 <= i < loaded.len() implies #[trigger] lookup(loaded[i].tags, k) == lookup(ms[i].tags, k) by {
        assert(restores(ms[i], metadata_of_row(rows[i])));
        assert(metadata_of_row(rows[i]) == RowDecoding::Decoded(loaded[i]));
    }
}


/// An optional count as it stands in its column, when it fits.
pub open spec fn count_cell(value: Option<u32>) -> Option<i32> {
    match value {
        None => None,
        Some(v) => Some(v as i32),
    }
}

/// An optional column value as the count it stands for, when not negative.
pub open spec fn cell_count(value: Option<i32>) -> Option<u32> {
    match value {
        None => None,
        Some(v) => Some(v as u32),
    }
}

/// Whether an optional count fits in its column.
pub open spec fn count_fits(value: Option<u32>) -> bool {
    match value {
        None => true,
        Some(v) => v <= i32::MAX,
    }
}

/// Whether an optional column value stands for a count.
pub open spec fn cell_is_count(value: Option<i32>) -> bool {
    match value {
        None => true,
        Some(v) => v >= 0,
    }
}

/// Law: metadata can be stored exactly when its version and its kudos, words
/// and hits fit in an `i32`; each field then goes to its own column: the
/// kudos to `kudos`, the words to `words`, the hits to `hits`, each list to
/// the JSON of that list, and the plain fields unchanged.
pub proof fn law_row_columns(m: FicMetadataView)
    ensures
        (row_of(m) is Ok) == (m.version <= i32::MAX && count_fits(m.kudos) && count_fits(m.words)
            && count_fits(m.hits)),
        row_of(m) matches Ok(r) ==> {
            &&& r.id == m.id
            &&& r.version == m.version
            &&& r.name == m.name
            &&& r.url == m.url
            &&& r.last_updated == m.last_updated
            &&& r.description == m.description
            &&& r.language == m.language
            &&& r.chapters == m.chapters
            &&& r.kudos == count_cell(m.kudos)
            &&& r.words == count_cell(m.words)
            &&& r.hits == count_cell(m.hits)
            &&& r.tags_json == json_of_tags(m.tags)
            &&& r.authors_json == json_of_strings(m.authors)
            &&& r.fandom_json == json_of_strings(m.fandom)
            &&& r.ship_type_json == json_of_strings(m.ship_type)
            &&& r.series_json == json_of_strings(m.series)
        },
{
}

/// The values of `es` inserted in order into an empty map are found under
/// each category as in `es`: the last entry of a category wins.
pub proof fn lemma_lookup_inserted_all(es: TagEntries, k: Seq<char>)
    ensures
        lookup(inserted_all(TagEntries::empty(), es), k) == lookup(es, k),
    decreases es.len(),
{
    if es.len() > 0 {
        let pre = es.drop_last();
        lemma_lookup_inserted_all(pre, k);
        law_lookup_after_insert(inserted_all(TagEntries::empty(), pre), es.last().0, es.last().1, k);
    }
}

/// Law: a row reads back as metadata exactly when its version is not
/// negative, its JSON columns hold what they should and its kudos, words and
/// hits are not negative; each field then comes from its own column: the
/// kudos from `kudos`, the words from `words`, the hits from `hits`, each
/// list from the JSON of its column, the tags of each category from the tags
/// JSON, and the plain fields unchanged.
pub proof fn law_row_decoding(row: FicMetadataRowView)
    ensures
        (metadata_of_row(row) is Decoded) == (row.version >= 0 && tags_of_json(row.tags_json) is Some
            && strings_of_json(row.authors_json) is Some && strings_of_json(row.fandom_json) is Some
            && strings_of_json(row.ship_type_json) is Some && strings_of_json(row.series_json) is Some
            && cell_is_count(row.kudos) && cell_is_count(row.words) && cell_is_count(row.hits)),
        metadata_of_row(row) matches RowDecoding::Decoded(v) ==> {
            &&& v.id == row.id
            &&& v.version == row.version as u32
            &&& v.name == row.name
            &&& v.url == row.url
            &&& v.last_updated == row.last_updated
            &&& v.description == row.description
            &&& v.language == row.language
            &&& v.chapters == row.chapters
            &&& v.kudos == cell_count(row.kudos)
            &&& v.words == cell_count(row.words)
            &&& v.hits == cell_count(row.hits)
            &&& Some(v.authors) == strings_of_json(row.authors_json)
            &&& Some(v.fandom) == strings_of_json(row.fandom_json)
            &&& Some(v.ship_type) == strings_of_json(row.ship_type_json)
            &&& Some(v.series) == strings_of_json(row.series_json)
            &&& forall|k: Seq<char>| #[trigger] lookup(v.tags, k) == lookup(tags_of_json(row.tags_json)->Some_0, k)
            &&& v.merged_tags is None
        },
{
    if let RowDecoding::Decoded(v) = metadata_of_row(row) {
        assert forall|k: Seq<char>| #[trigger] lookup(v.tags, k) == lookup(tags_of_json(row.tags_json)->Some_0, k) by {
            lemma_lookup_inserted_all(tags_of_json(row.tags_json)->Some_0, k);
        }
    }
}

} // verus!
