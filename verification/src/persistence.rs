//! Version management over the saved metadata: which fics to download, which
//! version number a save assigns, and how saved records are updated.
use vstd::prelude::*;
use crate::metadata::{opt_view, FicMetadata, FicMetadataView};
use crate::tag_map::{clone_strings, lookup};

verus! {

/// The highest version among the records of fic `id`, or 0 when there is none.
pub open spec fn max_version(ms: Seq<FicMetadata>, id: Seq<char>) -> nat
    decreases ms.len(),
{
    if ms.len() == 0 {
        0
    } else {
        let rest = max_version(ms.drop_last(), id);
        if ms.last().id@ == id && ms.last().version > rest {
            ms.last().version as nat
        } else {
            rest
        }
    }
}

/// Whether some record belongs to fic `id`.
pub open spec fn has_fic(ms: Seq<FicMetadata>, id: Seq<char>) -> bool {
    exists|i: int| 0 <= i < ms.len() && #[trigger] ms[i].id@ == id
}

/// The index of the latest record of fic `id`: the last one, in order, of
/// those with the highest version; -1 when there is none.
pub open spec fn latest_index(ms: Seq<FicMetadata>, id: Seq<char>) -> int
    decreases ms.len(),
{
    if ms.len() == 0 {
        -1
    } else {
        let k = latest_index(ms.drop_last(), id);
        if ms.last().id@ == id && (k < 0 || ms.last().version >= ms[k].version) {
            ms.len() - 1
        } else {
            k
        }
    }
}

/// Whether a fic with metadata `fic` needs downloading, given the saved records `ms`:
/// it was never downloaded, or its update date differs from that of its latest version.
pub open spec fn needs_download(ms: Seq<FicMetadata>, fic: FicMetadataView) -> bool {
    let k = latest_index(ms, fic.id);
    k < 0 || ms[k].last_updated@ != fic.last_updated
}

/// The record kept after `old` is refreshed with the data of `new`: every
/// field is taken from `new`, except the version and the generated tag list.
pub open spec fn refreshed(old: FicMetadataView, new: FicMetadataView) -> FicMetadataView {
    FicMetadataView { id: old.id, version: old.version, merged_tags: old.merged_tags, ..new }
}

/// `after` is `before` with every record of fic `fic.id` refreshed from `fic`
/// and every other record unchanged.
pub open spec fn all_refreshed(before: Seq<FicMetadata>, after: Seq<FicMetadata>, fic: FicMetadataView) -> bool {
    &&& after.len() == before.len()
    &&& forall|i: int|
        0 <= i < before.len() ==> if #[trigger] before[i].id@ == fic.id {
            after[i]@ == refreshed(before[i]@, fic)
        } else {
            after[i] == before[i]
        }
}

/// The latest record of a fic has its highest version, which bounds every
/// version of the fic; there is one exactly when the fic has a record.
pub proof fn lemma_latest_index(ms: Seq<FicMetadata>, id: Seq<char>)
    ensures
        -1 <= latest_index(ms, id) < ms.len(),
        latest_index(ms, id) < 0 <==> !has_fic(ms, id),
        latest_index(ms, id) >= 0 ==> ms[latest_index(ms, id)].id@ == id
            && ms[latest_index(ms, id)].version == max_version(ms, id),
        forall|i: int| 0 <= i < ms.len() && #[trigger] ms[i].id@ == id ==> ms[i].version <= max_version(ms, id),
        max_version(ms, id) <= u32::MAX,
    decreases ms.len(),
{
    if ms.len() > 0 {
        let pre = ms.drop_last();
        lemma_latest_index(pre, id);
        assert forall|i: int| 0 <= i < pre.len() implies #[trigger] pre[i] == ms[i] by {}
        if has_fic(pre, id) {
            let w = choose|i: int| 0 <= i < pre.len() && #[trigger] pre[i].id@ == id;
            assert(ms[w].id@ == id);
        }
        if has_fic(ms, id) && !has_fic(pre, id) {
            let w = choose|i: int| 0 <= i < ms.len() && #[trigger] ms[i].id@ == id;
            if w < ms.len() - 1 {
                assert(pre[w].id@ == id);
            }
        }
        assert forall|i: int| 0 <= i < ms.len() && #[trigger] ms[i].id@ == id implies ms[i].version
            <= max_version(ms, id) by {
            if i < ms.len() - 1 {
                assert(pre[i].id@ == id);
            }
        }
        let k = latest_index(pre, id);
        if k >= 0 {
            assert(pre[k] == ms[k]);
            assert(ms[k].version == max_version(pre, id));
        } else {
            assert(max_version(pre, id) == 0) by {
                if max_version(pre, id) != 0 {
                    lemma_max_version_witness(pre, id);
                }
            }
        }
    }
}

proof fn lemma_max_version_witness(ms: Seq<FicMetadata>, id: Seq<char>)
    requires
        max_version(ms, id) != 0,
    ensures
        has_fic(ms, id),
    decreases ms.len(),
{
    let pre = ms.drop_last();
    if max_version(pre, id) != 0 && !(ms.last().id@ == id && ms.last().version > max_version(pre, id)) {
        lemma_max_version_witness(pre, id);
        let w = choose|i: int| 0 <= i < pre.len() && #[trigger] pre[i].id@ == id;
        assert(ms[w] == pre[w]);
    } else {
        assert(ms[ms.len() - 1].id@ == id);
    }
}

/// The version number that the next save of fic `fic_id` assigns: one more
/// than the highest saved version, so 1 for a fic never saved.
pub fn get_next_version(metadata: &Vec<FicMetadata>, fic_id: &str) -> (r: u32)
    requires
        max_version(metadata@, fic_id@) < u32::MAX,
    ensures
        r == max_version(metadata@, fic_id@) + 1,
{
    let max_version = highest_version(metadata, fic_id);
    max_version + 1
}

/// The highest saved version of fic `fic_id`, or 0 when it has none.
pub fn highest_version(metadata: &Vec<FicMetadata>, fic_id: &str) -> (r: u32)
    ensures
        r == max_version(metadata@, fic_id@),
{
    let mut best: u32 = 0;
    let n = metadata.len();
    for i in 0..n
        invariant
            n == metadata@.len(),
            best == max_version(metadata@.take(i as int), fic_id@),
    {
        proof {
            assert(metadata@.take(i + 1).drop_last() =~= metadata@.take(i as int));
        }
        let f = &metadata[i];
        if crate::text::str_eq(f.id.as_str(), fic_id) && f.version > best {
            best = f.version;
        }
    }
    assert(metadata@.take(n as int) =~= metadata@);
    best
}

/// Whether the fic `fic_metadata` should be downloaded, given the saved
/// records `existing_metadata`: true when the fic has never been downloaded,
/// or when its `last_updated` date differs from that of its latest saved version.
pub fn should_download_fic(existing_metadata: &Vec<FicMetadata>, fic_metadata: &FicMetadata) -> (r: bool)
    ensures
        r == needs_download(existing_metadata@, fic_metadata@),
        !has_fic(existing_metadata@, fic_metadata@.id) ==> r,
{
    proof {
        lemma_latest_index(existing_metadata@, fic_metadata@.id);
    }
    let mut latest: Option<usize> = None;
    let n = existing_metadata.len();
    for i in 0..n
        invariant
            n == existing_metadata@.len(),
            match latest {
                Some(k) => k < i && latest_index(existing_metadata@.take(i as int), fic_metadata@.id) == k,
                None => latest_index(existing_metadata@.take(i as int), fic_metadata@.id) < 0,
            },
    {
        let ghost pre = existing_metadata@.take(i as int);
        proof {
            assert(existing_metadata@.take(i + 1).drop_last() =~= pre);
            if let Some(k) = latest {
                lemma_latest_index(pre, fic_metadata@.id);
                assert(pre[k as int] == existing_metadata@[k as int]);
            }
        }
        let f = &existing_metadata[i];
        if crate::text::str_eq(f.id.as_str(), fic_metadata.id.as_str()) {
            match latest {
                None => {
                    latest = Some(i);
                },
                Some(k) => {
                    if f.version >= existing_metadata[k].version {
                        latest = Some(i);
                    }
                },
            }
        }
    }
    assert(existing_metadata@.take(n as int) =~= existing_metadata@);
    match latest {
        None => true,
        Some(k) => existing_metadata[k].last_updated != fic_metadata.last_updated,
    }
}

/// Saves a new version of `fic`: it is appended with the next version number
/// of its id, and every record saved before is kept.
pub fn update_fic_metadata(metadata: &mut Vec<FicMetadata>, fic: FicMetadata)
    requires
        max_version(old(metadata)@, fic@.id) < u32::MAX,
    ensures
        final(metadata)@.len() == old(metadata)@.len() + 1,
        final(metadata)@.take(old(metadata)@.len() as int) == old(metadata)@,
        final(metadata)@.last()@ == (FicMetadataView {
            version: (max_version(old(metadata)@, fic@.id) + 1) as u32,
            ..fic@
        }),
{
    let mut fic = fic;
    let next = get_next_version(metadata, fic.id.as_str());
    fic.version = next;
    metadata.push(fic);
    assert(metadata@.take(old(metadata)@.len() as int) =~= old(metadata)@);
}

fn clone_opt_string(o: &Option<String>) -> (r: Option<String>)
    ensures
        opt_view(r) == opt_view(*o),
{
    match o {
        Some(s) => Some(s.clone()),
        None => None,
    }
}

fn clone_opt_strings(o: &Option<Vec<String>>) -> (r: Option<Vec<String>>)
    ensures
        crate::metadata::opt_strings_view(r) == crate::metadata::opt_strings_view(*o),
{
    match o {
        Some(v) => Some(clone_strings(v)),
        None => None,
    }
}

/// The record `existing` with all fields overwritten by those of `new_fic`,
/// except the version number and the generated tag list.
pub fn refresh_record(existing: &FicMetadata, new_fic: &FicMetadata) -> (r: FicMetadata)
    ensures
        r@ == refreshed(existing@, new_fic@),
{
    FicMetadata {
        id: existing.id.clone(),
        name: new_fic.name.clone(),
        url: new_fic.url.clone(),
        tags: new_fic.tags.copy(),
        last_updated: new_fic.last_updated.clone(),
        version: existing.version,
        description: new_fic.description.clone(),
        authors: clone_strings(&new_fic.authors),
        fandom: clone_strings(&new_fic.fandom),
        ship_type: clone_strings(&new_fic.ship_type),
        language: clone_opt_string(&new_fic.language),
        chapters: clone_opt_string(&new_fic.chapters),
        kudos: new_fic.kudos,
        words: new_fic.words,
        series: clone_strings(&new_fic.series),
        hits: new_fic.hits,
        merged_tags: clone_opt_strings(&existing.merged_tags),
    }
}

/// Refreshes every saved version of the fic `new_fic` with its data, without
/// creating a new version: each record with the same id takes all fields of
/// `new_fic` but keeps its version number; other records are left as they are.
pub fn update_existing_metadata_fields(metadata: &mut Vec<FicMetadata>, new_fic: &FicMetadata)
    ensures
        all_refreshed(old(metadata)@, final(metadata)@, new_fic@),
{
    let n = metadata.len();
    for i in 0..n
        invariant
            n == metadata@.len(),
            metadata@.len() == old(metadata)@.len(),
            forall|j: int|
                0 <= j < i ==> if #[trigger] old(metadata)@[j].id@ == new_fic@.id {
                    metadata@[j]@ == refreshed(old(metadata)@[j]@, new_fic@)
                } else {
                    metadata@[j] == old(metadata)@[j]
                },
            forall|j: int| i <= j < n ==> #[trigger] metadata@[j] == old(metadata)@[j],
    {
        if crate::text::str_eq(metadata[i].id.as_str(), new_fic.id.as_str()) {
            let updated = refresh_record(&metadata[i], new_fic);
            metadata.set(i, updated);
        }
    }
}

/// Law: saving a fic makes it up to date. Once `update_fic_metadata` has
/// appended `fic` as `saved`, the fic no longer needs downloading.
pub proof fn law_saved_fic_needs_no_download(ms: Seq<FicMetadata>, fic: FicMetadata, saved: FicMetadata)
    requires
        max_version(ms, fic@.id) < u32::MAX,
        saved@ == (FicMetadataView { version: (max_version(ms, fic@.id) + 1) as u32, ..fic@ }),
    ensures
        !needs_download(ms.push(saved), fic@),
{
    let ms2 = ms.push(saved);
    assert(ms2.drop_last() =~= ms);
    lemma_latest_index(ms, fic@.id);
    let k = latest_index(ms, fic@.id);
    if k >= 0 {
        assert(ms2[k] == ms[k]);
    }
    assert(latest_index(ms2, fic@.id) == ms.len());
}

/// Law: a save assigns the version that `get_next_version` announced, and it
/// raises the next version number of the saved fic by one while leaving that
/// of every other fic unchanged.
pub proof fn law_save_advances_version(ms: Seq<FicMetadata>, fic: FicMetadata, saved: FicMetadata, other: Seq<char>)
    requires
        max_version(ms, fic@.id) < u32::MAX,
        saved@ == (FicMetadataView { version: (max_version(ms, fic@.id) + 1) as u32, ..fic@ }),
    ensures
        saved.version == max_version(ms, fic@.id) + 1,
        max_version(ms.push(saved), fic@.id) == max_version(ms, fic@.id) + 1,
        other != fic@.id ==> max_version(ms.push(saved), other) == max_version(ms, other),
{
    assert(ms.push(saved).drop_last() =~= ms);
}

/// Law: the first save of a fic gives it version 1.
pub proof fn law_first_version_is_one(ms: Seq<FicMetadata>, id: Seq<char>)
    requires
        !has_fic(ms, id),
    ensures
        max_version(ms, id) + 1 == 1,
{
    lemma_latest_index(ms, id);
    if max_version(ms, id) != 0 {
        lemma_max_version_witness(ms, id);
    }
}

proof fn lemma_refresh_index(before: Seq<FicMetadata>, after: Seq<FicMetadata>, fic: FicMetadata, id: Seq<char>)
    requires
        all_refreshed(before, after, fic@),
    ensures
        max_version(after, id) == max_version(before, id),
        latest_index(after, id) == latest_index(before, id),
    decreases before.len(),
{
    if before.len() > 0 {
        let b = before.drop_last();
        let a = after.drop_last();
        assert forall|i: int| 0 <= i < b.len() implies #[trigger] b[i] == before[i] && a[i] == after[i] by {}
        assert(all_refreshed(b, a, fic@)) by {
            assert forall|i: int| 0 <= i < b.len() implies (if #[trigger] b[i].id@ == fic@.id {
                a[i]@ == refreshed(b[i]@, fic@)
            } else {
                a[i] == b[i]
            }) by {
                assert(b[i] == before[i] && a[i] == after[i]);
            }
        }
        lemma_refresh_index(b, a, fic, id);
        let l = before.len() - 1;
        assert(before[l].id@ == fic@.id ==> after[l]@ == refreshed(before[l]@, fic@));
        let k = latest_index(b, id);
        lemma_latest_index(b, id);
        if k >= 0 {
            assert(before[k] == b[k] && after[k] == a[k]);
            assert(b[k].id@ == fic@.id ==> a[k]@ == refreshed(b[k]@, fic@));
        }
        assert(after[l].id@ == before[l].id@ && after[l].version == before[l].version);
    }
}


/// Law: refreshing the saved records of a fic never changes a version number,
/// so the next version of every fic stays the same, and afterwards the
/// refreshed fic no longer needs downloading when it had been saved before.
pub proof fn law_refresh_keeps_versions(before: Seq<FicMetadata>, after: Seq<FicMetadata>, fic: FicMetadata, id: Seq<char>)
    requires
        all_refreshed(before, after, fic@),
    ensures
        max_version(after, id) == max_version(before, id),
        has_fic(before, fic@.id) ==> !needs_download(after, fic@),
{
    lemma_refresh_index(before, after, fic, id);
    if has_fic(before, fic@.id) {
        lemma_refresh_index(before, after, fic, fic@.id);
        lemma_latest_index(before, fic@.id);
        let m = latest_index(before, fic@.id);
        assert(before[m].id@ == fic@.id);
        assert(after[m]@ == refreshed(before[m]@, fic@));
    }
}


/// Law: refreshing the records of a fic a second time with the same metadata
/// changes nothing: every record is as the first refresh left it.
pub proof fn law_refresh_twice_is_refresh_once(
    before: Seq<FicMetadata>,
    once: Seq<FicMetadata>,
    twice: Seq<FicMetadata>,
    fic: FicMetadataView,
)
    requires
        all_refreshed(before, once, fic),
        all_refreshed(once, twice, fic),
    ensures
        twice.len() == once.len(),
        forall|i: int| 0 <= i < twice.len() ==> #[trigger] twice[i]@ == once[i]@,
{
    assert forall|i: int| 0 <= i < twice.len() implies #[trigger] twice[i]@ == once[i]@ by {
        if before[i].id@ == fic.id {
            assert(once[i]@ == refreshed(before[i]@, fic));
            assert(once[i].id@ == fic.id);
            assert(twice[i]@ == refreshed(once[i]@, fic));
        } else {
            assert(once[i] == before[i]);
            assert(once[i].id@ != fic.id);
        }
    }
}


/// Law: a fic that has saved records must be downloaded when every record of
/// its highest version was saved with another update date than the fic's, and
/// need not be when every such record has the fic's update date. Dates are
/// compared as whole strings.
pub proof fn law_download_decided_by_latest_date(ms: Seq<FicMetadata>, fic: FicMetadataView)
    requires
        has_fic(ms, fic.id),
    ensures
        (forall|i: int|
            0 <= i < ms.len() && #[trigger] ms[i].id@ == fic.id && ms[i].version == max_version(ms, fic.id)
                ==> ms[i].last_updated@ != fic.last_updated) ==> needs_download(ms, fic),
        (forall|i: int|
            0 <= i < ms.len() && #[trigger] ms[i].id@ == fic.id && ms[i].version == max_version(ms, fic.id)
                ==> ms[i].last_updated@ == fic.last_updated) ==> !needs_download(ms, fic),
{
    lemma_latest_index(ms, fic.id);
    let k = latest_index(ms, fic.id);
    assert(ms[k].id@ == fic.id);
}

/// Law: a record refreshed from `new` takes every field from `new` (its name,
/// URL, tags, update date, description, authors, fandoms, relationship
/// categories, language, chapters, kudos, words, series and hits) and keeps
/// its own id, version and generated tag list.
pub proof fn law_refreshed_fields(old: FicMetadataView, new: FicMetadataView)
    ensures
        refreshed(old, new).id == old.id,
        refreshed(old, new).version == old.version,
        refreshed(old, new).merged_tags == old.merged_tags,
        refreshed(old, new).name == new.name,
        refreshed(old, new).url == new.url,
        refreshed(old, new).tags == new.tags,
        refreshed(old, new).last_updated == new.last_updated,
        refreshed(old, new).description == new.description,
        refreshed(old, new).authors == new.authors,
        refreshed(old, new).fandom == new.fandom,
        refreshed(old, new).ship_type == new.ship_type,
        refreshed(old, new).language == new.language,
        refreshed(old, new).chapters == new.chapters,
        refreshed(old, new).kudos == new.kudos,
        refreshed(old, new).words == new.words,
        refreshed(old, new).series == new.series,
        refreshed(old, new).hits == new.hits,
{
}

/// Law: after a refresh, every record of the fic holds the fic's tags (the
/// same values under every category), update date, counts and other
/// metadata, with its own version and generated tag list; records of other
/// fics are unchanged.
pub proof fn law_refresh_overwrites_records(before: Seq<FicMetadata>, after: Seq<FicMetadata>, fic: FicMetadataView)
    requires
        all_refreshed(before, after, fic),
    ensures
        after.len() == before.len(),
        forall|i: int| 0 <= i < before.len() && #[trigger] before[i].id@ == fic.id ==> {
            &&& after[i]@.id == fic.id
            &&& after[i]@.tags == fic.tags
            &&& forall|k: Seq<char>| lookup(after[i]@.tags, k) == lookup(fic.tags, k)
            &&& after[i]@.last_updated == fic.last_updated
            &&& after[i]@.name == fic.name
            &&& after[i]@.url == fic.url
            &&& after[i]@.description == fic.description
            &&& after[i]@.authors == fic.authors
            &&& after[i]@.fandom == fic.fandom
            &&& after[i]@.ship_type == fic.ship_type
            &&& after[i]@.language == fic.language
            &&& after[i]@.chapters == fic.chapters
            &&& after[i]@.kudos == fic.kudos
            &&& after[i]@.words == fic.words
            &&& after[i]@.series == fic.series
            &&& after[i]@.hits == fic.hits
            &&& after[i]@.version == before[i]@.version
            &&& after[i]@.merged_tags == before[i]@.merged_tags
        },
        forall|i: int| 0 <= i < before.len() && #[trigger] before[i].id@ != fic.id ==> after[i] == before[i],
{
    assert forall|i: int| 0 <= i < before.len() && #[trigger] before[i].id@ == fic.id implies {
        &&& after[i]@.id == fic.id
        &&& after[i]@.tags == fic.tags
        &&& forall|k: Seq<char>| lookup(after[i]@.tags, k) == lookup(fic.tags, k)
        &&& after[i]@.last_updated == fic.last_updated
        &&& after[i]@.name == fic.name
        &&& after[i]@.url == fic.url
        &&& after[i]@.description == fic.description
        &&& after[i]@.authors == fic.authors
        &&& after[i]@.fandom == fic.fandom
        &&& after[i]@.ship_type == fic.ship_type
        &&& after[i]@.language == fic.language
        &&& after[i]@.chapters == fic.chapters
        &&& after[i]@.kudos == fic.kudos
        &&& after[i]@.words == fic.words
        &&& after[i]@.series == fic.series
        &&& after[i]@.hits == fic.hits
        &&& after[i]@.version == before[i]@.version
        &&& after[i]@.merged_tags == before[i]@.merged_tags
    } by {
        law_refreshed_fields(before[i]@, fic);
    }
}

} // verus!
