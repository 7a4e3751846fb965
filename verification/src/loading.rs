//! The decisions of loading the saved metadata of an output directory.
//!
//! The metadata lives in an SQLite database; legacy exports (a bzip2-compressed
//! JSON file and a plain JSON file) are read when the database is missing or
//! unreadable, and imported into a new database when it is missing. The reads
//! and writes are performed by the caller: [`load_step`] takes the outcome of
//! the last one and says what to do next.
use vstd::prelude::*;
use crate::metadata::FicMetadata;

verus! {

/// Where loading stands.
pub enum LoadStage {
    /// Nothing done yet.
    Start,
    /// Waiting to learn whether the SQLite file exists.
    CheckingSqlite,
    /// Waiting for the records read from SQLite.
    ReadingSqlite,
    /// Waiting for the bzip2 export; the flag says whether the SQLite file exists.
    ReadingBzip2(bool),
    /// Waiting for the JSON export; the flag says whether the SQLite file exists.
    ReadingJson(bool),
    /// Waiting for the legacy records to be imported into SQLite.
    Importing,
    /// Loading is over.
    Finished,
}

/// The outcome of the last action.
pub enum LoadEvent {
    /// Loading begins.
    Begin,
    /// Whether the SQLite file exists.
    SqliteFileExists(bool),
    /// The records read from SQLite, or `None` when reading failed.
    SqliteRead(Option<Vec<FicMetadata>>),
    /// The records read from a legacy export, or `None` when it is missing or unreadable.
    ExportRead(Option<Vec<FicMetadata>>),
    /// The import into SQLite was attempted (whatever its outcome); the records are handed back.
    Imported(Vec<FicMetadata>),
}

/// What the caller is to do next.
pub enum LoadAction {
    /// Check whether the SQLite file exists.
    CheckSqliteFile,
    /// Read the records from SQLite.
    ReadSqlite,
    /// Read the bzip2-compressed JSON export.
    ReadBzip2Export,
    /// Read the plain JSON export.
    ReadJsonExport,
    /// Save these records into a new SQLite database.
    ImportIntoSqlite(Vec<FicMetadata>),
    /// Loading is over; these are the records.
    Done(Vec<FicMetadata>),
}

/// What follows a legacy export's records `v`: they are the result when the
/// SQLite file exists, and are imported first otherwise.
pub open spec fn after_export(sqlite_exists: bool, v: Vec<FicMetadata>, next: LoadStage, action: LoadAction) -> bool {
    if sqlite_exists {
        next == LoadStage::Finished && action == LoadAction::Done(v)
    } else {
        next == LoadStage::Importing && action == LoadAction::ImportIntoSqlite(v)
    }
}

/// Loading finishes with no records.
pub open spec fn finished_empty(next: LoadStage, action: LoadAction) -> bool {
    &&& next == LoadStage::Finished
    &&& action matches LoadAction::Done(v) && v@.len() == 0
}

/// One step of loading: from `stage`, on `event`, go to `next` and do `action`.
///
/// First the SQLite file is checked; when it exists its records are the
/// result, unless reading them fails. Otherwise the bzip2 export, then the
/// JSON export, is read; the first that can be read is the result, and is
/// imported into SQLite when there was no SQLite file. When none can be read
/// the result is empty. An event that does not fit the stage ends loading
/// with no records.
pub open spec fn load_transition(stage: LoadStage, event: LoadEvent, next: LoadStage, action: LoadAction) -> bool {
    match (stage, event) {
        (LoadStage::Start, LoadEvent::Begin) => next == LoadStage::CheckingSqlite && action
            == LoadAction::CheckSqliteFile,
        (LoadStage::CheckingSqlite, LoadEvent::SqliteFileExists(true)) => next == LoadStage::ReadingSqlite
            && action == LoadAction::ReadSqlite,
        (LoadStage::CheckingSqlite, LoadEvent::SqliteFileExists(false)) => next == LoadStage::ReadingBzip2(
            false,
        ) && action == LoadAction::ReadBzip2Export,
        (LoadStage::ReadingSqlite, LoadEvent::SqliteRead(Some(v))) => next == LoadStage::Finished
            && action == LoadAction::Done(v),
        (LoadStage::ReadingSqlite, LoadEvent::SqliteRead(None)) => next == LoadStage::ReadingBzip2(true)
            && action == LoadAction::ReadBzip2Export,
        (LoadStage::ReadingBzip2(exists), LoadEvent::ExportRead(Some(v))) => after_export(exists, v, next, action),
        (LoadStage::ReadingBzip2(exists), LoadEvent::ExportRead(None)) => next == LoadStage::ReadingJson(exists)
            && action == LoadAction::ReadJsonExport,
        (LoadStage::ReadingJson(exists), LoadEvent::ExportRead(Some(v))) => after_export(exists, v, next, action),
        (LoadStage::ReadingJson(_), LoadEvent::ExportRead(None)) => finished_empty(next, action),
        (LoadStage::Importing, LoadEvent::Imported(v)) => next == LoadStage::Finished && action
            == LoadAction::Done(v),
        _ => finished_empty(next, action),
    }
}

/// One step of loading: what to do next, given where loading stands and the
/// outcome of the last action (see [`load_transition`]).
pub fn load_step(stage: LoadStage, event: LoadEvent) -> (r: (LoadStage, LoadAction))
    ensures
        load_transition(stage, event, r.0, r.1),
{
    match (stage, event) {
        (LoadStage::Start, LoadEvent::Begin) => (LoadStage::CheckingSqlite, LoadAction::CheckSqliteFile),
        (LoadStage::CheckingSqlite, LoadEvent::SqliteFileExists(exists)) => {
            if exists {
                (LoadStage::ReadingSqlite, LoadAction::ReadSqlite)
            } else {
                (LoadStage::ReadingBzip2(false), LoadAction::ReadBzip2Export)
            }
        },
        (LoadStage::ReadingSqlite, LoadEvent::SqliteRead(read)) => match read {
            Some(v) => (LoadStage::Finished, LoadAction::Done(v)),
            None => (LoadStage::ReadingBzip2(true), LoadAction::ReadBzip2Export),
        },
        (LoadStage::ReadingBzip2(exists), LoadEvent::ExportRead(read)) => match read {
            Some(v) => export_found(exists, v),
            None => (LoadStage::ReadingJson(exists), LoadAction::ReadJsonExport),
        },
        (LoadStage::ReadingJson(exists), LoadEvent::ExportRead(read)) => match read {
            Some(v) => export_found(exists, v),
            None => (LoadStage::Finished, LoadAction::Done(Vec::new())),
        },
        (LoadStage::Importing, LoadEvent::Imported(v)) => (LoadStage::Finished, LoadAction::Done(v)),
        _ => (LoadStage::Finished, LoadAction::Done(Vec::new())),
    }
}

fn export_found(sqlite_exists: bool, v: Vec<FicMetadata>) -> (r: (LoadStage, LoadAction))
    ensures
        after_export(sqlite_exists, v, r.0, r.1),
{
    if sqlite_exists {
        (LoadStage::Finished, LoadAction::Done(v))
    } else {
        (LoadStage::Importing, LoadAction::ImportIntoSqlite(v))
    }
}

/// The outcome that storage gives to `action`, when the SQLite file exists
/// exactly if `exists`, and reading SQLite, the bzip2 export and the JSON
/// export gives `sqlite`, `bz2` and `json`; an import hands its records back.
pub open spec fn response(
    action: LoadAction,
    exists: bool,
    sqlite: Option<Vec<FicMetadata>>,
    bz2: Option<Vec<FicMetadata>>,
    json: Option<Vec<FicMetadata>>,
) -> LoadEvent {
    match action {
        LoadAction::CheckSqliteFile => LoadEvent::SqliteFileExists(exists),
        LoadAction::ReadSqlite => LoadEvent::SqliteRead(sqlite),
        LoadAction::ReadBzip2Export => LoadEvent::ExportRead(bz2),
        LoadAction::ReadJsonExport => LoadEvent::ExportRead(json),
        LoadAction::ImportIntoSqlite(v) => LoadEvent::Imported(v),
        LoadAction::Done(_) => LoadEvent::Begin,
    }
}

/// The records of the first `Done` among `actions`.
pub open spec fn first_done(actions: Seq<LoadAction>) -> Option<Vec<FicMetadata>>
    decreases actions.len(),
{
    if actions.len() == 0 {
        None
    } else {
        match actions[0] {
            LoadAction::Done(v) => Some(v),
            _ => first_done(actions.skip(1)),
        }
    }
}

/// The records imported into SQLite before the first `Done` among `actions`, if any.
pub open spec fn import_before_done(actions: Seq<LoadAction>) -> Option<Vec<FicMetadata>>
    decreases actions.len(),
{
    if actions.len() == 0 {
        None
    } else {
        match actions[0] {
            LoadAction::Done(_) => None,
            LoadAction::ImportIntoSqlite(v) => Some(v),
            _ => import_before_done(actions.skip(1)),
        }
    }
}

/// The records that loading yields: those of SQLite when its file exists and
/// can be read, else those of the first legacy export that can be read
/// (bzip2 first); `None` stands for no records.
pub open spec fn loaded_records(
    exists: bool,
    sqlite: Option<Vec<FicMetadata>>,
    bz2: Option<Vec<FicMetadata>>,
    json: Option<Vec<FicMetadata>>,
) -> Option<Vec<FicMetadata>> {
    if exists && sqlite is Some {
        sqlite
    } else if bz2 is Some {
        bz2
    } else {
        json
    }
}

/// Law: loading, run from the start with storage answering each action,
/// finishes within five steps with the SQLite records when the database
/// exists and can be read, else with the first legacy export that can be read,
/// else with no records; and the legacy records are imported into SQLite
/// first exactly when there was no database file.
pub proof fn law_loading_outcome(
    exists: bool,
    sqlite: Option<Vec<FicMetadata>>,
    bz2: Option<Vec<FicMetadata>>,
    json: Option<Vec<FicMetadata>>,
    s1: LoadStage, a1: LoadAction,
    s2: LoadStage, a2: LoadAction,
    s3: LoadStage, a3: LoadAction,
    s4: LoadStage, a4: LoadAction,
    s5: LoadStage, a5: LoadAction,
)
    requires
        load_transition(LoadStage::Start, LoadEvent::Begin, s1, a1),
        load_transition(s1, response(a1, exists, sqlite, bz2, json), s2, a2),
        load_transition(s2, response(a2, exists, sqlite, bz2, json), s3, a3),
        load_transition(s3, response(a3, exists, sqlite, bz2, json), s4, a4),
        load_transition(s4, response(a4, exists, sqlite, bz2, json), s5, a5),
    ensures
        match loaded_records(exists, sqlite, bz2, json) {
            Some(v) => first_done(seq![a1, a2, a3, a4, a5]) == Some(v),
            None => first_done(seq![a1, a2, a3, a4, a5]) matches Some(v) && v@.len() == 0,
        },
        import_before_done(seq![a1, a2, a3, a4, a5]) == (if !exists && (bz2 is Some || json is Some) {
            loaded_records(exists, sqlite, bz2, json)
        } else {
            None
        }),
{
    let acts = seq![a1, a2, a3, a4, a5];
    let t1 = acts.skip(1);
    let t2 = t1.skip(1);
    let t3 = t2.skip(1);
    let t4 = t3.skip(1);
    assert(t1 =~= seq![a2, a3, a4, a5]);
    assert(t2 =~= seq![a3, a4, a5]);
    assert(t3 =~= seq![a4, a5]);
    assert(t4 =~= seq![a5]);
    assert(t4.skip(1) =~= Seq::<LoadAction>::empty());
    assert(acts[0] == a1 && t1[0] == a2 && t2[0] == a3 && t3[0] == a4 && t4[0] == a5);
    assert(a1 == LoadAction::CheckSqliteFile);
    assert(first_done(acts) == first_done(t1));
    assert(import_before_done(acts) == import_before_done(t1));
    assert(!(a2 is Done) ==> first_done(t1) == first_done(t2));
    assert(!(a2 is Done) && !(a2 is ImportIntoSqlite) ==> import_before_done(t1) == import_before_done(t2));
    assert(!(a3 is Done) ==> first_done(t2) == first_done(t3));
    assert(!(a3 is Done) && !(a3 is ImportIntoSqlite) ==> import_before_done(t2) == import_before_done(t3));
    assert(!(a4 is Done) ==> first_done(t3) == first_done(t4));
    assert(!(a4 is Done) && !(a4 is ImportIntoSqlite) ==> import_before_done(t3) == import_before_done(t4));
    if exists {
        assert(a2 == LoadAction::ReadSqlite);
        if sqlite is None {
            assert(a3 == LoadAction::ReadBzip2Export);
            if bz2 is None {
                assert(a4 == LoadAction::ReadJsonExport);
            }
        }
    } else {
        assert(a2 == LoadAction::ReadBzip2Export);
        if bz2 is None {
            assert(a3 == LoadAction::ReadJsonExport);
            if json is Some {
                assert(a4 == LoadAction::ImportIntoSqlite(json.unwrap()));
                assert(a5 == LoadAction::Done(json.unwrap()));
            }
        } else {
            assert(a3 == LoadAction::ImportIntoSqlite(bz2.unwrap()));
            assert(a4 == LoadAction::Done(bz2.unwrap()));
        }
    }
}

} // verus!
