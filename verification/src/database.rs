//! Keyed persistence for remindable records over a SQLite table. The store
//! is modelled as a map from key to the stored text triple (name, last-update
//! text, interval text); every operation's contract says how it reads or
//! rewrites that map. The storage engine itself is an external collaborator:
//! each SQL statement stands behind a small trusted wrapper whose contract
//! states what the statement does to the table.

use vstd::prelude::*;

use crate::date::Date;
use crate::date::format_date_spec;
use crate::date::parse_date_spec;
use crate::date::valid_date;
use crate::interval::format_duration_spec;
use crate::interval::parse_duration_spec;
use crate::remindable::Remindable;
use crate::result::Error;

verus! {

#[verifier::external_type_specification]
#[verifier::external_body]
pub struct ExConnection(rusqlite::Connection);

/// The contents of the backing table behind a connection: key to stored
/// (name, last-update text, interval text). Empty when the table is absent.
pub uninterp spec fn table_of(conn: rusqlite::Connection) -> Map<
    Seq<char>,
    (Seq<char>, Seq<char>, Seq<char>),
>;

/// Whether a key matches a pattern under SQL `LIKE` semantics (`%` and `_`
/// wildcards), as the SQLite engine evaluates it.
pub uninterp spec fn like_matches(pattern: Seq<char>, key: Seq<char>) -> bool;

/// The table after a `LIKE` delete: every matching key removed.
pub open spec fn like_deleted(
    m: Map<Seq<char>, (Seq<char>, Seq<char>, Seq<char>)>,
    pattern: Seq<char>,
) -> Map<Seq<char>, (Seq<char>, Seq<char>, Seq<char>)> {
    m.remove_keys(Set::new(|k: Seq<char>| like_matches(pattern, k)))
}

/// The empty table.
pub open spec fn empty_table() -> Map<Seq<char>, (Seq<char>, Seq<char>, Seq<char>)> {
    Map::empty()
}

/// Rows of a full `SELECT` carry exactly the table's contents, one row per
/// key: every row is stored under its key, keys are pairwise distinct, and
/// every stored key appears.
pub open spec fn rows_match(
    rows: Seq<(String, String, String, String)>,
    m: Map<Seq<char>, (Seq<char>, Seq<char>, Seq<char>)>,
) -> bool {
    &&& forall|i: int|
        0 <= i < rows.len() ==> m.contains_key((#[trigger] rows[i]).0@) && m[rows[i].0@] == (
        rows[i].1@,
        rows[i].2@,
        rows[i].3@,
        )
    &&& forall|i: int, j: int|
        0 <= i < j < rows.len() ==> (#[trigger] rows[i]).0@ != (#[trigger] rows[j]).0@
    &&& forall|k: Seq<char>|
        #[trigger] m.contains_key(k) ==> exists|i: int|
            0 <= i < rows.len() && (#[trigger] rows[i]).0@ == k
}

/// The stored triple under a key decodes to this in-memory task.
pub open spec fn decodes_to(
    key: Seq<char>,
    rec: (Seq<char>, Seq<char>, Seq<char>),
    rem: Remindable,
) -> bool {
    &&& rem.key@ == key
    &&& rem.name@ == rec.0
    &&& parse_date_spec(rec.1) == Option::Some(rem.last_update)
    &&& parse_duration_spec(rec.2) == Option::Some(rem.remind_interval)
}

/// Whether a stored triple's date and interval texts both decode.
pub open spec fn record_decodes(rec: (Seq<char>, Seq<char>, Seq<char>)) -> bool {
    parse_date_spec(rec.1) is Some && parse_duration_spec(rec.2) is Some
}

/// The stored encoding of a task's fields.
pub open spec fn encoded(rem: Remindable) -> (Seq<char>, Seq<char>, Seq<char>) {
    (rem.name@, format_date_spec(rem.last_update), format_duration_spec(rem.remind_interval))
}

/// A stored date text after a decode/re-encode round trip (`01.1.2024`
/// becomes `1.1.2024`).
pub open spec fn normalized_date(s: Seq<char>) -> Seq<char> {
    format_date_spec(parse_date_spec(s).unwrap())
}

/// A stored interval text after a decode/re-encode round trip (`d10` becomes
/// `D10`).
pub open spec fn normalized_interval(s: Seq<char>) -> Seq<char> {
    format_duration_spec(parse_duration_spec(s).unwrap())
}

/// Relies on rusqlite's `Connection::open`: opens, creating it if missing,
/// the SQLite database file at the given path. The table holds whatever the
/// file already held.
#[verifier::external_body]
fn conn_open(path: &str) -> (r: Result<rusqlite::Connection, Error>)
    ensures
        r is Err ==> r matches Err(Error::Storage(_)),
{
    match rusqlite::Connection::open(path) {
        Ok(c) => Ok(c),
        Err(e) => Err(Error::Storage(e.to_string())),
    }
}

/// Relies on rusqlite's `Connection::open_in_memory`: a fresh private
/// in-memory database, so the table starts empty.
#[verifier::external_body]
fn conn_open_in_memory() -> (r: Result<rusqlite::Connection, Error>)
    ensures
        r matches Ok(c) ==> table_of(c) == empty_table(),
        r is Err ==> r matches Err(Error::Storage(_)),
{
    match rusqlite::Connection::open_in_memory() {
        Ok(c) => Ok(c),
        Err(e) => Err(Error::Storage(e.to_string())),
    }
}

/// Relies on rusqlite's `Connection::execute` running `CREATE TABLE IF NOT
/// EXISTS`: it neither adds nor removes rows, whether or not the table
/// already existed.
#[verifier::external_body]
fn create_table(conn: &mut rusqlite::Connection) -> (r: Result<(), Error>)
    ensures
        table_of(*final(conn)) == table_of(*old(conn)),
        r is Err ==> r matches Err(Error::Storage(_)),
{
    let sql = "CREATE TABLE IF NOT EXISTS Remindables (
        key TEXT PRIMARY KEY, name TEXT, last_update TEXT, remind_interval TEXT);";
    match conn.execute(sql, []) {
        Ok(_) => Ok(()),
        Err(e) => Err(Error::Storage(e.to_string())),
    }
}

/// Relies on rusqlite's `Connection::execute` running an `INSERT`: on
/// success the row is stored under its key; a failed statement (the
/// primary-key constraint included) leaves the table unchanged.
#[verifier::external_body]
fn sql_insert_row(
    conn: &mut rusqlite::Connection,
    key: &String,
    name: &String,
    last_update: &String,
    remind_interval: &String,
) -> (r: Result<(), Error>)
    ensures
        r is Ok ==> table_of(*final(conn)) == table_of(*old(conn)).insert(
            key@,
            (name@, last_update@, remind_interval@),
        ),
        r is Err ==> table_of(*final(conn)) == table_of(*old(conn)) && r matches Err(
            Error::Storage(_),
        ),
{
    let sql = "INSERT INTO Remindables (key, name, last_update, remind_interval)
        VALUES (?1, ?2, ?3, ?4);";
    match conn.execute(sql, (key.as_str(), name.as_str(), last_update.as_str(), remind_interval.as_str())) {
        Ok(_) => Ok(()),
        Err(e) => Err(Error::Storage(e.to_string())),
    }
}

/// Relies on rusqlite's `prepare` and `query_map` running a full `SELECT`:
/// on success the rows carry exactly the table's contents.
#[verifier::external_body]
fn sql_select_all(conn: &rusqlite::Connection) -> (r: Result<
    Vec<(String, String, String, String)>,
    Error,
>)
    ensures
        r matches Ok(rows) ==> rows_match(rows@, table_of(*conn)),
        r is Err ==> r matches Err(Error::Storage(_)),
{
    let sql = "SELECT key, name, last_update, remind_interval FROM Remindables;";
    let run = || -> rusqlite::Result<Vec<(String, String, String, String)>> {
        let mut stmt = conn.prepare(sql)?;
        let rows = stmt.query_map([], |r| Ok((r.get(0)?, r.get(1)?, r.get(2)?, r.get(3)?)))?;
        rows.collect()
    };
    match run() {
        Ok(v) => Ok(v),
        Err(e) => Err(Error::Storage(e.to_string())),
    }
}

/// Relies on rusqlite's `Connection::query_row` running a `SELECT ... WHERE
/// key = ?`: exactly the row stored under the key, or none.
#[verifier::external_body]
fn sql_select_by_key(conn: &rusqlite::Connection, key: &String) -> (r: Result<
    Option<(String, String, String)>,
    Error,
>)
    ensures
        r matches Ok(Some(t)) ==> table_of(*conn).contains_key(key@) && table_of(*conn)[key@]
            == (t.0@, t.1@, t.2@),
        r matches Ok(None) ==> !table_of(*conn).contains_key(key@),
        r is Err ==> r matches Err(Error::Storage(_)),
{
    let sql = "SELECT name, last_update, remind_interval FROM Remindables WHERE key = ?1;";
    match conn.query_row(sql, (key.as_str(),), |r| Ok((r.get(0)?, r.get(1)?, r.get(2)?))) {
        Ok(t) => Ok(Some(t)),
        Err(rusqlite::Error::QueryReturnedNoRows) => Ok(None),
        Err(e) => Err(Error::Storage(e.to_string())),
    }
}

/// Relies on rusqlite's `Connection::execute` running an `UPDATE ... WHERE
/// key = ?`: it overwrites exactly the row stored under the key and reports
/// how many rows matched; a failed statement leaves the table unchanged.
#[verifier::external_body]
fn sql_update_row(
    conn: &mut rusqlite::Connection,
    key: &String,
    name: &String,
    last_update: &String,
    remind_interval: &String,
) -> (r: Result<usize, Error>)
    ensures
        r matches Ok(n) ==> ({
            &&& table_of(*old(conn)).contains_key(key@) ==> n == 1 && table_of(*final(conn))
                == table_of(*old(conn)).insert(key@, (name@, last_update@, remind_interval@))
            &&& !table_of(*old(conn)).contains_key(key@) ==> n == 0 && table_of(*final(conn))
                == table_of(*old(conn))
        }),
        r is Err ==> table_of(*final(conn)) == table_of(*old(conn)) && r matches Err(
            Error::Storage(_),
        ),
{
    let sql = "UPDATE Remindables SET name = ?1, last_update = ?2, remind_interval = ?3
        WHERE key = ?4;";
    match conn.execute(sql, (name.as_str(), last_update.as_str(), remind_interval.as_str(), key.as_str())) {
        Ok(n) => Ok(n),
        Err(e) => Err(Error::Storage(e.to_string())),
    }
}

/// Relies on rusqlite's `Connection::execute` running a `DELETE ... WHERE
/// key LIKE ?`: every row whose key matches the pattern under SQL `LIKE`
/// semantics is removed and no other; a failed statement leaves the table
/// unchanged.
#[verifier::external_body]
fn sql_delete_like(conn: &mut rusqlite::Connection, pattern: &String) -> (r: Result<(), Error>)
    ensures
        r is Ok ==> table_of(*final(conn)) == table_of(*old(conn)).remove_keys(
            Set::new(|k: Seq<char>| like_matches(pattern@, k)),
        ),
        r is Err ==> table_of(*final(conn)) == table_of(*old(conn)) && r matches Err(
            Error::Storage(_),
        ),
{
    let sql = "DELETE FROM Remindables WHERE key LIKE ?1;";
    match conn.execute(sql, (pattern.as_str(),)) {
        Ok(_) => Ok(()),
        Err(e) => Err(Error::Storage(e.to_string())),
    }
}

/// A handle on one store. Its view is the backing table's contents: key to
/// stored (name, last-update text, interval text).
pub struct Database {
    conn: rusqlite::Connection,
}

impl View for Database {
    type V = Map<Seq<char>, (Seq<char>, Seq<char>, Seq<char>)>;

    closed spec fn view(&self) -> Self::V {
        table_of(self.conn)
    }
}

impl Database {
    /// Opens, creating it if missing, the store file at the given path and
    /// ensures the backing table exists; idempotent, safe to call on every
    /// open. The contents are whatever the file already held.
    pub fn open(path: &str) -> (r: Result<Database, Error>)
        ensures
            r is Err ==> r matches Err(Error::Storage(_)),
    {
        let mut conn = match conn_open(path) {
            Ok(c) => c,
            Err(e) => {
                return Err(e);
            },
        };
        match create_table(&mut conn) {
            Ok(_) => Ok(Database { conn }),
            Err(e) => Err(e),
        }
    }

    /// A fresh, empty, private in-memory store with the backing table
    /// created.
    pub fn open_in_memory() -> (r: Result<Database, Error>)
        ensures
            r matches Ok(db) ==> db@ == empty_table(),
            r is Err ==> r matches Err(Error::Storage(_)),
    {
        let mut conn = match conn_open_in_memory() {
            Ok(c) => c,
            Err(e) => {
                return Err(e);
            },
        };
        match create_table(&mut conn) {
            Ok(_) => Ok(Database { conn }),
            Err(e) => Err(e),
        }
    }

    /// Decodes every stored record. The order is storage-defined; a record
    /// that fails to decode aborts the whole read with its parse error.
    pub fn get_remindables(&self) -> (r: Result<Vec<Remindable>, Error>)
        ensures
            r matches Ok(v) ==> ({
                &&& forall|i: int|
                    0 <= i < v@.len() ==> self@.contains_key((#[trigger] v@[i]).key@)
                        && decodes_to(v@[i].key@, self@[v@[i].key@], v@[i])
                &&& forall|i: int, j: int|
                    0 <= i < j < v@.len() ==> (#[trigger] v@[i]).key@ != (#[trigger] v@[j]).key@
                &&& forall|k: Seq<char>|
                    #[trigger] self@.contains_key(k) ==> exists|i: int|
                        0 <= i < v@.len() && (#[trigger] v@[i]).key@ == k
            }),
            r matches Err(Error::Parse(_)) ==> exists|k: Seq<char>|
                #[trigger] self@.contains_key(k) && !record_decodes(self@[k]),
            r is Err ==> r matches Err(Error::Parse(_)) || r matches Err(Error::Storage(_)),
    {
        let rows = match sql_select_all(&self.conn) {
            Ok(v) => v,
            Err(e) => {
                return Err(e);
            },
        };
        let mut out: Vec<Remindable> = Vec::new();
        let mut i: usize = 0;
        while i < rows.len()
            invariant
                0 <= i <= rows@.len(),
                rows_match(rows@, self@),
                out@.len() == i,
                forall|t: int|
                    0 <= t < i ==> (#[trigger] out@[t]).key@ == rows@[t].0@ && decodes_to(
                        rows@[t].0@,
                        self@[rows@[t].0@],
                        out@[t],
                    ),
            decreases rows@.len() - i,
        {
            let t = &rows[i];
            match Remindable::from_strings(t.0.clone(), t.1.clone(), t.2.clone(), t.3.clone()) {
                Ok(rem) => out.push(rem),
                Err(e) => {
                    return Err(e);
                },
            }
            i = i + 1;
        }
        proof {
            assert forall|k: Seq<char>| #[trigger] self@.contains_key(k) implies exists|t: int|
                0 <= t < out@.len() && (#[trigger] out@[t]).key@ == k by {
                let w = choose|t: int| 0 <= t < rows@.len() && (#[trigger] rows@[t]).0@ == k;
                assert(0 <= w < out@.len());
                assert(out@[w].key@ == k);
            };
        }
        Ok(out)
    }

    /// Stores a new record; fails with `DuplicateKey` if the key is already
    /// present, leaving the store unchanged.
    pub fn add_remindable(&mut self, remindable: Remindable) -> (r: Result<(), Error>)
        ensures
            r is Ok ==> !old(self)@.contains_key(remindable.key@) && final(self)@ == old(self)@.insert(remindable.key@, encoded(remindable)),
            r matches Err(Error::DuplicateKey) ==> old(self)@.contains_key(remindable.key@)
                && final(self)@ == old(self)@,
            r matches Err(Error::Storage(_)) ==> final(self)@ == old(self)@,
            r is Err ==> r matches Err(Error::DuplicateKey) || r matches Err(Error::Storage(_)),
    {
        match sql_select_by_key(&self.conn, &remindable.key) {
            Err(e) => Err(e),
            Ok(Some(_)) => Err(Error::DuplicateKey),
            Ok(None) => {
                let lu = remindable.get_last_update_string();
                let ri = remindable.get_remind_interval_string();
                match sql_insert_row(&mut self.conn, &remindable.key, &remindable.name, &lu, &ri) {
                    Ok(_) => Ok(()),
                    Err(e) => Err(e),
                }
            },
        }
    }

    /// Exact-match lookup and decode of one record; fails with `NotFound`
    /// when no record has the key.
    pub fn get_remindable_by_key(&self, key: String) -> (r: Result<Remindable, Error>)
        ensures
            r matches Ok(rem) ==> self@.contains_key(key@) && decodes_to(key@, self@[key@], rem),
            r matches Err(Error::NotFound) ==> !self@.contains_key(key@),
            r matches Err(Error::Parse(_)) ==> self@.contains_key(key@) && !record_decodes(
                self@[key@],
            ),
            self@.contains_key(key@) && record_decodes(self@[key@]) ==> r is Ok || r matches Err(
                Error::Storage(_),
            ),
            !(r matches Err(Error::DuplicateKey)),
    {
        match sql_select_by_key(&self.conn, &key) {
            Err(e) => Err(e),
            Ok(None) => Err(Error::NotFound),
            Ok(Some(t)) => Remindable::from_strings(key, t.0, t.1, t.2),
        }
    }

    /// Full overwrite of the record stored under the task's key; fails with
    /// `NotFound`, store unchanged, when the key does not exist — an update
    /// matching zero rows is surfaced, never silently succeeded.
    pub fn update_remindable(&mut self, remindable: Remindable) -> (r: Result<(), Error>)
        ensures
            r is Ok ==> old(self)@.contains_key(remindable.key@) && final(self)@ == old(self)@.insert(remindable.key@, encoded(remindable)),
            r matches Err(Error::NotFound) ==> !old(self)@.contains_key(remindable.key@)
                && final(self)@ == old(self)@,
            r matches Err(Error::Storage(_)) ==> final(self)@ == old(self)@,
            r is Err ==> r matches Err(Error::NotFound) || r matches Err(Error::Storage(_)),
            old(self)@.contains_key(remindable.key@) ==> !(r matches Err(Error::NotFound)),
    {
        let lu = remindable.get_last_update_string();
        let ri = remindable.get_remind_interval_string();
        match sql_update_row(&mut self.conn, &remindable.key, &remindable.name, &lu, &ri) {
            Ok(n) => {
                if n == 0 {
                    Err(Error::NotFound)
                } else {
                    Ok(())
                }
            },
            Err(e) => Err(e),
        }
    }

    /// Deletes every record whose key matches the pattern under SQL `LIKE`
    /// semantics: `%` and `_` are interpreted as wildcards, not escaped. The
    /// bulk delete is the intended feature — and a hazard: a literal key
    /// containing `%` deletes more than that key.
    pub fn delete_entry_by_key(&mut self, key: String) -> (r: Result<(), Error>)
        ensures
            r is Ok ==> final(self)@ == like_deleted(old(self)@, key@),
            r is Err ==> final(self)@ == old(self)@ && r matches Err(Error::Storage(_)),
    {
        sql_delete_like(&mut self.conn, &key)
    }

    /// Reads the record, marks it done on the current local calendar day,
    /// and writes it back; the stored interval text is normalized by the
    /// decode/re-encode round trip.
    pub fn set_remindable_done_today(&mut self, key: String) -> (r: Result<(), Error>)
        ensures
            r is Ok ==> old(self)@.contains_key(key@) && record_decodes(old(self)@[key@]) && (
            exists|t: Date|
                valid_date(t) && final(self)@ == old(self)@.insert(
                    key@,
                    (old(self)@[key@].0, format_date_spec(t), normalized_interval(
                        old(self)@[key@].2,
                    )),
                )),
            r matches Err(Error::NotFound) ==> !old(self)@.contains_key(key@) && final(self)@
                == old(self)@,
            r matches Err(Error::Parse(_)) ==> old(self)@.contains_key(key@) && !record_decodes(
                old(self)@[key@],
            ) && final(self)@ == old(self)@,
            r matches Err(Error::Storage(_)) ==> final(self)@ == old(self)@,
            !(r matches Err(Error::DuplicateKey)),
    {
        let mut rem = match self.get_remindable_by_key(key) {
            Ok(rem) => rem,
            Err(e) => {
                return Err(e);
            },
        };
        rem.set_done_today();
        match self.update_remindable(rem) {
            Ok(_) => Ok(()),
            Err(e) => Err(e),
        }
    }

    /// Reads the record, re-parses and replaces its last-done date, and
    /// writes it back; malformed input leaves the store unchanged.
    pub fn update_last_update(&mut self, key: String, new_last_update: String) -> (r: Result<
        (),
        Error,
    >)
        ensures
            r is Ok ==> old(self)@.contains_key(key@) && record_decodes(old(self)@[key@])
                && parse_date_spec(new_last_update@) is Some && final(self)@ == old(self)@.insert(
                key@,
                (old(self)@[key@].0, format_date_spec(parse_date_spec(new_last_update@).unwrap()),
                normalized_interval(old(self)@[key@].2)),
            ),
            r matches Err(Error::NotFound) ==> !old(self)@.contains_key(key@) && final(self)@
                == old(self)@,
            r matches Err(Error::Parse(_)) ==> final(self)@ == old(self)@ && (parse_date_spec(
                new_last_update@,
            ) is None || (old(self)@.contains_key(key@) && !record_decodes(old(self)@[key@]))),
            r matches Err(Error::Storage(_)) ==> final(self)@ == old(self)@,
            !(r matches Err(Error::DuplicateKey)),
    {
        let mut rem = match self.get_remindable_by_key(key) {
            Ok(rem) => rem,
            Err(e) => {
                return Err(e);
            },
        };
        match rem.set_last_update(new_last_update) {
            Ok(_) => {},
            Err(e) => {
                return Err(e);
            },
        }
        match self.update_remindable(rem) {
            Ok(_) => Ok(()),
            Err(e) => Err(e),
        }
    }

    /// Reads the record, re-parses and replaces its recurrence interval, and
    /// writes it back; malformed input leaves the store unchanged.
    pub fn update_remindable_interval(&mut self, key: String, new_remind_interval: String) -> (r:
        Result<(), Error>)
        ensures
            r is Ok ==> old(self)@.contains_key(key@) && record_decodes(old(self)@[key@])
                && parse_duration_spec(new_remind_interval@) is Some && final(self)@ == old(self)@.insert(
                key@,
                (old(self)@[key@].0, normalized_date(old(self)@[key@].1), format_duration_spec(
                    parse_duration_spec(new_remind_interval@).unwrap(),
                )),
            ),
            r matches Err(Error::NotFound) ==> !old(self)@.contains_key(key@) && final(self)@
                == old(self)@,
            r matches Err(Error::Parse(_)) ==> final(self)@ == old(self)@ && (parse_duration_spec(
                new_remind_interval@,
            ) is None || (old(self)@.contains_key(key@) && !record_decodes(old(self)@[key@]))),
            r matches Err(Error::Storage(_)) ==> final(self)@ == old(self)@,
            !(r matches Err(Error::DuplicateKey)),
    {
        let mut rem = match self.get_remindable_by_key(key) {
            Ok(rem) => rem,
            Err(e) => {
                return Err(e);
            },
        };
        match rem.set_remind_interval(new_remind_interval) {
            Ok(_) => {},
            Err(e) => {
                return Err(e);
            },
        }
        match self.update_remindable(rem) {
            Ok(_) => Ok(()),
            Err(e) => Err(e),
        }
    }

    /// Reads the record, replaces its name, and writes it back.
    pub fn update_name(&mut self, key: String, new_name: String) -> (r: Result<(), Error>)
        ensures
            r is Ok ==> old(self)@.contains_key(key@) && record_decodes(old(self)@[key@]) && final(self)@ == old(self)@.insert(
                key@,
                (new_name@, normalized_date(old(self)@[key@].1), normalized_interval(
                    old(self)@[key@].2,
                )),
            ),
            r matches Err(Error::NotFound) ==> !old(self)@.contains_key(key@) && final(self)@
                == old(self)@,
            r matches Err(Error::Parse(_)) ==> old(self)@.contains_key(key@) && !record_decodes(
                old(self)@[key@],
            ) && final(self)@ == old(self)@,
            r matches Err(Error::Storage(_)) ==> final(self)@ == old(self)@,
            !(r matches Err(Error::DuplicateKey)),
    {
        let mut rem = match self.get_remindable_by_key(key) {
            Ok(rem) => rem,
            Err(e) => {
                return Err(e);
            },
        };
        rem.name = new_name;
        match self.update_remindable(rem) {
            Ok(_) => Ok(()),
            Err(e) => Err(e),
        }
    }
}

} // verus!
