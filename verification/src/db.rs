//! Relational persistence sink: create-if-absent schema, one transaction
//! per batch, one parameterized insert per record, commit; a batch that
//! fails mid-transaction rolls back entirely, so no partial batch is ever
//! committed.
//!
//! The connection is modeled by five spec functions: the set of names the
//! database's tables and views occupy, the rows a reader of this
//! connection sees per name, the rows already committed per name, the
//! column names per name, and whether a transaction is open. SQLite
//! resolves identifiers ASCII-case-insensitively and accepts quoted
//! spellings, so the model is keyed by ASCII-case-folded names, and every
//! operation requires its table name in one canonical form: a plain
//! lowercase identifier, which is its own folding. The rusqlite calls
//! stand behind trusted wrappers whose contracts speak of that model;
//! everything above them is verified. The model reads a statement naming
//! a table as reaching that one object: a database whose disk file
//! already carries triggers, or an `INSTEAD OF` view, redirecting writes
//! elsewhere is outside what the wrappers state.

use vstd::prelude::*;

use crate::errors::ScrapeError;
use crate::record::{host_of, SelectorRecord, SelectorRecordV};

verus! {

#[verifier::external_type_specification]
#[verifier::external_body]
pub struct ExConnection(rusqlite::Connection);

/// A row of the relational table, as plain values:
/// (timestamp, url, selector, content, host).
pub type RowV = (u64, Seq<char>, Seq<char>, Seq<char>, Seq<char>);

/// The ASCII-case-folded names that the database's tables and views
/// occupy: the name space a `CREATE TABLE` or `DROP TABLE` consults.
pub uninterp spec fn db_tables(c: rusqlite::Connection) -> Set<Seq<char>>;

/// The rows under a folded name, as a reader of this connection sees
/// them (the five record fields, in id order); inside an open
/// transaction this includes the connection's own uncommitted inserts.
pub uninterp spec fn db_rows(c: rusqlite::Connection, table: Seq<char>) -> Seq<RowV>;

/// The rows under a folded name that are committed: what survives a
/// rollback.
pub uninterp spec fn db_saved(c: rusqlite::Connection, table: Seq<char>) -> Seq<RowV>;

/// The column names under a folded name, in schema order; empty when
/// nothing bears the name.
pub uninterp spec fn db_cols(c: rusqlite::Connection, table: Seq<char>) -> Seq<Seq<char>>;

/// The stored spellings of the names of the database's user tables (the
/// schema's `table` entries, SQLite's internal ones excluded), in schema
/// order; views are not user tables and are not listed.
pub uninterp spec fn db_table_list(c: rusqlite::Connection) -> Seq<Seq<char>>;

/// Whether the connection has an open transaction.
pub uninterp spec fn db_in_txn(c: rusqlite::Connection) -> bool;

/// The column names of the fixed selector-record schema, in order.
pub open spec fn schema_cols() -> Seq<Seq<char>> {
    seq!["id"@, "timestamp"@, "url"@, "selector"@, "content"@, "host"@]
}

/// A lowercase ASCII letter.
pub open spec fn is_lower(c: char) -> bool {
    'a' <= c && c <= 'z'
}

/// The canonical table-name form every operation here demands: a
/// lowercase ASCII letter followed by lowercase letters, digits or
/// underscores. Such a name is plain in SQL and is its own
/// ASCII-case-folding, so it denotes exactly one model key.
pub open spec fn is_table_ident(s: Seq<char>) -> bool {
    &&& s.len() >= 1
    &&& is_lower(s[0])
    &&& forall|i: int|
        0 < i < s.len() ==> (is_lower(#[trigger] s[i]) || ('0' <= s[i] && s[i] <= '9') || s[i]
            == '_')
}

/// One character ASCII-case-folded: an upper-case ASCII letter becomes
/// its lower-case form, every other character stands.
pub open spec fn fold_char(c: char) -> char {
    if 'A' <= c && c <= 'Z' {
        ((c as u8) + 32) as char
    } else {
        c
    }
}

/// A name ASCII-case-folded, character by character: the key under which
/// SQLite resolves it.
pub open spec fn fold_name(s: Seq<char>) -> Seq<char> {
    s.map_values(|c: char| fold_char(c))
}

/// Decides whether a string is in the canonical table-name form.
pub fn is_valid_table_name(name: &str) -> (r: bool)
    ensures
        r == is_table_ident(name@),
{
    let n = name.unicode_len();
    if n == 0 {
        return false;
    }
    let first = name.get_char(0);
    if !('a' <= first && first <= 'z') {
        return false;
    }
    let mut i: usize = 1;
    while i < n
        invariant
            1 <= i <= n,
            n == name@.len(),
            is_lower(name@[0]),
            forall|j: int|
                0 < j < i ==> (is_lower(#[trigger] name@[j]) || ('0' <= name@[j] && name@[j]
                    <= '9') || name@[j] == '_'),
        decreases n - i,
    {
        let c = name.get_char(i);
        if !(('a' <= c && c <= 'z') || ('0' <= c && c <= '9') || c == '_') {
            return false;
        }
        i = i + 1;
    }
    true
}

/// A connection with no open transaction and nothing uncommitted: what a
/// freshly opened connection satisfies, and what every public operation
/// here preserves.
pub open spec fn db_clean(c: rusqlite::Connection) -> bool {
    &&& !db_in_txn(c)
    &&& forall|t: Seq<char>| #[trigger] db_rows(c, t) == db_saved(c, t)
}

/// The row a record is stored as.
pub open spec fn row_of(r: SelectorRecordV) -> RowV {
    (r.timestamp, r.url, r.selector, r.content, r.host)
}

/// The rows a batch of records is stored as, in batch order.
pub open spec fn rows_of_records(rs: Seq<SelectorRecordV>) -> Seq<RowV> {
    rs.map_values(|r: SelectorRecordV| row_of(r))
}

/// The rows a table holds before a batch is written: its current rows if
/// it exists, none otherwise.
pub open spec fn base_rows(c: rusqlite::Connection, table: Seq<char>) -> Seq<RowV> {
    if db_tables(c).contains(table) {
        db_rows(c, table)
    } else {
        Seq::<RowV>::empty()
    }
}

/// Relies on rusqlite's `Connection::open`: opens (creating it if absent)
/// the database at the given path. A fresh connection is in autocommit
/// mode with nothing pending; what the database holds depends on the disk
/// and is not stated.
#[verifier::external_body]
pub fn open_connection(path: &str) -> (r: Result<rusqlite::Connection, ScrapeError>)
    ensures
        match r {
            Ok(c) => db_clean(c),
            Err(e) => e == ScrapeError::PersistenceFailure,
        },
{
    rusqlite::Connection::open(path).map_err(|_| ScrapeError::PersistenceFailure)
}

/// Relies on rusqlite's `Connection::execute_batch` with the connection
/// tuning pragmas (cache size, locking mode, temp store): they tune the
/// connection and touch no table, row or transaction, whether they
/// succeed or fail. The journal mode and the synchronous level are left
/// at their defaults on purpose: the batch-write discipline's rollback
/// guarantee rests on a rollback-capable journal, which turning the
/// journal off would void.
#[verifier::external_body]
pub fn apply_connection_pragmas(conn: &mut rusqlite::Connection) -> (r: Result<(), ScrapeError>)
    ensures
        db_in_txn(*final(conn)) == db_in_txn(*old(conn)),
        db_tables(*final(conn)) == db_tables(*old(conn)),
        forall|t: Seq<char>| #[trigger] db_rows(*final(conn), t) == db_rows(*old(conn), t),
        forall|t: Seq<char>| #[trigger] db_saved(*final(conn), t) == db_saved(*old(conn), t),
        forall|t: Seq<char>| #[trigger] db_cols(*final(conn), t) == db_cols(*old(conn), t),
        db_table_list(*final(conn)) == db_table_list(*old(conn)),
        r is Err ==> r->Err_0 == ScrapeError::PersistenceFailure,
{
    conn.execute_batch(
        "PRAGMA cache_size = 1000000; PRAGMA locking_mode = EXCLUSIVE; \
         PRAGMA temp_store = MEMORY;",
    ).map_err(|_| ScrapeError::PersistenceFailure)
}

/// Relies on rusqlite's `Connection::execute` with `CREATE TABLE IF NOT
/// EXISTS`: afterwards the name is occupied; a name that was already
/// occupied — by this table, a case-variant spelling, or a view — makes
/// the statement a no-op that leaves the object exactly as it was, with
/// no error; a newly created table is empty with the fixed columns; no
/// other name is touched; a failed statement changes nothing.
#[verifier::external_body]
fn exec_create_table(conn: &mut rusqlite::Connection, table: &str) -> (r: Result<
    (),
    ScrapeError,
>)
    requires
        !db_in_txn(*old(conn)),
        is_table_ident(table@),
    ensures
        !db_in_txn(*final(conn)),
        forall|t: Seq<char>|
            t != table@ ==> #[trigger] db_tables(*final(conn)).contains(t) == db_tables(
                *old(conn),
            ).contains(t),
        forall|t: Seq<char>|
            t != table@ ==> #[trigger] db_rows(*final(conn), t) == db_rows(*old(conn), t),
        forall|t: Seq<char>|
            t != table@ ==> #[trigger] db_saved(*final(conn), t) == db_saved(*old(conn), t),
        forall|t: Seq<char>|
            t != table@ ==> #[trigger] db_cols(*final(conn), t) == db_cols(*old(conn), t),
        match r {
            Ok(()) => {
                &&& db_tables(*final(conn)).contains(table@)
                &&& db_tables(*old(conn)).contains(table@) ==> db_rows(*final(conn), table@)
                    == db_rows(*old(conn), table@) && db_saved(*final(conn), table@) == db_saved(
                    *old(conn),
                    table@,
                ) && db_cols(*final(conn), table@) == db_cols(*old(conn), table@)
                    && db_table_list(*final(conn)) == db_table_list(*old(conn))
                &&& !db_tables(*old(conn)).contains(table@) ==> db_rows(*final(conn), table@)
                    =~= Seq::<RowV>::empty() && db_saved(*final(conn), table@) =~= Seq::<
                    RowV,
                >::empty() && db_cols(*final(conn), table@) == schema_cols() && db_table_list(
                    *final(conn),
                ) == db_table_list(*old(conn)).push(table@)
            },
            Err(e) => e == ScrapeError::PersistenceFailure && db_tables(*final(conn)).contains(
                table@,
            ) == db_tables(*old(conn)).contains(table@) && db_rows(*final(conn), table@)
                == db_rows(*old(conn), table@) && db_saved(*final(conn), table@) == db_saved(
                *old(conn),
                table@,
            ) && db_cols(*final(conn), table@) == db_cols(*old(conn), table@) && db_table_list(
                *final(conn),
            ) == db_table_list(*old(conn)),
        },
{
    let sql = format!(
        "CREATE TABLE IF NOT EXISTS {} (id INTEGER PRIMARY KEY, timestamp TIMESTAMP, \
         url TEXT NOT NULL, selector TEXT NOT NULL, content TEXT, host TEXT NOT NULL)",
        table,
    );
    conn.execute(sql.as_str(), []).map(|_| ()).map_err(|_| ScrapeError::PersistenceFailure)
}

/// Relies on rusqlite's `Connection::execute_batch` with `BEGIN`: opens a
/// transaction; the data is untouched either way.
#[verifier::external_body]
fn exec_begin(conn: &mut rusqlite::Connection) -> (r: Result<(), ScrapeError>)
    requires
        !db_in_txn(*old(conn)),
    ensures
        db_tables(*final(conn)) == db_tables(*old(conn)),
        forall|t: Seq<char>| #[trigger] db_rows(*final(conn), t) == db_rows(*old(conn), t),
        forall|t: Seq<char>| #[trigger] db_saved(*final(conn), t) == db_saved(*old(conn), t),
        forall|t: Seq<char>| #[trigger] db_cols(*final(conn), t) == db_cols(*old(conn), t),
        db_table_list(*final(conn)) == db_table_list(*old(conn)),
        match r {
            Ok(()) => db_in_txn(*final(conn)),
            Err(e) => e == ScrapeError::PersistenceFailure && db_in_txn(*final(conn))
                == db_in_txn(*old(conn)),
        },
{
    conn.execute_batch("BEGIN").map_err(|_| ScrapeError::PersistenceFailure)
}

/// Relies on rusqlite's `Connection::execute` with a parameterized
/// `INSERT`: on success the row is appended, visible to this connection
/// but not yet committed; a failed insert inside the transaction changes
/// nothing; no other table is touched.
#[verifier::external_body]
fn exec_insert_row(
    conn: &mut rusqlite::Connection,
    table: &str,
    record: &SelectorRecord,
) -> (r: Result<(), ScrapeError>)
    requires
        db_in_txn(*old(conn)),
        is_table_ident(table@),
    ensures
        db_in_txn(*final(conn)),
        db_tables(*final(conn)) == db_tables(*old(conn)),
        db_table_list(*final(conn)) == db_table_list(*old(conn)),
        forall|t: Seq<char>| #[trigger] db_saved(*final(conn), t) == db_saved(*old(conn), t),
        forall|t: Seq<char>| #[trigger] db_cols(*final(conn), t) == db_cols(*old(conn), t),
        forall|t: Seq<char>|
            t != table@ ==> #[trigger] db_rows(*final(conn), t) == db_rows(*old(conn), t),
        match r {
            Ok(()) => db_rows(*final(conn), table@) == db_rows(*old(conn), table@).push(
                row_of(record@),
            ),
            Err(e) => e == ScrapeError::PersistenceFailure && db_rows(*final(conn), table@)
                == db_rows(*old(conn), table@),
        },
{
    let sql = format!(
        "INSERT INTO {} (timestamp, url, selector, content, host) VALUES (?1, ?2, ?3, ?4, ?5)",
        table,
    );
    let params = (
        record.timestamp as i64,
        &record.url,
        &record.selector,
        &record.content,
        &record.host,
    );
    conn.execute(sql.as_str(), params).map(|_| ()).map_err(|_| ScrapeError::PersistenceFailure)
}

/// Relies on rusqlite's `Connection::execute_batch` with `COMMIT`: on
/// success the transaction's rows become committed; on failure nothing
/// new is committed, and the transaction is either still open with the
/// rows kept, or already rolled back to the committed state.
#[verifier::external_body]
fn exec_commit(conn: &mut rusqlite::Connection) -> (r: Result<(), ScrapeError>)
    requires
        db_in_txn(*old(conn)),
    ensures
        db_tables(*final(conn)) == db_tables(*old(conn)),
        db_table_list(*final(conn)) == db_table_list(*old(conn)),
        forall|t: Seq<char>| #[trigger] db_cols(*final(conn), t) == db_cols(*old(conn), t),
        match r {
            Ok(()) => {
                &&& !db_in_txn(*final(conn))
                &&& forall|t: Seq<char>| #[trigger] db_rows(*final(conn), t) == db_rows(
                    *old(conn),
                    t,
                )
                &&& forall|t: Seq<char>| #[trigger] db_saved(*final(conn), t) == db_rows(
                    *old(conn),
                    t,
                )
            },
            Err(e) => {
                &&& e == ScrapeError::PersistenceFailure
                &&& forall|t: Seq<char>| #[trigger] db_saved(*final(conn), t) == db_saved(
                    *old(conn),
                    t,
                )
                &&& (db_in_txn(*final(conn)) && (forall|t: Seq<char>| #[trigger] db_rows(
                    *final(conn),
                    t,
                ) == db_rows(*old(conn), t)) || !db_in_txn(*final(conn)) && (forall|
                    t: Seq<char>,
                | #[trigger] db_rows(*final(conn), t) == db_saved(*old(conn), t)))
            },
        },
{
    conn.execute_batch("COMMIT").map_err(|_| ScrapeError::PersistenceFailure)
}

/// Relies on rusqlite's `Connection::execute_batch` with `ROLLBACK`:
/// afterwards no transaction is open and nothing uncommitted survives;
/// with no transaction open the statement fails and changes nothing.
#[verifier::external_body]
fn exec_rollback(conn: &mut rusqlite::Connection)
    ensures
        !db_in_txn(*final(conn)),
        db_tables(*final(conn)) == db_tables(*old(conn)),
        db_table_list(*final(conn)) == db_table_list(*old(conn)),
        forall|t: Seq<char>| #[trigger] db_saved(*final(conn), t) == db_saved(*old(conn), t),
        forall|t: Seq<char>| #[trigger] db_cols(*final(conn), t) == db_cols(*old(conn), t),
        db_in_txn(*old(conn)) ==> forall|t: Seq<char>| #[trigger] db_rows(*final(conn), t)
            == db_saved(*old(conn), t),
        !db_in_txn(*old(conn)) ==> forall|t: Seq<char>| #[trigger] db_rows(*final(conn), t)
            == db_rows(*old(conn), t),
{
    let _ = conn.execute_batch("ROLLBACK");
}

/// Relies on rusqlite's `Connection::query_row` with `SELECT COUNT(*)`:
/// the number of rows the connection sees under the name; preparing the
/// statement fails when nothing bears the name.
#[verifier::external_body]
fn query_count(conn: &rusqlite::Connection, table: &str) -> (r: Result<u32, ScrapeError>)
    requires
        is_table_ident(table@),
    ensures
        !db_tables(*conn).contains(table@) ==> r is Err,
        match r {
            Ok(n) => db_tables(*conn).contains(table@) && n as nat == db_rows(
                *conn,
                table@,
            ).len(),
            Err(e) => e == ScrapeError::PersistenceFailure,
        },
{
    let sql = format!("SELECT COUNT(*) FROM {}", table);
    conn.query_row(sql.as_str(), [], |row| row.get(0)).map_err(
        |_| ScrapeError::PersistenceFailure,
    )
}

/// Relies on rusqlite's `Connection::prepare` and `Statement::query_map`
/// with `SELECT timestamp, url, selector, content ... ORDER BY id`: the
/// stored fields of every row of the table, in insertion order (the id
/// column increases with each insert); preparing the statement fails
/// when nothing bears the name.
#[verifier::external_body]
fn query_record_rows(conn: &rusqlite::Connection, table: &str) -> (r: Result<
    Vec<(u64, String, String, String)>,
    ScrapeError,
>)
    requires
        is_table_ident(table@),
    ensures
        !db_tables(*conn).contains(table@) ==> r is Err,
        match r {
            Ok(v) => {
                &&& db_tables(*conn).contains(table@)
                &&& v@.len() == db_rows(*conn, table@).len()
                &&& forall|i: int|
                    0 <= i < v@.len() ==> (#[trigger] v@[i]).0 == db_rows(*conn, table@)[i].0
                        && v@[i].1@ == db_rows(*conn, table@)[i].1 && v@[i].2@ == db_rows(
                        *conn,
                        table@,
                    )[i].2 && v@[i].3@ == db_rows(*conn, table@)[i].3
            },
            Err(e) => e == ScrapeError::PersistenceFailure,
        },
{
    let sql = format!("SELECT timestamp, url, selector, content FROM {} ORDER BY id", table);
    let mut stmt = match conn.prepare(sql.as_str()) {
        Ok(s) => s,
        Err(_) => return Err(ScrapeError::PersistenceFailure),
    };
    let rows = match stmt.query_map(
        [],
        |row| Ok((row.get::<_, i64>(0)? as u64, row.get(1)?, row.get(2)?, row.get(3)?)),
    ) {
        Ok(r) => r,
        Err(_) => return Err(ScrapeError::PersistenceFailure),
    };
    rows.collect::<Result<Vec<_>, _>>().map_err(|_| ScrapeError::PersistenceFailure)
}

/// Relies on rusqlite's `Connection::prepare` and `Statement::query_map`
/// over `sqlite_schema`: exactly the stored spellings of the user
/// tables' names, in schema order. Each spelling's folding occupies a
/// name in the model; views are not user tables, so the list may not
/// exhaust the occupied names.
#[verifier::external_body]
fn query_table_names(conn: &rusqlite::Connection) -> (r: Result<Vec<String>, ScrapeError>)
    ensures
        match r {
            Ok(v) => {
                &&& v.deep_view() == db_table_list(*conn)
                &&& forall|i: int|
                    0 <= i < v.deep_view().len() ==> db_tables(*conn).contains(
                        fold_name(#[trigger] v.deep_view()[i]),
                    )
                &&& v.deep_view().map_values(|n: Seq<char>| fold_name(n)).no_duplicates()
            },
            Err(e) => e == ScrapeError::PersistenceFailure,
        },
{
    let sql = "SELECT name FROM sqlite_schema WHERE type ='table' AND name NOT LIKE 'sqlite_%';";
    let mut stmt = match conn.prepare(sql) {
        Ok(s) => s,
        Err(_) => return Err(ScrapeError::PersistenceFailure),
    };
    let rows = match stmt.query_map([], |row| row.get(0)) {
        Ok(r) => r,
        Err(_) => return Err(ScrapeError::PersistenceFailure),
    };
    rows.collect::<Result<Vec<_>, _>>().map_err(|_| ScrapeError::PersistenceFailure)
}

/// Relies on rusqlite's `Connection::prepare` and `Statement::query_map`
/// over `PRAGMA table_info`: the column names under the name, in schema
/// order; an unoccupied name yields the empty list.
#[verifier::external_body]
pub fn get_col_names(conn: &rusqlite::Connection, table: &str) -> (r: Result<
    Vec<String>,
    ScrapeError,
>)
    requires
        is_table_ident(table@),
    ensures
        match r {
            Ok(v) => v.deep_view() == db_cols(*conn, table@),
            Err(e) => e == ScrapeError::PersistenceFailure,
        },
{
    let sql = format!("PRAGMA table_info({});", table);
    let mut stmt = match conn.prepare(sql.as_str()) {
        Ok(s) => s,
        Err(_) => return Err(ScrapeError::PersistenceFailure),
    };
    let rows = match stmt.query_map([], |row| row.get(1)) {
        Ok(r) => r,
        Err(_) => return Err(ScrapeError::PersistenceFailure),
    };
    rows.collect::<Result<Vec<_>, _>>().map_err(|_| ScrapeError::PersistenceFailure)
}

/// Relies on rusqlite's `Connection::execute` with `DROP TABLE`: on
/// success the table is gone and its name free; on failure (for one, a
/// name nothing bears, or one a view bears) nothing changes.
#[verifier::external_body]
fn exec_drop_table(conn: &mut rusqlite::Connection, table: &str) -> (r: Result<(), ScrapeError>)
    requires
        !db_in_txn(*old(conn)),
        is_table_ident(table@),
    ensures
        !db_in_txn(*final(conn)),
        forall|t: Seq<char>|
            t != table@ ==> #[trigger] db_tables(*final(conn)).contains(t) == db_tables(
                *old(conn),
            ).contains(t),
        forall|t: Seq<char>|
            t != table@ ==> #[trigger] db_rows(*final(conn), t) == db_rows(*old(conn), t),
        forall|t: Seq<char>|
            t != table@ ==> #[trigger] db_saved(*final(conn), t) == db_saved(*old(conn), t),
        forall|t: Seq<char>|
            t != table@ ==> #[trigger] db_cols(*final(conn), t) == db_cols(*old(conn), t),
        match r {
            Ok(()) => {
                &&& !db_tables(*final(conn)).contains(table@)
                &&& db_rows(*final(conn), table@) =~= Seq::<RowV>::empty()
                &&& db_saved(*final(conn), table@) =~= Seq::<RowV>::empty()
                &&& db_cols(*final(conn), table@) =~= Seq::<Seq<char>>::empty()
                &&& exists|i: int|
                    0 <= i < db_table_list(*old(conn)).len() && fold_name(
                        #[trigger] db_table_list(*old(conn))[i],
                    ) == table@ && db_table_list(*final(conn)) == db_table_list(
                        *old(conn),
                    ).remove(i)
            },
            Err(e) => e == ScrapeError::PersistenceFailure && db_tables(*final(conn)).contains(
                table@,
            ) == db_tables(*old(conn)).contains(table@) && db_rows(*final(conn), table@)
                == db_rows(*old(conn), table@) && db_saved(*final(conn), table@) == db_saved(
                *old(conn),
                table@,
            ) && db_cols(*final(conn), table@) == db_cols(*old(conn), table@) && db_table_list(
                *final(conn),
            ) == db_table_list(*old(conn)),
        },
{
    let sql = format!("DROP TABLE {}", table);
    match conn.execute(sql.as_str(), []) {
        Ok(_) => Ok(()),
        Err(_) => Err(ScrapeError::PersistenceFailure),
    }
}

/// Creates the fixed selector-record schema if the table is absent.
/// Invoking it again for the same table changes nothing, whether it
/// succeeds or fails — no new table, no lost rows, no altered column
/// set: schema creation is idempotent.
pub fn create_selector_record_table(conn: &mut rusqlite::Connection, table_name: &str) -> (r:
    Result<(), ScrapeError>)
    requires
        db_clean(*old(conn)),
        is_table_ident(table_name@),
    ensures
        db_clean(*final(conn)),
        forall|t: Seq<char>|
            t != table_name@ ==> #[trigger] db_tables(*final(conn)).contains(t) == db_tables(
                *old(conn),
            ).contains(t),
        forall|t: Seq<char>|
            t != table_name@ ==> #[trigger] db_rows(*final(conn), t) == db_rows(*old(conn), t),
        forall|t: Seq<char>|
            t != table_name@ ==> #[trigger] db_cols(*final(conn), t) == db_cols(*old(conn), t),
        db_tables(*old(conn)).contains(table_name@) ==> db_tables(*final(conn)).contains(
            table_name@,
        ) && db_rows(*final(conn), table_name@) == db_rows(*old(conn), table_name@) && db_cols(
            *final(conn),
            table_name@,
        ) == db_cols(*old(conn), table_name@) && db_table_list(*final(conn)) == db_table_list(
            *old(conn),
        ),
        match r {
            Ok(()) => db_tables(*final(conn)).contains(table_name@) && (!db_tables(
                *old(conn),
            ).contains(table_name@) ==> db_rows(*final(conn), table_name@) == Seq::<
                RowV,
            >::empty() && db_cols(*final(conn), table_name@) == schema_cols() && db_table_list(
                *final(conn),
            ) == db_table_list(*old(conn)).push(table_name@)),
            Err(e) => e == ScrapeError::PersistenceFailure && db_tables(*final(conn)).contains(
                table_name@,
            ) == db_tables(*old(conn)).contains(table_name@) && db_rows(*final(conn), table_name@)
                == db_rows(*old(conn), table_name@) && db_cols(*final(conn), table_name@)
                == db_cols(*old(conn), table_name@),
        },
{
    exec_create_table(conn, table_name)
}

/// Persists one batch: create-if-absent schema, one transaction, one
/// parameterized insert per record, commit. On success the table holds
/// exactly its previous rows followed by the batch, in batch order. On
/// failure the transaction is rolled back entirely: nothing of the batch
/// is committed, and no other table is ever touched.
#[verifier::loop_isolation(false)]
pub fn save_selector_records_to_db(
    conn: &mut rusqlite::Connection,
    table_name: &str,
    records: &Vec<SelectorRecord>,
) -> (r: Result<(), ScrapeError>)
    requires
        db_clean(*old(conn)),
        is_table_ident(table_name@),
    ensures
        db_clean(*final(conn)),
        forall|t: Seq<char>|
            t != table_name@ ==> #[trigger] db_tables(*final(conn)).contains(t) == db_tables(
                *old(conn),
            ).contains(t),
        forall|t: Seq<char>|
            t != table_name@ ==> #[trigger] db_rows(*final(conn), t) == db_rows(*old(conn), t),
        forall|t: Seq<char>|
            t != table_name@ ==> #[trigger] db_cols(*final(conn), t) == db_cols(*old(conn), t),
        db_tables(*old(conn)).contains(table_name@) ==> db_cols(*final(conn), table_name@)
            == db_cols(*old(conn), table_name@) && db_table_list(*final(conn)) == db_table_list(
            *old(conn),
        ),
        (!db_tables(*old(conn)).contains(table_name@) && db_tables(*final(conn)).contains(
            table_name@,
        )) ==> db_cols(*final(conn), table_name@) == schema_cols() && db_table_list(
            *final(conn),
        ) == db_table_list(*old(conn)).push(table_name@),
        !db_tables(*final(conn)).contains(table_name@) ==> db_table_list(*final(conn))
            == db_table_list(*old(conn)),
        match r {
            Ok(()) => db_tables(*final(conn)).contains(table_name@) && db_rows(
                *final(conn),
                table_name@,
            ) == base_rows(*old(conn), table_name@) + rows_of_records(records.deep_view()),
            Err(e) => {
                &&& e == ScrapeError::PersistenceFailure
                &&& db_tables(*old(conn)).contains(table_name@) ==> db_tables(
                    *final(conn),
                ).contains(table_name@) && db_rows(*final(conn), table_name@) == db_rows(
                    *old(conn),
                    table_name@,
                )
                &&& (!db_tables(*old(conn)).contains(table_name@) && db_tables(
                    *final(conn),
                ).contains(table_name@)) ==> db_rows(*final(conn), table_name@) == Seq::<
                    RowV,
                >::empty()
            },
        },
{
    match exec_create_table(conn, table_name) {
        Ok(()) => {},
        Err(e) => {
            return Err(e);
        },
    }
    let ghost created = *conn;
    match exec_begin(conn) {
        Ok(()) => {},
        Err(e) => {
            return Err(e);
        },
    }
    let n = records.len();
    let mut i: usize = 0;
    proof {
        assert(rows_of_records(records.deep_view().take(0)) =~= Seq::<RowV>::empty());
        assert(db_rows(*conn, table_name@) + Seq::<RowV>::empty() =~= db_rows(
            *conn,
            table_name@,
        ));
    }
    while i < n
        invariant
            0 <= i <= n,
            n == records@.len(),
            records.deep_view().len() == n,
            db_in_txn(*conn),
            db_tables(*conn) == db_tables(created),
            db_tables(created).contains(table_name@),
            forall|t: Seq<char>| #[trigger] db_saved(*conn, t) == db_saved(created, t),
            forall|t: Seq<char>| #[trigger] db_cols(*conn, t) == db_cols(created, t),
            db_table_list(*conn) == db_table_list(created),
            forall|t: Seq<char>|
                t != table_name@ ==> #[trigger] db_rows(*conn, t) == db_rows(created, t),
            db_rows(*conn, table_name@) == db_rows(created, table_name@) + rows_of_records(
                records.deep_view().take(i as int),
            ),
        decreases n - i,
    {
        proof {
            assert(records.deep_view().take(i as int + 1) =~= records.deep_view().take(
                i as int,
            ).push(records.deep_view()[i as int]));
            assert(records.deep_view()[i as int] == records@[i as int]@);
        }
        match exec_insert_row(conn, table_name, &records[i]) {
            Ok(()) => {
                proof {
                    assert(rows_of_records(records.deep_view().take(i as int + 1))
                        =~= rows_of_records(records.deep_view().take(i as int)).push(
                        row_of(records.deep_view()[i as int]),
                    ));
                    assert(db_rows(created, table_name@) + rows_of_records(
                        records.deep_view().take(i as int + 1),
                    ) =~= (db_rows(created, table_name@) + rows_of_records(
                        records.deep_view().take(i as int),
                    )).push(row_of(records.deep_view()[i as int])));
                }
            },
            Err(e) => {
                exec_rollback(conn);
                return Err(e);
            },
        }
        i = i + 1;
    }
    proof {
        assert(records.deep_view().take(n as int) =~= records.deep_view());
    }
    match exec_commit(conn) {
        Ok(()) => Ok(()),
        Err(e) => {
            exec_rollback(conn);
            Err(e)
        },
    }
}

/// The records that re-reading stored rows yields: each row whose URL
/// still yields a host becomes a record with the host re-derived from the
/// stored URL; a row whose URL has no derivable host yields no record.
pub open spec fn rebuilt_records_spec(rows: Seq<RowV>) -> Seq<SelectorRecordV>
    decreases rows.len(),
{
    if rows.len() == 0 {
        Seq::<SelectorRecordV>::empty()
    } else {
        rebuilt_records_spec(rows.drop_last()) + (match host_of(rows.last().1) {
            Some(h) => seq![
                SelectorRecordV {
                    timestamp: rows.last().0,
                    url: rows.last().1,
                    selector: rows.last().2,
                    content: rows.last().3,
                    host: h,
                },
            ],
            None => Seq::<SelectorRecordV>::empty(),
        })
    }
}

/// Reads every row of the table back as records, in insertion order,
/// re-deriving each host from the stored URL; a row whose URL has no
/// derivable host is skipped, aborting only that one record.
pub fn get_selector_records_from_table(conn: &rusqlite::Connection, table: &str) -> (r: Result<
    Vec<SelectorRecord>,
    ScrapeError,
>)
    requires
        is_table_ident(table@),
    ensures
        !db_tables(*conn).contains(table@) ==> r is Err,
        match r {
            Ok(v) => db_tables(*conn).contains(table@) && v.deep_view() == rebuilt_records_spec(
                db_rows(*conn, table@),
            ),
            Err(e) => e == ScrapeError::PersistenceFailure,
        },
{
    let raw = match query_record_rows(conn, table) {
        Ok(v) => v,
        Err(e) => {
            return Err(e);
        },
    };
    let ghost rows = db_rows(*conn, table@);
    let mut out: Vec<SelectorRecord> = Vec::new();
    let n = raw.len();
    proof {
        assert(rows.take(0) =~= Seq::<RowV>::empty());
        assert(out.deep_view() =~= Seq::<SelectorRecordV>::empty());
    }
    let mut i: usize = 0;
    while i < n
        invariant
            0 <= i <= n,
            n == raw@.len(),
            n == rows.len(),
            forall|j: int|
                0 <= j < n ==> (#[trigger] raw@[j]).0 == rows[j].0 && raw@[j].1@ == rows[j].1
                    && raw@[j].2@ == rows[j].2 && raw@[j].3@ == rows[j].3,
            out.deep_view() == rebuilt_records_spec(rows.take(i as int)),
        decreases n - i,
    {
        proof {
            assert(rows.take(i as int + 1).drop_last() =~= rows.take(i as int));
            assert(rows.take(i as int + 1).last() == rows[i as int]);
        }
        let (timestamp, url, selector, content) = (
            raw[i].0,
            raw[i].1.clone(),
            raw[i].2.clone(),
            raw[i].3.clone(),
        );
        match SelectorRecord::new(timestamp, url, selector, content) {
            Ok(rec) => {
                out.push(rec);
            },
            Err(_) => {
                // this row's URL no longer yields a host: skip the one record
            },
        }
        i = i + 1;
    }
    proof {
        assert(rows.take(n as int) =~= rows);
    }
    Ok(out)
}

/// The number of rows the table holds; an error when nothing bears the
/// name.
pub fn get_row_count(conn: &rusqlite::Connection, table: &str) -> (r: Result<u32, ScrapeError>)
    requires
        is_table_ident(table@),
    ensures
        !db_tables(*conn).contains(table@) ==> r is Err,
        match r {
            Ok(c) => db_tables(*conn).contains(table@) && c as nat == db_rows(
                *conn,
                table@,
            ).len(),
            Err(e) => e == ScrapeError::PersistenceFailure,
        },
{
    query_count(conn, table)
}

/// Exactly the stored names of the database's user tables, in schema
/// order; each name's folding occupies a model name (views are not
/// listed).
pub fn get_db_table_names(conn: &rusqlite::Connection) -> (r: Result<Vec<String>, ScrapeError>)
    ensures
        match r {
            Ok(v) => {
                &&& v.deep_view() == db_table_list(*conn)
                &&& forall|i: int|
                    0 <= i < v.deep_view().len() ==> db_tables(*conn).contains(
                        fold_name(#[trigger] v.deep_view()[i]),
                    )
                &&& v.deep_view().map_values(|n: Seq<char>| fold_name(n)).no_duplicates()
            },
            Err(e) => e == ScrapeError::PersistenceFailure,
        },
{
    query_table_names(conn)
}

/// Drops the table. Unlike a failed batch write, a failure here is
/// surfaced as a persistence error, never a crash.
pub fn _drop_table(conn: &mut rusqlite::Connection, table: &str) -> (r: Result<(), ScrapeError>)
    requires
        db_clean(*old(conn)),
        is_table_ident(table@),
    ensures
        db_clean(*final(conn)),
        forall|t: Seq<char>|
            t != table@ ==> #[trigger] db_tables(*final(conn)).contains(t) == db_tables(
                *old(conn),
            ).contains(t),
        forall|t: Seq<char>|
            t != table@ ==> #[trigger] db_rows(*final(conn), t) == db_rows(*old(conn), t),
        match r {
            Ok(()) => !db_tables(*final(conn)).contains(table@) && exists|i: int|
                0 <= i < db_table_list(*old(conn)).len() && fold_name(
                    #[trigger] db_table_list(*old(conn))[i],
                ) == table@ && db_table_list(*final(conn)) == db_table_list(*old(conn)).remove(
                    i,
                ),
            Err(e) => e == ScrapeError::PersistenceFailure && db_tables(*final(conn)).contains(
                table@,
            ) == db_tables(*old(conn)).contains(table@) && db_rows(*final(conn), table@)
                == db_rows(*old(conn), table@) && db_table_list(*final(conn)) == db_table_list(
                *old(conn),
            ),
        },
{
    exec_drop_table(conn, table)
}

} // verus!
