//! Table and column metadata, read from an open database handle.
//!
//! The database work itself — preparing and running the two catalogue
//! queries — sits behind two trusted wrappers around `rusqlite`; everything
//! those wrappers hand back is plain values, and the logic over them
//! (filtering out internal tables, mapping type strings) is verified.

use crate::lite_type::spec_format;
use crate::lite_type::spec_map;
use crate::lite_type::str_eq;
use crate::lite_type::LiteType;
use vstd::prelude::*;
use vstd::string::StrSliceExecFns;
use vstd::string::StringExecFns;

verus! {

#[verifier::external_type_specification]
#[verifier::external_body]
pub struct ExConnection(rusqlite::Connection);

#[verifier::external_type_specification]
#[verifier::external_body]
pub struct ExSqlError(rusqlite::Error);

/// One column of one table: its name, its logical type, and whether the
/// database declares it non-null.
#[derive(Debug, Clone)]
pub struct ColumnMetadata {
    pub name: String,
    pub ty: LiteType,
    pub notnull: bool,
}

/// One table: its name and its columns, in the database's own column order.
#[derive(Debug, Clone)]
pub struct TableMetadata {
    pub name: String,
    pub columns: Vec<ColumnMetadata>,
}

/// Why a schema read stopped. Every variant is fatal for the whole run.
#[derive(Debug)]
pub enum SchemaError {
    /// The database rejected or failed a catalogue query.
    Database(rusqlite::Error),
    /// A column's declared type string is outside the recognized set;
    /// carries that string.
    UnrecognizedType(String),
    /// The diagram would not fit the machine's integer range (coordinates
    /// or identifier space exhausted).
    RangeExceeded,
}

/// Relies on rusqlite's `Connection::prepare`, `Statement::query`,
/// `Rows::next` and `Row::get` to read the name of every table recorded in
/// the schema catalogue, in the database's own return order. What comes
/// back depends on the file behind the handle, so nothing more is promised
/// of the names; a failed prepare, query or read comes back as the error.
#[verifier::external_body]
fn query_table_names(conn: &rusqlite::Connection) -> (r: Result<Vec<String>, rusqlite::Error>) {
    let mut stmt = conn.prepare("SELECT name FROM sqlite_schema WHERE type = 'table';")?;
    let mut rows = stmt.query(())?;
    let mut names = Vec::new();
    while let Some(row) = rows.next()? {
        names.push(row.get(0)?);
    }
    Ok(names)
}

/// Relies on rusqlite's `Connection::prepare`, `Statement::query`,
/// `Rows::next` and `Row::get` to read, for the named table, each column's
/// name, declared type string and non-null flag from the table-info pragma,
/// in the database's native column-index order. What comes back depends on
/// the file behind the handle, so nothing more is promised of the rows; a
/// failed prepare, query or read comes back as the error.
#[verifier::external_body]
fn query_column_info(conn: &rusqlite::Connection, table: &str) -> (r: Result<
    Vec<(String, String, bool)>,
    rusqlite::Error,
>) {
    let sql = format!("SELECT name, type, \"notnull\" FROM pragma_table_info(\"{}\");", table);
    let mut stmt = conn.prepare(&sql)?;
    let mut rows = stmt.query(())?;
    let mut cols = Vec::new();
    while let Some(row) = rows.next()? {
        cols.push((row.get(0)?, row.get(1)?, row.get(2)?));
    }
    Ok(cols)
}

/// A name carrying the reserved internal prefix of the database engine's
/// own tables.
pub open spec fn has_internal_prefix(name: Seq<char>) -> bool {
    name.len() >= 7 && name.subrange(0, 7) == "sqlite_"@
}

/// The views of a list of strings.
pub open spec fn views_of(names: Seq<String>) -> Seq<Seq<char>> {
    names.map_values(|s: String| s@)
}

/// The user-defined names among a list: those without the reserved
/// internal prefix, in their original order.
pub open spec fn user_tables_of(names: Seq<Seq<char>>) -> Seq<Seq<char>> {
    names.filter(|n: Seq<char>| !has_internal_prefix(n))
}

/// Whether one name carries the reserved internal prefix.
fn is_internal_name(name: &str) -> (r: bool)
    ensures
        r == has_internal_prefix(name@),
{
    if name.unicode_len() < 7 {
        return false;
    }
    let prefix = name.substring_char(0, 7);
    str_eq(prefix, "sqlite_")
}

/// Keeps exactly the user-defined table names, in their original order,
/// dropping every name with the reserved internal prefix — also those of
/// internal tables that really exist in the file.
pub fn filter_user_tables(names: Vec<String>) -> (r: Vec<String>)
    ensures
        views_of(r@) == user_tables_of(views_of(names@)),
        forall|i: int| 0 <= i < r@.len() ==> !has_internal_prefix(#[trigger] r@[i]@),
{
    let mut r: Vec<String> = Vec::new();
    let mut i: usize = 0;
    while i < names.len()
        invariant
            0 <= i <= names@.len(),
            views_of(r@) == user_tables_of(views_of(names@.subrange(0, i as int))),
            forall|k: int| 0 <= k < r@.len() ==> !has_internal_prefix(#[trigger] r@[k]@),
        decreases names@.len() - i,
    {
        let ghost prev = views_of(names@.subrange(0, i as int));
        let ghost cur = views_of(names@.subrange(0, i as int + 1));
        proof {
            assert(cur.drop_last() =~= prev);
            assert(cur.last() == names@[i as int]@);
        }
        let keep = !is_internal_name(&names[i]);
        if keep {
            r.push(names[i].clone());
        }
        proof {
            reveal(Seq::filter);
            assert(user_tables_of(cur) == if !has_internal_prefix(cur.last()) {
                user_tables_of(prev).push(cur.last())
            } else {
                user_tables_of(prev)
            });
            if keep {
                assert(views_of(r@) =~= user_tables_of(prev).push(cur.last()));
            }
        }
        i = i + 1;
    }
    proof {
        assert(names@.subrange(0, names@.len() as int) =~= names@);
    }
    r
}

/// Lists the user-defined tables of the database, in the database's own
/// return order, never a name with the reserved internal prefix.
pub fn list_tables(conn: &rusqlite::Connection) -> (r: Result<Vec<String>, SchemaError>)
    ensures
        r matches Ok(names) ==> forall|i: int|
            0 <= i < names@.len() ==> !has_internal_prefix(#[trigger] names@[i]@),
        r matches Err(e) ==> e is Database,
{
    match query_table_names(conn) {
        Ok(raw) => Ok(filter_user_tables(raw)),
        Err(e) => Err(SchemaError::Database(e)),
    }
}

/// Builds the column metadata from the raw rows of the table-info pragma:
/// one column per row, in row order, the name and non-null flag carried
/// through and the type string mapped to its logical type. Fails exactly
/// when some row's type string is unrecognized, with the first such string.
pub fn columns_from_rows(rows: Vec<(String, String, bool)>) -> (r: Result<
    Vec<ColumnMetadata>,
    SchemaError,
>)
    ensures
        r is Ok <==> (forall|i: int|
            0 <= i < rows@.len() ==> spec_map(#[trigger] rows@[i].1@) is Some),
        r matches Ok(cols) ==> {
            &&& cols@.len() == rows@.len()
            &&& forall|i: int|
                0 <= i < rows@.len() ==> {
                    &&& (#[trigger] cols@[i]).name@ == rows@[i].0@
                    &&& Some(cols@[i].ty) == spec_map(rows@[i].1@)
                    &&& cols@[i].notnull == rows@[i].2
                }
        },
        r matches Err(e) ==> e matches SchemaError::UnrecognizedType(raw) && (exists|i: int|
            0 <= i < rows@.len() && spec_map(#[trigger] rows@[i].1@) is None && raw@ == rows@[
                i
            ].1@),
{
    let mut cols: Vec<ColumnMetadata> = Vec::new();
    let mut i: usize = 0;
    while i < rows.len()
        invariant
            0 <= i <= rows@.len(),
            cols@.len() == i,
            forall|k: int|
                0 <= k < i ==> {
                    &&& (#[trigger] cols@[k]).name@ == rows@[k].0@
                    &&& Some(cols@[k].ty) == spec_map(rows@[k].1@)
                    &&& cols@[k].notnull == rows@[k].2
                },
            forall|k: int| 0 <= k < i ==> spec_map(#[trigger] rows@[k].1@) is Some,
        decreases rows@.len() - i,
    {
        let row = &rows[i];
        match LiteType::map(row.1.as_str()) {
            Ok(ty) => {
                cols.push(ColumnMetadata { name: row.0.clone(), ty, notnull: row.2 });
            },
            Err(te) => {
                return Err(SchemaError::UnrecognizedType(te.raw));
            },
        }
        i = i + 1;
    }
    Ok(cols)
}

/// Reads one table's metadata from the database: one column per row of the
/// table-info pragma, in native column order, each type string mapped
/// through the type mapper. The exact construction from the raw rows is
/// stated by [`columns_from_rows`].
pub fn metadata_from_db(table_name: &str, conn: &rusqlite::Connection) -> (r: Result<
    TableMetadata,
    SchemaError,
>)
    ensures
        r matches Ok(m) ==> m.name@ == table_name@,
        r matches Err(e) ==> e is Database || e is UnrecognizedType,
{
    let rows = match query_column_info(conn, table_name) {
        Ok(rows) => rows,
        Err(e) => {
            return Err(SchemaError::Database(e));
        },
    };
    let columns = match columns_from_rows(rows) {
        Ok(cols) => cols,
        Err(e) => {
            return Err(e);
        },
    };
    Ok(TableMetadata { name: table_name.to_owned(), columns })
}

/// The rendered label of one field row: the column name, the formatted
/// type, and the non-null marker or, in its place, nothing after the
/// final space.
pub open spec fn spec_column_label(c: ColumnMetadata) -> Seq<char> {
    c.name@ + ": "@ + spec_format(c.ty) + " "@ + (if c.notnull {
        "NOT NULL"@
    } else {
        ""@
    })
}

/// Renders one column's field label, exactly `<name>: <type> <qualifier>`
/// with the literal `NOT NULL` qualifier when the column is non-null and
/// the empty qualifier — keeping the trailing space — when it is not.
pub fn column_label(c: &ColumnMetadata) -> (r: String)
    ensures
        r@ == spec_column_label(*c),
{
    let mut r = c.name.clone();
    r.append(": ");
    let ty = c.ty.format();
    r.append(ty.as_str());
    r.append(" ");
    if c.notnull {
        r.append("NOT NULL");
    }
    proof {
        reveal_strlit("");
        assert(r@ =~= spec_column_label(*c));
    }
    r
}

} // verus!
