//! Statement rendering for the entity runtime.
//!
//! Every CRUD operation of an entity — create, get, filter, update by
//! primary key, delete, count, migrate — is one compiled statement plus
//! one execute or fetch call against a connection. The compilation halves
//! live here with exact contracts; the execute and fetch calls, being
//! driver I/O, live with the surrounding application. An entity brings a
//! schema triple: its table name, its primary-key column name and its
//! `create table if not exists` DDL, all treated as opaque text.

use vstd::prelude::*;

use crate::builder::{
    all_bindable_conditions, args_view, bind_count, lemma_args_len, no_column_conditions,
    spec_args, spec_insert_fields, spec_insert_placeholders, spec_placeholder,
    spec_select_fragment, spec_update_parts, to_insert_query, to_select_query, to_update_query,
    Query,
};
use crate::condition::Kwargs;
use crate::dialect::Dialect;
use crate::strutil::{format_u64, seq_join};
use crate::value::{encode, spec_encode_tag, spec_encode_text, Arg, TypeTag, Value};

verus! {

/// A fetch that found no row where one was required.
#[derive(Clone, Copy, Debug, PartialEq, Eq, Structural)]
pub enum FetchError {
    ZeroRows,
}

/// Renders the INSERT statement of `create`:
/// `insert into {table} ({fields}) values ({placeholders});` with one
/// argument per condition.
pub fn insert_statement(table: &str, kw: Vec<Kwargs>, dialect: Dialect) -> (r: (String, Vec<Arg>))
    requires
        all_bindable_conditions(kw@),
    ensures
        r.0@ == "insert into "@ + table@ + " ("@ + seq_join(spec_insert_fields(kw@), ", "@)
            + ") values ("@ + seq_join(spec_insert_placeholders(kw@, dialect), ", "@) + ");"@,
        args_view(r.1@) == spec_args(kw@),
{
    let q = to_insert_query(kw, dialect);
    let mut text = "insert into ".to_owned();
    text.append(table);
    text.append(" (");
    text.append(q.fields.as_str());
    text.append(") values (");
    text.append(q.placeholders.as_str());
    text.append(");");
    proof {
        assert(text@ =~= "insert into "@ + table@ + " ("@ + seq_join(
            spec_insert_fields(kw@),
            ", "@,
        ) + ") values ("@ + seq_join(spec_insert_placeholders(kw@, dialect), ", "@) + ");"@);
    }
    (text, q.args)
}

/// Renders the UPDATE statement of `set`:
/// `update {table} set {pairs} where {pk}={placeholder};`. The entity's
/// id-equality argument is appended after all SET arguments, so its
/// placeholder takes the next free index, one past the SET list.
pub fn update_statement(
    table: &str,
    pk: &str,
    id_value: Value,
    kw: Vec<Kwargs>,
    dialect: Dialect,
) -> (r: (String, Vec<Arg>))
    requires
        no_column_conditions(kw@),
        kw@.len() < usize::MAX,
    ensures
        r.0@ == "update "@ + table@ + " set "@ + seq_join(spec_update_parts(kw@, dialect), ", "@)
            + " where "@ + pk@ + "="@ + spec_placeholder(dialect, bind_count(kw@) + 1) + ";"@,
        args_view(r.1@) == spec_args(kw@).push((spec_encode_text(id_value), spec_encode_tag(
            id_value,
        ))),
{
    let ghost kws = kw@;
    let q = to_update_query(kw, dialect);
    let mut args = q.args;
    proof {
        lemma_args_len(kws);
        assert(args@.len() == spec_args(kws).len());
        assert(args@.len() == bind_count(kws));
        assert(bind_count(kws) <= kws.len()) by {
            lemma_bind_count_le_len(kws);
        }
    }
    let id_arg = encode(id_value);
    args.push(id_arg);
    let index_id: u64 = (args.len() as u64);
    let num = format_u64(index_id);
    let mut text = "update ".to_owned();
    text.append(table);
    text.append(" set ");
    text.append(q.placeholders.as_str());
    text.append(" where ");
    text.append(pk);
    text.append("=");
    text.append(dialect.placeholder_prefix());
    text.append(num.as_str());
    text.append(";");
    proof {
        assert(args_view(args@) =~= spec_args(kws).push((spec_encode_text(id_value),
        spec_encode_tag(id_value))));
        assert(text@ =~= "update "@ + table@ + " set "@ + seq_join(
            spec_update_parts(kws, dialect),
            ", "@,
        ) + " where "@ + pk@ + "="@ + spec_placeholder(dialect, bind_count(kws) + 1) + ";"@);
    }
    (text, args)
}

/// At most one placeholder per condition.
proof fn lemma_bind_count_le_len(kw: Seq<Kwargs>)
    ensures
        bind_count(kw) <= kw.len(),
    decreases kw.len(),
{
    if kw.len() > 0 {
        lemma_bind_count_le_len(kw.drop_last());
    }
}

/// Renders the SELECT statement of `filter`:
/// `SELECT * FROM {table} WHERE {predicate};`. An empty condition list
/// omits the WHERE clause entirely — `SELECT * FROM {table};` — rather
/// than emitting `WHERE` followed by nothing.
pub fn filter_statement(table: &str, kw: Vec<Kwargs>, dialect: Dialect) -> (r: (String, Vec<Arg>))
    ensures
        r.0@ == "SELECT * FROM "@ + table@ + (if kw@.len() == 0 {
            Seq::<char>::empty()
        } else {
            " WHERE "@ + spec_select_fragment(kw@, dialect)
        }) + ";"@,
        args_view(r.1@) == spec_args(kw@),
{
    let ghost kws = kw@;
    let mut text = "SELECT * FROM ".to_owned();
    text.append(table);
    if kw.len() == 0 {
        text.append(";");
        proof {
            assert(args_view(Seq::<Arg>::empty()) =~= spec_args(kws));
            assert(text@ =~= "SELECT * FROM "@ + table@ + Seq::<char>::empty() + ";"@);
        }
        (text, Vec::new())
    } else {
        let q = to_select_query(kw, dialect);
        text.append(" WHERE ");
        text.append(q.placeholders.as_str());
        text.append(";");
        proof {
            assert(text@ =~= "SELECT * FROM "@ + table@ + (" WHERE "@ + spec_select_fragment(
                kws,
                dialect,
            )) + ";"@);
        }
        (text, q.args)
    }
}

/// Renders the statement of `all`: `select * from {table}`.
pub fn all_statement(table: &str) -> (r: String)
    ensures
        r@ == "select * from "@ + table@,
{
    let mut text = "select * from ".to_owned();
    text.append(table);
    text
}

/// Renders the statement of `count`: `select count(*) from {table}`; the
/// result is read from column 0 of the single returned row as a 64-bit
/// integer.
pub fn count_statement(table: &str) -> (r: String)
    ensures
        r@ == "select count(*) from "@ + table@,
{
    let mut text = "select count(*) from ".to_owned();
    text.append(table);
    text
}

/// Renders the delete-all statement: `delete from {table};` — no WHERE,
/// every row goes.
pub fn delete_all_statement(table: &str) -> (r: String)
    ensures
        r@ == "delete from "@ + table@ + ";"@,
{
    let mut text = "delete from ".to_owned();
    text.append(table);
    text.append(";");
    proof {
        assert(text@ =~= "delete from "@ + table@ + ";"@);
    }
    text
}

/// Renders the statement that deletes one entity by primary key:
/// `delete from {table} where {pk}={placeholder};` with the single
/// placeholder index 1, bound to the entity's id.
pub fn delete_by_pk_statement(table: &str, pk: &str, dialect: Dialect) -> (r: String)
    ensures
        r@ == "delete from "@ + table@ + " where "@ + pk@ + "="@ + spec_placeholder(dialect, 1)
            + ";"@,
{
    let mut text = "delete from ".to_owned();
    text.append(table);
    text.append(" where ");
    text.append(pk);
    text.append("=");
    text.append(dialect.placeholder_prefix());
    let num = format_u64(1);
    text.append(num.as_str());
    text.append(";");
    proof {
        assert(text@ =~= "delete from "@ + table@ + " where "@ + pk@ + "="@ + spec_placeholder(
            dialect,
            1,
        ) + ";"@);
    }
    text
}

/// Renders the two-table join statement of the pairwise join runtime:
/// `SELECT {a}.*, {b}.* FROM {a} {JOIN} JOIN {b} ON {a}.{ca} = {b}.{cb}`
/// with an optional ` WHERE {predicate}` whose arguments are the
/// statement's whole argument list.
pub fn join_table_statement(
    join: &str,
    table_a: &str,
    table_b: &str,
    column_a: &str,
    column_b: &str,
    kw: Option<Vec<Kwargs>>,
    dialect: Dialect,
) -> (r: (String, Vec<Arg>))
    ensures
        r.0@ == "SELECT "@ + table_a@ + ".*, "@ + table_b@ + ".* FROM "@ + table_a@ + " "@ + join@
            + " JOIN "@ + table_b@ + " ON "@ + table_a@ + "."@ + column_a@ + " = "@ + table_b@
            + "."@ + column_b@ + (match kw {
            Some(c) => " WHERE "@ + spec_select_fragment(c@, dialect),
            None => Seq::<char>::empty(),
        }),
        args_view(r.1@) == (match kw {
            Some(c) => spec_args(c@),
            None => Seq::<(Seq<char>, TypeTag)>::empty(),
        }),
{
    let mut text = "SELECT ".to_owned();
    text.append(table_a);
    text.append(".*, ");
    text.append(table_b);
    text.append(".* FROM ");
    text.append(table_a);
    text.append(" ");
    text.append(join);
    text.append(" JOIN ");
    text.append(table_b);
    text.append(" ON ");
    text.append(table_a);
    text.append(".");
    text.append(column_a);
    text.append(" = ");
    text.append(table_b);
    text.append(".");
    text.append(column_b);
    let ghost head = text@;
    match kw {
        Some(c) => {
            let q = to_select_query(c, dialect);
            text.append(" WHERE ");
            text.append(q.placeholders.as_str());
            proof {
                assert(text@ =~= head + (" WHERE "@ + q.placeholders@));
            }
            (text, q.args)
        },
        None => {
            proof {
                assert(args_view(Seq::<Arg>::empty()) =~= Seq::<(Seq<char>, TypeTag)>::empty());
            }
            (text, Vec::new())
        },
    }
}

/// The first of the fetched rows, if any — the rule of `get` and
/// `fetch_optional`: zero rows is an empty result, not an error.
pub fn first_row<T>(rows: Vec<T>) -> (r: Option<T>)
    ensures
        rows@.len() == 0 ==> r is None,
        rows@.len() > 0 ==> (r matches Some(x) && x == rows@[0]),
{
    let mut rows = rows;
    if rows.len() == 0 {
        None
    } else {
        Some(rows.remove(0))
    }
}

/// The first of the fetched rows, or the zero-rows error — the rule of
/// `fetch_one`: extra rows are tolerated and the first is returned, but
/// zero rows is an error, unlike `fetch_optional`.
pub fn require_first_row<T>(rows: Vec<T>) -> (r: Result<T, FetchError>)
    ensures
        rows@.len() == 0 ==> r == Err::<T, FetchError>(FetchError::ZeroRows),
        rows@.len() > 0 ==> (r matches Ok(x) && x == rows@[0]),
{
    let mut rows = rows;
    if rows.len() == 0 {
        Err(FetchError::ZeroRows)
    } else {
        Ok(rows.remove(0))
    }
}

/// What executing an entity's `create table if not exists` DDL does to
/// the set of tables the database holds: the entity's table is there
/// afterwards, and nothing else changes.
pub open spec fn spec_apply_migration(tables: Set<Seq<char>>, table: Seq<char>) -> Set<Seq<char>> {
    tables.insert(table)
}

/// Idempotence law of migration: applying an entity's DDL to a schema
/// that already went through the same migration changes nothing — under
/// `create table if not exists` semantics a second run raises no error
/// and creates no duplicate table.
pub proof fn lemma_migrate_idempotent(tables: Set<Seq<char>>, table: Seq<char>)
    ensures
        spec_apply_migration(spec_apply_migration(tables, table), table) == spec_apply_migration(
            tables,
            table,
        ),
{
    assert(spec_apply_migration(spec_apply_migration(tables, table), table)
        =~= spec_apply_migration(tables, table));
}

} // verus!

