//! The multi-table SELECT statement builder.
//!
//! A statement is assembled in stages: a select clause and an optional
//! base table, then any number of JOIN clauses, then an optional WHERE
//! condition list, and finally one rendering call. Every ON fragment and
//! the WHERE fragment are compiled independently by the WHERE compiler,
//! and their argument lists are concatenated in clause order — joins
//! first, in declaration order, then WHERE.

use vstd::prelude::*;

use crate::builder::{args_view, compile_select, spec_args, spec_select_fragment};
use crate::condition::Kwargs;
use crate::dialect::Dialect;
use crate::value::{Arg, TypeTag};

verus! {

/// The join flavor rendered into a SELECT statement. All four render as
/// their literal SQL keyword; whether the target engine supports each is
/// not validated here.
#[derive(Clone, Copy, Debug, PartialEq, Eq, Structural)]
pub enum JoinType {
    Inner,
    Left,
    Right,
    Full,
}

/// The SQL keyword of a join flavor.
pub open spec fn spec_join_keyword(j: JoinType) -> Seq<char> {
    match j {
        JoinType::Inner => "INNER"@,
        JoinType::Left => "LEFT"@,
        JoinType::Right => "RIGHT"@,
        JoinType::Full => "FULL"@,
    }
}

impl JoinType {
    /// The keyword as it is rendered into SQL text.
    pub fn keyword(&self) -> (r: &'static str)
        ensures
            r@ == spec_join_keyword(*self),
    {
        match self {
            JoinType::Inner => "INNER",
            JoinType::Left => "LEFT",
            JoinType::Right => "RIGHT",
            JoinType::Full => "FULL",
        }
    }
}

/// One JOIN clause of a statement under construction.
pub struct JoinClause {
    pub join_type: JoinType,
    pub table: String,
    pub on_conditions: Vec<Kwargs>,
}

/// A multi-table SELECT statement under construction.
pub struct SelectBuilder {
    pub select_clause: String,
    pub from_table: Option<String>,
    pub joins: Vec<JoinClause>,
    pub where_conditions: Option<Vec<Kwargs>>,
}

/// The ` FROM table` text of a statement, empty when no base table is
/// set.
pub open spec fn spec_from_text(t: Option<String>) -> Seq<char> {
    match t {
        Some(name) => " FROM "@ + name@,
        None => Seq::empty(),
    }
}

/// The rendered text of one JOIN clause, with its leading space.
pub open spec fn spec_join_clause_text(j: JoinClause, d: Dialect) -> Seq<char> {
    " "@ + spec_join_keyword(j.join_type) + " JOIN "@ + j.table@ + " ON "@ + spec_select_fragment(
        j.on_conditions@,
        d,
    )
}

/// The rendered text of all JOIN clauses, in declaration order.
pub open spec fn spec_joins_text(joins: Seq<JoinClause>, d: Dialect) -> Seq<char>
    decreases joins.len(),
{
    if joins.len() == 0 {
        Seq::empty()
    } else {
        spec_joins_text(joins.drop_last(), d) + spec_join_clause_text(joins.last(), d)
    }
}

/// The arguments of all JOIN clauses, concatenated in declaration order.
pub open spec fn spec_joins_args(joins: Seq<JoinClause>) -> Seq<(Seq<char>, TypeTag)>
    decreases joins.len(),
{
    if joins.len() == 0 {
        Seq::empty()
    } else {
        spec_joins_args(joins.drop_last()) + spec_args(joins.last().on_conditions@)
    }
}

/// The ` WHERE ...` text of a statement. A missing condition list emits
/// nothing, and so does a provided-but-empty one: an empty list must
/// omit the WHERE clause entirely rather than emit `WHERE` followed by
/// nothing.
pub open spec fn spec_where_text(w: Option<Vec<Kwargs>>, d: Dialect) -> Seq<char> {
    match w {
        Some(kw) => if kw@.len() == 0 {
            Seq::empty()
        } else {
            " WHERE "@ + spec_select_fragment(kw@, d)
        },
        None => Seq::empty(),
    }
}

/// The arguments of the WHERE clause, if any.
pub open spec fn spec_where_args(w: Option<Vec<Kwargs>>) -> Seq<(Seq<char>, TypeTag)> {
    match w {
        Some(kw) => spec_args(kw@),
        None => Seq::empty(),
    }
}

/// The complete statement text a builder renders to.
pub open spec fn spec_built_query(b: SelectBuilder, d: Dialect) -> Seq<char> {
    "SELECT "@ + b.select_clause@ + spec_from_text(b.from_table) + spec_joins_text(b.joins@, d)
        + spec_where_text(b.where_conditions, d) + ";"@
}

/// The complete argument list a builder renders to: join arguments in
/// declaration order, then the WHERE arguments, matching the order of
/// the placeholder texts in the statement.
pub open spec fn spec_built_args(b: SelectBuilder) -> Seq<(Seq<char>, TypeTag)> {
    spec_joins_args(b.joins@) + spec_where_args(b.where_conditions)
}

impl SelectBuilder {
    /// Starts a statement from a select clause and an optional base
    /// table.
    pub fn new(select_clause: String, from_table: Option<String>) -> (r: SelectBuilder)
        ensures
            r.select_clause == select_clause,
            r.from_table == from_table,
            r.joins@ == Seq::<JoinClause>::empty(),
            r.where_conditions is None,
    {
        SelectBuilder { select_clause, from_table, joins: Vec::new(), where_conditions: None }
    }

    /// Adds one JOIN clause, fixing the base table to `base_table` if
    /// none is set yet.
    fn push_join(
        self,
        join_type: JoinType,
        base_table: String,
        table: String,
        on: Vec<Kwargs>,
    ) -> (r: SelectBuilder)
        ensures
            self.from_table is None ==> r.from_table == Some(base_table),
            self.from_table is Some ==> r.from_table == self.from_table,
            r.joins@ == self.joins@.push(
                (JoinClause { join_type, table, on_conditions: on }),
            ),
            r.select_clause == self.select_clause,
            r.where_conditions == self.where_conditions,
    {
        let mut b = self;
        if b.from_table.is_none() {
            b.from_table = Some(base_table);
        }
        b.joins.push(JoinClause { join_type, table, on_conditions: on });
        b
    }

    /// Adds an INNER JOIN with `join_table` on the given conditions,
    /// lazily fixing the base table to `base_table` if none is set yet.
    pub fn inner_join(self, base_table: String, join_table: String, on: Vec<Kwargs>) -> (r:
        SelectBuilder)
        ensures
            self.from_table is None ==> r.from_table == Some(base_table),
            self.from_table is Some ==> r.from_table == self.from_table,
            r.joins@ == self.joins@.push(
                (JoinClause { join_type: JoinType::Inner, table: join_table, on_conditions: on }),
            ),
            r.select_clause == self.select_clause,
            r.where_conditions == self.where_conditions,
    {
        self.push_join(JoinType::Inner, base_table, join_table, on)
    }

    /// Adds a LEFT JOIN, as `inner_join` does.
    pub fn left_join(self, base_table: String, join_table: String, on: Vec<Kwargs>) -> (r:
        SelectBuilder)
        ensures
            self.from_table is None ==> r.from_table == Some(base_table),
            self.from_table is Some ==> r.from_table == self.from_table,
            r.joins@ == self.joins@.push(
                (JoinClause { join_type: JoinType::Left, table: join_table, on_conditions: on }),
            ),
            r.select_clause == self.select_clause,
            r.where_conditions == self.where_conditions,
    {
        self.push_join(JoinType::Left, base_table, join_table, on)
    }

    /// Adds a RIGHT JOIN, as `inner_join` does.
    pub fn right_join(self, base_table: String, join_table: String, on: Vec<Kwargs>) -> (r:
        SelectBuilder)
        ensures
            self.from_table is None ==> r.from_table == Some(base_table),
            self.from_table is Some ==> r.from_table == self.from_table,
            r.joins@ == self.joins@.push(
                (JoinClause { join_type: JoinType::Right, table: join_table, on_conditions: on }),
            ),
            r.select_clause == self.select_clause,
            r.where_conditions == self.where_conditions,
    {
        self.push_join(JoinType::Right, base_table, join_table, on)
    }

    /// Sets the WHERE condition list of the statement.
    pub fn where_clause(self, conditions: Vec<Kwargs>) -> (r: SelectBuilder)
        ensures
            r.where_conditions == Some(conditions),
            r.select_clause == self.select_clause,
            r.from_table == self.from_table,
            r.joins@ == self.joins@,
    {
        let mut b = self;
        b.where_conditions = Some(conditions);
        b
    }

    /// Renders the statement and its argument list. Each ON fragment and
    /// the WHERE fragment are compiled independently, so each clause's
    /// placeholder indices restart at 1; the argument lists are
    /// concatenated in clause order to match.
    pub fn build_query(&self, dialect: Dialect) -> (r: (String, Vec<Arg>))
        ensures
            r.0@ == spec_built_query(*self, dialect),
            args_view(r.1@) == spec_built_args(*self),
    {
        let mut query = "SELECT ".to_owned();
        query.append(self.select_clause.as_str());
        match &self.from_table {
            Some(t) => {
                query.append(" FROM ");
                query.append(t.as_str());
            },
            None => {},
        }
        let ghost head = "SELECT "@ + self.select_clause@ + spec_from_text(self.from_table);
        proof {
            assert(query@ =~= head);
        }
        let mut all_args: Vec<Arg> = Vec::new();
        proof {
            assert(args_view(all_args@) =~= Seq::<(Seq<char>, TypeTag)>::empty());
            assert(self.joins@.take(0) =~= Seq::<JoinClause>::empty());
        }
        let mut i: usize = 0;
        while i < self.joins.len()
            invariant
                i <= self.joins.len(),
                head == "SELECT "@ + self.select_clause@ + spec_from_text(self.from_table),
                query@ == head + spec_joins_text(self.joins@.take(i as int), dialect),
                args_view(all_args@) == spec_joins_args(self.joins@.take(i as int)),
            decreases self.joins.len() - i,
        {
            proof {
                assert(self.joins@.take(i as int + 1).drop_last() =~= self.joins@.take(i as int));
                assert(self.joins@.take(i as int + 1).last() == self.joins@[i as int]);
            }
            let join = &self.joins[i];
            let q = compile_select(&join.on_conditions, dialect);
            query.append(" ");
            query.append(join.join_type.keyword());
            query.append(" JOIN ");
            query.append(join.table.as_str());
            query.append(" ON ");
            query.append(q.placeholders.as_str());
            let mut qa = q.args;
            proof {
                assert(args_view(all_args@ + qa@) =~= args_view(all_args@) + args_view(qa@));
            }
            all_args.append(&mut qa);
            proof {
                assert(query@ =~= head + spec_joins_text(self.joins@.take(i as int + 1), dialect));
                assert(args_view(all_args@) =~= spec_joins_args(self.joins@.take(i as int + 1)));
            }
            i += 1;
        }
        proof {
            assert(self.joins@.take(self.joins.len() as int) =~= self.joins@);
        }
        match &self.where_conditions {
            Some(kw) => if kw.len() > 0 {
                let q = compile_select(kw, dialect);
                query.append(" WHERE ");
                query.append(q.placeholders.as_str());
                let mut qa = q.args;
                proof {
                    assert(args_view(all_args@ + qa@) =~= args_view(all_args@) + args_view(qa@));
                }
                all_args.append(&mut qa);
            },
            None => {},
        }
        query.append(";");
        proof {
            assert(query@ =~= spec_built_query(*self, dialect));
            assert(args_view(all_args@) =~= spec_built_args(*self));
        }
        (query, all_args)
    }
}

} // verus!
