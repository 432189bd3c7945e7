//! The statements by which rows are read from a backing store.

use crate::db_driver::{fits, Join};
use crate::error::ErrorKind;
use crate::filter::{Associativity, associativity_or_default, Filter, Filterable};
use crate::lemmas::{
    lemma_take_step, lemma_views_push, lemma_views_step, lemma_views_whole, views_of,
};
use crate::model::filters_fit;
use crate::statement::{SqlValue, SqlValueView, Statement, StatementView};
use crate::table_models::Table;
use vstd::prelude::*;
use vstd::string::*;

verus! {

/// The conditions of the predicates, in order, with the connective between
/// each two of them.
pub open spec fn conditions_text(filters: Seq<Filter>, connective: Seq<char>) -> Seq<char>
    decreases filters.len(),
{
    if filters.len() == 0 {
        Seq::empty()
    } else if filters.len() == 1 {
        filters[0].condition().sql
    } else {
        conditions_text(filters.drop_last(), connective) + connective
            + filters.last().condition().sql
    }
}

/// The values that the conditions of the predicates compare with, in the
/// order of the predicates.
pub open spec fn conditions_values(filters: Seq<Filter>) -> Seq<SqlValueView>
    decreases filters.len(),
{
    if filters.len() == 0 {
        Seq::empty()
    } else {
        conditions_values(filters.drop_last()) + filters.last().condition().params
    }
}

/// A read of rows from `source` under the predicates: every row where there
/// is no predicate, else the rows that meet the conditions.
pub open spec fn read_of(
    source: Seq<char>,
    filters: Seq<Filter>,
    assoc: Associativity,
) -> StatementView {
    StatementView {
        sql: if filters.len() == 0 {
            "SELECT * FROM "@ + source
        } else {
            "SELECT * FROM "@ + source + " WHERE "@ + conditions_text(
                filters,
                assoc.keyword_text(),
            )
        },
        params: conditions_values(filters),
    }
}

/// Every predicate is about one of the two tables.
pub open spec fn filters_fit_either(tables: [Table; 2], filters: Seq<Filter>) -> bool {
    forall|i: int|
        0 <= i < filters.len() ==> (#[trigger] filters[i]).table_of() == tables[0]
            || filters[i].table_of() == tables[1]
}

/// Writes a read of rows from `source` under the predicates.
fn read_statement(source: String, filters: &Vec<Filter>, assoc: Associativity) -> (r: Statement)
    ensures
        r@ == read_of(source@, filters@, assoc),
{
    let mut sql = String::from_str("SELECT * FROM ");
    sql.append(source.as_str());
    let mut params: Vec<SqlValue> = Vec::new();
    if filters.len() == 0 {
        assert(views_of(params@) =~= conditions_values(filters@));
        return Statement { sql, params };
    }
    sql.append(" WHERE ");
    let ghost head = sql@;
    let mut i: usize = 0;
    while i < filters.len()
        invariant
            i <= filters.len(),
            sql@ == head + conditions_text(filters@.take(i as int), assoc.keyword_text()),
            views_of(params@) == conditions_values(filters@.take(i as int)),
        decreases filters.len() - i,
    {
        proof {
            lemma_take_step(filters@, i as int);
        }
        let condition = filters[i].to_sql();
        if i > 0 {
            sql.append(assoc.keyword());
        }
        sql.append(condition.sql.as_str());
        let mut k: usize = 0;
        let ghost before = params@;
        while k < condition.params.len()
            invariant
                k <= condition.params.len(),
                views_of(params@) == views_of(before) + views_of(condition.params@.take(k as int)),
            decreases condition.params.len() - k,
        {
            proof {
                lemma_views_step(condition.params@, k as int);
                lemma_views_push(params@, condition.params@[k as int]);
            }
            params.push(condition.params[k].clone());
            k += 1;
        }
        proof {
            lemma_views_whole(condition.params@);
            assert(sql@ =~= head + conditions_text(
                filters@.take(i + 1),
                assoc.keyword_text(),
            ));
        }
        i += 1;
    }
    assert(filters@.take(filters.len() as int) =~= filters@);
    assert(sql@ =~= read_of(source@, filters@, assoc).sql);
    Statement { sql, params }
}

/// The statement that reads the rows of a table under the predicates:
/// every row where there is no predicate, else the rows that meet the
/// conditions, joined by the connective of `join_mode`, or by `AND` where
/// none is given. A predicate on another entity kind refuses the statement
/// with `InvalidFilter`.
pub fn select_statement(
    table: Table,
    filters: &Vec<Filter>,
    join_mode: Option<Associativity>,
) -> (r:
    Result<Statement, ErrorKind>)
    ensures
        match r {
            Ok(statement) => filters_fit(table, filters@) && statement@ == read_of(
                table.name_text(),
                filters@,
                associativity_or_default(join_mode),
            ),
            Err(e) => e == ErrorKind::InvalidFilter && !filters_fit(table, filters@),
        },
{
    let assoc = match join_mode {
        Some(a) => a,
        None => Associativity::And,
    };
    if !fits(table, filters) {
        return Err(ErrorKind::InvalidFilter);
    }
    Ok(read_statement(String::from_str(table.name()), filters, assoc))
}

/// Whether every predicate is about one of the two tables.
pub fn fit_either(tables: &[Table; 2], filters: &Vec<Filter>) -> (b: bool)
    ensures
        b == filters_fit_either(*tables, filters@),
{
    let mut i: usize = 0;
    while i < filters.len()
        invariant
            i <= filters.len(),
            forall|j: int|
                0 <= j < i ==> (#[trigger] filters@[j]).table_of() == tables[0]
                    || filters@[j].table_of() == tables[1],
        decreases filters.len() - i,
    {
        let t = filters[i].table();
        if t != tables[0] && t != tables[1] {
            return false;
        }
        i += 1;
    }
    true
}

/// The statement that reads the rows of two joined tables under the
/// predicates. A predicate on a third entity kind refuses the statement with
/// `InvalidFilter`.
pub fn join_statement(
    tables: &[Table; 2],
    filters: &Vec<Filter>,
    join: Join,
    assoc: Option<Associativity>,
) -> (r: Result<Statement, ErrorKind>)
    ensures
        match r {
            Ok(statement) => filters_fit_either(*tables, filters@) && statement@ == read_of(
                tables[0].join_text(&tables[1], join),
                filters@,
                associativity_or_default(assoc),
            ),
            Err(e) => e == ErrorKind::InvalidFilter && !filters_fit_either(*tables, filters@),
        },
{
    let connective = match assoc {
        Some(a) => a,
        None => Associativity::And,
    };
    if !fit_either(tables, filters) {
        return Err(ErrorKind::InvalidFilter);
    }
    let source = tables[0].join(&tables[1], join);
    Ok(read_statement(source, filters, connective))
}

} // verus!
