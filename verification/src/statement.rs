//! Statements for a backing store, with their values bound, never spliced
//! into their text.

use crate::table_models::{Action, Table};
use vstd::prelude::*;

verus! {

/// One value of a row, or one bound parameter of a statement, in the storage
/// classes of the backing store.
#[derive(Debug, PartialEq)]
pub enum SqlValue {
    Null,
    Integer(i64),
    /// A real number, held in thousandths: `Real(3750)` stands for 3.75.
    Real(i64),
    Text(String),
}

impl Clone for SqlValue {
    fn clone(&self) -> (r: Self)
        ensures
            r == *self,
    {
        match self {
            SqlValue::Null => SqlValue::Null,
            SqlValue::Integer(n) => SqlValue::Integer(*n),
            SqlValue::Real(m) => SqlValue::Real(*m),
            SqlValue::Text(s) => SqlValue::Text(s.clone()),
        }
    }
}

/// What a `SqlValue` holds, as plain values.
pub enum SqlValueView {
    Null,
    Integer(int),
    Real(int),
    Text(Seq<char>),
}

impl View for SqlValue {
    type V = SqlValueView;

    open spec fn view(&self) -> SqlValueView {
        match self {
            SqlValue::Null => SqlValueView::Null,
            SqlValue::Integer(n) => SqlValueView::Integer(*n as int),
            SqlValue::Real(m) => SqlValueView::Real(*m as int),
            SqlValue::Text(s) => SqlValueView::Text(s@),
        }
    }
}

/// The plain values of a list of values, in order.
pub open spec fn values_view(values: Seq<SqlValue>) -> Seq<SqlValueView> {
    values.map_values(|v: SqlValue| v@)
}

/// How a flag is bound: 1 for true, 0 for false.
pub open spec fn flag(b: bool) -> SqlValueView {
    SqlValueView::Integer(
        if b {
            1
        } else {
            0
        },
    )
}

/// Binds a flag as an integer.
pub fn bind_flag(b: bool) -> (r: SqlValue)
    ensures
        r@ == flag(b),
{
    if b {
        SqlValue::Integer(1)
    } else {
        SqlValue::Integer(0)
    }
}

/// A statement for the backing store: its text, with one `?` for each value,
/// and the values to bind, in the order of their placeholders. No value is
/// ever spliced into the text.
#[derive(Debug, PartialEq)]
pub struct Statement {
    pub sql: String,
    pub params: Vec<SqlValue>,
}

/// What a `Statement` holds, as plain values.
pub struct StatementView {
    pub sql: Seq<char>,
    pub params: Seq<SqlValueView>,
}

impl View for Statement {
    type V = StatementView;

    open spec fn view(&self) -> StatementView {
        StatementView { sql: self.sql@, params: values_view(self.params@) }
    }
}

impl Clone for Statement {
    fn clone(&self) -> (r: Self)
        ensures
            r.sql == self.sql,
            r.params@ == self.params@,
    {
        let mut params: Vec<SqlValue> = Vec::new();
        let mut i: usize = 0;
        while i < self.params.len()
            invariant
                i <= self.params.len(),
                params@ == self.params@.take(i as int),
            decreases self.params.len() - i,
        {
            params.push(self.params[i].clone());
            assert(self.params@.take(i + 1) =~= self.params@.take(i as int).push(
                self.params@[i as int],
            ));
            i += 1;
        }
        assert(self.params@.take(self.params.len() as int) =~= self.params@);
        Statement { sql: self.sql.clone(), params }
    }
}

/// A write that the store has carried out and that the backing store has
/// yet to: the entity kind, the command, and the statement for it.
#[derive(Debug, PartialEq)]
pub struct Pending {
    pub table: Table,
    pub action: Action,
    pub statement: Statement,
}

/// What a `Pending` holds, as plain values.
pub struct PendingView {
    pub table: Table,
    pub action: Action,
    pub statement: StatementView,
}

impl View for Pending {
    type V = PendingView;

    open spec fn view(&self) -> PendingView {
        PendingView { table: self.table, action: self.action, statement: self.statement@ }
    }
}

} // verus!
