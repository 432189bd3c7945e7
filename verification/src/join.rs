//! Joins of two tables, carried out on the records of the store, with
//! rows handed out as text.

use crate::db_driver::{DbDriver, Join, ReceiverType, ReceiverTypeView};
use crate::error::{ErrorKind, Operation};
use crate::filter::{Associativity, associativity_or_default, Filter};
use crate::lemmas::{lemma_views_step, lemma_views_whole, views_of};
use crate::model::{columns_exist, Database, unreadable};
use crate::query::{filters_fit_either, fit_either};
use crate::rows::{column_names, columns, loose_row, value_at, value_text};
use crate::statement::{SqlValue, SqlValueView};
use crate::table_models::Table;
use vstd::prelude::*;

verus! {

/// The predicate at `at` is the first that names a column which its table
/// does not have.
pub open spec fn first_without_column(filters: Seq<Filter>, at: int) -> bool {
    &&& 0 <= at < filters.len()
    &&& !filters[at].column_exists()
    &&& forall|j: int| 0 <= j < at ==> (#[trigger] filters[j]).column_exists()
}

/// The table of the first predicate that names a column which its table
/// does not have, where there is such a predicate.
pub fn table_without_column(filters: &Vec<Filter>) -> (r: Option<Table>)
    ensures
        match r {
            Some(table) => exists|at: int|
                first_without_column(filters@, at) && table == (#[trigger] filters@[at]).table_of(),
            None => columns_exist(filters@),
        },
{
    let mut i: usize = 0;
    while i < filters.len()
        invariant
            i <= filters.len(),
            forall|j: int| 0 <= j < i ==> (#[trigger] filters@[j]).column_exists(),
        decreases filters.len() - i,
    {
        if !filters[i].has_column() {
            assert(first_without_column(filters@, i as int));
            return Some(filters[i].table());
        }
        i += 1;
    }
    None
}

/// A row of a join before it is written out: the record of the first table
/// and the record of the second, either of which an outer join may lack.
pub type Pairing = (Option<ReceiverTypeView>, Option<ReceiverTypeView>);

/// A row as a join hands it out: the names of its columns, each with the
/// text of the value under it.
pub type LooseRow = Seq<(Seq<char>, Seq<char>)>;

/// The columns of a table with the text of a row's values, `NULL` where the
/// row has none.
pub open spec fn loose(names: Seq<Seq<char>>, values: Seq<SqlValueView>) -> LooseRow {
    Seq::new(names.len(), |i: int| (names[i], value_text(value_at(values, i))))
}

/// The part of a joined row that one table gives: its columns with the
/// record's values, or with `NULL` throughout where there is no record.
pub open spec fn side_row(table: Table, record: Option<ReceiverTypeView>) -> LooseRow {
    loose(
        column_names(table),
        match record {
            Some(r) => r.row(),
            None => Seq::empty(),
        },
    )
}

/// A joined row: the columns of the first table, then those of the second.
pub open spec fn joined_row(tables: [Table; 2], pairing: Pairing) -> LooseRow {
    side_row(tables[0], pairing.0) + side_row(tables[1], pairing.1)
}

/// Whether a pairing satisfies one predicate. The predicate is about the
/// record of the first table where it is of that table's kind, else about
/// the record of the second. Where that record is lacking, only the
/// predicate that every record satisfies holds.
pub open spec fn holds_for(f: Filter, tables: [Table; 2], pairing: Pairing) -> bool {
    let side = if f.table_of() == tables[0] {
        pairing.0
    } else {
        pairing.1
    };
    match side {
        Some(r) => f.holds(r),
        None => f.matches_all(),
    }
}

/// Whether a pairing satisfies the predicates of a query: all of them under
/// `And`, one of them under `Or`, and any pairing where there is none.
pub open spec fn pairing_satisfies(
    filters: Seq<Filter>,
    assoc: Associativity,
    tables: [Table; 2],
    pairing: Pairing,
) -> bool {
    filters.len() == 0 || match assoc {
        Associativity::And => forall|i: int|
            0 <= i < filters.len() ==> holds_for(#[trigger] filters[i], tables, pairing),
        Associativity::Or => exists|i: int|
            0 <= i < filters.len() && holds_for(#[trigger] filters[i], tables, pairing),
    }
}

/// The pairings that a query keeps, as a predicate on pairings.
pub open spec fn kept(filters: Seq<Filter>, assoc: Associativity, tables: [Table; 2]) -> spec_fn(
    Pairing,
) -> bool {
    |p: Pairing| pairing_satisfies(filters, assoc, tables, p)
}

/// How a pairing is written out.
pub open spec fn written(tables: [Table; 2]) -> spec_fn(Pairing) -> LooseRow {
    |p: Pairing| joined_row(tables, p)
}

/// One record of the first table with each record of the second.
pub open spec fn beside(a: ReceiverTypeView, right: Seq<ReceiverTypeView>) -> Seq<Pairing> {
    right.map_values(|b: ReceiverTypeView| (Some(a), Some(b)))
}

/// Every record of the first table with every record of the second: the
/// first record with each of the second table in turn, then the next.
pub open spec fn cross(left: Seq<ReceiverTypeView>, right: Seq<ReceiverTypeView>) -> Seq<Pairing>
    decreases left.len(),
{
    if left.len() == 0 {
        Seq::empty()
    } else {
        cross(left.drop_last(), right) + beside(left.last(), right)
    }
}

/// The records of the first table, each with none of the second.
pub open spec fn left_alone(left: Seq<ReceiverTypeView>) -> Seq<Pairing> {
    left.map_values(|a: ReceiverTypeView| (Some(a), None::<ReceiverTypeView>))
}

/// The records of the second table, each with none of the first.
pub open spec fn right_alone(right: Seq<ReceiverTypeView>) -> Seq<Pairing> {
    right.map_values(|b: ReceiverTypeView| (None::<ReceiverTypeView>, Some(b)))
}

/// The pairings of a join that names no columns to join on: every record of
/// the one table with every record of the other. Where the second table is
/// empty, a left or full join keeps the records of the first, each alone;
/// where the first is empty, a right or full join keeps those of the second.
pub open spec fn pairings(
    left: Seq<ReceiverTypeView>,
    right: Seq<ReceiverTypeView>,
    join: Join,
) -> Seq<Pairing> {
    if right.len() == 0 && (join == Join::Left || join == Join::Full) {
        left_alone(left)
    } else if left.len() == 0 && (join == Join::Right || join == Join::Full) {
        right_alone(right)
    } else {
        cross(left, right)
    }
}

/// The pairings that a query keeps, written out.
pub open spec fn picked(
    all: Seq<Pairing>,
    filters: Seq<Filter>,
    assoc: Associativity,
    tables: [Table; 2],
) -> Seq<LooseRow> {
    all.filter(kept(filters, assoc, tables)).map_values(written(tables))
}

impl Database {
    /// The rows of two joined tables that satisfy a query's predicates.
    pub open spec fn join_select(
        self,
        tables: [Table; 2],
        filters: Seq<Filter>,
        assoc: Associativity,
        join: Join,
    ) -> Seq<LooseRow> {
        picked(
            pairings(self.records(tables[0]), self.records(tables[1]), join),
            filters,
            assoc,
            tables,
        )
    }
}

/// What is picked of a list with one more pairing.
pub proof fn lemma_picked_push(
    all: Seq<Pairing>,
    p: Pairing,
    filters: Seq<Filter>,
    assoc: Associativity,
    tables: [Table; 2],
)
    ensures
        picked(all.push(p), filters, assoc, tables) == if pairing_satisfies(
            filters,
            assoc,
            tables,
            p,
        ) {
            picked(all, filters, assoc, tables).push(joined_row(tables, p))
        } else {
            picked(all, filters, assoc, tables)
        },
{
    all.lemma_filter_push(p, kept(filters, assoc, tables));
    let chosen = all.filter(kept(filters, assoc, tables));
    if pairing_satisfies(filters, assoc, tables, p) {
        assert(chosen.push(p).map_values(written(tables)) =~= chosen.map_values(
            written(tables),
        ).push(joined_row(tables, p)));
    }
}

/// Nothing is picked of nothing.
pub proof fn lemma_picked_empty(filters: Seq<Filter>, assoc: Associativity, tables: [Table; 2])
    ensures
        picked(Seq::empty(), filters, assoc, tables) == Seq::<LooseRow>::empty(),
{
    reveal(Seq::filter);
    assert(Seq::<Pairing>::empty().filter(kept(filters, assoc, tables)).map_values(
        written(tables),
    ) =~= Seq::<LooseRow>::empty());
}

/// The text of a row as a join hands it out.
pub open spec fn loose_view(row: Seq<(String, String)>) -> LooseRow {
    row.map_values(|pair: (String, String)| (pair.0@, pair.1@))
}

/// The text of the rows that a join hands out.
pub open spec fn loose_rows_view(rows: Seq<Vec<(String, String)>>) -> Seq<LooseRow> {
    rows.map_values(|row: Vec<(String, String)>| loose_view(row@))
}

/// The record of an optional record.
pub open spec fn record_view(record: Option<&ReceiverType>) -> Option<ReceiverTypeView> {
    match record {
        Some(r) => Some(r@),
        None => None,
    }
}

/// The part of a joined row that one table gives.
fn write_side(table: Table, record: Option<&ReceiverType>) -> (r: Vec<(String, String)>)
    ensures
        loose_view(r@) == side_row(table, record_view(record)),
{
    let names = columns(table);
    let values: Vec<SqlValue> = match record {
        Some(r) => r.to_row(),
        None => Vec::new(),
    };
    proof {
        if record is None {
            lemma_views_whole(values@);
            assert(views_of(values@) =~= Seq::<SqlValueView>::empty());
        }
    }
    let r = loose_row(&names, &values);
    assert(loose_view(r@) =~= side_row(table, record_view(record)));
    r
}

/// A joined row.
fn write_pairing(
    tables: &[Table; 2],
    first: Option<&ReceiverType>,
    second: Option<&ReceiverType>,
) -> (r: Vec<(String, String)>)
    ensures
        loose_view(r@) == joined_row(*tables, (record_view(first), record_view(second))),
{
    let mut row = write_side(tables[0], first);
    let mut tail = write_side(tables[1], second);
    let ghost head = row@;
    let ghost rest = tail@;
    row.append(&mut tail);
    assert(loose_view(row@) =~= loose_view(head) + loose_view(rest));
    row
}

/// Whether a pairing satisfies one predicate.
fn filter_holds_for(
    f: &Filter,
    tables: &[Table; 2],
    first: Option<&ReceiverType>,
    second: Option<&ReceiverType>,
) -> (b: bool)
    ensures
        b == holds_for(*f, *tables, (record_view(first), record_view(second))),
{
    let side = if f.table() == tables[0] {
        first
    } else {
        second
    };
    match side {
        Some(r) => f.matches(r),
        None => f.is_all(),
    }
}

/// Whether a pairing satisfies the predicates of a query.
fn pairing_satisfied(
    filters: &Vec<Filter>,
    assoc: Associativity,
    tables: &[Table; 2],
    first: Option<&ReceiverType>,
    second: Option<&ReceiverType>,
) -> (b: bool)
    ensures
        b == pairing_satisfies(
            filters@,
            assoc,
            *tables,
            (record_view(first), record_view(second)),
        ),
{
    if filters.len() == 0 {
        return true;
    }
    let ghost pairing = (record_view(first), record_view(second));
    let mut i: usize = 0;
    match assoc {
        Associativity::And => {
            while i < filters.len()
                invariant
                    i <= filters.len(),
                    filters.len() > 0,
                    assoc == Associativity::And,
                    pairing == (record_view(first), record_view(second)),
                    forall|j: int|
                        0 <= j < i ==> holds_for(#[trigger] filters@[j], *tables, pairing),
                decreases filters.len() - i,
            {
                if !filter_holds_for(&filters[i], tables, first, second) {
                    return false;
                }
                i += 1;
            }
            true
        },
        Associativity::Or => {
            while i < filters.len()
                invariant
                    i <= filters.len(),
                    filters.len() > 0,
                    assoc == Associativity::Or,
                    pairing == (record_view(first), record_view(second)),
                    forall|j: int|
                        0 <= j < i ==> !holds_for(#[trigger] filters@[j], *tables, pairing),
                decreases filters.len() - i,
            {
                if filter_holds_for(&filters[i], tables, first, second) {
                    return true;
                }
                i += 1;
            }
            false
        },
    }
}

/// Writes a pairing out at the end of the rows where the query keeps it.
fn pick(
    out: &mut Vec<Vec<(String, String)>>,
    Ghost(all): Ghost<Seq<Pairing>>,
    filters: &Vec<Filter>,
    assoc: Associativity,
    tables: &[Table; 2],
    first: Option<&ReceiverType>,
    second: Option<&ReceiverType>,
)
    requires
        loose_rows_view(old(out)@) == picked(all, filters@, assoc, *tables),
    ensures
        loose_rows_view(final(out)@) == picked(
            all.push((record_view(first), record_view(second))),
            filters@,
            assoc,
            *tables,
        ),
{
    proof {
        lemma_picked_push(
            all,
            (record_view(first), record_view(second)),
            filters@,
            assoc,
            *tables,
        );
    }
    if pairing_satisfied(filters, assoc, tables, first, second) {
        let row = write_pairing(tables, first, second);
        let ghost before = out@;
        out.push(row);
        assert(loose_rows_view(out@) =~= loose_rows_view(before).push(loose_view(row@)));
    }
}

impl DbDriver {
    /// The rows of two joined tables that satisfy the predicates, each as
    /// the names of its columns with the text of its values: an integer in
    /// decimal, a real as a decimal fraction, a flag as 1 or 0, and `NULL`
    /// where an outer join has no record. The join names no columns to join
    /// on, so every record of the one table meets every record of the
    /// other; the predicates choose among the pairings. They combine under
    /// `assoc`, or under `And` where none is given.
    ///
    /// A predicate on a third entity kind refuses the query with
    /// `InvalidFilter`, one on a column that its table does not have with
    /// `StorageFailure`, which names the table of the first such predicate.
    pub fn join_find(
        &self,
        tables: &[Table; 2],
        filters: Vec<Filter>,
        join: Join,
        assoc: Option<Associativity>,
    ) -> (r: Result<Vec<Vec<(String, String)>>, ErrorKind>)
        ensures
            match r {
                Ok(rows) => {
                    &&& filters_fit_either(*tables, filters@)
                    &&& columns_exist(filters@)
                    &&& loose_rows_view(rows@) == self@.join_select(
                        *tables,
                        filters@,
                        associativity_or_default(assoc),
                        join,
                    )
                },
                Err(e) => if filters_fit_either(*tables, filters@) {
                    exists|at: int|
                        first_without_column(filters@, at) && e == unreadable(
                            (#[trigger] filters@[at]).table_of(),
                        )
                } else {
                    e == ErrorKind::InvalidFilter
                },
            },
    {
        let connective = match assoc {
            Some(a) => a,
            None => Associativity::And,
        };
        if !fit_either(tables, &filters) {
            return Err(ErrorKind::InvalidFilter);
        }
        match table_without_column(&filters) {
            Some(table) => {
                return Err(ErrorKind::StorageFailure { table, operation: Operation::Read });
            },
            None => {},
        }
        let left = self.records(tables[0]);
        let right = self.records(tables[1]);
        let mut out: Vec<Vec<(String, String)>> = Vec::new();
        proof {
            lemma_picked_empty(filters@, connective, *tables);
            assert(loose_rows_view(out@) =~= Seq::<LooseRow>::empty());
            lemma_views_whole(left@);
            lemma_views_whole(right@);
            assert(views_of(left@).len() == left@.len());
            assert(views_of(right@).len() == right@.len());
        }
        if right.len() == 0 && (join == Join::Left || join == Join::Full) {
            let mut i: usize = 0;
            assert(left_alone(views_of(left@.take(0))) =~= Seq::<Pairing>::empty());
            while i < left.len()
                invariant
                    i <= left.len(),
                    loose_rows_view(out@) == picked(
                        left_alone(views_of(left@.take(i as int))),
                        filters@,
                        connective,
                        *tables,
                    ),
                    views_of(left@.take(left.len() as int)) == views_of(left@),
                decreases left.len() - i,
            {
                proof {
                    lemma_views_step(left@, i as int);
                    assert(left_alone(views_of(left@.take(i + 1))) =~= left_alone(
                        views_of(left@.take(i as int)),
                    ).push((Some(left@[i as int]@), None::<ReceiverTypeView>)));
                }
                pick(
                    &mut out,
                    Ghost(left_alone(views_of(left@.take(i as int)))),
                    &filters,
                    connective,
                    tables,
                    Some(&left[i]),
                    None,
                );
                i += 1;
            }
        } else if left.len() == 0 && (join == Join::Right || join == Join::Full) {
            let mut j: usize = 0;
            assert(right_alone(views_of(right@.take(0))) =~= Seq::<Pairing>::empty());
            while j < right.len()
                invariant
                    j <= right.len(),
                    loose_rows_view(out@) == picked(
                        right_alone(views_of(right@.take(j as int))),
                        filters@,
                        connective,
                        *tables,
                    ),
                    views_of(right@.take(right.len() as int)) == views_of(right@),
                decreases right.len() - j,
            {
                proof {
                    lemma_views_step(right@, j as int);
                    assert(right_alone(views_of(right@.take(j + 1))) =~= right_alone(
                        views_of(right@.take(j as int)),
                    ).push((None::<ReceiverTypeView>, Some(right@[j as int]@))));
                }
                pick(
                    &mut out,
                    Ghost(right_alone(views_of(right@.take(j as int)))),
                    &filters,
                    connective,
                    tables,
                    None,
                    Some(&right[j]),
                );
                j += 1;
            }
        } else {
            let mut i: usize = 0;
            while i < left.len()
                invariant
                    i <= left.len(),
                    loose_rows_view(out@) == picked(
                        cross(views_of(left@.take(i as int)), views_of(right@)),
                        filters@,
                        connective,
                        *tables,
                    ),
                    views_of(left@.take(left.len() as int)) == views_of(left@),
                    views_of(right@.take(right.len() as int)) == views_of(right@),
                decreases left.len() - i,
            {
                let ghost done = cross(views_of(left@.take(i as int)), views_of(right@));
                let ghost a = left@[i as int]@;
                let mut j: usize = 0;
                proof {
                    lemma_views_step(left@, i as int);
                    assert(beside(a, views_of(right@.take(0))) =~= Seq::<Pairing>::empty());
                    assert(done + Seq::<Pairing>::empty() =~= done);
                }
                while j < right.len()
                    invariant
                        j <= right.len(),
                        i < left.len(),
                        a == left@[i as int]@,
                        loose_rows_view(out@) == picked(
                            done + beside(a, views_of(right@.take(j as int))),
                            filters@,
                            connective,
                            *tables,
                        ),
                        views_of(right@.take(right.len() as int)) == views_of(right@),
                    decreases right.len() - j,
                {
                    proof {
                        lemma_views_step(right@, j as int);
                        assert(done + beside(a, views_of(right@.take(j + 1))) =~= (done + beside(
                            a,
                            views_of(right@.take(j as int)),
                        )).push((Some(a), Some(right@[j as int]@))));
                    }
                    pick(
                        &mut out,
                        Ghost(done + beside(a, views_of(right@.take(j as int)))),
                        &filters,
                        connective,
                        tables,
                        Some(&left[i]),
                        Some(&right[j]),
                    );
                    j += 1;
                }
                i += 1;
            }
        }
        Ok(out)
    }
}

} // verus!
