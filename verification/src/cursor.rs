//! Reading the rows of a query from its cursor.
//!
//! What a cursor hands out is the store's answer and not known beforehand.
//! What is read from it is: the rows that it hands out, in its order, and of
//! each row the values of its first columns.

use vstd::prelude::*;
use rusqlite::{Row, Rows};
use crate::session::{Failure, Stage};
use crate::sql::{
    column, error_text, handed_out, has_value, next_row, row_values, SqlValue, SqlValueView,
};

verus! {

/// Of each of `rows` the first `columns` values.
pub open spec fn first_columns(rows: Seq<Seq<SqlValueView>>, columns: int) -> Seq<
    Seq<SqlValueView>,
> {
    Seq::new(rows.len(), |i: int| rows[i].take(columns))
}

/// `later` is `earlier` with further rows behind it.
pub open spec fn went_on(earlier: Seq<Seq<SqlValueView>>, later: Seq<Seq<SqlValueView>>) -> bool {
    earlier.len() <= later.len() && later.take(earlier.len() as int) == earlier
}

/// The first `columns` values of `values` are there and can all be read.
pub open spec fn readable(values: Seq<SqlValueView>, columns: int) -> bool {
    forall|i: int| 0 <= i < columns ==> #[trigger] has_value(values, i)
}

/// Reads the first `columns` values of `row`. It gives them exactly where
/// the row has that many columns and none of them holds an unreadable text;
/// a row of which that does not hold is a failure of the stage `Column`.
pub fn read_row(row: &Row<'_>, columns: usize) -> (outcome: Result<Vec<SqlValue>, Failure>)
    ensures
        outcome is Ok <==> readable(row_values(*row), columns as int),
        match outcome {
            Ok(values) => {
                &&& values.len() == columns
                &&& values.deep_view() == row_values(*row).take(columns as int)
            },
            Err(failure) => failure.stage == Stage::Column,
        },
{
    let mut values: Vec<SqlValue> = Vec::new();
    let mut index: usize = 0;
    while index < columns
        invariant
            index <= columns,
            values.len() == index,
            readable(row_values(*row), index as int),
            values.deep_view() == row_values(*row).take(index as int),
        decreases columns - index,
    {
        match column(row, index) {
            Err(e) => {
                return Err(Failure { stage: Stage::Column, detail: error_text(&e) });
            },
            Ok(value) => {
                let ghost before = values.deep_view();
                values.push(value);
                assert(values.deep_view() =~= before.push(value.deep_view()));
                assert(row_values(*row).take(index + 1) =~= row_values(*row).take(
                    index as int,
                ).push(row_values(*row)[index as int]));
            },
        }
        index += 1;
    }
    Ok(values)
}

/// All of `rows` can be read in their first `columns` values.
pub open spec fn all_readable(rows: Seq<Seq<SqlValueView>>, columns: int) -> bool {
    forall|i: int| 0 <= i < rows.len() ==> readable(#[trigger] rows[i], columns)
}

/// Reads rows from the cursor `rows` until it has no further row or
/// `max_rows` rows are read, and of each row its first `columns` values.
///
/// Where it ends well, what is returned are the rows that the cursor has
/// handed out in this call, in its order, each cut to its first `columns`
/// values. It ends well without a step where `max_rows` is 0. A step that
/// the store refuses is a failure of the stage `Step`: the rows handed out
/// before it could all be read. A row that cannot be read is a failure of
/// the stage `Column`: it is the last row that the cursor has handed out.
pub fn read_rows(rows: &mut Rows<'_>, columns: usize, max_rows: usize) -> (outcome: Result<
    Vec<Vec<SqlValue>>,
    Failure,
>)
    ensures
        went_on(handed_out(*old(rows)), handed_out(*final(rows))),
        max_rows == 0 ==> outcome is Ok && handed_out(*final(rows)) == handed_out(*old(rows)),
        ({
            let new = handed_out(*final(rows)).skip(handed_out(*old(rows)).len() as int);
            match outcome {
                Ok(found) => {
                    &&& found.len() <= max_rows
                    &&& found.deep_view() == first_columns(new, columns as int)
                    &&& forall|i: int|
                        0 <= i < found.len() ==> (#[trigger] found[i]).len() == columns
                    &&& all_readable(new, columns as int)
                },
                Err(failure) => if failure.stage == Stage::Column {
                    &&& 0 < new.len() <= max_rows
                    &&& all_readable(new.drop_last(), columns as int)
                    &&& !readable(new.last(), columns as int)
                } else {
                    &&& failure.stage == Stage::Step
                    &&& new.len() < max_rows
                    &&& all_readable(new, columns as int)
                },
            }
        }),
{
    let ghost start = handed_out(*rows);
    let mut found: Vec<Vec<SqlValue>> = Vec::new();
    proof {
        assert(start.take(start.len() as int) =~= start);
        assert(start.skip(start.len() as int) =~= Seq::<Seq<SqlValueView>>::empty());
        assert(found.deep_view() =~= first_columns(start.skip(start.len() as int), columns as int));
    }
    while found.len() < max_rows
        invariant
            found.len() <= max_rows,
            start == handed_out(*old(rows)),
            went_on(start, handed_out(*rows)),
            handed_out(*rows).len() == start.len() + found.len(),
            found.deep_view() == first_columns(
                handed_out(*rows).skip(start.len() as int),
                columns as int,
            ),
            forall|i: int| 0 <= i < found.len() ==> (#[trigger] found[i]).len() == columns,
            all_readable(handed_out(*rows).skip(start.len() as int), columns as int),
        decreases max_rows - found.len(),
    {
        let ghost earlier = handed_out(*rows);
        let ghost read = found.deep_view();
        let ghost held: Seq<SqlValueView>;
        let values = match next_row(rows) {
            Err(e) => {
                return Err(Failure { stage: Stage::Step, detail: error_text(&e) });
            },
            Ok(None) => {
                break ;
            },
            Ok(Some(row)) => {
                proof {
                    held = row_values(*row);
                }
                match read_row(row, columns) {
                    Err(failure) => {
                        proof {
                            let later = earlier.push(held);
                            let new = later.skip(start.len() as int);
                            assert(later.take(start.len() as int) =~= earlier.take(
                                start.len() as int,
                            ));
                            assert(new =~= earlier.skip(start.len() as int).push(held));
                            assert(new.drop_last() =~= earlier.skip(start.len() as int));
                            assert(new.last() == held);
                        }
                        return Err(failure);
                    },
                    Ok(values) => values,
                }
            },
        };
        proof {
            let later = handed_out(*rows);
            assert(later == earlier.push(held));
            assert(later.take(start.len() as int) =~= earlier.take(start.len() as int));
            assert(later.skip(start.len() as int) =~= earlier.skip(start.len() as int).push(held));
        }
        found.push(values);
        proof {
            assert(found.deep_view() =~= read.push(held.take(columns as int)));
            assert(found.deep_view() =~= first_columns(
                handed_out(*rows).skip(start.len() as int),
                columns as int,
            ));
        }
    }
    Ok(found)
}

} // verus!
