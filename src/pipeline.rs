//! One row of a geocoding run from its reply, and the shape of a whole run.
use vstd::prelude::*;
use crate::columns::Columns;
use crate::reply::{or_empty, reply_coordinates, reply_field, Coordinates};
use crate::row::{fill_coordinates, filled_row, row_fields};

verus! {

/// The output row for an input row and the reply text the service sent
/// for it.
pub open spec fn row_for_reply(record: Seq<Seq<char>>, columns: Columns, reply: Seq<char>) -> Seq<
    Seq<char>,
> {
    filled_row(
        record,
        columns,
        or_empty(reply_field(reply, "lat"@)),
        or_empty(reply_field(reply, "lon"@)),
    )
}

/// The output rows of a run: one for each input row, in order, from the
/// reply to that row's request.
pub open spec fn output_rows(
    rows: Seq<Seq<Seq<char>>>,
    columns: Columns,
    replies: Seq<Seq<char>>,
) -> Seq<Seq<Seq<char>>> {
    Seq::new(rows.len(), |i: int| row_for_reply(rows[i], columns, replies[i]))
}

/// The output row for an input row and its reply, with the coordinates
/// read from the reply.
pub fn geocoded_row(record: &Vec<String>, columns: &Columns, reply: &str) -> (r: (
    Vec<String>,
    Coordinates,
))
    ensures
        r.0@.len() == record@.len(),
        row_fields(r.0@) == row_for_reply(row_fields(record@), *columns, reply@),
        r.1.lat@ == or_empty(reply_field(reply@, "lat"@)),
        r.1.lng@ == or_empty(reply_field(reply@, "lon"@)),
{
    let coords = reply_coordinates(reply);
    let out = fill_coordinates(record, columns, &coords.lat, &coords.lng);
    (out, coords)
}

/// A run has as many output rows as input rows; each output row has as many
/// fields as its input row, and outside the latitude and longitude columns
/// the same fields.
pub proof fn lemma_output_rows_shape(
    rows: Seq<Seq<Seq<char>>>,
    columns: Columns,
    replies: Seq<Seq<char>>,
)
    requires
        replies.len() == rows.len(),
    ensures
        output_rows(rows, columns, replies).len() == rows.len(),
        forall|i: int|
            0 <= i < rows.len() ==> (#[trigger] output_rows(rows, columns, replies)[i]).len()
                == rows[i].len(),
        forall|i: int, f: int|
            0 <= i < rows.len() && 0 <= f < rows[i].len() && f != columns.lat && f != columns.lng
                ==> #[trigger] output_rows(rows, columns, replies)[i][f] == rows[i][f],
{
}

} // verus!
