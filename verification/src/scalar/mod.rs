//! Scalar functions: the AS-path helpers, the community decoders and the version.
//!
//! Each takes the columns of a batch and gives a batch of one column with as many rows.
use crate::arrow_io::plain_field;
use crate::columns::all_known;
use crate::columns::batch_cells;
use crate::columns::batch_fits;
use crate::columns::batch_len;
use crate::columns::cell_count;
use crate::columns::cells_type;
use crate::columns::column_cells;
use crate::columns::columns_cells;
use crate::columns::is_known;
use crate::columns::new_batch;
use crate::columns::schema_view;
use crate::columns::Batch;
use crate::columns::Cells;
use crate::columns::Column;
use crate::columns::FieldView;
use crate::error::Blame;
use crate::error::Error;
use arrow_schema::Schema;
use std::sync::Arc;
use vstd::prelude::*;

pub mod community;
pub mod path;
pub mod version;

verus! {

/// Whether `out` is the batch of one `result` column, or, where that does not fit the
/// output schema, an error of the worker.
pub open spec fn is_result(
    out: Result<Batch, Error>,
    schema: Seq<FieldView>,
    result: Cells,
) -> bool {
    &&& out is Ok <==> batch_fits(schema, seq![result])
    &&& out is Ok ==> batch_cells(out->Ok_0) == seq![result] && batch_len(out->Ok_0) == cell_count(
        result,
    )
    &&& out is Err ==> out->Err_0.blame == Blame::Runtime
}

/// The batch of one column.
pub(crate) fn finish(schema: &Arc<Schema>, column: Column) -> (out: Result<Batch, Error>)
    requires
        is_known(cells_type(column_cells(column))),
    ensures
        is_result(out, schema_view(**schema), column_cells(column)),
{
    let mut columns: Vec<Column> = Vec::new();
    columns.push(column);
    assert(columns_cells(columns@) == seq![column_cells(column)]);
    assert(all_known(columns_cells(columns@)));
    match new_batch(schema, columns) {
        Ok(batch) => Ok(batch),
        Err(message) => Err(Error::runtime_error(message)),
    }
}

/// The output schema that a scalar of a type is bound with takes every result of that
/// type.
pub proof fn bound_results_fit(result: Cells)
    ensures
        batch_fits(seq![plain_field("result"@, cells_type(result), true)], seq![result]),
{
}

} // verus!
