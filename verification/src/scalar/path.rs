//! AS-path helper scalars: `path_length`, `origin_asn`, `as_path_prepends`,
//! `path_contains`. Each takes the `as_path` column; the logic lives in [`crate::aspath`].
//!
//! The columns are `BIGINT`s, so they may hold numbers that are no ASN. Where hops are
//! compared, such a number is a hop like any other, and none that a 32-bit ASN is equal to;
//! as an origin AS, which is a `UINTEGER`, it wraps.
use crate::arrow_io::integer_at;
use crate::arrow_io::integer_cell;
use crate::arrow_io::list_cell;
use crate::arrow_io::list_ints_at;
use crate::arrow_io::list_of;
use crate::arrow_io::list_u32_at;
use crate::arrow_io::list_u32_cell;
use crate::aspath::count_prepends;
use crate::aspath::is_on_path;
use crate::aspath::origin_asn;
use crate::aspath::path_length;
use crate::aspath::prepend_count;
use crate::columns::batch_cells;
use crate::columns::batch_len;
use crate::columns::bool_column;
use crate::columns::cell_count;
use crate::columns::column_at;
use crate::columns::column_cells;
use crate::columns::flat_type;
use crate::columns::i64_column;
use crate::columns::list_type;
use crate::columns::row_count;
use crate::columns::schema_view;
use crate::columns::type_view;
use crate::columns::u32_column;
use crate::columns::Batch;
use crate::columns::Cells;
use crate::columns::FlatType;
use crate::columns::TypeView;
use crate::error::Error;
use crate::meta::object_tags;
use crate::meta::one_example;
use crate::meta::standard_tags;
use crate::meta::FunctionMetadata;
use crate::meta::MetadataView;
use crate::options::arg_views;
use crate::options::column_view;
use crate::options::ArgSpec;
use crate::options::ArgView;
use crate::scalar::finish;
use crate::scalar::is_result;
use arrow_schema::DataType;
use arrow_schema::Schema;
use std::sync::Arc;
use vstd::prelude::*;

verus! {

/// What the `as_path` argument is.
pub const AS_PATH_DOC: &'static str = "The AS path, in path order — the origin AS that announced \
     the prefix is last. This is the `as_path` column emitted by read_rib / read_updates.";

/// What the `asn` argument is.
pub const ASN_DOC: &'static str = "The autonomous-system number to look for anywhere along the \
     path.";

/// The `as_path` argument is declared `BIGINT[]` (not `UINTEGER[]`) so both an integer-list
/// literal (`[7018, 174, 13335]`, which DuckDB types `INTEGER[]`) and the `UINTEGER[]`
/// `as_path` column from read_rib / read_updates bind by a safe widening cast — declaring
/// `UINTEGER[]` would reject the literal form.
pub open spec fn as_path_arg() -> ArgView {
    column_view("as_path"@, 0, list_of(TypeView::Int64), AS_PATH_DOC@)
}

fn as_path_spec() -> (spec: ArgSpec)
    ensures
        spec@ == as_path_arg(),
{
    ArgSpec::column_typed("as_path", 0, list_type(flat_type(FlatType::Int64)), AS_PATH_DOC)
}

fn as_path_only() -> (specs: Vec<ArgSpec>)
    ensures
        arg_views(specs@) == seq![as_path_arg()],
{
    let mut specs: Vec<ArgSpec> = Vec::new();
    specs.push(as_path_spec());
    assert(arg_views(specs@) == seq![as_path_arg()]);
    specs
}

/// A row's number of AS hops; null for a null path.
pub open spec fn hops_cell(columns: Seq<Cells>, i: int) -> Option<i64> {
    match list_u32_cell(columns[0], i) {
        Some(path) => Some(path.len() as i64),
        None => None,
    }
}

/// A row's origin AS; null for a null or empty path.
pub open spec fn origin_cell(columns: Seq<Cells>, i: int) -> Option<u32> {
    match list_u32_cell(columns[0], i) {
        Some(path) => if path.len() == 0 {
            None
        } else {
            Some(path.last())
        },
        None => None,
    }
}

/// A row's number of prepends; null for a null path.
pub open spec fn prepends_cell(columns: Seq<Cells>, i: int) -> Option<i64> {
    match list_cell(columns[0], i) {
        Some(path) => Some(prepend_count(path) as i64),
        None => None,
    }
}

/// Whether a row's path holds the row's ASN; null if either is null.
pub open spec fn contains_cell(columns: Seq<Cells>, i: int) -> Option<bool> {
    match (list_cell(columns[0], i), integer_cell(columns[1], i)) {
        (Some(path), Some(asn)) => Some(path.contains(asn)),
        _ => None,
    }
}

/// What [`PathLength`] computes, in short.
pub const PATH_LENGTH_ABOUT: &'static str = "Number of AS hops in an AS path";

/// An example query with [`PathLength`].
pub const PATH_LENGTH_SQL: &'static str = "SELECT bgp.main.path_length([7018, 174, 13335]);";

/// What the example query with [`PathLength`] shows.
pub const PATH_LENGTH_SQL_ABOUT: &'static str = "Count the AS hops in a path (here 3).";

/// The display name of [`PathLength`].
pub const PATH_LENGTH_TITLE: &'static str = "AS Path Length";

/// [`PathLength`] for language models.
pub const PATH_LENGTH_LLM: &'static str = "\
     Return the number of AS hops in an AS path (its length) — the LIST(UINTEGER) `as_path` \
     column from read_rib / read_updates. An empty path is 0; NULL input is NULL. Use it to \
     rank routes for leak/hijack triage (a suspiciously long or short path).";

/// [`PathLength`] in Markdown.
pub const PATH_LENGTH_MD: &'static str = "\
     Number of AS hops in an AS path, e.g. `path_length([7018,174,13335])` = 3.";

/// The search terms of [`PathLength`].
pub const PATH_LENGTH_KEYWORDS: &'static str = "\
     path length, as path length, hops, route length, as_path, leak, hijack";

/// What [`OriginAsn`] computes, in short.
pub const ORIGIN_ASN_ABOUT: &'static str = "The origin AS (last AS) of an AS path";

/// An example query with [`OriginAsn`].
pub const ORIGIN_ASN_SQL: &'static str = "SELECT bgp.main.origin_asn([7018, 174, 13335]);";

/// What the example query with [`OriginAsn`] shows.
pub const ORIGIN_ASN_SQL_ABOUT: &'static str = "\
     Get the origin AS that announced the prefix (here 13335).";

/// The display name of [`OriginAsn`].
pub const ORIGIN_ASN_TITLE: &'static str = "AS Path Origin";

/// [`OriginAsn`] for language models.
pub const ORIGIN_ASN_LLM: &'static str = "\
     Return the origin AS of an AS path — the last (right-most) ASN, which announced the \
     prefix. NULL for an empty or NULL path. Join the result against an RPKI/VRP table to \
     validate route origins (route-origin validation lives in vgi-netflow, not here).";

/// [`OriginAsn`] in Markdown.
pub const ORIGIN_ASN_MD: &'static str = "\
     Origin AS of an AS path, e.g. `origin_asn([7018,174,13335])` = 13335.";

/// The search terms of [`OriginAsn`].
pub const ORIGIN_ASN_KEYWORDS: &'static str = "\
     origin asn, origin as, route origin, last as, as_path, RPKI, hijack";

/// What [`AsPathPrepends`] computes, in short.
pub const AS_PATH_PREPENDS_ABOUT: &'static str = "\
     Number of AS-path prepends (padded repeated ASNs)";

/// An example query with [`AsPathPrepends`].
pub const AS_PATH_PREPENDS_SQL: &'static str = "\
     SELECT bgp.main.as_path_prepends([7018, 174, 174, 13335]);";

/// What the example query with [`AsPathPrepends`] shows.
pub const AS_PATH_PREPENDS_SQL_ABOUT: &'static str = "\
     Count the prepended (padded) ASNs in a path (here 1).";

/// The display name of [`AsPathPrepends`].
pub const AS_PATH_PREPENDS_TITLE: &'static str = "AS-Path Prepend Count";

/// [`AsPathPrepends`] for language models.
pub const AS_PATH_PREPENDS_LLM: &'static str = "\
     Return the number of AS-path prepends: extra occurrences of an ASN that immediately \
     repeats its predecessor, i.e. an AS padding its own number to deprioritize a route. \
     `[1,1,1,2]` has two prepends, `[1,2,3]` has none. NULL input is NULL.";

/// [`AsPathPrepends`] in Markdown.
pub const AS_PATH_PREPENDS_MD: &'static str = "\
     Count of AS-path prepends, e.g. `as_path_prepends([1,1,1,2])` = 2.";

/// The search terms of [`AsPathPrepends`].
pub const AS_PATH_PREPENDS_KEYWORDS: &'static str = "\
     as path prepends, prepending, padding, traffic engineering, as_path";

/// What [`PathContains`] computes, in short.
pub const PATH_CONTAINS_ABOUT: &'static str = "Whether an AS path traverses a given ASN";

/// An example query with [`PathContains`].
pub const PATH_CONTAINS_SQL: &'static str = "\
     SELECT bgp.main.path_contains([7018, 174, 13335], 174);";

/// What the example query with [`PathContains`] shows.
pub const PATH_CONTAINS_SQL_ABOUT: &'static str = "\
     Test whether a path traverses AS 174 (here true).";

/// The display name of [`PathContains`].
pub const PATH_CONTAINS_TITLE: &'static str = "AS Path Contains ASN";

/// [`PathContains`] for language models.
pub const PATH_CONTAINS_LLM: &'static str = "\
     Return whether an AS path traverses a given ASN anywhere along it. NULL if the path is \
     NULL. Use it to find every route that passes through a suspect transit AS (leak \
     detection).";

/// [`PathContains`] in Markdown.
pub const PATH_CONTAINS_MD: &'static str = "\
     Whether an AS path contains an ASN, e.g. `path_contains([7018,174,13335], 174)` = true.";

/// The search terms of [`PathContains`].
pub const PATH_CONTAINS_KEYWORDS: &'static str = "\
     path contains, traverses, transit as, through asn, as_path, leak detection";

/// `path_length(as_path) -> BIGINT` — the number of AS hops.
pub struct PathLength;

impl PathLength {
    /// The SQL name.
    pub fn name(&self) -> (name: &'static str)
        ensures
            name@ == "path_length"@,
    {
        "path_length"
    }

    /// What the function tells of itself.
    pub fn metadata(&self) -> (m: FunctionMetadata)
        ensures
            m@ == (MetadataView {
                description: PATH_LENGTH_ABOUT@,
                return_type: Some(TypeView::Int64),
                examples: seq![(PATH_LENGTH_SQL@, PATH_LENGTH_SQL_ABOUT@)],
                tags: standard_tags(
                    PATH_LENGTH_TITLE@,
                    PATH_LENGTH_LLM@,
                    PATH_LENGTH_MD@,
                    PATH_LENGTH_KEYWORDS@,
                ),
            }),
    {
        let tags = object_tags(
            PATH_LENGTH_TITLE,
            PATH_LENGTH_LLM,
            PATH_LENGTH_MD,
            PATH_LENGTH_KEYWORDS,
        );
        FunctionMetadata {
            description: PATH_LENGTH_ABOUT.to_string(),
            return_type: Some(self.on_bind()),
            examples: one_example(PATH_LENGTH_SQL.to_string(), PATH_LENGTH_SQL_ABOUT),
            tags,
        }
    }

    /// The type of the result.
    pub fn on_bind(&self) -> (ty: DataType)
        ensures
            type_view(ty) == TypeView::Int64,
    {
        flat_type(FlatType::Int64)
    }

    /// What the function takes.
    pub fn argument_specs(&self) -> (specs: Vec<ArgSpec>)
        ensures
            arg_views(specs@) == seq![as_path_arg()],
    {
        as_path_only()
    }

    /// Compute the result column, row by row.
    pub fn process(&self, schema: &Arc<Schema>, batch: &Batch) -> (out: Result<Batch, Error>)
        requires
            batch_cells(*batch).len() >= 1,
        ensures
            is_result(
                out,
                schema_view(**schema),
                Cells::Int64(
                    Seq::new(batch_len(*batch), |i: int| hops_cell(batch_cells(*batch), i)),
                ),
            ),
    {
        let n: usize = row_count(batch);
        let ghost cells = batch_cells(*batch);
        let column0 = column_at(batch, 0);
        let mut values: Vec<Option<i64>> = Vec::new();
        for i in 0..n
            invariant
                cells == batch_cells(*batch),
                cells.len() >= 1,
                n == batch_len(*batch),
                column_cells(column0) == cells[0],
                cell_count(cells[0]) == n,
                values@.len() == i,
                forall|k: int| 0 <= k < i ==> #[trigger] values@[k] == hops_cell(cells, k),
        {
            let value = match list_u32_at(&column0, i) {
                Some(path) => Some(path_length(path.as_slice())),
                None => None,
            };
            values.push(value);
        }
        assert(values@ == Seq::new(n as nat, |i: int| hops_cell(cells, i)));
        finish(schema, i64_column(values))
    }
}

/// `origin_asn(as_path) -> UINTEGER` — the last (origin) AS in the path.
pub struct OriginAsn;

impl OriginAsn {
    /// The SQL name.
    pub fn name(&self) -> (name: &'static str)
        ensures
            name@ == "origin_asn"@,
    {
        "origin_asn"
    }

    /// What the function tells of itself.
    pub fn metadata(&self) -> (m: FunctionMetadata)
        ensures
            m@ == (MetadataView {
                description: ORIGIN_ASN_ABOUT@,
                return_type: Some(TypeView::UInt32),
                examples: seq![(ORIGIN_ASN_SQL@, ORIGIN_ASN_SQL_ABOUT@)],
                tags: standard_tags(
                    ORIGIN_ASN_TITLE@,
                    ORIGIN_ASN_LLM@,
                    ORIGIN_ASN_MD@,
                    ORIGIN_ASN_KEYWORDS@,
                ),
            }),
    {
        let tags = object_tags(
            ORIGIN_ASN_TITLE,
            ORIGIN_ASN_LLM,
            ORIGIN_ASN_MD,
            ORIGIN_ASN_KEYWORDS,
        );
        FunctionMetadata {
            description: ORIGIN_ASN_ABOUT.to_string(),
            return_type: Some(self.on_bind()),
            examples: one_example(ORIGIN_ASN_SQL.to_string(), ORIGIN_ASN_SQL_ABOUT),
            tags,
        }
    }

    /// The type of the result.
    pub fn on_bind(&self) -> (ty: DataType)
        ensures
            type_view(ty) == TypeView::UInt32,
    {
        flat_type(FlatType::UInt32)
    }

    /// What the function takes.
    pub fn argument_specs(&self) -> (specs: Vec<ArgSpec>)
        ensures
            arg_views(specs@) == seq![as_path_arg()],
    {
        as_path_only()
    }

    /// Compute the result column, row by row.
    pub fn process(&self, schema: &Arc<Schema>, batch: &Batch) -> (out: Result<Batch, Error>)
        requires
            batch_cells(*batch).len() >= 1,
        ensures
            is_result(
                out,
                schema_view(**schema),
                Cells::UInt32(
                    Seq::new(batch_len(*batch), |i: int| origin_cell(batch_cells(*batch), i)),
                ),
            ),
    {
        let n: usize = row_count(batch);
        let ghost cells = batch_cells(*batch);
        let column0 = column_at(batch, 0);
        let mut values: Vec<Option<u32>> = Vec::new();
        for i in 0..n
            invariant
                cells == batch_cells(*batch),
                cells.len() >= 1,
                n == batch_len(*batch),
                column_cells(column0) == cells[0],
                cell_count(cells[0]) == n,
                values@.len() == i,
                forall|k: int| 0 <= k < i ==> #[trigger] values@[k] == origin_cell(cells, k),
        {
            let value = match list_u32_at(&column0, i) {
                Some(path) => origin_asn(path.as_slice()),
                None => None,
            };
            values.push(value);
        }
        assert(values@ == Seq::new(n as nat, |i: int| origin_cell(cells, i)));
        finish(schema, u32_column(values))
    }
}

/// `as_path_prepends(as_path) -> BIGINT` — count of AS-path prepends.
pub struct AsPathPrepends;

impl AsPathPrepends {
    /// The SQL name.
    pub fn name(&self) -> (name: &'static str)
        ensures
            name@ == "as_path_prepends"@,
    {
        "as_path_prepends"
    }

    /// What the function tells of itself.
    pub fn metadata(&self) -> (m: FunctionMetadata)
        ensures
            m@ == (MetadataView {
                description: AS_PATH_PREPENDS_ABOUT@,
                return_type: Some(TypeView::Int64),
                examples: seq![(AS_PATH_PREPENDS_SQL@, AS_PATH_PREPENDS_SQL_ABOUT@)],
                tags: standard_tags(
                    AS_PATH_PREPENDS_TITLE@,
                    AS_PATH_PREPENDS_LLM@,
                    AS_PATH_PREPENDS_MD@,
                    AS_PATH_PREPENDS_KEYWORDS@,
                ),
            }),
    {
        let tags = object_tags(
            AS_PATH_PREPENDS_TITLE,
            AS_PATH_PREPENDS_LLM,
            AS_PATH_PREPENDS_MD,
            AS_PATH_PREPENDS_KEYWORDS,
        );
        FunctionMetadata {
            description: AS_PATH_PREPENDS_ABOUT.to_string(),
            return_type: Some(self.on_bind()),
            examples: one_example(AS_PATH_PREPENDS_SQL.to_string(), AS_PATH_PREPENDS_SQL_ABOUT),
            tags,
        }
    }

    /// The type of the result.
    pub fn on_bind(&self) -> (ty: DataType)
        ensures
            type_view(ty) == TypeView::Int64,
    {
        flat_type(FlatType::Int64)
    }

    /// What the function takes.
    pub fn argument_specs(&self) -> (specs: Vec<ArgSpec>)
        ensures
            arg_views(specs@) == seq![as_path_arg()],
    {
        as_path_only()
    }

    /// Compute the result column, row by row.
    pub fn process(&self, schema: &Arc<Schema>, batch: &Batch) -> (out: Result<Batch, Error>)
        requires
            batch_cells(*batch).len() >= 1,
        ensures
            is_result(
                out,
                schema_view(**schema),
                Cells::Int64(
                    Seq::new(batch_len(*batch), |i: int| prepends_cell(batch_cells(*batch), i)),
                ),
            ),
    {
        let n: usize = row_count(batch);
        let ghost cells = batch_cells(*batch);
        let column0 = column_at(batch, 0);
        let mut values: Vec<Option<i64>> = Vec::new();
        for i in 0..n
            invariant
                cells == batch_cells(*batch),
                cells.len() >= 1,
                n == batch_len(*batch),
                column_cells(column0) == cells[0],
                cell_count(cells[0]) == n,
                values@.len() == i,
                forall|k: int| 0 <= k < i ==> #[trigger] values@[k] == prepends_cell(cells, k),
        {
            let value = match list_ints_at(&column0, i) {
                Some(path) => Some(count_prepends(path.as_slice())),
                None => None,
            };
            values.push(value);
        }
        assert(values@ == Seq::new(n as nat, |i: int| prepends_cell(cells, i)));
        finish(schema, i64_column(values))
    }
}

/// `path_contains(as_path, asn) -> BOOLEAN` — whether `asn` is in the path.
pub struct PathContains;

impl PathContains {
    /// The SQL name.
    pub fn name(&self) -> (name: &'static str)
        ensures
            name@ == "path_contains"@,
    {
        "path_contains"
    }

    /// What the function tells of itself.
    pub fn metadata(&self) -> (m: FunctionMetadata)
        ensures
            m@ == (MetadataView {
                description: PATH_CONTAINS_ABOUT@,
                return_type: Some(TypeView::Boolean),
                examples: seq![(PATH_CONTAINS_SQL@, PATH_CONTAINS_SQL_ABOUT@)],
                tags: standard_tags(
                    PATH_CONTAINS_TITLE@,
                    PATH_CONTAINS_LLM@,
                    PATH_CONTAINS_MD@,
                    PATH_CONTAINS_KEYWORDS@,
                ),
            }),
    {
        let tags = object_tags(
            PATH_CONTAINS_TITLE,
            PATH_CONTAINS_LLM,
            PATH_CONTAINS_MD,
            PATH_CONTAINS_KEYWORDS,
        );
        FunctionMetadata {
            description: PATH_CONTAINS_ABOUT.to_string(),
            return_type: Some(self.on_bind()),
            examples: one_example(PATH_CONTAINS_SQL.to_string(), PATH_CONTAINS_SQL_ABOUT),
            tags,
        }
    }

    /// The type of the result.
    pub fn on_bind(&self) -> (ty: DataType)
        ensures
            type_view(ty) == TypeView::Boolean,
    {
        flat_type(FlatType::Boolean)
    }

    /// What the function takes.
    pub fn argument_specs(&self) -> (specs: Vec<ArgSpec>)
        ensures
            arg_views(specs@) == seq![
                as_path_arg(),
                column_view("asn"@, 1, TypeView::Int64, ASN_DOC@),
            ],
    {
        let mut specs: Vec<ArgSpec> = Vec::new();
        specs.push(as_path_spec());
        specs.push(ArgSpec::column_typed("asn", 1, flat_type(FlatType::Int64), ASN_DOC));
        assert(arg_views(specs@) == seq![
            as_path_arg(),
            column_view("asn"@, 1, TypeView::Int64, ASN_DOC@),
        ]);
        specs
    }

    /// Compute the result column, row by row.
    pub fn process(&self, schema: &Arc<Schema>, batch: &Batch) -> (out: Result<Batch, Error>)
        requires
            batch_cells(*batch).len() >= 2,
        ensures
            is_result(
                out,
                schema_view(**schema),
                Cells::Boolean(
                    Seq::new(batch_len(*batch), |i: int| contains_cell(batch_cells(*batch), i)),
                ),
            ),
    {
        let n: usize = row_count(batch);
        let ghost cells = batch_cells(*batch);
        let column0 = column_at(batch, 0);
        let column1 = column_at(batch, 1);
        let mut values: Vec<Option<bool>> = Vec::new();
        for i in 0..n
            invariant
                cells == batch_cells(*batch),
                cells.len() >= 2,
                n == batch_len(*batch),
                column_cells(column0) == cells[0],
                cell_count(cells[0]) == n,
                column_cells(column1) == cells[1],
                cell_count(cells[1]) == n,
                values@.len() == i,
                forall|k: int| 0 <= k < i ==> #[trigger] values@[k] == contains_cell(cells, k),
        {
            let value = match (list_ints_at(&column0, i), integer_at(&column1, i)) {
                (Some(path), Some(asn)) => Some(is_on_path(path.as_slice(), asn)),
                _ => None,
            };
            values.push(value);
        }
        assert(values@ == Seq::new(n as nat, |i: int| contains_cell(cells, i)));
        finish(schema, bool_column(values))
    }
}

} // verus!
