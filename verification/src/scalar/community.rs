//! Community decode scalars: `community_parse` (→ STRUCT(asn, value)) and
//! `is_large_community` (→ BOOLEAN). Logic lives in [`crate::community`].
use crate::arrow_io::plain_field;
use crate::arrow_io::str_at;
use crate::arrow_io::str_cell;
use crate::columns::bool_column;
use crate::columns::cell_count;
use crate::columns::columns_cells;
use crate::columns::field_views;
use crate::columns::is_known;
use crate::columns::new_field;
use crate::columns::somes;
use crate::columns::struct_column;
use crate::columns::struct_type;
use crate::columns::u32_column;
use crate::columns::validity;
use crate::columns::Column;
use crate::columns::FieldView;
use crate::columns::batch_cells;
use crate::columns::batch_len;
use crate::columns::column_at;
use crate::columns::column_cells;
use crate::columns::flat_type;
use crate::columns::row_count;
use crate::columns::schema_view;
use crate::columns::type_view;
use crate::columns::Batch;
use crate::columns::Cells;
use crate::columns::FlatType;
use crate::columns::TypeView;
use crate::error::Error;
use crate::meta::object_tags;
use crate::meta::one_example;
use crate::meta::standard_tags;
use crate::meta::FunctionMetadata;
use crate::meta::MetadataView;
use crate::community::community_parse;
use crate::community::is_large_community;
use crate::community::large_community;
use crate::community::standard_community;
use crate::options::arg_views;
use crate::options::column_view;
use crate::options::ArgSpec;
use crate::options::ArgView;
use crate::scalar::finish;
use crate::scalar::is_result;
use arrow_schema::DataType;
use arrow_schema::Field;
use arrow_schema::Schema;
use std::sync::Arc;
use vstd::prelude::*;

verus! {

/// What the `raw` argument is.
pub const RAW_DOC: &'static str = "A community string, e.g. '65001:100' (standard) or '65001:1:2' \
     (large).";

/// The `raw` argument.
pub open spec fn raw_arg() -> ArgView {
    column_view("raw"@, 0, TypeView::Utf8, RAW_DOC@)
}

fn raw_only() -> (specs: Vec<ArgSpec>)
    ensures
        arg_views(specs@) == seq![raw_arg()],
{
    let mut specs: Vec<ArgSpec> = Vec::new();
    specs.push(ArgSpec::column_typed("raw", 0, flat_type(FlatType::Utf8), RAW_DOC));
    assert(arg_views(specs@) == seq![raw_arg()]);
    specs
}

/// The fields of the `STRUCT(asn UINTEGER, value UINTEGER)` that `community_parse` gives.
pub open spec fn community_fields() -> Seq<FieldView> {
    seq![
        plain_field("asn"@, TypeView::UInt32, false),
        plain_field("value"@, TypeView::UInt32, false),
    ]
}

/// The `STRUCT(asn UINTEGER, value UINTEGER)` return type of `community_parse`.
fn community_struct_fields() -> (fields: Vec<Field>)
    ensures
        field_views(fields@) == community_fields(),
{
    let mut fields: Vec<Field> = Vec::new();
    fields.push(new_field("asn", flat_type(FlatType::UInt32), false));
    fields.push(new_field("value", flat_type(FlatType::UInt32), false));
    assert(field_views(fields@) == community_fields());
    fields
}

/// A row's standard community; null for anything else.
pub open spec fn standard_cell(columns: Seq<Cells>, i: int) -> Option<(u32, u32)> {
    match str_cell(columns[0], i) {
        Some(raw) => standard_community(raw),
        None => None,
    }
}

/// Whether a row holds a large community; null for a null string.
pub open spec fn large_cell(columns: Seq<Cells>, i: int) -> Option<bool> {
    match str_cell(columns[0], i) {
        Some(raw) => Some(large_community(raw)),
        None => None,
    }
}

/// The AS of an optional community; 0 stands under a null.
pub open spec fn asn_or_zero(v: Option<(u32, u32)>) -> u32 {
    match v {
        Some((asn, _)) => asn,
        None => 0,
    }
}

/// The value of an optional community; 0 stands under a null.
pub open spec fn value_or_zero(v: Option<(u32, u32)>) -> u32 {
    match v {
        Some((_, value)) => value,
        None => 0,
    }
}

/// The column of `STRUCT(asn, value)` cells.
pub open spec fn community_cells(values: Seq<Option<(u32, u32)>>) -> Cells {
    Cells::Struct {
        fields: community_fields(),
        children: seq![
            Cells::UInt32(values.map_values(|v: Option<(u32, u32)>| Some(asn_or_zero(v)))),
            Cells::UInt32(values.map_values(|v: Option<(u32, u32)>| Some(value_or_zero(v)))),
        ],
        valid: somes(values),
    }
}

/// The rows' standard communities.
pub open spec fn standard_cells(columns: Seq<Cells>, n: nat) -> Seq<Option<(u32, u32)>> {
    Seq::new(n, |i: int| standard_cell(columns, i))
}

/// What [`CommunityParse`] computes, in short.
pub const COMMUNITY_PARSE_ABOUT: &'static str = "\
     Parse a standard community 'asn:value' into a STRUCT(asn, value)";

/// An example query with [`CommunityParse`].
pub const COMMUNITY_PARSE_SQL: &'static str = "SELECT bgp.main.community_parse('65001:100');";

/// What the example query with [`CommunityParse`] shows.
pub const COMMUNITY_PARSE_SQL_ABOUT: &'static str = "\
     Split a standard community into {asn: 65001, value: 100}.";

/// The display name of [`CommunityParse`].
pub const COMMUNITY_PARSE_TITLE: &'static str = "Parse BGP Community";

/// [`CommunityParse`] for language models.
pub const COMMUNITY_PARSE_LLM: &'static str = "\
     Parse a standard BGP community string ('<asn>:<value>') into a STRUCT(asn UINTEGER, value \
     UINTEGER). Returns a NULL struct for anything that is not a plain two-part community — a \
     large community ('a:b:c'), a well-known mnemonic ('NO_EXPORT'), or NULL input. Use it to \
     filter or group routes by community without a regex.";

/// [`CommunityParse`] in Markdown.
pub const COMMUNITY_PARSE_MD: &'static str = "\
     Parse a standard community into (asn, value), e.g. `community_parse('65001:100')` = {asn: \
     65001, value: 100}.";

/// The search terms of [`CommunityParse`].
pub const COMMUNITY_PARSE_KEYWORDS: &'static str = "\
     community parse, bgp community, asn value, standard community, tag, decode";

/// What [`IsLargeCommunity`] computes, in short.
pub const IS_LARGE_COMMUNITY_ABOUT: &'static str = "\
     Whether a community string is an RFC 8092 large community";

/// An example query with [`IsLargeCommunity`].
pub const IS_LARGE_COMMUNITY_SQL: &'static str = "\
     SELECT bgp.main.is_large_community('65001:1:2');";

/// What the example query with [`IsLargeCommunity`] shows.
pub const IS_LARGE_COMMUNITY_SQL_ABOUT: &'static str = "\
     Detect a large community (three numeric parts → true).";

/// The display name of [`IsLargeCommunity`].
pub const IS_LARGE_COMMUNITY_TITLE: &'static str = "Large-Community Classifier";

/// [`IsLargeCommunity`] for language models.
pub const IS_LARGE_COMMUNITY_LLM: &'static str = "\
     Return whether a community string is a large community (RFC 8092): exactly three \
     colon-separated unsigned-integer parts, '<global>:<data1>:<data2>'. False for a standard \
     'a:b' community or a well-known mnemonic; NULL input is NULL.";

/// [`IsLargeCommunity`] in Markdown.
pub const IS_LARGE_COMMUNITY_MD: &'static str = "\
     Whether a community is a large community, e.g. `is_large_community('65001:1:2')` = true.";

/// The search terms of [`IsLargeCommunity`].
pub const IS_LARGE_COMMUNITY_KEYWORDS: &'static str = "\
     large community, RFC 8092, community type, three part community, classify";

/// `community_parse(raw) -> STRUCT(asn UINTEGER, value UINTEGER)`.
pub struct CommunityParse;

impl CommunityParse {
    /// The SQL name.
    pub fn name(&self) -> (name: &'static str)
        ensures
            name@ == "community_parse"@,
    {
        "community_parse"
    }

    /// What the function tells of itself.
    pub fn metadata(&self) -> (m: FunctionMetadata)
        ensures
            m@ == (MetadataView {
                description: COMMUNITY_PARSE_ABOUT@,
                return_type: Some(TypeView::Struct(community_fields())),
                examples: seq![(COMMUNITY_PARSE_SQL@, COMMUNITY_PARSE_SQL_ABOUT@)],
                tags: standard_tags(
                    COMMUNITY_PARSE_TITLE@,
                    COMMUNITY_PARSE_LLM@,
                    COMMUNITY_PARSE_MD@,
                    COMMUNITY_PARSE_KEYWORDS@,
                ),
            }),
    {
        let tags = object_tags(
            COMMUNITY_PARSE_TITLE,
            COMMUNITY_PARSE_LLM,
            COMMUNITY_PARSE_MD,
            COMMUNITY_PARSE_KEYWORDS,
        );
        FunctionMetadata {
            description: COMMUNITY_PARSE_ABOUT.to_string(),
            return_type: Some(self.on_bind()),
            examples: one_example(COMMUNITY_PARSE_SQL.to_string(), COMMUNITY_PARSE_SQL_ABOUT),
            tags,
        }
    }

    /// The type of the result.
    pub fn on_bind(&self) -> (ty: DataType)
        ensures
            type_view(ty) == TypeView::Struct(community_fields()),
    {
        struct_type(community_struct_fields())
    }

    /// What the function takes.
    pub fn argument_specs(&self) -> (specs: Vec<ArgSpec>)
        ensures
            arg_views(specs@) == seq![raw_arg()],
    {
        raw_only()
    }

    /// Compute the result column, row by row.
    pub fn process(&self, schema: &Arc<Schema>, batch: &Batch) -> (out: Result<Batch, Error>)
        requires
            batch_cells(*batch).len() >= 1,
        ensures
            is_result(
                out,
                schema_view(**schema),
                community_cells(standard_cells(batch_cells(*batch), batch_len(*batch))),
            ),
    {
        let n: usize = row_count(batch);
        let ghost cells = batch_cells(*batch);
        let ghost found = standard_cells(cells, n as nat);
        let column0 = column_at(batch, 0);
        let mut asn: Vec<Option<u32>> = Vec::new();
        let mut value: Vec<Option<u32>> = Vec::new();
        let mut valid: Vec<bool> = Vec::new();
        for i in 0..n
            invariant
                cells == batch_cells(*batch),
                found == standard_cells(cells, n as nat),
                column_cells(column0) == cells[0],
                cell_count(cells[0]) == n,
                asn@.len() == i,
                value@.len() == i,
                valid@.len() == i,
                forall|k: int| 0 <= k < i ==> #[trigger] asn@[k] == Some(asn_or_zero(found[k])),
                forall|k: int| 0 <= k < i ==> #[trigger] value@[k] == Some(value_or_zero(found[k])),
                forall|k: int| 0 <= k < i ==> #[trigger] valid@[k] == (found[k] is Some),
        {
            let parsed = match str_at(&column0, i) {
                Some(raw) => community_parse(raw),
                None => None,
            };
            match parsed {
                Some((a, v)) => {
                    asn.push(Some(a));
                    value.push(Some(v));
                    valid.push(true);
                },
                None => {
                    asn.push(Some(0));
                    value.push(Some(0));
                    valid.push(false);
                },
            }
        }
        let ghost wanted = community_cells(found);
        assert(Cells::UInt32(asn@) == wanted->children[0]) by {
            assert(asn@ == wanted->children[0]->UInt32_0);
        }
        assert(Cells::UInt32(value@) == wanted->children[1]) by {
            assert(value@ == wanted->children[1]->UInt32_0);
        }
        assert(valid@ == somes(found));
        let mut children: Vec<Column> = Vec::new();
        children.push(u32_column(asn));
        children.push(u32_column(value));
        assert(columns_cells(children@) == wanted->children);
        assert forall|k: int| 0 <= k < 2 implies !validity(
            #[trigger] columns_cells(children@)[k],
        ).contains(false) by {}
        let column = struct_column(community_struct_fields(), children, valid);
        assert(is_known(TypeView::Struct(community_fields()))) by {
            reveal_with_fuel(is_known, 2);
        }
        finish(schema, column)
    }
}

/// `is_large_community(raw) -> BOOLEAN`.
pub struct IsLargeCommunity;

impl IsLargeCommunity {
    /// The SQL name.
    pub fn name(&self) -> (name: &'static str)
        ensures
            name@ == "is_large_community"@,
    {
        "is_large_community"
    }

    /// What the function tells of itself.
    pub fn metadata(&self) -> (m: FunctionMetadata)
        ensures
            m@ == (MetadataView {
                description: IS_LARGE_COMMUNITY_ABOUT@,
                return_type: Some(TypeView::Boolean),
                examples: seq![(IS_LARGE_COMMUNITY_SQL@, IS_LARGE_COMMUNITY_SQL_ABOUT@)],
                tags: standard_tags(
                    IS_LARGE_COMMUNITY_TITLE@,
                    IS_LARGE_COMMUNITY_LLM@,
                    IS_LARGE_COMMUNITY_MD@,
                    IS_LARGE_COMMUNITY_KEYWORDS@,
                ),
            }),
    {
        let tags = object_tags(
            IS_LARGE_COMMUNITY_TITLE,
            IS_LARGE_COMMUNITY_LLM,
            IS_LARGE_COMMUNITY_MD,
            IS_LARGE_COMMUNITY_KEYWORDS,
        );
        FunctionMetadata {
            description: IS_LARGE_COMMUNITY_ABOUT.to_string(),
            return_type: Some(self.on_bind()),
            examples: one_example(IS_LARGE_COMMUNITY_SQL.to_string(), IS_LARGE_COMMUNITY_SQL_ABOUT),
            tags,
        }
    }

    /// The type of the result.
    pub fn on_bind(&self) -> (ty: DataType)
        ensures
            type_view(ty) == TypeView::Boolean,
    {
        flat_type(FlatType::Boolean)
    }

    /// What the function takes.
    pub fn argument_specs(&self) -> (specs: Vec<ArgSpec>)
        ensures
            arg_views(specs@) == seq![raw_arg()],
    {
        raw_only()
    }

    /// Compute the result column, row by row.
    pub fn process(&self, schema: &Arc<Schema>, batch: &Batch) -> (out: Result<Batch, Error>)
        requires
            batch_cells(*batch).len() >= 1,
        ensures
            is_result(
                out,
                schema_view(**schema),
                Cells::Boolean(
                    Seq::new(batch_len(*batch), |i: int| large_cell(batch_cells(*batch), i)),
                ),
            ),
    {
        let n: usize = row_count(batch);
        let ghost cells = batch_cells(*batch);
        let column0 = column_at(batch, 0);
        let mut values: Vec<Option<bool>> = Vec::new();
        for i in 0..n
            invariant
                cells == batch_cells(*batch),
                cells.len() >= 1,
                n == batch_len(*batch),
                column_cells(column0) == cells[0],
                cell_count(cells[0]) == n,
                values@.len() == i,
                forall|k: int| 0 <= k < i ==> #[trigger] values@[k] == large_cell(cells, k),
        {
            let value = match str_at(&column0, i) {
                Some(raw) => Some(is_large_community(raw)),
                None => None,
            };
            values.push(value);
        }
        assert(values@ == Seq::new(n as nat, |i: int| large_cell(cells, i)));
        finish(schema, bool_column(values))
    }
}

} // verus!
