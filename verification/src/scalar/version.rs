//! `bgp_version()` — return the worker's version string.
use crate::columns::flat_type;
use crate::columns::opt_texts;
use crate::columns::row_count;
use crate::columns::schema_view;
use crate::columns::text_bytes;
use crate::columns::text_column;
use crate::columns::type_view;
use crate::columns::batch_len;
use crate::columns::Batch;
use crate::columns::Cells;
use crate::columns::FlatType;
use crate::columns::TypeView;
use crate::error::Error;
use crate::meta::add_tag;
use crate::meta::object_tags;
use crate::meta::one_example;
use crate::meta::standard_tags;
use crate::meta::FunctionMetadata;
use crate::meta::MetadataView;
use crate::options::ArgSpec;
use crate::scalar::finish;
use crate::scalar::is_result;
use crate::version;
use crate::VERSION;
use arrow_schema::DataType;
use arrow_schema::Schema;
use std::sync::Arc;
use vstd::prelude::*;
use vstd::utf8::is_ascii_chars_encode_utf8;

verus! {

/// What [`BgpVersion`] computes, in short.
pub const BGP_VERSION_ABOUT: &'static str = "Returns the bgp worker version string";

/// An example query with [`BgpVersion`].
pub const BGP_VERSION_SQL: &'static str = "SELECT bgp.main.bgp_version();";

/// What the example query with [`BgpVersion`] shows.
pub const BGP_VERSION_SQL_ABOUT: &'static str = "Return the bgp worker version string.";

/// The display name of [`BgpVersion`].
pub const BGP_VERSION_TITLE: &'static str = "BGP Worker Version";

/// [`BgpVersion`] for language models.
pub const BGP_VERSION_LLM: &'static str = "\
     Return the version string of the running bgp worker binary (its own build version, the \
     crate's Cargo version, not the SDK/protocol version). The string is semver \
     MAJOR.MINOR.PATCH. The function takes no arguments and is deterministic — always the same \
     single VARCHAR for a given build. Useful for diagnostics and confirming which build is \
     attached.";

/// [`BgpVersion`] in Markdown.
pub const BGP_VERSION_MD: &'static str = "\
     Return the bgp worker version string, e.g. `bgp_version()` → '0.1.0'. Argument-free and \
     deterministic.";

/// The search terms of [`BgpVersion`].
pub const BGP_VERSION_KEYWORDS: &'static str = "\
     version, build version, bgp_version, diagnostics, worker version, semver";

/// Example queries that can be run as they are, as a JSON array.
pub const EXECUTABLE_EXAMPLES: &'static str = "[\n  {\n    \"description\": \"Return the worker version string.\",\n    \"sql\": \"SELECT bgp.main.bgp_version() AS version\"\n  },\n  {\n    \"description\": \"AS-path helpers over an inline path: hops, origin, and prepend count.\",\n    \"sql\": [\n      \"SELECT bgp.main.path_length([7018, 174, 174, 13335]) AS hops\",\n      \"SELECT bgp.main.origin_asn([7018, 174, 13335]) AS origin\",\n      \"SELECT bgp.main.as_path_prepends([7018, 174, 174, 13335]) AS prepends\",\n      \"SELECT bgp.main.path_contains([7018, 174, 13335], 174) AS via_174\",\n      \"SELECT bgp.main.is_large_community('65001:1:2') AS is_large\",\n      \"SELECT bgp.main.community_parse('65001:100').asn AS asn\"\n    ]\n  }\n]";

/// The version in every one of `n` rows.
pub open spec fn version_cells(n: nat) -> Seq<Option<Seq<char>>> {
    Seq::new(n, |i: int| Some(VERSION@))
}

/// The version takes five bytes a row.
proof fn lemma_version_bytes(n: nat)
    ensures
        text_bytes(version_cells(n)) == 5 * n,
    decreases n,
{
    if n > 0 {
        lemma_version_bytes((n - 1) as nat);
        assert(version_cells(n).drop_last() == version_cells((n - 1) as nat));
        reveal_strlit("0.1.0");
        is_ascii_chars_encode_utf8(VERSION@);
    }
}

/// `bgp_version() -> VARCHAR` — the worker's version string.
pub struct BgpVersion;

impl BgpVersion {
    /// The SQL name.
    pub fn name(&self) -> (name: &'static str)
        ensures
            name@ == "bgp_version"@,
    {
        "bgp_version"
    }

    /// What the function tells of itself.
    pub fn metadata(&self) -> (m: FunctionMetadata)
        ensures
            m@ == (MetadataView {
                description: BGP_VERSION_ABOUT@,
                return_type: Some(TypeView::Utf8),
                examples: seq![(BGP_VERSION_SQL@, BGP_VERSION_SQL_ABOUT@)],
                tags: standard_tags(
                    BGP_VERSION_TITLE@,
                    BGP_VERSION_LLM@,
                    BGP_VERSION_MD@,
                    BGP_VERSION_KEYWORDS@,
                ).push(("vgi.executable_examples"@, EXECUTABLE_EXAMPLES@)),
            }),
    {
        let mut tags = object_tags(
            BGP_VERSION_TITLE,
            BGP_VERSION_LLM,
            BGP_VERSION_MD,
            BGP_VERSION_KEYWORDS,
        );
        add_tag(&mut tags, "vgi.executable_examples", EXECUTABLE_EXAMPLES.to_string());
        FunctionMetadata {
            description: BGP_VERSION_ABOUT.to_string(),
            return_type: Some(self.on_bind()),
            examples: one_example(BGP_VERSION_SQL.to_string(), BGP_VERSION_SQL_ABOUT),
            tags,
        }
    }

    /// The type of the result.
    pub fn on_bind(&self) -> (ty: DataType)
        ensures
            type_view(ty) == TypeView::Utf8,
    {
        flat_type(FlatType::Utf8)
    }

    /// What the function takes: nothing.
    pub fn argument_specs(&self) -> (specs: Vec<ArgSpec>)
        ensures
            specs@.len() == 0,
    {
        Vec::new()
    }

    /// The version in every row. A string column holds at most 2 GiB.
    pub fn process(&self, schema: &Arc<Schema>, batch: &Batch) -> (out: Result<Batch, Error>)
        requires
            5 * batch_len(*batch) <= i32::MAX,
        ensures
            is_result(out, schema_view(**schema), Cells::Utf8(version_cells(batch_len(*batch)))),
    {
        let n: usize = row_count(batch);
        let mut values: Vec<Option<String>> = Vec::new();
        for i in 0..n
            invariant
                values@.len() == i,
                forall|k: int|
                    0 <= k < i ==> (#[trigger] values@[k]) is Some && values@[k]->0@ == VERSION@,
        {
            values.push(Some(version().to_string()));
        }
        assert(opt_texts(values@) == version_cells(n as nat));
        proof {
            lemma_version_bytes(n as nat);
        }
        finish(schema, text_column(values))
    }
}

} // verus!
