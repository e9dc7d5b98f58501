//! `read_rib(src [, strict =>, endpoint =>, …])` — scan a TABLE_DUMP_V2 RIB
//! snapshot into one row per (prefix, peer) RIB entry.
use crate::arrow_io::rib_fields;
use crate::arrow_io::rib_schema;
use crate::cloud::lookup_views;
use crate::cloud::lookups_of;
use crate::cloud::secret_lookups;
use crate::cloud::SecretLookup;
use crate::columns::cell_count;
use crate::columns::column_cells;
use crate::columns::schema_view;
use crate::columns::Column;
use crate::meta::add_tag;
use crate::meta::object_tags;
use crate::meta::standard_tags;
use crate::meta::FunctionMetadata;
use crate::meta::MetadataView;
use crate::options::arg_cells;
use crate::options::arg_views;
use crate::options::common_arg_specs;
use crate::options::common_args;
use crate::options::paths_of;
use crate::options::source_of;
use crate::options::source_paths;
use crate::options::strict;
use crate::options::ArgSpec;
use crate::options::NamedArgs;
use crate::reader::source_views;
use crate::reader::DEFAULT_BATCH_ROWS;
use crate::reader::Kind;
use crate::reader::MrtProducer;
use crate::reader::Source;
use crate::scan::ScanState;
use crate::table::src_arg;
use crate::table::src_spec;
use arrow_schema::Schema;
use std::sync::Arc;
use vstd::prelude::*;

verus! {

/// What [`ReadRib`] does, in short.
pub const READ_RIB_ABOUT: &'static str = "Read an MRT TABLE_DUMP_V2 RIB snapshot into rows";

/// The display name of [`ReadRib`].
pub const READ_RIB_TITLE: &'static str = "Read MRT RIB Snapshot";

/// [`ReadRib`] for language models.
pub const READ_RIB_LLM: &'static str = "\
     Scan an MRT TABLE_DUMP_V2 RIB snapshot (a RouteViews / RIPE RIS `rib.*` archive) into one \
     row per (prefix, peer) RIB entry. `src` is a path — local, a glob, an `s3://` URL, or an \
     `http(s)://` URL — or an inline BLOB of MRT bytes; gzip (`.gz`) and bzip2 (`.bz2`) inputs \
     are decompressed transparently. Each row carries the route timestamp, RIB view name, the \
     reporting peer (peer_ip INET, peer_asn), the prefix (INET), the AS path (LIST(UINTEGER)), \
     origin ASN, next hop (INET), communities (LIST(VARCHAR) — standard and large), MED, local \
     pref, atomic-aggregate flag, and aggregator ASN. prefix / peer_ip / next_hop are DuckDB \
     INET values (cast with `::INET`), so prefix containment (`prefix::INET <<= \
     '203.0.113.0/24'`) and joins against vgi-netflow / geoip work without parsing strings. A \
     malformed record yields a row with NULL fields and a populated `error` column unless \
     `strict => true`. This is the RIB counterpart of read_updates.";

/// [`ReadRib`] in Markdown.
pub const READ_RIB_MD: &'static str = "\
     Scan an MRT TABLE_DUMP_V2 RIB dump into rows: timestamp, view_name, peer_ip (INET), \
     peer_asn, prefix (INET), as_path (LIST(UINTEGER)), origin_asn, next_hop (INET), \
     communities (LIST(VARCHAR)), med, local_pref, atomic_aggregate, aggregator_asn, and an \
     `error` capture column. `src` is a path / glob / `s3://` / `http(s)://` URL or a BLOB; \
     `.gz`/`.bz2` auto-decompress. Cast INET columns with `::INET` for containment.";

/// The search terms of [`ReadRib`].
pub const READ_RIB_KEYWORDS: &'static str = "\
     read rib, MRT, TABLE_DUMP_V2, RouteViews, RIPE RIS, routing table, BGP RIB, prefix, AS \
     path, origin ASN, next hop, communities, INET, route leak, hijack, table function";

/// The columns of [`ReadRib`] in Markdown.
pub const READ_RIB_COLUMNS: &'static str = "\
     One row per (prefix, peer) RIB entry:\n\n| column | type |\n|---|---|\n| timestamp | \
     TIMESTAMP |\n| view_name | VARCHAR |\n| peer_ip | INET-struct (cast `::INET`) |\n| \
     peer_asn | UINTEGER |\n| prefix | INET-struct (cast `::INET`) |\n| as_path | UINTEGER[] \
     |\n| origin_asn | UINTEGER |\n| next_hop | INET-struct (cast `::INET`) |\n| communities | \
     VARCHAR[] |\n| med | UINTEGER |\n| local_pref | UINTEGER |\n| atomic_aggregate | BOOLEAN \
     |\n| aggregator_asn | UINTEGER |\n| error | VARCHAR |";

/// What the `src` argument of [`ReadRib`] is.
pub const READ_RIB_SRC_DOC: &'static str = "\
     The RIB dump to read: a path (local, a glob, `s3://bucket/key`, or `https://host/file`), \
     several such paths in a list, or inline MRT bytes. gzip/bzip2 archives are decompressed \
     automatically.";

/// The `read_rib` table function.
pub struct ReadRib;

impl ReadRib {
    /// The SQL name.
    pub fn name(&self) -> (name: &'static str)
        ensures
            name@ == "read_rib"@,
    {
        "read_rib"
    }

    /// What the function tells of itself.
    pub fn metadata(&self) -> (m: FunctionMetadata)
        ensures
            m@ == (MetadataView {
                description: READ_RIB_ABOUT@,
                return_type: None,
                examples: Seq::empty(),
                tags: standard_tags(
                    READ_RIB_TITLE@,
                    READ_RIB_LLM@,
                    READ_RIB_MD@,
                    READ_RIB_KEYWORDS@,
                ).push(("vgi.result_columns_md"@, READ_RIB_COLUMNS@)),
            }),
    {
        let mut tags = object_tags(
            READ_RIB_TITLE,
            READ_RIB_LLM,
            READ_RIB_MD,
            READ_RIB_KEYWORDS,
        );
        add_tag(&mut tags, "vgi.result_columns_md", READ_RIB_COLUMNS.to_string());
        let m = FunctionMetadata {
            description: READ_RIB_ABOUT.to_string(),
            return_type: None,
            examples: Vec::new(),
            tags,
        };
        assert(m@.examples == Seq::<(Seq<char>, Seq<char>)>::empty());
        m
    }

    /// What the function takes.
    pub fn argument_specs(&self) -> (specs: Vec<ArgSpec>)
        ensures
            arg_views(specs@) == seq![src_arg(READ_RIB_SRC_DOC@)] + common_args(),
    {
        let mut specs: Vec<ArgSpec> = Vec::new();
        specs.push(src_spec(READ_RIB_SRC_DOC));
        let mut more = common_arg_specs();
        let ghost first = specs@;
        let ghost rest = more@;
        specs.append(&mut more);
        assert(arg_views(first) == seq![src_arg(READ_RIB_SRC_DOC@)]);
        assert(arg_views(specs@) == arg_views(first) + arg_views(rest));
        specs
    }

    /// The secrets to request for a `src` argument.
    pub fn secret_lookups(&self, src: Option<&Column>) -> (lookups: Vec<SecretLookup>)
        requires
            src is Some ==> cell_count(column_cells(*src->0)) > 0,
        ensures
            lookup_views(lookups@) == lookups_of(paths_of(source_of(arg_cells(src)))),
    {
        secret_lookups(&source_paths(src))
    }

    /// The output schema.
    pub fn on_bind(&self) -> (schema: Schema)
        ensures
            schema_view(schema) == rib_fields(),
    {
        rib_schema()
    }

    /// The producer over resolved sources.
    pub fn producer(
        &self,
        schema: Arc<Schema>,
        args: &NamedArgs,
        sources: Vec<Source>,
    ) -> (producer: MrtProducer)
        ensures
            producer.valid(),
            producer.fields() == schema_view(*schema),
            producer.kind() == Kind::Rib,
            producer.target() == DEFAULT_BATCH_ROWS,
            producer@ == (ScanState {
                sources: source_views(sources@),
                strict: args.strict == Some(true),
                idx: 0,
                open: None,
                offset: 0,
                skip_to: None,
                pending: Seq::empty(),
                failed: false,
            }),
    {
        MrtProducer::new(schema, Kind::Rib, strict(args), sources)
    }
}

} // verus!
