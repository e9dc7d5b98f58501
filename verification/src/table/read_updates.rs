//! `read_updates(src [, strict =>, endpoint =>, …])` — scan a BGP4MP update
//! stream into one row per announcement / withdrawal / state change.
use crate::arrow_io::updates_fields;
use crate::arrow_io::updates_schema;
use crate::cloud::lookup_views;
use crate::cloud::lookups_of;
use crate::cloud::secret_lookups;
use crate::cloud::SecretLookup;
use crate::columns::cell_count;
use crate::columns::column_cells;
use crate::columns::schema_view;
use crate::columns::Column;
use crate::meta::add_tag;
use crate::meta::object_tags;
use crate::meta::one_example;
use crate::meta::standard_tags;
use crate::meta::FunctionMetadata;
use crate::meta::MetadataView;
use crate::meta::UPD_MRT_HEX;
use crate::options::arg_cells;
use crate::options::arg_views;
use crate::options::common_arg_specs;
use crate::options::common_args;
use crate::options::paths_of;
use crate::options::source_of;
use crate::options::source_paths;
use crate::options::strict;
use crate::options::ArgSpec;
use crate::options::NamedArgs;
use crate::reader::source_views;
use crate::reader::DEFAULT_BATCH_ROWS;
use crate::reader::Kind;
use crate::reader::MrtProducer;
use crate::reader::Source;
use crate::scan::ScanState;
use crate::table::src_arg;
use crate::table::src_spec;
use crate::text::joined;
use arrow_schema::Schema;
use std::sync::Arc;
use vstd::prelude::*;

verus! {

/// What [`ReadUpdates`] does, in short.
pub const READ_UPDATES_ABOUT: &'static str = "Read an MRT BGP4MP update stream into rows";

/// The display name of [`ReadUpdates`].
pub const READ_UPDATES_TITLE: &'static str = "Read MRT BGP4MP Update Stream";

/// [`ReadUpdates`] for language models.
pub const READ_UPDATES_LLM: &'static str = "\
     Scan an MRT BGP4MP update stream (a RouteViews / RIPE RIS `updates.*` archive) into one \
     row per BGP message: a prefix announcement, a withdrawal, or an FSM state change. `src` \
     is a path — local, a glob, an `s3://` URL, or an `http(s)://` URL — or an inline BLOB of \
     MRT bytes; gzip (`.gz`) and bzip2 (`.bz2`) inputs are decompressed transparently. Each \
     row carries the timestamp, the reporting peer (peer_ip INET, peer_asn), the message_type \
     ('announce' / 'withdraw' / 'state_change'), the prefix (INET), AS path (LIST(UINTEGER)), \
     origin ASN, next hop (INET), communities (LIST(VARCHAR)), and — for state changes — \
     old_state and new_state. prefix / peer_ip / next_hop are DuckDB INET values (cast with \
     `::INET`) so containment and prefix joins work without parsing strings. Announcements and \
     withdrawals stay in one stream so RIB churn can be reconstructed over time. A malformed \
     record yields a row with NULL fields and a populated `error` column unless `strict => \
     true`. This is the update-stream counterpart of read_rib.";

/// [`ReadUpdates`] in Markdown.
pub const READ_UPDATES_MD: &'static str = "\
     Scan an MRT BGP4MP update stream into rows: timestamp, peer_ip (INET), peer_asn, \
     message_type (announce/withdraw/state_change), prefix (INET), as_path (LIST(UINTEGER)), \
     origin_asn, next_hop (INET), communities (LIST(VARCHAR)), old_state, new_state, and an \
     `error` capture column. `src` is a path / glob / `s3://` / `http(s)://` URL or a BLOB; \
     `.gz`/`.bz2` auto-decompress. Cast INET columns with `::INET` for containment.";

/// The search terms of [`ReadUpdates`].
pub const READ_UPDATES_KEYWORDS: &'static str = "\
     read updates, MRT, BGP4MP, RouteViews, RIPE RIS, announcement, withdrawal, state change, \
     prefix, AS path, communities, INET, RIB churn, route leak, table function";

/// The columns of [`ReadUpdates`] in Markdown.
pub const READ_UPDATES_COLUMNS: &'static str = "\
     One row per BGP message:\n\n| column | type |\n|---|---|\n| timestamp | TIMESTAMP |\n| \
     peer_ip | INET-struct (cast `::INET`) |\n| peer_asn | UINTEGER |\n| message_type | \
     VARCHAR |\n| prefix | INET-struct (cast `::INET`) |\n| as_path | UINTEGER[] |\n| \
     origin_asn | UINTEGER |\n| next_hop | INET-struct (cast `::INET`) |\n| communities | \
     VARCHAR[] |\n| old_state | USMALLINT |\n| new_state | USMALLINT |\n| error | VARCHAR |";

/// What the `src` argument of [`ReadUpdates`] is.
pub const READ_UPDATES_SRC_DOC: &'static str = "\
     The update stream to read: a path (local, a glob, `s3://bucket/key`, or \
     `https://host/file`), several such paths in a list, or inline MRT bytes. gzip/bzip2 \
     archives are decompressed automatically.";

/// An example query with [`ReadUpdates`], up to the update stream.
pub const READ_UPDATES_SQL_HEAD: &'static str = "\
     SELECT message_type, count(*) FROM bgp.main.read_updates(from_hex('";

/// An example query with [`ReadUpdates`], behind the update stream.
pub const READ_UPDATES_SQL_TAIL: &'static str = "')) GROUP BY 1;";

/// What the example query with [`ReadUpdates`] shows.
pub const READ_UPDATES_SQL_ABOUT: &'static str = "\
     Count announce / withdraw / state-change messages in an inline BGP4MP update stream.";

/// The `read_updates` table function.
pub struct ReadUpdates;

impl ReadUpdates {
    /// The SQL name.
    pub fn name(&self) -> (name: &'static str)
        ensures
            name@ == "read_updates"@,
    {
        "read_updates"
    }

    /// What the function tells of itself.
    pub fn metadata(&self) -> (m: FunctionMetadata)
        ensures
            m@ == (MetadataView {
                description: READ_UPDATES_ABOUT@,
                return_type: None,
                examples: seq![(READ_UPDATES_SQL_HEAD@ + UPD_MRT_HEX@ + READ_UPDATES_SQL_TAIL@, READ_UPDATES_SQL_ABOUT@)],
                tags: standard_tags(
                    READ_UPDATES_TITLE@,
                    READ_UPDATES_LLM@,
                    READ_UPDATES_MD@,
                    READ_UPDATES_KEYWORDS@,
                ).push(("vgi.result_columns_md"@, READ_UPDATES_COLUMNS@)),
            }),
    {
        let mut tags = object_tags(
            READ_UPDATES_TITLE,
            READ_UPDATES_LLM,
            READ_UPDATES_MD,
            READ_UPDATES_KEYWORDS,
        );
        add_tag(&mut tags, "vgi.result_columns_md", READ_UPDATES_COLUMNS.to_string());
        let head = joined(READ_UPDATES_SQL_HEAD, UPD_MRT_HEX);
        let sql = joined(head.as_str(), READ_UPDATES_SQL_TAIL);
        let m = FunctionMetadata {
            description: READ_UPDATES_ABOUT.to_string(),
            return_type: None,
            examples: one_example(sql, READ_UPDATES_SQL_ABOUT),
            tags,
        };
        m
    }

    /// What the function takes.
    pub fn argument_specs(&self) -> (specs: Vec<ArgSpec>)
        ensures
            arg_views(specs@) == seq![src_arg(READ_UPDATES_SRC_DOC@)] + common_args(),
    {
        let mut specs: Vec<ArgSpec> = Vec::new();
        specs.push(src_spec(READ_UPDATES_SRC_DOC));
        let mut more = common_arg_specs();
        let ghost first = specs@;
        let ghost rest = more@;
        specs.append(&mut more);
        assert(arg_views(first) == seq![src_arg(READ_UPDATES_SRC_DOC@)]);
        assert(arg_views(specs@) == arg_views(first) + arg_views(rest));
        specs
    }

    /// The secrets to request for a `src` argument.
    pub fn secret_lookups(&self, src: Option<&Column>) -> (lookups: Vec<SecretLookup>)
        requires
            src is Some ==> cell_count(column_cells(*src->0)) > 0,
        ensures
            lookup_views(lookups@) == lookups_of(paths_of(source_of(arg_cells(src)))),
    {
        secret_lookups(&source_paths(src))
    }

    /// The output schema.
    pub fn on_bind(&self) -> (schema: Schema)
        ensures
            schema_view(schema) == updates_fields(),
    {
        updates_schema()
    }

    /// The producer over resolved sources.
    pub fn producer(
        &self,
        schema: Arc<Schema>,
        args: &NamedArgs,
        sources: Vec<Source>,
    ) -> (producer: MrtProducer)
        ensures
            producer.valid(),
            producer.fields() == schema_view(*schema),
            producer.kind() == Kind::Updates,
            producer.target() == DEFAULT_BATCH_ROWS,
            producer@ == (ScanState {
                sources: source_views(sources@),
                strict: args.strict == Some(true),
                idx: 0,
                open: None,
                offset: 0,
                skip_to: None,
                pending: Seq::empty(),
                failed: false,
            }),
    {
        MrtProducer::new(schema, Kind::Updates, strict(args), sources)
    }
}

} // verus!
