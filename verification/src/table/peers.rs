//! `peers(src)` — list the distinct (peer_ip, peer_asn, collector) triples seen
//! in an MRT file: every peer in a TABLE_DUMP_V2 `PEER_INDEX_TABLE`, or each
//! distinct peer that produced a BGP4MP message.
use crate::arrow_io::peers_fields;
use crate::arrow_io::peers_schema;
use crate::cloud::lookup_views;
use crate::cloud::lookups_of;
use crate::cloud::secret_lookups;
use crate::cloud::SecretLookup;
use crate::columns::cell_count;
use crate::columns::column_cells;
use crate::columns::schema_view;
use crate::columns::Column;
use crate::meta::add_tag;
use crate::meta::object_tags;
use crate::meta::standard_tags;
use crate::meta::FunctionMetadata;
use crate::meta::MetadataView;
use crate::options::arg_cells;
use crate::options::arg_views;
use crate::options::cloud_arg_specs;
use crate::options::cloud_args;
use crate::options::paths_of;
use crate::options::source_of;
use crate::options::source_paths;
use crate::options::ArgSpec;
use crate::table::src_arg;
use crate::table::src_spec;
use arrow_schema::Schema;
use vstd::prelude::*;

verus! {

/// What [`Peers`] does, in short.
pub const PEERS_ABOUT: &'static str = "List the distinct peers / collectors in an MRT file";

/// The display name of [`Peers`].
pub const PEERS_TITLE: &'static str = "List MRT Peers / Collectors";

/// [`Peers`] for language models.
pub const PEERS_LLM: &'static str = "\
     List the distinct BGP peers in an MRT file: one row per (peer_ip, peer_asn, collector) \
     triple. For a TABLE_DUMP_V2 RIB it returns every peer in the PEER_INDEX_TABLE (with the \
     RIB view name as the collector); for a BGP4MP update stream it returns each distinct peer \
     that produced a message. `src` is a path (local, glob, `s3://`, or `http(s)://`) or an \
     inline BLOB of MRT bytes; `.gz`/`.bz2` auto-decompress. peer_ip is a DuckDB INET value \
     (cast with `::INET`). Use it to enumerate vantage points before scanning a dump, or to \
     join peer ASNs against attribution data.";

/// [`Peers`] in Markdown.
pub const PEERS_MD: &'static str = "\
     List the distinct peers in an MRT file: peer_ip (INET), peer_asn, and collector (the RIB \
     view name when present). `src` is a path / glob / `s3://` / `http(s)://` URL or a BLOB; \
     `.gz`/`.bz2` auto-decompress.";

/// The search terms of [`Peers`].
pub const PEERS_KEYWORDS: &'static str = "\
     peers, collectors, vantage points, MRT, PEER_INDEX_TABLE, peer ASN, peer IP, RouteViews, \
     RIPE RIS, table function";

/// The columns of [`Peers`] in Markdown.
pub const PEERS_COLUMNS: &'static str = "\
     One row per distinct peer:\n\n| column | type |\n|---|---|\n| peer_ip | INET-struct (cast \
     `::INET`) |\n| peer_asn | UINTEGER |\n| collector | VARCHAR |";

/// What the `src` argument of [`Peers`] is.
pub const PEERS_SRC_DOC: &'static str = "\
     The MRT file to inspect: a path (local, a glob, `s3://bucket/key`, or \
     `https://host/file`), several such paths in a list, or inline MRT bytes. gzip/bzip2 \
     archives are decompressed automatically.";

/// The `peers` table function.
pub struct Peers;

impl Peers {
    /// The SQL name.
    pub fn name(&self) -> (name: &'static str)
        ensures
            name@ == "peers"@,
    {
        "peers"
    }

    /// What the function tells of itself.
    pub fn metadata(&self) -> (m: FunctionMetadata)
        ensures
            m@ == (MetadataView {
                description: PEERS_ABOUT@,
                return_type: None,
                examples: Seq::empty(),
                tags: standard_tags(
                    PEERS_TITLE@,
                    PEERS_LLM@,
                    PEERS_MD@,
                    PEERS_KEYWORDS@,
                ).push(("vgi.result_columns_md"@, PEERS_COLUMNS@)),
            }),
    {
        let mut tags = object_tags(
            PEERS_TITLE,
            PEERS_LLM,
            PEERS_MD,
            PEERS_KEYWORDS,
        );
        add_tag(&mut tags, "vgi.result_columns_md", PEERS_COLUMNS.to_string());
        let m = FunctionMetadata {
            description: PEERS_ABOUT.to_string(),
            return_type: None,
            examples: Vec::new(),
            tags,
        };
        assert(m@.examples == Seq::<(Seq<char>, Seq<char>)>::empty());
        m
    }

    /// What the function takes.
    pub fn argument_specs(&self) -> (specs: Vec<ArgSpec>)
        ensures
            arg_views(specs@) == seq![src_arg(PEERS_SRC_DOC@)] + cloud_args(),
    {
        let mut specs: Vec<ArgSpec> = Vec::new();
        specs.push(src_spec(PEERS_SRC_DOC));
        let mut more = cloud_arg_specs();
        let ghost first = specs@;
        let ghost rest = more@;
        specs.append(&mut more);
        assert(arg_views(first) == seq![src_arg(PEERS_SRC_DOC@)]);
        assert(arg_views(specs@) == arg_views(first) + arg_views(rest));
        specs
    }

    /// The secrets to request for a `src` argument.
    pub fn secret_lookups(&self, src: Option<&Column>) -> (lookups: Vec<SecretLookup>)
        requires
            src is Some ==> cell_count(column_cells(*src->0)) > 0,
        ensures
            lookup_views(lookups@) == lookups_of(paths_of(source_of(arg_cells(src)))),
    {
        secret_lookups(&source_paths(src))
    }

    /// The output schema.
    pub fn on_bind(&self) -> (schema: Schema)
        ensures
            schema_view(schema) == peers_fields(),
    {
        peers_schema()
    }
}

} // verus!
