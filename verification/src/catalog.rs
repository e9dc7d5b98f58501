//! Catalog + schema metadata (description, provenance, discovery tags) surfaced to DuckDB.
use crate::decode::text_view;
use crate::json::Member;
use crate::meta::add_tag;
use crate::meta::agent_test_tasks_json;
use crate::meta::keywords_array;
use crate::meta::keywords_json;
use crate::meta::tag_views;
use crate::meta::task_members;
use crate::meta::tasks_array;
use crate::meta::tasks_members;
use crate::meta::RIB_MRT_HEX;
use crate::meta::TagView;
use crate::meta::UPD_MRT_HEX;
use crate::version;
use crate::VERSION;
use vstd::prelude::*;

verus! {

/// A schema of the catalog.
pub struct CatSchema {
    pub name: String,
    pub comment: Option<String>,
    pub tags: Vec<(String, String)>,
}

/// The catalog.
pub struct CatalogModel {
    pub name: String,
    pub comment: Option<String>,
    pub tags: Vec<(String, String)>,
    /// Where the code lives.
    pub source_url: Option<String>,
    /// The worker's build version.
    pub implementation_version: Option<String>,
    pub schemas: Vec<CatSchema>,
}

/// A [`CatSchema`], with its texts as sequences.
pub struct SchemaView {
    pub name: Seq<char>,
    pub comment: Option<Seq<char>>,
    pub tags: Seq<TagView>,
}

/// A [`CatalogModel`], with its texts as sequences.
pub struct CatalogView {
    pub name: Seq<char>,
    pub comment: Option<Seq<char>>,
    pub tags: Seq<TagView>,
    pub source_url: Option<Seq<char>>,
    pub implementation_version: Option<Seq<char>>,
    pub schemas: Seq<SchemaView>,
}

impl View for CatSchema {
    type V = SchemaView;

    open spec fn view(&self) -> SchemaView {
        SchemaView {
            name: self.name@,
            comment: text_view(self.comment),
            tags: tag_views(self.tags@),
        }
    }
}

impl View for CatalogModel {
    type V = CatalogView;

    open spec fn view(&self) -> CatalogView {
        CatalogView {
            name: self.name@,
            comment: text_view(self.comment),
            tags: tag_views(self.tags@),
            source_url: text_view(self.source_url),
            implementation_version: text_view(self.implementation_version),
            schemas: self.schemas@.map_values(|s: CatSchema| s@),
        }
    }
}

/// What the catalog holds.
pub const CATALOG_COMMENT: &'static str = "\
     Decode MRT routing dumps (BGP4MP updates + TABLE_DUMP_V2 RIB snapshots) into SQL rows, \
     reusing the core INET type for prefixes and peer IPs.";

/// The catalog's display name.
pub const CATALOG_TITLE: &'static str = "BGP / MRT Routing-Dump Decoder";

/// The catalog's search terms.
pub const CATALOG_KEYWORDS: &'static str = "\
     BGP, MRT, BGP4MP, TABLE_DUMP_V2, RIB, routing table, RouteViews, RIPE RIS, route \
     collector, AS path, origin ASN, prefix, CIDR, INET, next hop, community, large community, \
     announcement, withdrawal, route leak, route hijack, prefix hijack, peer, BGP update, \
     network analysis";

/// The catalog for language models.
pub const CATALOG_LLM: &'static str = "\
     Decode MRT routing dumps directly in SQL. Scan a TABLE_DUMP_V2 RIB snapshot into one row \
     per (prefix, peer) entry with `read_rib`, a BGP4MP update stream into one row per \
     announce/withdraw/state-change with `read_updates`, and list the distinct \
     peers/collectors with `peers`. Each source argument is a path (local, a glob, an `s3://` \
     URL, or an `http(s)://` URL) or an inline BLOB of MRT bytes; gzip and bzip2 archives are \
     decompressed transparently. Prefixes, peer IPs, and next hops are emitted in DuckDB's \
     core INET physical layout (cast with `::INET`) so prefix containment and joins against \
     flow/geoip data work without parsing strings. AS paths are LIST(UINTEGER) and communities \
     are LIST(VARCHAR). AS-path helpers (`path_length`, `origin_asn`, `as_path_prepends`, \
     `path_contains`) and community decoders (`community_parse`, `is_large_community`) operate \
     on those columns. A malformed MRT record yields a row with NULL fields and an `error` \
     column rather than aborting the scan (toggle `strict => true`) — MRT archives routinely \
     end in a truncated tail record. RPKI / route-origin validation is intentionally NOT here: \
     emit `origin_asn` and JOIN it against an RPKI/VRP table (ROV lives in vgi-netflow).";

/// The catalog in Markdown.
pub const CATALOG_MD: &'static str = "\
     # bgp\n\nDecode **MRT** routing dumps (RouteViews / RIPE RIS archives — BGP4MP updates \
     and TABLE_DUMP_V2 RIB snapshots) into SQL rows, so route-leak / hijack / RIB-diff \
     analysis is a JOIN in the engine instead of an ETL-to-Parquet step.\n\n**Table \
     functions:** `read_rib(src)` (RIB entries), `read_updates(src)` (announce / withdraw / \
     state-change), and `peers(src)` (distinct peers/collectors). `src` is a path (local / \
     glob / `s3://` / `http(s)://`) or an inline BLOB; `.gz`/`.bz2` \
     auto-decompress.\n\n**Scalars:** `path_length`, `origin_asn`, `as_path_prepends`, \
     `path_contains` (over the `as_path` LIST(UINTEGER) column); `community_parse`, \
     `is_large_community` (over community strings); and `bgp_version`.\n\nPrefixes / peer IPs \
     / next hops are DuckDB **INET** values (cast with `::INET`) so `prefix::INET <<= \
     '203.0.113.0/24'` containment and prefix joins work directly. RPKI / route-origin \
     validation is out of scope — JOIN `origin_asn` against your VRP table (ROV lives in \
     vgi-netflow).";

/// The analyst task `version`.
pub const TASK_VERSION: &'static str = "\
     Before relying on the bgp worker in a pipeline, an analyst wants to record which build is \
     attached. Return the worker's version string as a single row with one column named \
     version.";

/// The solution of the analyst task `version`.
pub const TASK_VERSION_SQL: &'static str = "SELECT bgp.main.bgp_version() AS version";

/// The analyst task `path_hops`.
pub const TASK_PATH_HOPS: &'static str = "\
     Given the AS path [7018, 174, 174, 13335], return the number of AS hops as a single \
     column named hops.";

/// The solution of the analyst task `path_hops`.
pub const TASK_PATH_HOPS_SQL: &'static str = "\
     SELECT bgp.main.path_length([7018, 174, 174, 13335]) AS hops";

/// The analyst task `origin`.
pub const TASK_ORIGIN: &'static str = "\
     Given the AS path [7018, 174, 13335], return the origin AS (the AS that announced the \
     prefix) as a single column named origin.";

/// The solution of the analyst task `origin`.
pub const TASK_ORIGIN_SQL: &'static str = "\
     SELECT bgp.main.origin_asn([7018, 174, 13335]) AS origin";

/// The analyst task `large_community`.
pub const TASK_LARGE_COMMUNITY: &'static str = "\
     Is the community string '65001:1:2' a large community? Return a single BOOLEAN column \
     named is_large.";

/// The solution of the analyst task `large_community`.
pub const TASK_LARGE_COMMUNITY_SQL: &'static str = "\
     SELECT bgp.main.is_large_community('65001:1:2') AS is_large";

/// The analyst task `rib_count`.
pub const TASK_RIB_COUNT: &'static str = "\
     The file data/rib.mrt is an MRT TABLE_DUMP_V2 RIB snapshot. Count how many RIB entries it \
     contains and return the count as a single column named entries.";

/// The solution of the analyst task `rib_count`.
pub const TASK_RIB_COUNT_SQL: &'static str = "\
     SELECT count(*) AS entries FROM bgp.main.read_rib('data/rib.mrt')";

/// The analyst task `rib_prefix_contains`.
pub const TASK_RIB_PREFIX_CONTAINS: &'static str = "\
     From the RIB snapshot data/rib.mrt, count how many routes cover the address 203.0.113.5 \
     (the prefix contains it). Return the count as a single column named routes.";

/// The solution of the analyst task `rib_prefix_contains`.
pub const TASK_RIB_PREFIX_CONTAINS_SQL: &'static str = "\
     SELECT count(*) AS routes FROM bgp.main.read_rib('data/rib.mrt') WHERE prefix::INET >>= \
     '203.0.113.5'::INET";

/// The example queries of the catalog: part 1.
pub const CATALOG_QUERIES_1: &'static str = "\
     SELECT bgp.main.bgp_version();\nSELECT bgp.main.path_length([7018, 174, 13335]);\nSELECT \
     bgp.main.origin_asn([7018, 174, 13335]);\nSELECT bgp.main.as_path_prepends([7018, 174, \
     174, 13335]);\nSELECT bgp.main.path_contains([7018, 174, 13335], 174);\nSELECT \
     bgp.main.community_parse('65001:100');\nSELECT bgp.main.is_large_community('65001:1:2');\n\
     SELECT count(*) FROM bgp.main.read_rib(from_hex('";

/// The example queries of the catalog: part 2.
pub const CATALOG_QUERIES_2: &'static str = "\
     '));\nSELECT message_type, count(*) FROM bgp.main.read_updates(from_hex('";

/// The example queries of the catalog: part 3.
pub const CATALOG_QUERIES_3: &'static str = "\
     ')) GROUP BY 1;\nSELECT * FROM bgp.main.peers(from_hex('";

/// The example queries of the catalog: part 4.
pub const CATALOG_QUERIES_4: &'static str = "'));";

/// The example queries of the schema: part 1.
pub const SCHEMA_QUERIES_1: &'static str = "\
     SELECT bgp.main.bgp_version();\nSELECT bgp.main.path_length([7018, 174, 13335]);\nSELECT \
     bgp.main.origin_asn([7018, 174, 13335]);\nSELECT bgp.main.as_path_prepends([7018, 174, \
     174, 13335]);\nSELECT bgp.main.path_contains([7018, 174, 13335], 174);\nSELECT \
     bgp.main.community_parse('65001:100');\nSELECT bgp.main.is_large_community('65001:1:2');\n\
     SELECT count(*) FROM bgp.main.read_rib(from_hex('";

/// The example queries of the schema: part 2.
pub const SCHEMA_QUERIES_2: &'static str = "\
     '));\nSELECT origin_asn, as_path, bgp.main.path_length(as_path) AS hops FROM \
     bgp.main.read_rib(from_hex('";

/// The example queries of the schema: part 3.
pub const SCHEMA_QUERIES_3: &'static str = "\
     ')) ORDER BY hops;\nSELECT message_type, count(*) FROM bgp.main.read_updates(from_hex('";

/// The example queries of the schema: part 4.
pub const SCHEMA_QUERIES_4: &'static str = "')) GROUP BY 1;";

/// The copyright notice.
pub const COPYRIGHT: &'static str = "Copyright 2026 Query Farm LLC - https://query.farm";

/// Where to report issues.
pub const SUPPORT_CONTACT: &'static str = "https://github.com/Query-farm/vgi-bgp/issues";

/// Where the support policy stands.
pub const SUPPORT_POLICY_URL: &'static str = "\
     https://github.com/Query-farm/vgi-bgp/blob/main/README.md";

/// Where the code lives.
pub const SOURCE_URL: &'static str = "https://github.com/Query-farm/vgi-bgp";

/// What the schema holds.
pub const SCHEMA_COMMENT: &'static str = "\
     MRT decode (read_rib / read_updates / peers) plus AS-path and community helper functions.";

/// The schema's display name.
pub const SCHEMA_TITLE: &'static str = "BGP — main";

/// The schema's search terms.
pub const SCHEMA_KEYWORDS: &'static str = "\
     read_rib, read_updates, peers, path_length, origin_asn, as_path_prepends, path_contains, \
     community_parse, is_large_community, MRT, BGP, INET, prefix, AS path";

/// The schema for language models.
pub const SCHEMA_LLM: &'static str = "\
     Functions for MRT routing dumps: scan a TABLE_DUMP_V2 RIB into rows (`read_rib`), a \
     BGP4MP update stream into rows (`read_updates`), list distinct peers (`peers`), and the \
     AS-path (`path_length`, `origin_asn`, `as_path_prepends`, `path_contains`) and community \
     (`community_parse`, `is_large_community`) helpers, plus `bgp_version`. \
     read_rib/read_updates emit prefix / peer_ip / next_hop as DuckDB INET (cast `::INET`), \
     as_path as LIST(UINTEGER), communities as LIST(VARCHAR).";

/// The schema in Markdown.
pub const SCHEMA_MD: &'static str = "\
     The single schema for the `bgp` worker — the catalog name matches the ATTACH name, so \
     qualify calls as `bgp.main.<fn>(...)`. It holds the MRT table functions `read_rib`, \
     `read_updates`, and `peers`, the AS-path scalars `path_length` / `origin_asn` / \
     `as_path_prepends` / `path_contains`, the community scalars `community_parse` / \
     `is_large_community`, and `bgp_version`.";

/// The example queries of the catalog, over inline MRT bytes.
pub open spec fn catalog_queries_text() -> Seq<char> {
    CATALOG_QUERIES_1@ + RIB_MRT_HEX@ + CATALOG_QUERIES_2@ + UPD_MRT_HEX@ + CATALOG_QUERIES_3@ + RIB_MRT_HEX@ + CATALOG_QUERIES_4@
}

fn catalog_queries() -> (out: String)
    ensures
        out@ == catalog_queries_text(),
{
    let mut out = CATALOG_QUERIES_1.to_string();
    out.append(RIB_MRT_HEX);
    out.append(CATALOG_QUERIES_2);
    out.append(UPD_MRT_HEX);
    out.append(CATALOG_QUERIES_3);
    out.append(RIB_MRT_HEX);
    out.append(CATALOG_QUERIES_4);
    out
}

/// The example queries of the schema, over inline MRT bytes.
pub open spec fn schema_queries_text() -> Seq<char> {
    SCHEMA_QUERIES_1@ + RIB_MRT_HEX@ + SCHEMA_QUERIES_2@ + RIB_MRT_HEX@ + SCHEMA_QUERIES_3@ + UPD_MRT_HEX@ + SCHEMA_QUERIES_4@
}

fn schema_queries() -> (out: String)
    ensures
        out@ == schema_queries_text(),
{
    let mut out = SCHEMA_QUERIES_1.to_string();
    out.append(RIB_MRT_HEX);
    out.append(SCHEMA_QUERIES_2);
    out.append(RIB_MRT_HEX);
    out.append(SCHEMA_QUERIES_3);
    out.append(UPD_MRT_HEX);
    out.append(SCHEMA_QUERIES_4);
    out
}

/// The analyst tasks, as JSON objects.
pub open spec fn analyst_tasks() -> Seq<Seq<Member>> {
    seq![
        task_members("version"@, TASK_VERSION@, TASK_VERSION_SQL@),
        task_members("path_hops"@, TASK_PATH_HOPS@, TASK_PATH_HOPS_SQL@),
        task_members("origin"@, TASK_ORIGIN@, TASK_ORIGIN_SQL@),
        task_members("large_community"@, TASK_LARGE_COMMUNITY@, TASK_LARGE_COMMUNITY_SQL@),
        task_members("rib_count"@, TASK_RIB_COUNT@, TASK_RIB_COUNT_SQL@),
        task_members("rib_prefix_contains"@, TASK_RIB_PREFIX_CONTAINS@, TASK_RIB_PREFIX_CONTAINS_SQL@),
    ]
}

fn tasks_json() -> (out: String)
    ensures
        out@ == tasks_array(analyst_tasks()),
{
    let mut tasks: Vec<(&str, &str, &str)> = Vec::new();
    tasks.push(("version", TASK_VERSION, TASK_VERSION_SQL));
    tasks.push(("path_hops", TASK_PATH_HOPS, TASK_PATH_HOPS_SQL));
    tasks.push(("origin", TASK_ORIGIN, TASK_ORIGIN_SQL));
    tasks.push(("large_community", TASK_LARGE_COMMUNITY, TASK_LARGE_COMMUNITY_SQL));
    tasks.push(("rib_count", TASK_RIB_COUNT, TASK_RIB_COUNT_SQL));
    tasks.push(("rib_prefix_contains", TASK_RIB_PREFIX_CONTAINS, TASK_RIB_PREFIX_CONTAINS_SQL));
    assert(tasks_members(tasks@) == analyst_tasks());
    agent_test_tasks_json(tasks.as_slice())
}

/// The tags of the catalog.
pub open spec fn catalog_tag_views() -> Seq<TagView> {
    seq![
        ("vgi.title"@, CATALOG_TITLE@),
        ("vgi.keywords"@, keywords_array(CATALOG_KEYWORDS@)),
        ("vgi.doc_llm"@, CATALOG_LLM@),
        ("vgi.doc_md"@, CATALOG_MD@),
        ("vgi.agent_test_tasks"@, tasks_array(analyst_tasks())),
        ("vgi.example_queries"@, catalog_queries_text()),
        ("vgi.author"@, "Query.Farm"@),
        ("vgi.copyright"@, COPYRIGHT@),
        ("vgi.license"@, "MIT"@),
        ("vgi.support_contact"@, SUPPORT_CONTACT@),
        ("vgi.support_policy_url"@, SUPPORT_POLICY_URL@),
    ]
}

fn catalog_tags() -> (tags: Vec<(String, String)>)
    ensures
        tag_views(tags@) == catalog_tag_views(),
{
    let mut tags: Vec<(String, String)> = Vec::new();
    add_tag(&mut tags, "vgi.title", CATALOG_TITLE.to_string());
    add_tag(&mut tags, "vgi.keywords", keywords_json(CATALOG_KEYWORDS));
    add_tag(&mut tags, "vgi.doc_llm", CATALOG_LLM.to_string());
    add_tag(&mut tags, "vgi.doc_md", CATALOG_MD.to_string());
    add_tag(&mut tags, "vgi.agent_test_tasks", tasks_json());
    add_tag(&mut tags, "vgi.example_queries", catalog_queries());
    add_tag(&mut tags, "vgi.author", "Query.Farm".to_string());
    add_tag(&mut tags, "vgi.copyright", COPYRIGHT.to_string());
    add_tag(&mut tags, "vgi.license", "MIT".to_string());
    add_tag(&mut tags, "vgi.support_contact", SUPPORT_CONTACT.to_string());
    add_tag(&mut tags, "vgi.support_policy_url", SUPPORT_POLICY_URL.to_string());
    assert(tag_views(tags@) == catalog_tag_views());
    tags
}

/// The tags of the schema.
pub open spec fn schema_tag_views() -> Seq<TagView> {
    seq![
        ("vgi.title"@, SCHEMA_TITLE@),
        ("vgi.keywords"@, keywords_array(SCHEMA_KEYWORDS@)),
        ("domain"@, "network-security"@),
        ("category"@, "routing-and-bgp"@),
        ("topic"@, "mrt-decoding"@),
        ("vgi.doc_llm"@, SCHEMA_LLM@),
        ("vgi.doc_md"@, SCHEMA_MD@),
        ("vgi.example_queries"@, schema_queries_text()),
    ]
}

fn schema_tags() -> (tags: Vec<(String, String)>)
    ensures
        tag_views(tags@) == schema_tag_views(),
{
    let mut tags: Vec<(String, String)> = Vec::new();
    add_tag(&mut tags, "vgi.title", SCHEMA_TITLE.to_string());
    add_tag(&mut tags, "vgi.keywords", keywords_json(SCHEMA_KEYWORDS));
    add_tag(&mut tags, "domain", "network-security".to_string());
    add_tag(&mut tags, "category", "routing-and-bgp".to_string());
    add_tag(&mut tags, "topic", "mrt-decoding".to_string());
    add_tag(&mut tags, "vgi.doc_llm", SCHEMA_LLM.to_string());
    add_tag(&mut tags, "vgi.doc_md", SCHEMA_MD.to_string());
    add_tag(&mut tags, "vgi.example_queries", schema_queries());
    assert(tag_views(tags@) == schema_tag_views());
    tags
}

/// The catalog under a name.
pub open spec fn catalog_of(name: Seq<char>) -> CatalogView {
    CatalogView {
        name,
        comment: Some(CATALOG_COMMENT@),
        tags: catalog_tag_views(),
        source_url: Some(SOURCE_URL@),
        implementation_version: Some(VERSION@),
        schemas: seq![
            SchemaView {
                name: "main"@,
                comment: Some(SCHEMA_COMMENT@),
                tags: schema_tag_views(),
            },
        ],
    }
}

/// Catalog + schema metadata under the catalog name that DuckDB attaches.
pub fn catalog_metadata(name: &str) -> (model: CatalogModel)
    ensures
        model@ == catalog_of(name@),
{
    let mut schemas: Vec<CatSchema> = Vec::new();
    schemas.push(
        CatSchema {
            name: "main".to_string(),
            comment: Some(SCHEMA_COMMENT.to_string()),
            tags: schema_tags(),
        },
    );
    let model = CatalogModel {
        name: name.to_string(),
        comment: Some(CATALOG_COMMENT.to_string()),
        tags: catalog_tags(),
        source_url: Some(SOURCE_URL.to_string()),
        implementation_version: Some(version().to_string()),
        schemas,
    };
    assert(model@.schemas == catalog_of(name@).schemas);
    model
}

} // verus!
