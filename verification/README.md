# bgp

Decode MRT routing dumps (`BGP4MP` updates and `TABLE_DUMP_V2` RIB snapshots) into rows, for
DuckDB. The library is written in Verus: what every function returns is stated in its contract
and proved.

## Layout

- `src/decode.rs`, `src/mrt.rs`, `src/stream.rs`: from bytes to records to rows.
- `src/scan.rs`: what a scan over several sources yields, and the laws of it: nothing is lost
  or repeated between batches or across a resume, a lenient scan never fails, a strict one
  stops at the first failure.
- `src/reader.rs`, `src/peers.rs`: the producers behind `read_rib`, `read_updates` and `peers`.
- `src/arrow_io.rs`, `src/columns.rs`, `src/inet.rs`, `src/time.rs`: rows as Arrow columns.
- `src/aspath.rs`, `src/community.rs`, `src/scalar/`: the SQL scalar functions.
- `src/cloud.rs`, `src/sources.rs`, `src/options.rs`, `src/secrets.rs`, `src/urls.rs`,
  `src/percent.rs`, `src/keys.rs`: from arguments to byte sources.
- `src/table/`, `src/catalog.rs`, `src/meta.rs`, `src/json.rs`: what the functions tell of themselves.
- `app/`: the worker process around the library: files, HTTP, S3 and the RPC traits.
- `tests/`: the library on concrete values, with the real crates linked.

## What is trusted

Calls into other crates stand in small functions marked `external_body`, each with a contract
that says what the crate's source shows: MRT parsing (`src/mrt.rs`), gzip and bzip2
(`src/stream.rs`), Arrow arrays and schemas (`src/columns.rs`), URLs and glob patterns
(`src/urls.rs`), percent-encoding (`src/percent.rs`) and secrets (`src/secrets.rs`). Everything
else is proved against them.
