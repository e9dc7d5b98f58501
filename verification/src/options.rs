//! Shared option parsing for the table functions: the overloaded `src` argument (a VARCHAR
//! path / list of paths / `s3://` / `http(s)://` URL, or an inline BLOB of MRT bytes), the
//! `strict` toggle, and the `s3://` object-store overrides.
use crate::arrow_io::str_at;
use crate::arrow_io::str_cell;
use crate::cloud::add_option;
use crate::cloud::endpoint_option;
use crate::cloud::endpoint_value;
use crate::cloud::http_option;
use crate::cloud::option_of;
use crate::cloud::option_views;
use crate::cloud::parse_bool;
use crate::cloud::path_style;
use crate::cloud::plain_http;
use crate::cloud::style_option;
use crate::cloud::switch_of;
use crate::cloud::OptionView;
use crate::columns::binary_at;
use crate::columns::binary_cells;
use crate::columns::cell_count;
use crate::columns::column_cells;
use crate::columns::column_len;
use crate::columns::is_text;
use crate::columns::is_valid;
use crate::columns::large_list_at;
use crate::columns::large_list_slots;
use crate::columns::list_at;
use crate::columns::list_slots;
use crate::columns::text_cells;
use crate::columns::type_view;
use crate::columns::Cells;
use crate::columns::Column;
use crate::columns::TypeView;
use crate::decode::copy_text;
use crate::decode::text_view;
use crate::error::bad_value;
use crate::error::Error;
use crate::error::ErrorText;
use crate::mrt::string_views;
use arrow_schema::DataType;
use vstd::prelude::*;

verus! {

/// The decoded `src` argument: one or more paths/URLs, or inline MRT bytes.
#[derive(Debug, PartialEq, Eq)]
pub enum Src {
    /// One or more local paths / globs / `s3://` / `http(s)://` URLs.
    Paths(Vec<String>),
    /// Inline MRT bytes passed as a BLOB.
    Bytes(Vec<u8>),
}

/// A [`Src`], with its paths or bytes as sequences.
pub enum SrcView {
    Paths(Seq<Seq<char>>),
    Bytes(Seq<u8>),
}

impl View for Src {
    type V = SrcView;

    open spec fn view(&self) -> SrcView {
        match *self {
            Src::Paths(paths) => SrcView::Paths(string_views(paths@)),
            Src::Bytes(bytes) => SrcView::Bytes(bytes@),
        }
    }
}

/// A result of [`source`], by its view.
pub open spec fn source_view(out: Result<Src, Error>) -> Result<SrcView, ErrorText> {
    match out {
        Ok(src) => Ok(src@),
        Err(e) => Err(e@),
    }
}

/// The texts that are not null, in order.
pub open spec fn present(texts: Seq<Option<Seq<char>>>) -> Seq<Seq<char>>
    decreases texts.len(),
{
    if texts.len() == 0 {
        Seq::empty()
    } else {
        match texts.last() {
            Some(t) => present(texts.drop_last()).push(t),
            None => present(texts.drop_last()),
        }
    }
}

/// The items in the first slot of a list argument, valid or not.
pub open spec fn first_items(cells: Cells) -> Option<Cells> {
    match list_slots(cells) {
        Some(slots) => Some(slots[0]),
        None => match large_list_slots(cells) {
            Some(slots) => Some(slots[0]),
            None => None,
        },
    }
}

/// The first bytes of a BLOB argument, unless they are null.
pub open spec fn first_bytes(cells: Cells) -> Option<Seq<u8>> {
    match binary_cells(cells) {
        Some(c) => c[0],
        None => None,
    }
}

/// The `src` argument: a VARCHAR path, else a BLOB of MRT bytes, else a list of VARCHAR
/// paths of which at least one is not null.
pub open spec fn source_of(arg: Option<Cells>) -> Result<SrcView, ErrorText> {
    match arg {
        None => Err(
            bad_value("a source path, list of paths, or BLOB of MRT bytes is required"@),
        ),
        Some(cells) => match str_cell(cells, 0) {
            Some(path) => Ok(SrcView::Paths(seq![path])),
            None => match first_bytes(cells) {
                Some(bytes) => Ok(SrcView::Bytes(bytes)),
                None => match first_items(cells) {
                    None => Err(
                        bad_value(
                            "src must be a VARCHAR path, a LIST(VARCHAR), or a BLOB of MRT bytes"@,
                        ),
                    ),
                    Some(items) => match text_cells(items) {
                        None => Err(bad_value("path list elements must be VARCHAR"@)),
                        Some(texts) => if present(texts).len() == 0 {
                            Err(bad_value("src path list is empty"@))
                        } else {
                            Ok(SrcView::Paths(present(texts)))
                        },
                    },
                },
            },
        },
    }
}

/// The cells of an optional argument.
pub open spec fn arg_cells(arg: Option<&Column>) -> Option<Cells> {
    match arg {
        Some(column) => Some(column_cells(*column)),
        None => None,
    }
}

/// The texts of a string column that are not null.
fn present_texts(items: &Column) -> (out: Vec<String>)
    requires
        text_cells(column_cells(*items)) is Some,
    ensures
        string_views(out@) == present(text_cells(column_cells(*items))->0),
{
    let mut out: Vec<String> = Vec::new();
    let ghost texts = text_cells(column_cells(*items))->0;
    let n: usize = column_len(items);
    assert(string_views(out@) == Seq::<Seq<char>>::empty());
    assert(texts.take(0) == Seq::<Option<Seq<char>>>::empty());
    for i in 0..n
        invariant
            text_cells(column_cells(*items)) == Some(texts),
            n == cell_count(column_cells(*items)),
            n == texts.len(),
            string_views(out@) == present(texts.take(i as int)),
    {
        assert(texts.take(i as int + 1).drop_last() == texts.take(i as int));
        if let Some(text) = str_at(items, i) {
            let ghost before = out@;
            out.push(text.to_string());
            assert(string_views(out@) == string_views(before).push(text@));
        }
    }
    assert(texts.take(texts.len() as int) == texts);
    out
}

/// The bytes of a BLOB argument, unless they are null.
fn blob_bytes(arr: &Column) -> (out: Option<Vec<u8>>)
    requires
        cell_count(column_cells(*arr)) > 0,
    ensures
        match out {
            Some(bytes) => first_bytes(column_cells(*arr)) == Some(bytes@),
            None => first_bytes(column_cells(*arr)) is None,
        },
{
    match binary_at(arr, 0) {
        Some(bytes) => if is_valid(arr, 0) {
            let mut copy: Vec<u8> = Vec::new();
            copy.extend_from_slice(bytes);
            assert(copy@ == bytes@);
            Some(copy)
        } else {
            None
        },
        None => None,
    }
}

/// Read the `src` argument: a single VARCHAR path, a `LIST(VARCHAR)` of paths, or a BLOB of
/// MRT bytes (the `path` vs `bytes` overload). An argument is a column of one row.
pub fn source(arg: Option<&Column>) -> (out: Result<Src, Error>)
    requires
        arg is Some ==> cell_count(column_cells(*arg->0)) > 0,
    ensures
        source_view(out) == source_of(arg_cells(arg)),
{
    let arr = match arg {
        Some(arr) => arr,
        None => {
            return Err(
                Error::value_error(
                    "a source path, list of paths, or BLOB of MRT bytes is required".to_string(),
                ),
            );
        },
    };
    // VARCHAR path (the common case).
    if let Some(path) = str_at(arr, 0) {
        let mut paths: Vec<String> = Vec::new();
        paths.push(path.to_string());
        assert(string_views(paths@) == seq![path@]);
        return Ok(Src::Paths(paths));
    }
    // BLOB of MRT bytes.
    if let Some(bytes) = blob_bytes(arr) {
        return Ok(Src::Bytes(bytes));
    }
    // LIST(VARCHAR) of paths.
    let items = match list_at(arr, 0) {
        Some(items) => items,
        None => match large_list_at(arr, 0) {
            Some(items) => items,
            None => {
                return Err(
                    Error::value_error(
                        "src must be a VARCHAR path, a LIST(VARCHAR), or a BLOB of MRT bytes".to_string(),
                    ),
                );
            },
        },
    };
    if !is_text(&items) {
        return Err(Error::value_error("path list elements must be VARCHAR".to_string()));
    }
    let paths = present_texts(&items);
    assert(string_views(paths@).len() == paths@.len());
    if paths.len() == 0 {
        return Err(Error::value_error("src path list is empty".to_string()));
    }
    Ok(Src::Paths(paths))
}

/// The paths of a `src` argument; none for a BLOB or a bad argument.
pub open spec fn paths_of(src: Result<SrcView, ErrorText>) -> Seq<Seq<char>> {
    match src {
        Ok(SrcView::Paths(paths)) => paths,
        _ => Seq::empty(),
    }
}

/// Just the paths form of `src` (for the secret lookups, which only matter for remote
/// paths). Returns an empty list for a BLOB source.
pub fn source_paths(arg: Option<&Column>) -> (paths: Vec<String>)
    requires
        arg is Some ==> cell_count(column_cells(*arg->0)) > 0,
    ensures
        string_views(paths@) == paths_of(source_of(arg_cells(arg))),
{
    match source(arg) {
        Ok(Src::Paths(paths)) => paths,
        _ => {
            let none: Vec<String> = Vec::new();
            assert(string_views(none@) == Seq::<Seq<char>>::empty());
            none
        },
    }
}

/// The named arguments of a table function, as far as they were given.
#[derive(Debug)]
pub struct NamedArgs {
    pub strict: Option<bool>,
    pub endpoint: Option<String>,
    pub region: Option<String>,
    pub url_style: Option<String>,
    /// `use_ssl`, given as a boolean.
    pub use_ssl: Option<bool>,
    /// `use_ssl`, given as a text.
    pub use_ssl_text: Option<String>,
}

/// The `strict` toggle: when true, a malformed MRT record aborts the scan with an error
/// instead of yielding an error row. Default false (per-record capture).
pub fn strict(args: &NamedArgs) -> (strict: bool)
    ensures
        strict == (args.strict == Some(true)),
{
    match args.strict {
        Some(strict) => strict,
        None => false,
    }
}

/// Whether TLS is asked for: the boolean counts, else the text.
pub open spec fn wants_ssl(args: NamedArgs) -> Option<bool> {
    match args.use_ssl {
        Some(b) => Some(b),
        None => match args.use_ssl_text {
            Some(text) => switch_of(text@),
            None => None,
        },
    }
}

/// The object-store options that named arguments ask for.
pub open spec fn override_options(args: NamedArgs) -> Seq<OptionView> {
    option_of("aws_endpoint"@, endpoint_value(text_view(args.endpoint), wants_ssl(args)))
        + option_of("aws_region"@, text_view(args.region)) + option_of(
        "aws_virtual_hosted_style_request"@,
        path_style(text_view(args.url_style)),
    ) + option_of("aws_allow_http"@, plain_http(wants_ssl(args)))
}

/// Named-argument object-store overrides (`endpoint =>`, `region =>`, `url_style =>`,
/// `use_ssl =>`) for `s3://` paths.
pub fn cloud_overrides(args: &NamedArgs) -> (options: Vec<(String, String)>)
    ensures
        option_views(options@) == override_options(*args),
{
    let mut options: Vec<(String, String)> = Vec::new();
    let use_ssl = match args.use_ssl {
        Some(b) => Some(b),
        None => match &args.use_ssl_text {
            Some(text) => parse_bool(text.as_str()),
            None => None,
        },
    };
    assert(option_views(options@) == Seq::<OptionView>::empty());
    let endpoint = endpoint_option(copy_text(&args.endpoint), use_ssl);
    let ghost e = text_view(endpoint);
    add_option(&mut options, "aws_endpoint", endpoint);
    assert(option_views(options@) == option_of("aws_endpoint"@, e));
    add_option(&mut options, "aws_region", copy_text(&args.region));
    add_option(
        &mut options,
        "aws_virtual_hosted_style_request",
        style_option(copy_text(&args.url_style)),
    );
    add_option(&mut options, "aws_allow_http", http_option(use_ssl));
    options
}

/// What a function takes as an argument.
pub struct ArgSpec {
    pub name: String,
    /// 0-based position; `-1` for a named argument.
    pub position: i32,
    /// The type by name, where `data_type` does not give it.
    pub arrow_type: String,
    pub data_type: Option<DataType>,
    pub doc: String,
    /// Whether the value is fixed at bind time.
    pub is_const: bool,
}

/// An [`ArgSpec`], with its texts as sequences.
pub struct ArgView {
    pub name: Seq<char>,
    pub position: int,
    pub arrow_type: Seq<char>,
    pub data_type: Option<TypeView>,
    pub doc: Seq<char>,
    pub is_const: bool,
}

impl View for ArgSpec {
    type V = ArgView;

    open spec fn view(&self) -> ArgView {
        ArgView {
            name: self.name@,
            position: self.position as int,
            arrow_type: self.arrow_type@,
            data_type: match self.data_type {
                Some(ty) => Some(type_view(ty)),
                None => None,
            },
            doc: self.doc@,
            is_const: self.is_const,
        }
    }
}

/// The views of a list of argument specs.
pub open spec fn arg_views(specs: Seq<ArgSpec>) -> Seq<ArgView> {
    specs.map_values(|s: ArgSpec| s@)
}

/// A constant argument.
pub open spec fn const_view(
    name: Seq<char>,
    position: int,
    arrow_type: Seq<char>,
    doc: Seq<char>,
) -> ArgView {
    ArgView { name, position, arrow_type, data_type: None, doc, is_const: true }
}

/// A column argument of a concrete type.
pub open spec fn column_view(
    name: Seq<char>,
    position: int,
    ty: TypeView,
    doc: Seq<char>,
) -> ArgView {
    ArgView { name, position, arrow_type: ""@, data_type: Some(ty), doc, is_const: false }
}

impl ArgSpec {
    /// A constant argument of the type with the given name.
    pub fn const_arg(name: &str, position: i32, arrow_type: &str, doc: &str) -> (spec: ArgSpec)
        ensures
            spec@ == const_view(name@, position as int, arrow_type@, doc@),
    {
        ArgSpec {
            name: name.to_string(),
            position,
            arrow_type: arrow_type.to_string(),
            data_type: None,
            doc: doc.to_string(),
            is_const: true,
        }
    }

    /// A column argument of a concrete type.
    pub fn column_typed(name: &str, position: i32, ty: DataType, doc: &str) -> (spec: ArgSpec)
        ensures
            spec@ == column_view(name@, position as int, type_view(ty), doc@),
    {
        ArgSpec {
            name: name.to_string(),
            position,
            arrow_type: "".to_string(),
            data_type: Some(ty),
            doc: doc.to_string(),
            is_const: false,
        }
    }
}

/// What `strict` is for.
pub const STRICT_DOC: &'static str = "When true, a malformed MRT record aborts the scan with an \
     error. When false (the default), each bad record yields a row with NULL fields and a \
     populated `error` column, so a truncated tail record never crashes the query.";

/// What `endpoint` is for.
pub const ENDPOINT_DOC: &'static str = "Custom S3 endpoint for an `s3://` path (e.g. MinIO/R2 \
     'host:9000'). Overrides any endpoint from a CREATE SECRET.";

/// What `region` is for.
pub const REGION_DOC: &'static str = "AWS region for an `s3://` path. Overrides the region from a \
     CREATE SECRET.";

/// What `url_style` is for.
pub const URL_STYLE_DOC: &'static str = "S3 addressing for an `s3://` path: 'path' (path-style, \
     e.g. MinIO) or 'vhost' (the default).";

/// What `use_ssl` is for.
pub const USE_SSL_DOC: &'static str = "Whether to use TLS for an `s3://` path's custom endpoint \
     (default true). Set false for a plain-HTTP endpoint such as a local MinIO.";

/// The object-store override arguments.
pub open spec fn cloud_args() -> Seq<ArgView> {
    seq![
        const_view("endpoint"@, -1, "varchar"@, ENDPOINT_DOC@),
        const_view("region"@, -1, "varchar"@, REGION_DOC@),
        const_view("url_style"@, -1, "varchar"@, URL_STYLE_DOC@),
        const_view("use_ssl"@, -1, "boolean"@, USE_SSL_DOC@),
    ]
}

/// `strict` and the object-store override arguments.
pub open spec fn common_args() -> Seq<ArgView> {
    seq![const_view("strict"@, -1, "boolean"@, STRICT_DOC@)] + cloud_args()
}

/// The shared named-argument specs: `strict` plus the `s3://` overrides. Used by read_rib /
/// read_updates, which capture per-record errors and honor `strict`.
pub fn common_arg_specs() -> (specs: Vec<ArgSpec>)
    ensures
        arg_views(specs@) == common_args(),
{
    let mut specs: Vec<ArgSpec> = Vec::new();
    specs.push(ArgSpec::const_arg("strict", -1, "boolean", STRICT_DOC));
    let mut more = cloud_arg_specs();
    let ghost first = specs@;
    let ghost rest = more@;
    specs.append(&mut more);
    assert(arg_views(specs@) == arg_views(first) + arg_views(rest));
    assert(arg_views(first) == seq![const_view("strict"@, -1, "boolean"@, STRICT_DOC@)]);
    specs
}

/// The `s3://` object-store override specs (`endpoint`, `region`, `url_style`, `use_ssl`)
/// shared by every source function — including `peers`, which has no `strict` option.
pub fn cloud_arg_specs() -> (specs: Vec<ArgSpec>)
    ensures
        arg_views(specs@) == cloud_args(),
{
    let mut specs: Vec<ArgSpec> = Vec::new();
    specs.push(ArgSpec::const_arg("endpoint", -1, "varchar", ENDPOINT_DOC));
    specs.push(ArgSpec::const_arg("region", -1, "varchar", REGION_DOC));
    specs.push(ArgSpec::const_arg("url_style", -1, "varchar", URL_STYLE_DOC));
    specs.push(ArgSpec::const_arg("use_ssl", -1, "boolean", USE_SSL_DOC));
    assert(arg_views(specs@) == cloud_args());
    specs
}

} // verus!
