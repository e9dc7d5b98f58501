//! Laws of arguments: from what a query says to what is read, and with which options.
use crate::cloud::are_secret_options;
use crate::cloud::are_store_options;
use crate::cloud::endpoint_url;
use crate::cloud::found_options;
use crate::cloud::is_expansion;
use crate::cloud::is_glob;
use crate::cloud::is_http;
use crate::cloud::key_of_url;
use crate::cloud::list_prefix;
use crate::cloud::option_of;
use crate::cloud::secret_options;
use crate::cloud::switch_of;
use crate::cloud::Location;
use crate::cloud::LocationView;
use crate::cloud::OptionView;
use crate::columns::Cells;
use crate::error::Blame;
use crate::error::Error;
use crate::error::ErrorText;
use crate::mrt::string_views;
use crate::options::cloud_args;
use crate::options::column_view;
use crate::options::common_args;
use crate::options::const_view;
use crate::options::override_options;
use crate::options::paths_of;
use crate::options::present;
use crate::options::source_of;
use crate::options::wants_ssl;
use crate::options::ArgView;
use crate::options::NamedArgs;
use crate::options::Src;
use crate::options::SrcView;
use crate::scan::SourceView;
use crate::secrets::fields_of;
use crate::secrets::is_pick;
use crate::secrets::FieldMap;
use crate::secrets::FieldsView;
use crate::secrets::SecretFields;
use crate::sources::is_local_resolution;
use crate::sources::is_resolution;
use crate::sources::location_views;
use crate::sources::question_at;
use crate::sources::sources_at;
use crate::sources::sources_of;
use crate::sources::Answer;
use crate::sources::QuestionView;
use crate::table::src_arg;
use crate::text::ascii_lower;
use crate::text::occurs_at;
use crate::text::trimmed;
use crate::urls::in_order;
use crate::urls::parsed_pattern;
use crate::urls::url_scheme;
use crate::urls::url_text;
use url::Url;
use vstd::prelude::*;

verus! {

/// A text is a path, a BLOB is MRT bytes, and a list of texts is a list of paths, nulls left out.
pub proof fn sources_are_given_by_type(c: Seq<Option<Seq<char>>>, b: Seq<Option<Seq<u8>>>)
    requires
        c.len() > 0,
        b.len() > 0,
    ensures
        c[0] is Some ==> source_of(Some(Cells::Utf8(c))) == Ok::<SrcView, ErrorText>(
            SrcView::Paths(seq![c[0]->0]),
        ),
        c[0] is Some ==> source_of(Some(Cells::LargeUtf8(c))) == Ok::<SrcView, ErrorText>(
            SrcView::Paths(seq![c[0]->0]),
        ),
        b[0] is Some ==> source_of(Some(Cells::Binary(b))) == Ok::<SrcView, ErrorText>(
            SrcView::Bytes(b[0]->0),
        ),
        b[0] is Some ==> source_of(Some(Cells::LargeBinary(b))) == Ok::<SrcView, ErrorText>(
            SrcView::Bytes(b[0]->0),
        ),
{
}

/// A list gives its paths in order, and must hold at least one.
pub proof fn lists_give_their_paths(column: Cells, texts: Seq<Option<Seq<char>>>)
    requires
        ({
            ||| column matches Cells::List { slots, .. } && slots[0] == Cells::Utf8(texts)
            ||| column matches Cells::List { slots, .. } && slots[0] == Cells::LargeUtf8(texts)
            ||| column matches Cells::LargeList { slots, .. } && slots[0] == Cells::Utf8(texts)
            ||| column matches Cells::LargeList { slots, .. } && slots[0] == Cells::LargeUtf8(texts)
        }),
    ensures
        present(texts).len() > 0 ==> source_of(Some(column)) == Ok::<SrcView, ErrorText>(
            SrcView::Paths(present(texts)),
        ),
        present(texts).len() == 0 ==> source_of(Some(column)) == Err::<SrcView, ErrorText>(
            ErrorText { blame: Blame::Value, message: "src path list is empty"@ },
        ),
{
}

/// What is missing or of another type is refused, and the error says what is wanted.
pub proof fn other_sources_are_refused(column: Cells)
    ensures
        source_of(None) == Err::<SrcView, ErrorText>(
            ErrorText {
                blame: Blame::Value,
                message: "a source path, list of paths, or BLOB of MRT bytes is required"@,
            },
        ),
        !(column is Utf8) && !(column is LargeUtf8) && !(column is Binary) && !(column is LargeBinary)
            && !(column is List) && !(column is LargeList) ==> source_of(Some(column)) == Err::<
            SrcView,
            ErrorText,
        >(
            ErrorText {
                blame: Blame::Value,
                message: "src must be a VARCHAR path, a LIST(VARCHAR), or a BLOB of MRT bytes"@,
            },
        ),
        (column matches Cells::Utf8(c) && c[0] is None) || (column matches Cells::LargeUtf8(c) && c[0]
            is None) || (column matches Cells::Binary(c) && c[0] is None) || (
        column matches Cells::LargeBinary(c) && c[0] is None) ==> source_of(Some(column)) == Err::<
            SrcView,
            ErrorText,
        >(
            ErrorText {
                blame: Blame::Value,
                message: "src must be a VARCHAR path, a LIST(VARCHAR), or a BLOB of MRT bytes"@,
            },
        ),
        (column matches Cells::List { slots, .. } && !(slots[0] is Utf8) && !(slots[0] is LargeUtf8))
            ==> source_of(Some(column)) == Err::<SrcView, ErrorText>(
            ErrorText { blame: Blame::Value, message: "path list elements must be VARCHAR"@ },
        ),
{
}

/// Leaving nulls out keeps the rest, in order.
pub proof fn nulls_are_left_out(
    a: Seq<Option<Seq<char>>>,
    b: Seq<Option<Seq<char>>>,
    text: Seq<char>,
)
    ensures
        present(a + b) == present(a) + present(b),
        present(seq![Some(text)]) == seq![text],
        present(seq![None]) == Seq::<Seq<char>>::empty(),
        present(Seq::empty()) == Seq::<Seq<char>>::empty(),
    decreases b.len(),
{
    assert(seq![Some(text)].drop_last() == Seq::<Option<Seq<char>>>::empty());
    assert(present(seq![Some(text)].drop_last()) == Seq::<Seq<char>>::empty());
    assert(present(seq![Some(text)]) == seq![text]);
    let none: Seq<Option<Seq<char>>> = seq![None];
    assert(none.drop_last() == Seq::<Option<Seq<char>>>::empty());
    if b.len() == 0 {
        assert(a + b == a);
        assert(present(a) + present(b) == present(a));
    } else {
        nulls_are_left_out(a, b.drop_last(), text);
        assert((a + b).drop_last() == a + b.drop_last());
        assert((a + b).last() == b.last());
        assert(present(a + b) == present(a) + present(b));
    }
}

/// The paths of an argument are those it gives, and none for a BLOB or a bad argument.
pub proof fn only_paths_are_looked_up(paths: Seq<Seq<char>>, bytes: Seq<u8>, e: ErrorText)
    ensures
        paths_of(Ok(SrcView::Paths(paths))) == paths,
        paths_of(Ok(SrcView::Bytes(bytes))).len() == 0,
        paths_of(Err(e)).len() == 0,
{
}

/// A switch is on for `true`, `1`, `yes` and `on`, off for `false`, `0`, `no` and `off`, in any
/// case and with white space around; anything else is no switch.
pub proof fn switches_have_their_words(text: Seq<char>)
    ensures
        ({
            let word = ascii_lower(trimmed(text));
            &&& switch_of(text) == Some(true) <==> word == "true"@ || word == "1"@ || word
                == "yes"@ || word == "on"@
            &&& switch_of(text) == Some(false) <==> word == "false"@ || word == "0"@ || word
                == "no"@ || word == "off"@
        }),
{
    reveal_strlit("true");
    reveal_strlit("1");
    reveal_strlit("yes");
    reveal_strlit("on");
    reveal_strlit("false");
    reveal_strlit("0");
    reveal_strlit("no");
    reveal_strlit("off");
    assert("true"@.len() == 4 && "1"@.len() == 1 && "yes"@.len() == 3 && "on"@.len() == 2);
    assert("false"@.len() == 5 && "0"@.len() == 1 && "no"@.len() == 2 && "off"@.len() == 3);
    assert("1"@[0] != "0"@[0]);
    assert("on"@[0] != "no"@[0]);
    assert("yes"@[0] != "off"@[0]);
}

/// An endpoint that names its scheme is taken as it is. A bare one gets `https`, or `http` where
/// TLS is switched off.
pub proof fn endpoints_get_a_scheme(ep: Seq<char>, use_ssl: Option<bool>)
    ensures
        (exists|i: int| #[trigger] occurs_at(ep, "://"@, i)) ==> endpoint_url(ep, use_ssl) == ep,
        (forall|i: int| !#[trigger] occurs_at(ep, "://"@, i)) && use_ssl == Some(false)
            ==> endpoint_url(ep, use_ssl) == "http://"@ + ep,
        (forall|i: int| !#[trigger] occurs_at(ep, "://"@, i)) && use_ssl != Some(false)
            ==> endpoint_url(ep, use_ssl) == "https://"@ + ep,
{
    reveal_strlit("://");
    reveal_strlit("http");
    reveal_strlit("https");
    reveal_strlit("http://");
    reveal_strlit("https://");
    assert("http"@ + "://"@ == "http://"@);
    assert("https"@ + "://"@ == "https://"@);
    if exists|i: int| #[trigger] occurs_at(ep, "://"@, i) {
        let i = choose|i: int| #[trigger] occurs_at(ep, "://"@, i);
        crate::laws::texts::the_first_occurrence_is_found(ep, "://"@, i);
    } else if let Some(i) = crate::text::index_of(ep, "://"@) {
        crate::laws::texts::the_first_occurrence_is_found(ep, "://"@, i);
        assert(occurs_at(ep, "://"@, i));
    }
}

/// The names of the options, told apart by their lengths or their fifth characters.
proof fn lemma_option_names()
    ensures
        "aws_access_key_id"@.len() == 17 && "aws_access_key_id"@[4] == 'a',
        "aws_secret_access_key"@.len() == 21,
        "aws_session_token"@.len() == 17 && "aws_session_token"@[4] == 's',
        "aws_region"@.len() == 10,
        "aws_endpoint"@.len() == 12,
        "aws_virtual_hosted_style_request"@.len() == 32,
        "aws_allow_http"@.len() == 14,
        ascii_lower("path"@) == "path"@,
{
    reveal_strlit("aws_access_key_id");
    reveal_strlit("aws_secret_access_key");
    reveal_strlit("aws_session_token");
    reveal_strlit("aws_region");
    reveal_strlit("aws_endpoint");
    reveal_strlit("aws_virtual_hosted_style_request");
    reveal_strlit("aws_allow_http");
    reveal_strlit("path");
    assert(ascii_lower("path"@) == "path"@);
}

/// What two lists hold, both hold together.
proof fn lemma_both(a: Seq<OptionView>, b: Seq<OptionView>, o: OptionView)
    ensures
        (a + b).contains(o) <==> a.contains(o) || b.contains(o),
{
    if a.contains(o) {
        let i = choose|i: int| 0 <= i < a.len() && a[i] == o;
        assert((a + b)[i] == o);
    }
    if b.contains(o) {
        let i = choose|i: int| 0 <= i < b.len() && b[i] == o;
        assert((a + b)[a.len() + i] == o);
    }
    if (a + b).contains(o) {
        let i = choose|i: int| 0 <= i < (a + b).len() && (a + b)[i] == o;
        if i < a.len() {
            assert(a[i] == o);
        } else {
            assert(b[i - a.len()] == o);
        }
    }
}

/// An option is there exactly if it has a value.
proof fn lemma_option(key: Seq<char>, value: Option<Seq<char>>, o: OptionView)
    ensures
        option_of(key, value).contains(o) <==> o.0 == key && value == Some(o.1),
{
    if o.0 == key && value == Some(o.1) {
        assert(option_of(key, value)[0] == o);
    }
}

/// A secret gives a store its key, its token and its region, each where the secret has it and it
/// is not empty.
pub proof fn secrets_give_credentials(f: FieldsView, v: Seq<char>)
    ensures
        secret_options(f).contains(("aws_access_key_id"@, v)) <==> f.key_id == Some(v) && v.len()
            > 0,
        secret_options(f).contains(("aws_secret_access_key"@, v)) <==> f.secret == Some(v)
            && v.len() > 0,
        secret_options(f).contains(("aws_session_token"@, v)) <==> f.session_token == Some(v)
            && v.len() > 0,
        secret_options(f).contains(("aws_region"@, v)) <==> f.region == Some(v) && v.len() > 0,
{
    lemma_option_names();
    lemma_secret_option(f, ("aws_access_key_id"@, v));
    lemma_secret_option(f, ("aws_secret_access_key"@, v));
    lemma_secret_option(f, ("aws_session_token"@, v));
    lemma_secret_option(f, ("aws_region"@, v));
}

/// Which options a secret has.
proof fn lemma_secret_option(f: FieldsView, o: OptionView)
    ensures
        secret_options(f).contains(o) <==> {
            ||| o.0 == "aws_access_key_id"@ && crate::cloud::unless_empty(f.key_id) == Some(o.1)
            ||| o.0 == "aws_secret_access_key"@ && crate::cloud::unless_empty(f.secret) == Some(o.1)
            ||| o.0 == "aws_session_token"@ && crate::cloud::unless_empty(f.session_token) == Some(
                o.1,
            )
            ||| o.0 == "aws_region"@ && crate::cloud::unless_empty(f.region) == Some(o.1)
            ||| o.0 == "aws_endpoint"@ && crate::cloud::endpoint_value(
                crate::cloud::unless_empty(f.endpoint),
                crate::cloud::secret_ssl(f),
            ) == Some(o.1)
            ||| o.0 == "aws_virtual_hosted_style_request"@ && crate::cloud::path_style(
                crate::cloud::unless_empty(f.url_style),
            ) == Some(o.1)
            ||| o.0 == "aws_allow_http"@ && crate::cloud::plain_http(crate::cloud::secret_ssl(f))
                == Some(o.1)
        },
{
    let a = option_of("aws_access_key_id"@, crate::cloud::unless_empty(f.key_id));
    let b = option_of("aws_secret_access_key"@, crate::cloud::unless_empty(f.secret));
    let c = option_of("aws_session_token"@, crate::cloud::unless_empty(f.session_token));
    let d = option_of("aws_region"@, crate::cloud::unless_empty(f.region));
    let e = option_of(
        "aws_endpoint"@,
        crate::cloud::endpoint_value(
            crate::cloud::unless_empty(f.endpoint),
            crate::cloud::secret_ssl(f),
        ),
    );
    let g = option_of(
        "aws_virtual_hosted_style_request"@,
        crate::cloud::path_style(crate::cloud::unless_empty(f.url_style)),
    );
    let h = option_of("aws_allow_http"@, crate::cloud::plain_http(crate::cloud::secret_ssl(f)));
    lemma_both(a, b, o);
    lemma_both(a + b, c, o);
    lemma_both(a + b + c, d, o);
    lemma_both(a + b + c + d, e, o);
    lemma_both(a + b + c + d + e, g, o);
    lemma_both(a + b + c + d + e + g, h, o);
    lemma_option("aws_access_key_id"@, crate::cloud::unless_empty(f.key_id), o);
    lemma_option("aws_secret_access_key"@, crate::cloud::unless_empty(f.secret), o);
    lemma_option("aws_session_token"@, crate::cloud::unless_empty(f.session_token), o);
    lemma_option("aws_region"@, crate::cloud::unless_empty(f.region), o);
    lemma_option(
        "aws_endpoint"@,
        crate::cloud::endpoint_value(
            crate::cloud::unless_empty(f.endpoint),
            crate::cloud::secret_ssl(f),
        ),
        o,
    );
    lemma_option(
        "aws_virtual_hosted_style_request"@,
        crate::cloud::path_style(crate::cloud::unless_empty(f.url_style)),
        o,
    );
    lemma_option(
        "aws_allow_http"@,
        crate::cloud::plain_http(crate::cloud::secret_ssl(f)),
        o,
    );
    assert(secret_options(f) == a + b + c + d + e + g + h);
}

/// A secret's endpoint becomes a URL; path-style addressing and plain HTTP are switched on where,
/// and only where, the secret asks for them.
pub proof fn secrets_give_endpoints(f: FieldsView, v: Seq<char>)
    ensures
        ({
            let use_ssl = match f.use_ssl {
                Some(text) => switch_of(text),
                None => None,
            };
            &&& secret_options(f).contains(("aws_endpoint"@, v)) <==> f.endpoint is Some
                && f.endpoint->0.len() > 0 && v == endpoint_url(f.endpoint->0, use_ssl)
            &&& secret_options(f).contains(("aws_virtual_hosted_style_request"@, v)) <==> v
                == "false"@ && f.url_style is Some && ascii_lower(f.url_style->0) == "path"@
            &&& secret_options(f).contains(("aws_allow_http"@, v)) <==> v == "true"@ && use_ssl
                == Some(false)
        }),
{
    lemma_option_names();
    reveal_strlit("path");
    lemma_secret_option(f, ("aws_endpoint"@, v));
    lemma_secret_option(f, ("aws_virtual_hosted_style_request"@, v));
    lemma_secret_option(f, ("aws_allow_http"@, v));
}

/// A secret gives no other options, and no secret gives none.
pub proof fn secrets_give_nothing_else(f: FieldsView, o: OptionView)
    ensures
        secret_options(f).contains(o) ==> o.0 == "aws_access_key_id"@ || o.0
            == "aws_secret_access_key"@ || o.0 == "aws_session_token"@ || o.0 == "aws_region"@
            || o.0 == "aws_endpoint"@ || o.0 == "aws_virtual_hosted_style_request"@ || o.0
            == "aws_allow_http"@,
        secret_options(f).len() <= 7,
        found_options(None).len() == 0,
        forall|fields: SecretFields| #[trigger]
            found_options(Some(fields)) == secret_options(fields@),
{
    lemma_secret_option(f, o);
}

/// The fields of a secret are read by their names.
pub proof fn secret_fields_have_their_names(m: FieldMap)
    ensures
        fields_of(m).key_id is Some <==> m.dom().contains("key_id"@),
        fields_of(m).key_id is Some ==> fields_of(m).key_id->0 == m["key_id"@],
        fields_of(m).secret is Some <==> m.dom().contains("secret"@),
        fields_of(m).secret is Some ==> fields_of(m).secret->0 == m["secret"@],
        fields_of(m).session_token is Some <==> m.dom().contains("session_token"@),
        fields_of(m).session_token is Some ==> fields_of(m).session_token->0
            == m["session_token"@],
        fields_of(m).region is Some <==> m.dom().contains("region"@),
        fields_of(m).region is Some ==> fields_of(m).region->0 == m["region"@],
        fields_of(m).endpoint is Some <==> m.dom().contains("endpoint"@),
        fields_of(m).endpoint is Some ==> fields_of(m).endpoint->0 == m["endpoint"@],
        fields_of(m).url_style is Some <==> m.dom().contains("url_style"@),
        fields_of(m).url_style is Some ==> fields_of(m).url_style->0 == m["url_style"@],
        fields_of(m).use_ssl is Some <==> m.dom().contains("use_ssl"@),
        fields_of(m).use_ssl is Some ==> fields_of(m).use_ssl->0 == m["use_ssl"@],
{
}

/// Named arguments give a store the same options, each exactly where its argument is given.
pub proof fn overrides_are_given_by_name(args: NamedArgs, v: Seq<char>)
    ensures
        override_options(args).contains(("aws_region"@, v)) <==> args.region is Some
            && args.region->0@ == v,
        override_options(args).contains(("aws_endpoint"@, v)) <==> args.endpoint is Some && v
            == endpoint_url(args.endpoint->0@, wants_ssl(args)),
        override_options(args).contains(("aws_virtual_hosted_style_request"@, v)) <==> v
            == "false"@ && args.url_style is Some && ascii_lower(args.url_style->0@) == "path"@,
        override_options(args).contains(("aws_allow_http"@, v)) <==> v == "true"@ && wants_ssl(args)
            == Some(false),
        override_options(args).len() <= 4,
        forall|o: OptionView| #[trigger]
            override_options(args).contains(o) ==> o.0 == "aws_endpoint"@ || o.0 == "aws_region"@
                || o.0 == "aws_virtual_hosted_style_request"@ || o.0 == "aws_allow_http"@,
        args.use_ssl is Some ==> wants_ssl(args) == args.use_ssl,
        args.use_ssl is None && args.use_ssl_text is Some ==> wants_ssl(args) == switch_of(
            args.use_ssl_text->0@,
        ),
        args.use_ssl is None && args.use_ssl_text is None ==> wants_ssl(args) is None,
{
    lemma_option_names();
    let a = option_of(
        "aws_endpoint"@,
        crate::cloud::endpoint_value(crate::decode::text_view(args.endpoint), wants_ssl(args)),
    );
    let b = option_of("aws_region"@, crate::decode::text_view(args.region));
    let c = option_of(
        "aws_virtual_hosted_style_request"@,
        crate::cloud::path_style(crate::decode::text_view(args.url_style)),
    );
    let d = option_of("aws_allow_http"@, crate::cloud::plain_http(wants_ssl(args)));
    assert(override_options(args) == a + b + c + d);
    assert forall|o: OptionView| #[trigger] override_options(args).contains(o) <==> a.contains(o)
        || b.contains(o) || c.contains(o) || d.contains(o) by {
        lemma_both(a, b, o);
        lemma_both(a + b, c, o);
        lemma_both(a + b + c, d, o);
    }
    assert forall|o: OptionView|
        #![trigger a.contains(o)]
        #![trigger b.contains(o)]
        #![trigger c.contains(o)]
        #![trigger d.contains(o)]
        (a.contains(o) <==> o.0 == "aws_endpoint"@ && crate::cloud::endpoint_value(
            crate::decode::text_view(args.endpoint),
            wants_ssl(args),
        ) == Some(o.1)) && (b.contains(o) <==> o.0 == "aws_region"@ && crate::decode::text_view(
            args.region,
        ) == Some(o.1)) && (c.contains(o) <==> o.0 == "aws_virtual_hosted_style_request"@
            && crate::cloud::path_style(crate::decode::text_view(args.url_style)) == Some(o.1)) && (
        d.contains(o) <==> o.0 == "aws_allow_http"@ && crate::cloud::plain_http(wants_ssl(args))
            == Some(o.1)) by {
        lemma_option(
            "aws_endpoint"@,
            crate::cloud::endpoint_value(crate::decode::text_view(args.endpoint), wants_ssl(args)),
            o,
        );
        lemma_option("aws_region"@, crate::decode::text_view(args.region), o);
        lemma_option(
            "aws_virtual_hosted_style_request"@,
            crate::cloud::path_style(crate::decode::text_view(args.url_style)),
            o,
        );
        lemma_option("aws_allow_http"@, crate::cloud::plain_http(wants_ssl(args)), o);
    }
}

/// The schemes of the web are none of a store.
proof fn lemma_schemes_differ()
    ensures
        "http"@ != "s3"@ && "http"@ != "s3a"@ && "https"@ != "s3"@ && "https"@ != "s3a"@,
{
    reveal_strlit("http");
    reveal_strlit("https");
    reveal_strlit("s3");
    reveal_strlit("s3a");
    assert("http"@.len() == 4 && "https"@.len() == 5 && "s3"@.len() == 2 && "s3a"@.len() == 3);
}

/// The options of a store end in the overrides, so that they win. Before them stand those of a
/// secret that may be used for the URL, if it is a store's and there is one.
pub proof fn store_options_end_in_overrides(
    options: Seq<OptionView>,
    url: Url,
    secrets: Map<Seq<char>, FieldMap>,
    overrides: Seq<OptionView>,
)
    requires
        are_store_options(options, url, secrets, overrides),
    ensures
        overrides.len() <= options.len(),
        options.skip(options.len() - overrides.len()) == overrides,
        url_scheme(url) == "http"@ || url_scheme(url) == "https"@ ==> options == overrides,
        url_scheme(url) == "s3"@ || url_scheme(url) == "s3a"@ ==> {
            let first = options.take(options.len() - overrides.len());
            ||| exists|m: FieldMap| #[trigger]
                is_pick(secrets, url_text(url), "s3"@, m) && first == secret_options(fields_of(m))
            ||| first.len() == 0 && forall|m: FieldMap|
                !#[trigger] is_pick(secrets, url_text(url), "s3"@, m)
        },
{
    lemma_schemes_differ();
    if crate::cloud::secret_type_of(url) is Some {
        let found = choose|found: Seq<OptionView>| #[trigger]
            are_secret_options(found, secrets, url) && options == found + overrides;
        let n = options.len() - overrides.len();
        assert(options.skip(n) == overrides);
        assert(options.take(n) == found);
    } else {
        assert(options.skip(0) == overrides);
    }
}

/// A local glob is expanded, any other local path has to exist; a glob of a store is listed by its
/// prefix; anything else remote is not looked up.
pub proof fn questions_are_asked_by_kind(path: Seq<char>, url: Url, e: ErrorText)
    ensures
        is_glob(path) ==> question_at(Ok(LocationView::Local(path))) == Ok::<
            QuestionView,
            ErrorText,
        >(QuestionView::Expand(path)),
        !is_glob(path) ==> question_at(Ok(LocationView::Local(path))) == Ok::<
            QuestionView,
            ErrorText,
        >(QuestionView::Check(path)),
        !is_glob(key_of_url(url)) || is_http(url) ==> question_at(Ok(LocationView::Remote(url)))
            == Ok::<QuestionView, ErrorText>(QuestionView::Nothing),
        is_glob(key_of_url(url)) && !is_http(url) && parsed_pattern(key_of_url(url)) is Ok
            ==> question_at(Ok(LocationView::Remote(url))) == Ok::<QuestionView, ErrorText>(
            QuestionView::List { url, prefix: list_prefix(key_of_url(url)) },
        ),
        is_glob(key_of_url(url)) && !is_http(url) && parsed_pattern(key_of_url(url)) is Err
            ==> question_at(Ok(LocationView::Remote(url))) == Err::<QuestionView, ErrorText>(
            ErrorText {
                blame: Blame::Value,
                message: "bad glob '"@ + url_text(url) + "': "@ + parsed_pattern(
                    key_of_url(url),
                )->Err_0,
            },
        ),
        question_at(Err(e)) == Err::<QuestionView, ErrorText>(e),
{
}

/// A local glob gives the files that it matches, sorted; a literal path gives itself, if the file
/// exists, and otherwise the error names it.
pub proof fn local_paths_resolve_to_files(
    out: Result<Vec<String>, Error>,
    spec: Seq<char>,
    exists: bool,
    matches: Result<Vec<String>, String>,
)
    requires
        is_local_resolution(out, spec, exists, matches),
    ensures
        is_glob(spec) && matches is Ok ==> out is Ok && in_order(string_views(out->Ok_0@))
            && out->Ok_0@.to_multiset() == matches->Ok_0@.to_multiset(),
        is_glob(spec) && matches is Err ==> out is Err && out->Err_0.blame == Blame::Value
            && out->Err_0.message@ == "bad glob '"@ + spec + "': "@ + matches->Err_0@,
        !is_glob(spec) && exists ==> out is Ok && out->Ok_0@.len() == 1 && out->Ok_0@[0]@ == spec,
        !is_glob(spec) && !exists ==> out is Err && out->Err_0.blame == Blame::Value
            && out->Err_0.message@ == "File not found: "@ + spec,
{
    if !is_glob(spec) && exists {
        assert(string_views(out->Ok_0@).len() == 1);
        assert(string_views(out->Ok_0@)[0] == out->Ok_0@[0]@);
    }
}

/// Whether `out` are the files that a local path resolves to, in their order, or its error.
pub open spec fn resolves_to_files(
    out: Result<Vec<Location>, Error>,
    path: Seq<char>,
    answer: Answer,
) -> bool {
    exists|files: Result<Vec<String>, Error>|
        {
            &&& #[trigger] is_local_resolution(files, path, answer.exists, answer.matches)
            &&& files matches Ok(files) ==> {
                &&& out is Ok
                &&& out->Ok_0@.len() == files@.len()
                &&& forall|i: int|
                    0 <= i < files@.len() ==> #[trigger] location_views(out->Ok_0@)[i]
                        == LocationView::Local(files@[i]@)
            }
            &&& files matches Err(e) ==> out is Err && out->Err_0@ == e@
        }
}

/// Whether `out` are the URLs that a remote glob expands to, in their order, or its error.
pub open spec fn resolves_to_expansion(
    out: Result<Vec<Location>, Error>,
    url: Url,
    answer: Answer,
) -> bool {
    exists|urls: Result<Vec<Url>, Error>|
        {
            &&& #[trigger] is_expansion(
                urls,
                url,
                parsed_pattern(key_of_url(url)),
                string_views(answer.listed@),
            )
            &&& urls matches Ok(urls) ==> {
                &&& out is Ok
                &&& out->Ok_0@.len() == urls@.len()
                &&& forall|i: int|
                    0 <= i < urls@.len() ==> #[trigger] location_views(out->Ok_0@)[i]
                        == LocationView::Remote(urls@[i])
            }
            &&& urls matches Err(e) ==> out is Err && out->Err_0@ == e@
        }
}

/// A path resolves to locations of its own kind: a remote object that is no glob to itself, a
/// local path to local files, and an error to that error.
pub proof fn paths_resolve_to_their_kind(
    out: Result<Vec<Location>, Error>,
    location: Result<LocationView, ErrorText>,
    answer: Answer,
)
    requires
        is_resolution(out, location, answer),
    ensures
        location matches Err(e) ==> out is Err && out->Err_0@ == e,
        location matches Ok(LocationView::Remote(url)) ==> (!is_glob(key_of_url(url)) ==> out is Ok
            && location_views(out->Ok_0@) == seq![LocationView::Remote(url)]),
        location matches Ok(LocationView::Remote(url)) ==> (is_glob(key_of_url(url))
            ==> resolves_to_expansion(out, url, answer)),
        location matches Ok(LocationView::Local(path)) ==> (!is_glob(path) && answer.exists ==> out
            is Ok && location_views(out->Ok_0@) == seq![LocationView::Local(path)]),
        location matches Ok(LocationView::Local(path)) ==> (!is_glob(path) && !answer.exists ==> out
            is Err && out->Err_0.message@ == "File not found: "@ + path),
        location matches Ok(LocationView::Local(path)) ==> resolves_to_files(out, path, answer),
{
    if let Ok(LocationView::Remote(url)) = location {
        if is_glob(key_of_url(url)) {
            let found = choose|found: Result<Vec<Url>, Error>| #[trigger]
                is_expansion(
                    found,
                    url,
                    parsed_pattern(key_of_url(url)),
                    string_views(answer.listed@),
                ) && crate::sources::carries_remote(out, found);
            if let Ok(urls) = found {
                assert(location_views(out->Ok_0@).len() == out->Ok_0@.len());
                assert(crate::sources::remote_views(urls@).len() == urls@.len());
                assert forall|i: int| 0 <= i < urls@.len() implies #[trigger] location_views(
                    out->Ok_0@,
                )[i] == LocationView::Remote(urls@[i]) by {
                    assert(crate::sources::remote_views(urls@)[i] == LocationView::Remote(urls@[i]));
                }
            }
            assert(resolves_to_expansion(out, url, answer));
        }
    }
    if let Ok(LocationView::Local(path)) = location {
        let found = choose|found: Result<Vec<String>, Error>| #[trigger]
            crate::sources::carries_local(out, found) && is_local_resolution(
                found,
                path,
                answer.exists,
                answer.matches,
            );
        if !is_glob(path) && answer.exists {
            assert(string_views(found->Ok_0@).len() == 1);
            assert(string_views(found->Ok_0@)[0] == found->Ok_0@[0]@);
            assert(crate::sources::local_views(found->Ok_0@) == seq![LocationView::Local(path)]);
        }
        if let Ok(files) = found {
            assert(location_views(out->Ok_0@).len() == out->Ok_0@.len());
            assert(crate::sources::local_views(files@).len() == files@.len());
            assert forall|i: int| 0 <= i < files@.len() implies #[trigger] location_views(
                out->Ok_0@,
            )[i] == LocationView::Local(files@[i]@) by {
                assert(crate::sources::local_views(files@)[i] == LocationView::Local(files@[i]@));
            }
        }
        assert(resolves_to_files(out, path, answer));
    }
}

/// The sources of paths come one path after the other, each location in its place: a file by its
/// path, an object by its URL. Inline bytes are one source.
pub proof fn sources_keep_their_order(resolved: Seq<Vec<Location>>, last: Vec<Location>, src: Src)
    ensures
        sources_at(Seq::empty()).len() == 0,
        sources_at(resolved.push(last)).len() == sources_at(resolved).len() + last@.len(),
        forall|i: int|
            0 <= i < sources_at(resolved).len() ==> #[trigger] sources_at(resolved.push(last))[i]
                == sources_at(resolved)[i],
        forall|j: int|
            0 <= j < last@.len() ==> sources_at(resolved.push(last))[sources_at(resolved).len() + j]
                == match #[trigger] last@[j] {
                Location::Local(path) => SourceView::Local(path@),
                Location::Remote(url) => SourceView::Remote(url_text(url)),
            },
        src matches Src::Bytes(bytes) ==> sources_of(src, resolved) == seq![
            SourceView::Bytes(bytes@),
        ],
        src is Paths ==> sources_of(src, resolved) == sources_at(resolved),
{
    assert(resolved.push(last).drop_last() == resolved);
}

/// The names, places and types of arguments.
pub open spec fn signature(args: Seq<ArgView>) -> Seq<(Seq<char>, int, Seq<char>)> {
    args.map_values(|a: ArgView| (a.name, a.position, a.arrow_type))
}

/// The table functions take `src` first, and then, by name, the options of a store and, where
/// failures can be rows, `strict`.
pub proof fn arguments_have_their_names(doc: Seq<char>)
    ensures
        signature(seq![src_arg(doc)]) == seq![("src"@, 0int, "any"@)],
        signature(cloud_args()) == seq![
            ("endpoint"@, -1int, "varchar"@),
            ("region"@, -1int, "varchar"@),
            ("url_style"@, -1int, "varchar"@),
            ("use_ssl"@, -1int, "boolean"@),
        ],
        signature(common_args()) == seq![
            ("strict"@, -1int, "boolean"@),
            ("endpoint"@, -1int, "varchar"@),
            ("region"@, -1int, "varchar"@),
            ("url_style"@, -1int, "varchar"@),
            ("use_ssl"@, -1int, "boolean"@),
        ],
        src_arg(doc).doc == doc,
        src_arg(doc).is_const && src_arg(doc).data_type is None,
        forall|i: int|
            0 <= i < common_args().len() ==> (#[trigger] common_args()[i]).is_const
                && common_args()[i].data_type is None,
{
    assert(signature(seq![src_arg(doc)]) == seq![("src"@, 0int, "any"@)]);
    assert(signature(common_args()) == seq![
        ("strict"@, -1int, "boolean"@),
        ("endpoint"@, -1int, "varchar"@),
        ("region"@, -1int, "varchar"@),
        ("url_style"@, -1int, "varchar"@),
        ("use_ssl"@, -1int, "boolean"@),
    ]);
}

/// An argument is described by what it was declared with: a constant by the name of its type, a
/// column by its type.
pub proof fn arguments_are_described(
    name: Seq<char>,
    position: int,
    arrow_type: Seq<char>,
    ty: crate::columns::TypeView,
    doc: Seq<char>,
)
    ensures
        const_view(name, position, arrow_type, doc) == (ArgView {
            name,
            position,
            arrow_type,
            data_type: None,
            doc,
            is_const: true,
        }),
        column_view(name, position, ty, doc) == (ArgView {
            name,
            position,
            arrow_type: ""@,
            data_type: Some(ty),
            doc,
            is_const: false,
        }),
{
}

} // verus!
