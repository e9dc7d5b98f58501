//! Resolved DuckDB secrets, and the one that a URL is read with.
//!
//! Secrets are kept by name, each as a map of fields. One names what it is for in its
//! `scope`, a newline-joined list of URL prefixes; one without a scope is a last resort.
use crate::decode::text_view;
use crate::text::split_on;
use vgi::secrets::Secrets;
use vstd::prelude::*;

verus! {

/// The secrets that the engine resolved.
#[verifier::external_type_specification]
#[verifier::external_body]
pub struct ExSecrets(vgi::secrets::Secrets);

/// The fields of one secret.
pub type FieldMap = Map<Seq<char>, Seq<char>>;

/// The secrets, by name.
pub uninterp spec fn secrets_view(secrets: Secrets) -> Map<Seq<char>, FieldMap>;

/// Whether a secret is of a type.
pub open spec fn has_type(fields: FieldMap, ty: Seq<char>) -> bool {
    fields.dom().contains("type"@) && fields["type"@] == ty
}

/// The scope of a secret; empty where it has none.
pub open spec fn scope_of(fields: FieldMap) -> Seq<char> {
    if fields.dom().contains("scope"@) {
        fields["scope"@]
    } else {
        Seq::empty()
    }
}

/// Whether `prefix` is one of a secret's scope prefixes and `path` starts with it.
pub open spec fn scope_matches(fields: FieldMap, path: Seq<char>, prefix: Seq<char>) -> bool {
    &&& prefix.len() > 0
    &&& split_on(scope_of(fields), '\n').contains(prefix)
    &&& prefix.len() <= path.len()
    &&& path.take(prefix.len() as int) == prefix
}

/// Whether no secret of a type has a scope prefix of `path` longer than `len`.
pub open spec fn no_longer_match(
    secrets: Map<Seq<char>, FieldMap>,
    path: Seq<char>,
    ty: Seq<char>,
    len: nat,
) -> bool {
    forall|name: Seq<char>, prefix: Seq<char>|
        secrets.dom().contains(name) && has_type(secrets[name], ty) && #[trigger] scope_matches(
            secrets[name],
            path,
            prefix,
        ) ==> prefix.len() <= len
}

/// Whether `fields` are those of a secret that `path` may be read with: one of the right
/// type whose scope has the longest prefix of `path`, or, where no scope fits, one without
/// a scope.
pub open spec fn is_pick(
    secrets: Map<Seq<char>, FieldMap>,
    path: Seq<char>,
    ty: Seq<char>,
    fields: FieldMap,
) -> bool {
    &&& exists|name: Seq<char>| #[trigger]
        secrets.dom().contains(name) && secrets[name] == fields
    &&& has_type(fields, ty)
    &&& {
        ||| exists|prefix: Seq<char>| #[trigger]
            scope_matches(fields, path, prefix) && no_longer_match(secrets, path, ty, prefix.len())
        ||| scope_of(fields).len() == 0 && no_longer_match(secrets, path, ty, 0)
    }
}

/// The fields of an `s3` secret that matter here.
#[derive(Debug)]
pub struct SecretFields {
    pub key_id: Option<String>,
    pub secret: Option<String>,
    pub session_token: Option<String>,
    pub region: Option<String>,
    pub endpoint: Option<String>,
    pub url_style: Option<String>,
    pub use_ssl: Option<String>,
}

/// [`SecretFields`], with their texts as sequences.
pub struct FieldsView {
    pub key_id: Option<Seq<char>>,
    pub secret: Option<Seq<char>>,
    pub session_token: Option<Seq<char>>,
    pub region: Option<Seq<char>>,
    pub endpoint: Option<Seq<char>>,
    pub url_style: Option<Seq<char>>,
    pub use_ssl: Option<Seq<char>>,
}

impl View for SecretFields {
    type V = FieldsView;

    open spec fn view(&self) -> FieldsView {
        FieldsView {
            key_id: text_view(self.key_id),
            secret: text_view(self.secret),
            session_token: text_view(self.session_token),
            region: text_view(self.region),
            endpoint: text_view(self.endpoint),
            url_style: text_view(self.url_style),
            use_ssl: text_view(self.use_ssl),
        }
    }
}

/// A field of a secret, where it has it.
pub open spec fn field_of(fields: FieldMap, name: Seq<char>) -> Option<Seq<char>> {
    if fields.dom().contains(name) {
        Some(fields[name])
    } else {
        None
    }
}

/// The fields of a secret that matter here.
pub open spec fn fields_of(fields: FieldMap) -> FieldsView {
    FieldsView {
        key_id: field_of(fields, "key_id"@),
        secret: field_of(fields, "secret"@),
        session_token: field_of(fields, "session_token"@),
        region: field_of(fields, "region"@),
        endpoint: field_of(fields, "endpoint"@),
        url_style: field_of(fields, "url_style"@),
        use_ssl: field_of(fields, "use_ssl"@),
    }
}

/// `Secrets::for_scope_of_type`: the secret of type `ty` whose scope has the longest
/// prefix of `path`, else one without a scope, else none. Where several are as good, which
/// of them it is depends on the order of a hash map and is left open.
#[verifier::external_body]
pub(crate) fn find_secret(secrets: &Secrets, path: &str, ty: &str) -> (out: Option<SecretFields>)
    ensures
        out is None <==> forall|fields: FieldMap|
            !#[trigger] is_pick(secrets_view(*secrets), path@, ty@, fields),
        out is Some ==> exists|fields: FieldMap| #[trigger]
            is_pick(secrets_view(*secrets), path@, ty@, fields) && out->0@ == fields_of(fields),
{
    secrets.for_scope_of_type(path, ty).map(|fields| SecretFields {
        key_id: fields.get("key_id").cloned(),
        secret: fields.get("secret").cloned(),
        session_token: fields.get("session_token").cloned(),
        region: fields.get("region").cloned(),
        endpoint: fields.get("endpoint").cloned(),
        url_style: fields.get("url_style").cloned(),
        use_ssl: fields.get("use_ssl").cloned(),
    })
}

} // verus!
