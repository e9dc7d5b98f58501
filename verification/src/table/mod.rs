//! Table functions: `read_rib`, `read_updates`, and `peers`.
use crate::cloud::is_remote;
use crate::cloud::remote_path;
use crate::options::const_view;
use crate::options::ArgSpec;
use crate::options::ArgView;
use crate::sources::local_question;
use crate::sources::local_question_of;
use crate::sources::Question;
use vstd::prelude::*;

pub mod peers;
pub mod read_rib;
pub mod read_updates;

verus! {

/// The `src` argument, documented by `doc`.
pub open spec fn src_arg(doc: Seq<char>) -> ArgView {
    const_view("src"@, 0, "any"@, doc)
}

/// The `src` argument, documented by `doc`.
pub(crate) fn src_spec(doc: &str) -> (spec: ArgSpec)
    ensures
        spec@ == src_arg(doc@),
{
    ArgSpec::const_arg("src", 0, "any", doc)
}

/// What has to be looked up when a path is bound. Local paths are validated early (mirrors
/// the native "File not found"); remote paths are checked lazily.
pub fn bind_question(path: &str) -> (q: Option<Question>)
    ensures
        q is None <==> remote_path(path@),
        q is Some ==> q->0@ == local_question_of(path@),
{
    if is_remote(path) {
        None
    } else {
        Some(local_question(path))
    }
}

} // verus!
