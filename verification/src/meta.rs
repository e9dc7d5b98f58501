//! Shared helpers for the per-object discovery/description metadata.
//!
//! Each function/table surfaces these tags:
//! - `vgi.title` — human-friendly display name
//! - `vgi.doc_llm` — concise prose aimed at LLMs
//! - `vgi.doc_md` — short Markdown description
//! - `vgi.keywords` — a JSON array of search terms/synonyms
//!
//! A source URL is not emitted per object: it belongs on the catalog only.
use crate::columns::type_view;
use crate::columns::TypeView;
use crate::json::array_of;
use crate::json::comma_list;
use crate::json::json_array;
use crate::json::json_member;
use crate::json::json_object;
use crate::json::objects_are_read_back;
use crate::json::objects_in;
use crate::json::push_quoted;
use crate::json::quoted;
use crate::json::strings_are_read_back;
use crate::json::strings_in;
use crate::json::Member;
use crate::mrt::string_views;
use crate::text::char_views;
use crate::text::chars_of;
use crate::text::split;
use crate::text::split_on;
use crate::text::trim;
use crate::text::trimmed;
use arrow_schema::DataType;
use vstd::prelude::*;

verus! {

/// A tiny self-contained MRT `TABLE_DUMP_V2` RIB snapshot (3 RIB entries:
/// `192.0.2.0/24`, `2001:db8:abcd:1::/64`, `2001:db8:abcd:4003::/64`), as a hex string.
/// Embedding it lets the catalog and `read_rib` / `peers` example queries run as
/// `from_hex(RIB_MRT_HEX)` — fully self-contained, without a file on disk.
pub const RIB_MRT_HEX: &'static str = "68608200000d00010000003b000000000000000302c0000201c00002010000fde902c6336407c63364070000fdea030000000020010db80000000000000000000000010000fde968608200000d000400000079000000003020010db8abcd00010002686082000064800e1c0002011020010db8000000000000000000000001003020010db8abcd40031020010db8000000000000000000000001c0110e02030000fde90000fbf40000fc58400101004005040000006480040400000000c0200c0000fde9000000070000000968608200000d0002000000af0000000118cb007100020001686082000041800e0d00010104c63364070018cb0071400304c6336407c0110e02030000fdea0000fc010000fc00400101004005040000006480040400000000c00804fdea00c80000686082000054800e0d00010104c00002010018cb0071400304c0000201c0111202040000fde90000fbf40000fbf40000fc00400101004005040000006480040400000000c00804fde90064c0200c0000fde90000000100000002";

/// A tiny self-contained MRT `BGP4MP` update stream (3 messages: an IPv4 announcement, an
/// IPv6 announcement, and an IPv4 withdrawal), as a hex string. Lets the `read_updates`
/// example run as `from_hex(UPD_MRT_HEX)` without a file.
pub const UPD_MRT_HEX: &'static str = "68608200001100040000007f000000000000fde90000000000000001c000020100000000ffffffffffffffffffffffffffffffff00670200000050800e0d00010104c00002010018cb0071400304c0000201c0110e02030000fde90000fbf40000fc00400101004005040000006480040400000000c00804fde90064c0200c0000fde90000000100000002686082010011000400000098000000000000fde9000000000000000220010db800000000000000000000000100000000000000000000000000000000ffffffffffffffffffffffffffffffff00680200000051800e1c0002011020010db8000000000000000000000001003020010db8abcd40031020010db8000000000000000000000001c0110a02020000fde90000fc58400101004005040000006480040400000000686082020011000400000039000000000000fde90000000000000001c000020100000000ffffffffffffffffffffffffffffffff0021020000000a800f0700010118cb0071";

/// The parts that hold more than white space, trimmed.
pub open spec fn keyword_terms(parts: Seq<Seq<char>>) -> Seq<Seq<char>>
    decreases parts.len(),
{
    if parts.len() == 0 {
        Seq::empty()
    } else {
        let before = keyword_terms(parts.drop_last());
        let word = trimmed(parts.last());
        if word.len() == 0 {
            before
        } else {
            before.push(word)
        }
    }
}

/// The terms of comma-separated keywords.
pub open spec fn terms_of(keywords: Seq<char>) -> Seq<Seq<char>> {
    keyword_terms(split_on(keywords, ','))
}

/// Comma-separated keywords as a JSON array of strings.
pub open spec fn keywords_array(keywords: Seq<char>) -> Seq<char> {
    json_array(terms_of(keywords).map_values(|t: Seq<char>| quoted(t)))
}

/// Encode comma-separated keywords as the JSON array of strings that `vgi.keywords`
/// requires. Each term is trimmed, empties dropped.
pub fn keywords_json(keywords: &str) -> (out: String)
    ensures
        out@ == keywords_array(keywords@),
{
    let parts = split(&chars_of(keywords), ',');
    let ghost views = char_views(parts@);
    let ghost quote = |t: Seq<char>| quoted(t);
    let mut items: Vec<String> = Vec::new();
    assert(views.take(0) == Seq::<Seq<char>>::empty());
    assert(string_views(items@) == keyword_terms(views.take(0)).map_values(quote));
    for i in 0..parts.len()
        invariant
            views == char_views(parts@),
            quote == (|t: Seq<char>| quoted(t)),
            string_views(items@) == keyword_terms(views.take(i as int)).map_values(quote),
    {
        assert(views.take(i as int + 1).drop_last() == views.take(i as int));
        assert(views.take(i as int + 1).last() == parts@[i as int]@);
        let ghost terms = keyword_terms(views.take(i as int));
        let word = trim(&parts[i]);
        if word.len() > 0 {
            let mut item = String::new();
            push_quoted(&mut item, &word);
            assert(item@ == quoted(word@));
            let ghost before = items@;
            items.push(item);
            assert(string_views(items@) == string_views(before).push(quoted(word@)));
            assert(terms.push(word@).map_values(quote) == terms.map_values(quote).push(
                quoted(word@),
            ));
        }
    }
    assert(views.take(views.len() as int) == views);
    array_of(&items)
}

/// A reader of the JSON array gets the terms back: trimmed, without the empty ones, in
/// order, whatever characters they hold.
pub proof fn keywords_are_read_back(keywords: Seq<char>)
    ensures
        strings_in(keywords_array(keywords)) == Some(terms_of(keywords)),
{
    strings_are_read_back(terms_of(keywords));
}

/// The members of an analyst task.
pub open spec fn task_members(
    name: Seq<char>,
    prompt: Seq<char>,
    reference_sql: Seq<char>,
) -> Seq<Member> {
    seq![("name"@, name), ("prompt"@, prompt), ("reference_sql"@, reference_sql)]
}

/// The members of analyst tasks.
pub open spec fn tasks_members(tasks: Seq<(&str, &str, &str)>) -> Seq<Seq<Member>> {
    tasks.map_values(|t: (&str, &str, &str)| task_members(t.0@, t.1@, t.2@))
}

/// The JSON array of analyst tasks, each given by its members.
pub open spec fn tasks_array(tasks: Seq<Seq<Member>>) -> Seq<char> {
    json_array(tasks.map_values(|t: Seq<Member>| json_object(t)))
}

/// A member of a JSON object.
fn member(key: &str, value: &str) -> (out: String)
    ensures
        out@ == json_member((key@, value@)),
{
    let mut out = String::new();
    push_quoted(&mut out, &chars_of(key));
    out.append(":");
    push_quoted(&mut out, &chars_of(value));
    assert(out@ == json_member((key@, value@)));
    out
}

/// Build the `vgi.agent_test_tasks` JSON value: a fixed suite of analyst tasks. Each
/// `(name, prompt, reference_sql)` triple becomes a task object; the `prompt` is shown to
/// the analyst while `reference_sql` (the canonical solution) is re-run live to grade.
pub fn agent_test_tasks_json(tasks: &[(&str, &str, &str)]) -> (out: String)
    ensures
        out@ == tasks_array(tasks_members(tasks@)),
{
    let mut items: Vec<String> = Vec::new();
    let ghost wanted = tasks_members(tasks@).map_values(|t: Seq<Member>| json_object(t));
    for i in 0..tasks.len()
        invariant
            wanted == tasks_members(tasks@).map_values(|t: Seq<Member>| json_object(t)),
            items@.len() == i,
            forall|k: int| 0 <= k < i ==> (#[trigger] items@[k])@ == wanted[k],
    {
        let mut members: Vec<String> = Vec::new();
        members.push(member("name", tasks[i].0));
        members.push(member("prompt", tasks[i].1));
        members.push(member("reference_sql", tasks[i].2));
        let ghost t = task_members(tasks@[i as int].0@, tasks@[i as int].1@, tasks@[i as int].2@);
        assert(string_views(members@) == t.map_values(|m: Member| json_member(m)));
        let mut item = "{".to_string();
        item.append(comma_list(&members).as_str());
        item.append("}");
        assert(item@ == json_object(t));
        items.push(item);
    }
    assert(string_views(items@) == wanted);
    array_of(&items)
}

/// A reader of the JSON array gets every task back, in order: an object with a name, a
/// prompt and a reference query, whatever characters they hold.
pub proof fn tasks_are_read_back(tasks: Seq<(&str, &str, &str)>)
    ensures
        objects_in(tasks_array(tasks_members(tasks))) == Some(tasks_members(tasks)),
{
    objects_are_read_back(tasks_members(tasks));
}

/// A tag: a key and a value.
pub type TagView = (Seq<char>, Seq<char>);

/// A list of tags, by its views.
pub open spec fn tag_views(tags: Seq<(String, String)>) -> Seq<TagView> {
    tags.map_values(|t: (String, String)| (t.0@, t.1@))
}

/// The four standard tags of an object.
pub open spec fn standard_tags(
    title: Seq<char>,
    description_llm: Seq<char>,
    description_md: Seq<char>,
    keywords: Seq<char>,
) -> Seq<TagView> {
    seq![
        ("vgi.title"@, title),
        ("vgi.doc_llm"@, description_llm),
        ("vgi.doc_md"@, description_md),
        ("vgi.keywords"@, keywords_array(keywords)),
    ]
}

/// Build the four standard per-object discovery/description tags (`vgi.title`,
/// `vgi.doc_llm`, `vgi.doc_md`, `vgi.keywords`).
pub fn object_tags(
    title: &str,
    description_llm: &str,
    description_md: &str,
    keywords: &str,
) -> (tags: Vec<(String, String)>)
    ensures
        tag_views(tags@) == standard_tags(
            title@,
            description_llm@,
            description_md@,
            keywords@,
        ),
{
    let mut tags: Vec<(String, String)> = Vec::new();
    tags.push(("vgi.title".to_string(), title.to_string()));
    tags.push(("vgi.doc_llm".to_string(), description_llm.to_string()));
    tags.push(("vgi.doc_md".to_string(), description_md.to_string()));
    tags.push(("vgi.keywords".to_string(), keywords_json(keywords)));
    assert(tag_views(tags@) == standard_tags(title@, description_llm@, description_md@, keywords@));
    tags
}

/// Add one tag.
pub(crate) fn add_tag(tags: &mut Vec<(String, String)>, key: &str, value: String)
    ensures
        tag_views(final(tags)@) == tag_views(old(tags)@).push((key@, value@)),
{
    let ghost before = tags@;
    tags.push((key.to_string(), value));
    assert(tag_views(tags@) == tag_views(before).push((key@, value@)));
}

/// An example query of a function.
pub struct FunctionExample {
    pub sql: String,
    pub description: String,
}

/// What a function tells of itself.
pub struct FunctionMetadata {
    pub description: String,
    /// The type of a scalar's result.
    pub return_type: Option<DataType>,
    pub examples: Vec<FunctionExample>,
    pub tags: Vec<(String, String)>,
}

/// [`FunctionMetadata`], with its texts as sequences.
pub struct MetadataView {
    pub description: Seq<char>,
    pub return_type: Option<TypeView>,
    /// The queries and their descriptions.
    pub examples: Seq<(Seq<char>, Seq<char>)>,
    pub tags: Seq<TagView>,
}

/// The views of a list of examples.
pub open spec fn example_views(examples: Seq<FunctionExample>) -> Seq<(Seq<char>, Seq<char>)> {
    examples.map_values(|e: FunctionExample| (e.sql@, e.description@))
}

impl View for FunctionMetadata {
    type V = MetadataView;

    open spec fn view(&self) -> MetadataView {
        MetadataView {
            description: self.description@,
            return_type: match self.return_type {
                Some(ty) => Some(type_view(ty)),
                None => None,
            },
            examples: example_views(self.examples@),
            tags: tag_views(self.tags@),
        }
    }
}

/// A list of one example.
pub(crate) fn one_example(sql: String, description: &str) -> (examples: Vec<FunctionExample>)
    ensures
        example_views(examples@) == seq![(sql@, description@)],
{
    let mut examples: Vec<FunctionExample> = Vec::new();
    examples.push(FunctionExample { sql, description: description.to_string() });
    assert(example_views(examples@) == seq![(sql@, description@)]);
    examples
}

} // verus!
