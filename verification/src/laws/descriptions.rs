//! Laws of descriptions: what the functions and the catalog tell of themselves.
use crate::arrow_io::list_of;
use crate::catalog::analyst_tasks;
use crate::catalog::catalog_of;
use crate::catalog::CATALOG_COMMENT;
use crate::catalog::CATALOG_KEYWORDS;
use crate::catalog::CATALOG_LLM;
use crate::catalog::CATALOG_MD;
use crate::catalog::CATALOG_QUERIES_1;
use crate::catalog::CATALOG_QUERIES_2;
use crate::catalog::CATALOG_QUERIES_3;
use crate::catalog::CATALOG_QUERIES_4;
use crate::catalog::CATALOG_TITLE;
use crate::catalog::COPYRIGHT;
use crate::catalog::SCHEMA_COMMENT;
use crate::catalog::SCHEMA_KEYWORDS;
use crate::catalog::SCHEMA_LLM;
use crate::catalog::SCHEMA_MD;
use crate::catalog::SCHEMA_QUERIES_1;
use crate::catalog::SCHEMA_QUERIES_2;
use crate::catalog::SCHEMA_QUERIES_3;
use crate::catalog::SCHEMA_QUERIES_4;
use crate::catalog::SCHEMA_TITLE;
use crate::catalog::SUPPORT_CONTACT;
use crate::catalog::SUPPORT_POLICY_URL;
use crate::catalog::TASK_LARGE_COMMUNITY;
use crate::catalog::TASK_LARGE_COMMUNITY_SQL;
use crate::catalog::TASK_ORIGIN;
use crate::catalog::TASK_ORIGIN_SQL;
use crate::catalog::TASK_PATH_HOPS;
use crate::catalog::TASK_PATH_HOPS_SQL;
use crate::catalog::TASK_RIB_COUNT;
use crate::catalog::TASK_RIB_COUNT_SQL;
use crate::catalog::TASK_RIB_PREFIX_CONTAINS;
use crate::catalog::TASK_RIB_PREFIX_CONTAINS_SQL;
use crate::catalog::TASK_VERSION;
use crate::catalog::TASK_VERSION_SQL;
use crate::columns::TypeView;
use crate::json::json_escape;
use crate::json::objects_are_read_back;
use crate::json::objects_in;
use crate::json::read_string;
use crate::json::strings_in;
use crate::json::Member;
use crate::keys::lemma_split_some;
use crate::laws::texts::trimming_takes_off_white_space;
use crate::meta::keyword_terms;
use crate::meta::keywords_are_read_back;
use crate::meta::standard_tags;
use crate::meta::task_members;
use crate::meta::tasks_array;
use crate::meta::tasks_members;
use crate::meta::terms_of;
use crate::meta::RIB_MRT_HEX;
use crate::meta::TagView;
use crate::meta::UPD_MRT_HEX;
use crate::scalar::community::raw_arg;
use crate::scalar::path::as_path_arg;
use crate::text::is_white;
use crate::text::split_on;
use crate::text::trimmed;
use vstd::prelude::*;

verus! {

/// Splitting at a separator splits both sides on their own.
proof fn lemma_split_both(a: Seq<char>, sep: char, b: Seq<char>)
    ensures
        split_on(a.push(sep) + b, sep) == split_on(a, sep) + split_on(b, sep),
    decreases b.len(),
{
    let s = a.push(sep) + b;
    let left = split_on(a, sep);
    lemma_split_some(b, sep);
    if b.len() == 0 {
        assert(s == a.push(sep));
        assert(s.drop_last() == a);
        assert(left.push(Seq::empty()) == left + split_on(b, sep));
    } else {
        let init = b.drop_last();
        lemma_split_both(a, sep, init);
        lemma_split_some(init, sep);
        assert(s.drop_last() == a.push(sep) + init);
        assert(s.last() == b.last());
        let right = split_on(init, sep);
        let both = left + right;
        if b.last() == sep {
            assert(both.push(Seq::empty()) == left + right.push(Seq::empty()));
        } else {
            assert(both.drop_last() == left + right.drop_last());
            assert(both.last() == right.last());
            assert(both.drop_last().push(both.last().push(b.last())) == left
                + right.drop_last().push(right.last().push(b.last())));
        }
    }
}

/// The terms of two lists of parts are those of the first and then those of the second.
proof fn lemma_terms_add(a: Seq<Seq<char>>, b: Seq<Seq<char>>)
    ensures
        keyword_terms(a + b) == keyword_terms(a) + keyword_terms(b),
    decreases b.len(),
{
    if b.len() == 0 {
        assert(a + b == a);
        assert(keyword_terms(a) + keyword_terms(b) == keyword_terms(a));
    } else {
        lemma_terms_add(a, b.drop_last());
        assert((a + b).drop_last() == a + b.drop_last());
        assert((a + b).last() == b.last());
        assert(keyword_terms(a + b) == keyword_terms(a) + keyword_terms(b));
    }
}

/// Keywords are split at commas: those before a comma come first, those behind it follow.
pub proof fn keywords_are_split_at_commas(a: Seq<char>, b: Seq<char>)
    ensures
        terms_of(a.push(',') + b) == terms_of(a) + terms_of(b),
{
    lemma_split_both(a, ',', b);
    lemma_terms_add(split_on(a, ','), split_on(b, ','));
}

/// What holds no comma is one keyword, without the white space around it, or none if that leaves
/// nothing.
pub proof fn keywords_are_trimmed(word: Seq<char>)
    requires
        forall|i: int| 0 <= i < word.len() ==> #[trigger] word[i] != ',',
    ensures
        trimmed(word).len() > 0 ==> terms_of(word) == seq![trimmed(word)],
        trimmed(word).len() == 0 ==> terms_of(word).len() == 0,
{
    crate::community::lemma_split_one(word, ',');
    let parts = seq![word];
    assert(parts.drop_last() == Seq::<Seq<char>>::empty());
    assert(keyword_terms(parts.drop_last()) == Seq::<Seq<char>>::empty());
    assert(keyword_terms(parts) == if trimmed(word).len() > 0 {
        seq![trimmed(word)]
    } else {
        Seq::empty()
    });
}

/// No keyword is empty or starts or ends with white space.
pub proof fn keywords_are_words(keywords: Seq<char>, k: int)
    requires
        0 <= k < terms_of(keywords).len(),
    ensures
        terms_of(keywords)[k].len() > 0,
        !is_white(terms_of(keywords)[k][0]),
        !is_white(terms_of(keywords)[k].last()),
{
    lemma_term(split_on(keywords, ','), k);
}

proof fn lemma_term(parts: Seq<Seq<char>>, k: int)
    requires
        0 <= k < keyword_terms(parts).len(),
    ensures
        keyword_terms(parts)[k].len() > 0,
        !is_white(keyword_terms(parts)[k][0]),
        !is_white(keyword_terms(parts)[k].last()),
    decreases parts.len(),
{
    let before = keyword_terms(parts.drop_last());
    if k < before.len() {
        lemma_term(parts.drop_last(), k);
    } else {
        let _ = trimming_takes_off_white_space(parts.last());
    }
}

/// An object is described by four tags: its title, its two descriptions, and its keywords, which
/// are read back as the terms they hold.
pub proof fn objects_have_four_tags(
    title: Seq<char>,
    llm: Seq<char>,
    md: Seq<char>,
    keywords: Seq<char>,
)
    ensures
        ({
            let tags = standard_tags(title, llm, md, keywords);
            &&& tags.len() == 4
            &&& tags[0] == ("vgi.title"@, title)
            &&& tags[1] == ("vgi.doc_llm"@, llm)
            &&& tags[2] == ("vgi.doc_md"@, md)
            &&& tags[3].0 == "vgi.keywords"@
            &&& strings_in(tags[3].1) == Some(terms_of(keywords))
        }),
{
    keywords_are_read_back(keywords);
}

/// A task has a name, a prompt and the query that solves it, in the order of the triple it is
/// given as.
pub proof fn tasks_have_three_members(
    name: Seq<char>,
    prompt: Seq<char>,
    sql: Seq<char>,
    tasks: Seq<(&str, &str, &str)>,
    i: int,
)
    ensures
        tasks_members(tasks).len() == tasks.len(),
        0 <= i < tasks.len() ==> tasks_members(tasks)[i] == seq![
            ("name"@, tasks[i].0@),
            ("prompt"@, tasks[i].1@),
            ("reference_sql"@, tasks[i].2@),
        ],
        task_members(name, prompt, sql).len() == 3,
        task_members(name, prompt, sql)[0] == ("name"@, name),
        task_members(name, prompt, sql)[1] == ("prompt"@, prompt),
        task_members(name, prompt, sql)[2] == ("reference_sql"@, sql),
{
}

/// The catalog's tasks, each with its prompt and its solution.
pub proof fn the_catalog_has_six_tasks()
    ensures
        analyst_tasks().len() == 6,
        analyst_tasks()[0] == task_members("version"@, TASK_VERSION@, TASK_VERSION_SQL@),
        analyst_tasks()[1] == task_members("path_hops"@, TASK_PATH_HOPS@, TASK_PATH_HOPS_SQL@),
        analyst_tasks()[2] == task_members("origin"@, TASK_ORIGIN@, TASK_ORIGIN_SQL@),
        analyst_tasks()[3] == task_members(
            "large_community"@,
            TASK_LARGE_COMMUNITY@,
            TASK_LARGE_COMMUNITY_SQL@,
        ),
        analyst_tasks()[4] == task_members("rib_count"@, TASK_RIB_COUNT@, TASK_RIB_COUNT_SQL@),
        analyst_tasks()[5] == task_members(
            "rib_prefix_contains"@,
            TASK_RIB_PREFIX_CONTAINS@,
            TASK_RIB_PREFIX_CONTAINS_SQL@,
        ),
{
}

/// A JSON reader takes the escapes for what they stand for: a quote, a backslash, a line feed, a
/// carriage return, a tab, or a control character by its number in four hexadecimal digits.
pub proof fn escapes_stand_for_their_characters(s: Seq<char>, n: int)
    requires
        s.len() >= 6,
        s[0] == '\\',
    ensures
        s[1] == '"' ==> json_escape(s) == Some(('"', 2int)),
        s[1] == '\\' ==> json_escape(s) == Some(('\\', 2int)),
        s[1] == 'n' ==> json_escape(s) == Some(('\n', 2int)),
        s[1] == 'r' ==> json_escape(s) == Some(('\r', 2int)),
        s[1] == 't' ==> json_escape(s) == Some(('\t', 2int)),
        s[1] == 'u' && s[2] == '0' && s[3] == '0' && s[4] == '0' && 0 <= n < 10 && s[5] as int
            == '0' as int + n ==> json_escape(s) == Some((n as char, 6int)),
        s[1] == 'u' && s[2] == '0' && s[3] == '0' && s[4] == '1' && 10 <= n < 16 && s[5] as int
            == 'a' as int + n - 10 ==> json_escape(s) == Some(((16 + n) as char, 6int)),
{
    let unit = s.skip(2);
    assert(unit[0] == s[2] && unit[1] == s[3] && unit[2] == s[4] && unit[3] == s[5]);
}

/// A JSON string is read character by character up to its closing quote; an escape is one
/// character.
pub proof fn strings_are_read_by_character(text: Seq<char>, rest: Seq<char>)
    requires
        forall|i: int|
            0 <= i < text.len() ==> ' ' <= #[trigger] text[i] && text[i] != '"' && text[i] != '\\',
    ensures
        read_string(text.push('"') + rest) == Some((text, rest)),
    decreases text.len(),
{
    let s = text.push('"') + rest;
    if text.len() == 0 {
        assert(s[0] == '"');
        assert(s.skip(1) == rest);
        assert(text == Seq::<char>::empty());
    } else {
        let more = text.skip(1);
        assert forall|i: int| 0 <= i < more.len() implies ' ' <= #[trigger] more[i] && more[i] != '"'
            && more[i] != '\\' by {
            assert(more[i] == text[i + 1]);
        }
        strings_are_read_by_character(more, rest);
        assert(s[0] == text[0]);
        assert(s.skip(1) == more.push('"') + rest);
        assert(seq![text[0]] + more == text);
    }
}

/// The keys of tags, in order.
pub open spec fn tag_keys(tags: Seq<TagView>) -> Seq<Seq<char>> {
    tags.map_values(|t: TagView| t.0)
}

/// The catalog has the name it is attached under, the build version, and one schema, `main`; it
/// and the schema carry their tags.
pub proof fn the_catalog_describes_itself(name: Seq<char>)
    ensures
        ({
            let c = catalog_of(name);
            &&& c.name == name
            &&& c.implementation_version == Some("0.1.0"@)
            &&& c.source_url == Some("https://github.com/Query-farm/vgi-bgp"@)
            &&& c.comment is Some
            &&& c.schemas.len() == 1
            &&& c.schemas[0].name == "main"@
            &&& c.schemas[0].comment is Some
            &&& tag_keys(c.tags) == seq![
                "vgi.title"@,
                "vgi.keywords"@,
                "vgi.doc_llm"@,
                "vgi.doc_md"@,
                "vgi.agent_test_tasks"@,
                "vgi.example_queries"@,
                "vgi.author"@,
                "vgi.copyright"@,
                "vgi.license"@,
                "vgi.support_contact"@,
                "vgi.support_policy_url"@,
            ]
            &&& tag_keys(c.schemas[0].tags) == seq![
                "vgi.title"@,
                "vgi.keywords"@,
                "domain"@,
                "category"@,
                "topic"@,
                "vgi.doc_llm"@,
                "vgi.doc_md"@,
                "vgi.example_queries"@,
            ]
        }),
{
}

/// The catalog's tags hold what their keys say: texts as they are, keywords and tasks as JSON,
/// and example queries over the built-in dumps.
pub proof fn catalog_tags_hold_their_texts(name: Seq<char>)
    ensures
        ({
            let tags = catalog_of(name).tags;
            &&& tags[0].1 == CATALOG_TITLE@
            &&& strings_in(tags[1].1) == Some(terms_of(CATALOG_KEYWORDS@))
            &&& tags[2].1 == CATALOG_LLM@
            &&& tags[3].1 == CATALOG_MD@
            &&& tags[4].1 == tasks_array(analyst_tasks())
            &&& tags[5].1 == CATALOG_QUERIES_1@ + RIB_MRT_HEX@ + CATALOG_QUERIES_2@ + UPD_MRT_HEX@
                + CATALOG_QUERIES_3@ + RIB_MRT_HEX@ + CATALOG_QUERIES_4@
            &&& tags[6].1 == "Query.Farm"@
            &&& tags[7].1 == COPYRIGHT@
            &&& tags[8].1 == "MIT"@
            &&& tags[9].1 == SUPPORT_CONTACT@
            &&& tags[10].1 == SUPPORT_POLICY_URL@
            &&& catalog_of(name).comment == Some(CATALOG_COMMENT@)
        }),
{
    keywords_are_read_back(CATALOG_KEYWORDS@);
}

/// An array of tasks is read back task by task.
pub proof fn task_arrays_are_read_back(tasks: Seq<Seq<Member>>)
    requires
        forall|i: int| 0 <= i < tasks.len() ==> (#[trigger] tasks[i]).len() > 0,
    ensures
        objects_in(tasks_array(tasks)) == Some(tasks),
{
    objects_are_read_back(tasks);
}

/// So do the schema's.
pub proof fn schema_tags_hold_their_texts(name: Seq<char>)
    ensures
        ({
            let tags = catalog_of(name).schemas[0].tags;
            &&& tags[0].1 == SCHEMA_TITLE@
            &&& strings_in(tags[1].1) == Some(terms_of(SCHEMA_KEYWORDS@))
            &&& tags[2].1 == "network-security"@
            &&& tags[3].1 == "routing-and-bgp"@
            &&& tags[4].1 == "mrt-decoding"@
            &&& tags[5].1 == SCHEMA_LLM@
            &&& tags[6].1 == SCHEMA_MD@
            &&& tags[7].1 == SCHEMA_QUERIES_1@ + RIB_MRT_HEX@ + SCHEMA_QUERIES_2@ + RIB_MRT_HEX@
                + SCHEMA_QUERIES_3@ + UPD_MRT_HEX@ + SCHEMA_QUERIES_4@
            &&& catalog_of(name).schemas[0].comment == Some(SCHEMA_COMMENT@)
        }),
{
    keywords_are_read_back(SCHEMA_KEYWORDS@);
}

/// The scalars over paths take a list of 64-bit integers, those over communities a text.
pub proof fn scalars_take_their_columns()
    ensures
        as_path_arg().name == "as_path"@,
        as_path_arg().position == 0,
        as_path_arg().data_type == Some(list_of(TypeView::Int64)),
        !as_path_arg().is_const,
        raw_arg().name == "raw"@,
        raw_arg().position == 0,
        raw_arg().data_type == Some(TypeView::Utf8),
        !raw_arg().is_const,
        list_of(TypeView::Int64) is List,
        list_of(TypeView::Int64)->List_0.ty == TypeView::Int64,
        list_of(TypeView::Int64)->List_0.nullable,
{
}

} // verus!
