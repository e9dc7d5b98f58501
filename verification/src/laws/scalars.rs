//! Laws of the scalar functions: how each cell of a result follows from the cells of its row.
use crate::arrow_io::integer_cell;
use crate::arrow_io::integers;
use crate::arrow_io::list_cell;
use crate::arrow_io::list_u32_cell;
use crate::arrow_io::str_cell;
use crate::arrow_io::u32_cell;
use crate::arrow_io::wrapped;
use crate::aspath::prepend_count;
use crate::aspath::run_count;
use crate::columns::batch_cells;
use crate::columns::batch_fits;
use crate::columns::batch_len;
use crate::columns::cell_count;
use crate::columns::int_at;
use crate::columns::int_type_of;
use crate::columns::validity;
use crate::columns::Batch;
use crate::columns::Cells;
use crate::columns::FieldView;
use crate::columns::TypeView;
use crate::community::large_community;
use crate::community::standard_community;
use crate::error::Blame;
use crate::error::Error;
use crate::laws::batches::names;
use crate::scalar::community::community_cells;
use crate::scalar::community::community_fields;
use crate::scalar::community::large_cell;
use crate::scalar::community::standard_cells;
use crate::scalar::is_result;
use crate::scalar::path::contains_cell;
use crate::scalar::path::hops_cell;
use crate::scalar::path::origin_cell;
use crate::scalar::path::prepends_cell;
use crate::scalar::version::version_cells;
use vstd::prelude::*;

verus! {

/// Whether row `i` of a column holds a path: the column is a list column, and the list there is
/// not null.
pub open spec fn has_path(column: Cells, i: int) -> bool {
    column matches Cells::List { valid, .. } && valid[i]
}

/// The items of the list in row `i`.
pub open spec fn items_at(column: Cells, i: int) -> Cells {
    column->List_slots[i]
}

/// The number of hops in a list: all of its items, if they are integers of 32 or 64 bits.
pub open spec fn hop_len(items: Cells) -> nat {
    match items {
        Cells::UInt32(c) => c.len(),
        Cells::Int64(c) => c.len(),
        Cells::Int32(c) => c.len(),
        Cells::UInt64(c) => c.len(),
        _ => 0,
    }
}

/// Hop `j` of a list; a null item stands for 0.
pub open spec fn hop(items: Cells, j: int) -> int {
    match items {
        Cells::UInt32(c) => if c[j] is Some { c[j]->0 as int } else { 0 },
        Cells::Int64(c) => if c[j] is Some { c[j]->0 as int } else { 0 },
        Cells::Int32(c) => if c[j] is Some { c[j]->0 as int } else { 0 },
        Cells::UInt64(c) => if c[j] is Some { c[j]->0 as int } else { 0 },
        _ => 0,
    }
}

/// Where a list repeats its predecessor.
pub open spec fn repeats(items: Cells) -> Set<int> {
    Set::new(|j: int| 0 < j < hop_len(items) && hop(items, j) == hop(items, j - 1))
}

/// Whether cell `i` of an integer column of any width is `n`.
pub open spec fn holds_integer(column: Cells, i: int, n: int) -> bool {
    match column {
        Cells::UInt8(c) => c[i] is Some && c[i]->0 == n,
        Cells::UInt16(c) => c[i] is Some && c[i]->0 == n,
        Cells::UInt32(c) => c[i] is Some && c[i]->0 == n,
        Cells::UInt64(c) => c[i] is Some && c[i]->0 == n,
        Cells::Int8(c) => c[i] is Some && c[i]->0 == n,
        Cells::Int16(c) => c[i] is Some && c[i]->0 == n,
        Cells::Int32(c) => c[i] is Some && c[i]->0 == n,
        Cells::Int64(c) => c[i] is Some && c[i]->0 == n,
        _ => false,
    }
}

/// A path is read whole, hop by hop; a null list and a column that is no list give none.
pub proof fn paths_are_read_whole(column: Cells, i: int)
    requires
        0 <= i < cell_count(column),
    ensures
        list_cell(column, i) is Some <==> has_path(column, i),
        has_path(column, i) ==> {
            let items = items_at(column, i);
            let path = list_cell(column, i)->0;
            &&& path.len() == hop_len(items)
            &&& forall|j: int| 0 <= j < path.len() ==> #[trigger] path[j] == hop(items, j)
            &&& forall|j: int|
                0 <= j < hop_len(items) ==> -0x8000_0000_0000_0000 <= #[trigger] hop(items, j)
                    < 0x1_0000_0000_0000_0000
        },
{
    if has_path(column, i) {
        let items = items_at(column, i);
        let path = list_cell(column, i)->0;
        assert(path == integers(items));
        assert forall|j: int| 0 <= j < path.len() implies #[trigger] path[j] == hop(items, j) by {
            assert(int_at(items, j) == hop(items, j));
        }
    }
}

/// The prepends of a path are the places where a hop is the same as the one before it.
pub proof fn prepends_are_counted_once<T>(path: Seq<T>)
    ensures
        ({
            let s = Set::new(|j: int| 0 < j < path.len() && path[j] == path[j - 1]);
            s.finite() && s.len() == prepend_count(path)
        }),
    decreases path.len(),
{
    let s = Set::new(|j: int| 0 < j < path.len() && path[j] == path[j - 1]);
    if path.len() < 2 {
        assert(s == Set::<int>::empty());
    } else {
        let init = path.drop_last();
        let n = path.len() - 1;
        let t = Set::new(|j: int| 0 < j < init.len() && init[j] == init[j - 1]);
        prepends_are_counted_once(init);
        if path[n] == path[n - 1] {
            assert(s == t.insert(n));
        } else {
            assert(s == t);
        }
    }
}

/// The result column of a scalar that succeeded.
pub open spec fn result_of(out: Result<Batch, Error>) -> Cells {
    batch_cells(out->Ok_0)[0]
}

/// A scalar gives one column with a row for every row it was given, if that fits the schema it was
/// bound with; if not, the worker is to blame.
pub proof fn results_have_one_column(out: Result<Batch, Error>, schema: Seq<FieldView>, result: Cells)
    requires
        is_result(out, schema, result),
    ensures
        out is Ok <==> batch_fits(schema, seq![result]),
        out is Ok ==> batch_cells(out->Ok_0).len() == 1,
        out is Ok ==> result_of(out) == result,
        out is Ok ==> batch_len(out->Ok_0) == validity(result).len(),
        out is Err ==> out->Err_0.blame == Blame::Runtime,
{
}

/// `as_path_prepends`: in every row with a path the result is the number of hops that repeat
/// the hop before them; in every other row it is null.
pub proof fn prepends_are_repeated_hops(
    columns: Seq<Cells>,
    n: nat,
    schema: Seq<FieldView>,
    out: Result<Batch, Error>,
    i: int,
)
    requires
        columns.len() >= 1,
        cell_count(columns[0]) == n,
        is_result(out, schema, Cells::Int64(Seq::new(n, |k: int| prepends_cell(columns, k)))),
        out is Ok,
        0 <= i < n,
    ensures
        ({
            let items = items_at(columns[0], i);
            &&& result_of(out) matches Cells::Int64(cells)
            &&& cells.len() == n
            &&& has_path(columns[0], i) ==> repeats(items).finite() && cells[i] == Some(
                repeats(items).len() as i64,
            )
            &&& !has_path(columns[0], i) ==> cells[i] is None
        }),
{
    paths_are_read_whole(columns[0], i);
    if has_path(columns[0], i) {
        let items = items_at(columns[0], i);
        let path = list_cell(columns[0], i)->0;
        prepends_are_counted_once(path);
        let s = Set::new(|j: int| 0 < j < path.len() && path[j] == path[j - 1]);
        assert(s == repeats(items)) by {
            assert forall|j: int| s.contains(j) == #[trigger] repeats(items).contains(j) by {
                if 0 < j < path.len() {
                    assert(path[j] == hop(items, j) && path[j - 1] == hop(items, j - 1));
                }
            }
        }
    }
}

/// A path of `k` equal hops has `k - 1` prepends, one without neighbours that are equal has none,
/// and the prepends of two paths add up when they are joined at different hops.
pub proof fn prepends_by_shape<T>(a: Seq<T>, b: Seq<T>)
    ensures
        a.len() > 0 && (forall|j: int| 0 <= j < a.len() ==> #[trigger] a[j] == a[0])
            ==> prepend_count(a) == a.len() - 1,
        (forall|j: int| 0 < j < a.len() ==> #[trigger] a[j] != a[j - 1]) ==> prepend_count(a) == 0,
        a.len() > 0 && b.len() > 0 && a.last() != b[0] ==> prepend_count(a + b) == prepend_count(a)
            + prepend_count(b),
        a.len() > 0 && b.len() > 0 && a.last() == b[0] ==> prepend_count(a + b) == prepend_count(a)
            + prepend_count(b) + 1,
    decreases a.len() + b.len(),
{
    if a.len() > 1 {
        let init = a.drop_last();
        if forall|j: int| 0 <= j < a.len() ==> #[trigger] a[j] == a[0] {
            assert forall|j: int| 0 <= j < init.len() implies #[trigger] init[j] == init[0] by {
                assert(a[j] == a[0]);
            }
            assert(a[a.len() - 1] == a[0] && a[a.len() - 2] == a[0]);
        }
        if forall|j: int| 0 < j < a.len() ==> #[trigger] a[j] != a[j - 1] {
            assert forall|j: int| 0 < j < init.len() implies #[trigger] init[j] != init[j - 1] by {
                assert(a[j] != a[j - 1]);
            }
            assert(a[a.len() - 1] != a[a.len() - 2]);
        }
        prepends_by_shape(init, Seq::empty());
    }
    if a.len() > 0 && b.len() > 0 {
        let whole = a + b;
        let rest = b.drop_last();
        assert(whole.drop_last() == a + rest);
        if rest.len() == 0 {
            assert(a + rest == a);
            assert(whole.last() == b[0] && whole[whole.len() - 2] == a.last());
        } else {
            prepends_by_shape(a, rest);
            assert(rest[0] == b[0]);
            assert(whole.last() == b.last() && whole[whole.len() - 2] == b[b.len() - 2]);
        }
    }
}

/// The runs of a path are as many as the hops that do not repeat the hop before them.
pub proof fn runs_are_changes<T>(path: Seq<T>)
    ensures
        run_count(path) + prepend_count(path) == path.len(),
        path.len() > 0 ==> run_count(path) >= 1,
    decreases path.len(),
{
    if path.len() > 0 {
        runs_are_changes(path.drop_last());
    }
}

/// `path_contains`: in every row with a path and an ASN the result is true exactly if the ASN is
/// one of the hops, wherever it stands; in every other row it is null.
pub proof fn containment_is_a_hop(
    columns: Seq<Cells>,
    n: nat,
    schema: Seq<FieldView>,
    out: Result<Batch, Error>,
    i: int,
    asn: int,
)
    requires
        columns.len() >= 2,
        cell_count(columns[0]) == n,
        cell_count(columns[1]) == n,
        is_result(out, schema, Cells::Boolean(Seq::new(n, |k: int| contains_cell(columns, k)))),
        out is Ok,
        0 <= i < n,
    ensures
        ({
            let items = items_at(columns[0], i);
            &&& result_of(out) matches Cells::Boolean(cells)
            &&& cells.len() == n
            &&& has_path(columns[0], i) && holds_integer(columns[1], i, asn) ==> cells[i] == Some(
                exists|j: int| 0 <= j < hop_len(items) && #[trigger] hop(items, j) == asn,
            )
            &&& !has_path(columns[0], i) ==> cells[i] is None
            &&& !validity(columns[1])[i] || int_type_of(columns[1]) is None ==> cells[i] is None
        }),
{
    paths_are_read_whole(columns[0], i);
    if has_path(columns[0], i) && holds_integer(columns[1], i, asn) {
        let items = items_at(columns[0], i);
        let path = list_cell(columns[0], i)->0;
        assert(validity(columns[1])[i]);
        assert(int_at(columns[1], i) == asn);
        assert(-0x8000_0000_0000_0000 <= asn < 0x1_0000_0000_0000_0000);
        if path.contains(asn as i128) {
            let j = choose|j: int| 0 <= j < path.len() && path[j] == asn as i128;
            assert(hop(items, j) == asn);
        }
        if exists|j: int| 0 <= j < hop_len(items) && #[trigger] hop(items, j) == asn {
            let j = choose|j: int| 0 <= j < hop_len(items) && #[trigger] hop(items, j) == asn;
            assert(path[j] == asn as i128);
        }
    }
}

/// In particular a path contains its first and its last hop, and every one between.
pub proof fn paths_contain_their_hops(
    columns: Seq<Cells>,
    n: nat,
    schema: Seq<FieldView>,
    out: Result<Batch, Error>,
    i: int,
    j: int,
)
    requires
        columns.len() >= 2,
        cell_count(columns[0]) == n,
        cell_count(columns[1]) == n,
        is_result(out, schema, Cells::Boolean(Seq::new(n, |k: int| contains_cell(columns, k)))),
        out is Ok,
        0 <= i < n,
        has_path(columns[0], i),
        0 <= j < hop_len(items_at(columns[0], i)),
        holds_integer(columns[1], i, hop(items_at(columns[0], i), j)),
    ensures
        result_of(out) matches Cells::Boolean(cells) && cells[i] == Some(true),
{
    containment_is_a_hop(columns, n, schema, out, i, hop(items_at(columns[0], i), j));
}

/// `path_length`: in every row with a path the result is the number of its hops; in every other
/// row it is null.
pub proof fn lengths_count_hops(
    columns: Seq<Cells>,
    n: nat,
    schema: Seq<FieldView>,
    out: Result<Batch, Error>,
    i: int,
)
    requires
        columns.len() >= 1,
        cell_count(columns[0]) == n,
        is_result(out, schema, Cells::Int64(Seq::new(n, |k: int| hops_cell(columns, k)))),
        out is Ok,
        0 <= i < n,
    ensures
        result_of(out) matches Cells::Int64(cells) && cells.len() == n && cells[i] == if has_path(
            columns[0],
            i,
        ) {
            Some(hop_len(items_at(columns[0], i)) as i64)
        } else {
            None
        },
{
    paths_are_read_whole(columns[0], i);
}

/// `origin_asn`: in every row with a path that is not empty the result is the last hop, as a
/// 32-bit number; in every other row it is null.
pub proof fn origins_are_last_hops(
    columns: Seq<Cells>,
    n: nat,
    schema: Seq<FieldView>,
    out: Result<Batch, Error>,
    i: int,
)
    requires
        columns.len() >= 1,
        cell_count(columns[0]) == n,
        is_result(out, schema, Cells::UInt32(Seq::new(n, |k: int| origin_cell(columns, k)))),
        out is Ok,
        0 <= i < n,
    ensures
        ({
            let items = items_at(columns[0], i);
            let last = hop(items, hop_len(items) - 1);
            &&& result_of(out) matches Cells::UInt32(cells)
            &&& cells.len() == n
            &&& cells[i] is Some <==> has_path(columns[0], i) && hop_len(items) > 0
            &&& cells[i] is Some && 0 <= last <= u32::MAX ==> cells[i] == Some(last as u32)
            &&& cells[i] is Some ==> (last - cells[i]->0) % 0x1_0000_0000 == 0
        }),
{
    paths_are_read_whole(columns[0], i);
    if has_path(columns[0], i) {
        let items = items_at(columns[0], i);
        let path = list_cell(columns[0], i)->0;
        if path.len() > 0 {
            numbers_wrap_to_32_bits(path.last());
            let low = list_u32_cell(columns[0], i)->0;
            assert(low.last() == wrapped(path.last()));
            assert(path.last() == hop(items, hop_len(items) - 1));
        }
    }
}

/// A number that fits 32 bits stays as it is, and any other is off by a multiple of `2^32`.
pub proof fn numbers_wrap_to_32_bits(n: i128)
    ensures
        0 <= n <= u32::MAX ==> wrapped(n) == n,
        (n - wrapped(n)) % 0x1_0000_0000 == 0,
{
    let m = 0x1_0000_0000int;
    vstd::arithmetic::div_mod::lemma_fundamental_div_mod(n as int, m);
    assert(n - n as int % m == m * (n as int / m));
    vstd::arithmetic::div_mod::lemma_mod_multiples_basic(n as int / m, m);
    assert(m * (n as int / m) == (n as int / m) * m) by (nonlinear_arith);
    if 0 <= n <= u32::MAX {
        vstd::arithmetic::div_mod::lemma_small_mod(n as nat, m as nat);
    }
}

/// An integer column of any width gives the number that stands in it, whole or wrapped to 32
/// bits, and nothing for a null cell or another column.
pub proof fn integers_are_read(column: Cells, i: int, n: int)
    requires
        0 <= i < cell_count(column),
    ensures
        holds_integer(column, i, n) ==> integer_cell(column, i) is Some && integer_cell(column, i)->0
            == n,
        holds_integer(column, i, n) ==> u32_cell(column, i) is Some && is_low_part(
            u32_cell(column, i)->0,
            n,
        ),
        !validity(column)[i] ==> integer_cell(column, i) is None && u32_cell(column, i) is None,
        int_type_of(column) is None ==> integer_cell(column, i) is None && u32_cell(column, i) is None,
{
    if holds_integer(column, i, n) {
        assert(int_at(column, i) == n);
        numbers_wrap_to_32_bits(n as i128);
    }
}

/// Whether `low` is `n`, or, where that does not fit 32 bits, `n` less a multiple of `2^32`.
pub open spec fn is_low_part(low: u32, n: int) -> bool {
    &&& 0 <= n <= u32::MAX ==> low == n
    &&& (n - low) % 0x1_0000_0000 == 0
}

/// A list is read number by number, each wrapped to 32 bits.
pub proof fn lists_are_read(column: Cells, i: int)
    requires
        0 <= i < cell_count(column),
    ensures
        list_u32_cell(column, i) is Some <==> has_path(column, i),
        has_path(column, i) ==> list_u32_cell(column, i)->0.len() == hop_len(items_at(column, i)),
        has_path(column, i) ==> forall|j: int|
            0 <= j < hop_len(items_at(column, i)) ==> is_low_part(
                #[trigger] list_u32_cell(column, i)->0[j],
                hop(items_at(column, i), j),
            ),
{
    paths_are_read_whole(column, i);
    if has_path(column, i) {
        let items = items_at(column, i);
        let path = list_cell(column, i)->0;
        assert forall|j: int| 0 <= j < hop_len(items) implies is_low_part(
            #[trigger] list_u32_cell(column, i)->0[j],
            hop(items, j),
        ) by {
            assert(path[j] == hop(items, j));
            numbers_wrap_to_32_bits(path[j]);
        }
    }
}

/// A string column of either width gives the text that stands in it, and nothing for a null cell
/// or another column.
pub proof fn texts_are_read(column: Cells, i: int)
    requires
        0 <= i < cell_count(column),
    ensures
        str_cell(column, i) == match column {
            Cells::Utf8(c) => c[i],
            Cells::LargeUtf8(c) => c[i],
            _ => None,
        },
{
}

/// `community_parse`: a row is null exactly if its text is null or no standard community;
/// otherwise the result has the community's AS under `asn` and its value under `value`.
pub proof fn communities_are_split(
    columns: Seq<Cells>,
    n: nat,
    schema: Seq<FieldView>,
    out: Result<Batch, Error>,
    i: int,
)
    requires
        columns.len() >= 1,
        cell_count(columns[0]) == n,
        is_result(out, schema, community_cells(standard_cells(columns, n))),
        out is Ok,
        0 <= i < n,
    ensures
        ({
            let text = str_cell(columns[0], i);
            &&& result_of(out) matches Cells::Struct { fields, children, valid }
            &&& names(fields) == seq!["asn"@, "value"@]
            &&& fields[0].ty == TypeView::UInt32 && fields[1].ty == TypeView::UInt32
            &&& valid.len() == n
            &&& valid[i] <==> text is Some && standard_community(text->0) is Some
            &&& children.len() == 2
            &&& children[0] matches Cells::UInt32(asns)
            &&& children[1] matches Cells::UInt32(values)
            &&& valid[i] ==> standard_community(text->0) == Some((asns[i]->0, values[i]->0))
            &&& asns[i] is Some && values[i] is Some
        }),
{
    assert(names(community_fields()) == seq!["asn"@, "value"@]);
}

/// `is_large_community`: a row is null exactly if its text is; otherwise the result says whether
/// the text is a large community.
pub proof fn large_communities_are_recognised(
    columns: Seq<Cells>,
    n: nat,
    schema: Seq<FieldView>,
    out: Result<Batch, Error>,
    i: int,
)
    requires
        columns.len() >= 1,
        cell_count(columns[0]) == n,
        is_result(out, schema, Cells::Boolean(Seq::new(n, |k: int| large_cell(columns, k)))),
        out is Ok,
        0 <= i < n,
    ensures
        ({
            let text = str_cell(columns[0], i);
            &&& result_of(out) matches Cells::Boolean(cells)
            &&& cells.len() == n
            &&& text is None ==> cells[i] is None
            &&& text is Some ==> cells[i] == Some(large_community(text->0))
        }),
{
}

/// `bgp_version`: every row holds the build version.
pub proof fn versions_are_the_same_everywhere(
    n: nat,
    schema: Seq<FieldView>,
    out: Result<Batch, Error>,
    i: int,
)
    requires
        is_result(out, schema, Cells::Utf8(version_cells(n))),
        out is Ok,
        0 <= i < n,
    ensures
        result_of(out) matches Cells::Utf8(cells) && cells.len() == n && cells[i] == Some(
            "0.1.0"@,
        ),
{
}

} // verus!
