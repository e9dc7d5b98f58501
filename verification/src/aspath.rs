//! AS-path helper functions, pure over a decoded path of ASNs.
//!
//! These back the `bgp.path_length`, `bgp.origin_asn`, `bgp.as_path_prepends`, and
//! `bgp.path_contains` scalars. A path is stored in path order: index 0 is the most
//! recent (neighbor) AS, the last element is the origin AS that announced the prefix. The
//! scalars take lists of integers of any width, so what does not depend on the width is
//! stated for [`Hop`]s.
use vstd::prelude::*;

verus! {

/// What a path is made of: numbers, which can be told apart.
pub trait Hop: Copy {
    /// Whether two hops are the same.
    fn same(self, other: Self) -> (yes: bool)
        ensures
            yes == (self == other),
    ;
}

impl Hop for u32 {
    fn same(self, other: u32) -> (yes: bool) {
        self == other
    }
}

impl Hop for i128 {
    fn same(self, other: i128) -> (yes: bool) {
        self == other
    }
}

/// How many hops in the path repeat their predecessor.
pub open spec fn prepend_count<T>(path: Seq<T>) -> nat
    decreases path.len(),
{
    if path.len() < 2 {
        0
    } else {
        prepend_count(path.drop_last()) + if path.last() == path[path.len() - 2] {
            1nat
        } else {
            0nat
        }
    }
}

/// How many runs of equal hops the path has.
pub open spec fn run_count<T>(path: Seq<T>) -> nat
    decreases path.len(),
{
    if path.len() == 0 {
        0
    } else {
        run_count(path.drop_last()) + if path.len() >= 2 && path.last() == path[path.len() - 2] {
            0nat
        } else {
            1nat
        }
    }
}

/// Number of AS hops in the path (its length). `[]` → 0.
pub fn path_length(path: &[u32]) -> (hops: i64)
    ensures
        hops == path@.len() as i64,
{
    let n: usize = path.len();
    #[verifier::truncate]
    let hops: i64 = n as i64;
    hops
}

/// The origin AS — the last (right-most) ASN in the path, which announced the prefix.
/// `None` for an empty path.
pub fn origin_asn(path: &[u32]) -> (origin: Option<u32>)
    ensures
        origin == if path@.len() == 0 {
            None
        } else {
            Some(path@.last())
        },
{
    if path.len() == 0 {
        None
    } else {
        Some(path[path.len() - 1])
    }
}

/// How many hops in the path repeat their predecessor.
pub fn count_prepends<T: Hop>(path: &[T]) -> (prepends: i64)
    ensures
        prepends == prepend_count(path@) as i64,
{
    let mut count: usize = 0;
    if path.len() >= 2 {
        assert(path@.take(1).len() < 2);
        for i in 1..path.len()
            invariant
                count == prepend_count(path@.take(i as int)),
                count < i,
        {
            let ghost next = path@.take(i as int + 1);
            assert(next.drop_last() == path@.take(i as int));
            assert(next.last() == path@[i as int] && next[next.len() - 2] == path@[i - 1]);
            if path[i - 1].same(path[i]) {
                count = count + 1;
            }
        }
        assert(path@.take(path@.len() as int) == path@);
    }
    #[verifier::truncate]
    let prepends: i64 = count as i64;
    proof {
        prepends_and_runs(path@);
    }
    prepends
}

/// Number of AS-path *prepends*: extra occurrences of an ASN that immediately repeats its
/// predecessor (a router padding its own ASN to deprioritize a route). `[1,1,1,2]` has two
/// prepends (two of the three `1`s are padding), `[1,2,3]` has none.
pub fn as_path_prepends(path: &[u32]) -> (prepends: i64)
    ensures
        prepends == prepend_count(path@) as i64,
{
    count_prepends(path)
}

/// Whether `hop` is anywhere on the path.
pub fn is_on_path<T: Hop>(path: &[T], hop: T) -> (found: bool)
    ensures
        found == path@.contains(hop),
{
    for i in 0..path.len()
        invariant
            forall|k: int| 0 <= k < i ==> path@[k] != hop,
    {
        if path[i].same(hop) {
            return true;
        }
    }
    false
}

/// Whether `asn` appears anywhere in the path.
pub fn path_contains(path: &[u32], asn: u32) -> (found: bool)
    ensures
        found == path@.contains(asn),
{
    is_on_path(path, asn)
}

/// The prepends of a path are its length less its number of runs.
pub proof fn prepends_and_runs<T>(path: Seq<T>)
    ensures
        prepend_count(path) == path.len() - run_count(path),
    decreases path.len(),
{
    if path.len() > 0 {
        prepends_and_runs(path.drop_last());
    }
}

/// The path with every run of equal hops collapsed to one hop.
pub open spec fn collapsed<T>(path: Seq<T>) -> Seq<T>
    decreases path.len(),
{
    if path.len() == 0 {
        Seq::empty()
    } else if path.len() >= 2 && path.last() == path[path.len() - 2] {
        collapsed(path.drop_last())
    } else {
        collapsed(path.drop_last()).push(path.last())
    }
}

/// The prepends of a path are what collapsing its runs takes away, and a collapsed path has
/// none. In the `i64`s that the functions return, this holds of every path that has no more
/// than `i64::MAX` hops.
pub proof fn collapsing_removes_the_prepends<T>(path: Seq<T>)
    ensures
        collapsed(path).len() == run_count(path) <= path.len(),
        prepend_count(path) == path.len() - collapsed(path).len(),
        prepend_count(collapsed(path)) == 0,
        path.len() > 0 ==> collapsed(path).len() > 0 && collapsed(path).last() == path.last(),
        path.len() <= i64::MAX ==> prepend_count(path) as i64 == path.len() as i64 - collapsed(
            path,
        ).len() as i64,
    decreases path.len(),
{
    prepends_and_runs(path);
    if path.len() > 0 {
        let init = path.drop_last();
        collapsing_removes_the_prepends(init);
        if path.len() == 1 {
            assert(collapsed(init) == Seq::<T>::empty());
        } else if path.last() != path[path.len() - 2] {
            assert(init.last() == path[path.len() - 2]);
            assert(collapsed(path).drop_last() == collapsed(init));
        }
    }
}

/// A path has prepends exactly if some AS in it repeats its predecessor.
pub proof fn prepends_are_repeats<T>(path: Seq<T>)
    ensures
        prepend_count(path) > 0 <==> exists|i: int|
            0 < i < path.len() && path[i - 1] == #[trigger] path[i],
    decreases path.len(),
{
    if path.len() >= 2 {
        let init = path.drop_last();
        prepends_are_repeats(init);
        if prepend_count(init) > 0 {
            let i = choose|i: int| 0 < i < init.len() && init[i - 1] == #[trigger] init[i];
            assert(path[i - 1] == path[i]);
        }
        if exists|i: int| 0 < i < path.len() && path[i - 1] == #[trigger] path[i] {
            let i = choose|i: int| 0 < i < path.len() && path[i - 1] == #[trigger] path[i];
            if i < init.len() {
                assert(init[i - 1] == init[i]);
            }
        }
        if path.last() == path[path.len() - 2] {
            assert(path[path.len() - 1 - 1] == path[path.len() - 1]);
        }
    }
}

/// The origin of a path is on the path.
pub proof fn origin_is_on_the_path<T>(path: Seq<T>)
    requires
        path.len() > 0,
    ensures
        path.contains(path.last()),
{
}

} // verus!
