//! Reports: the layout of the scene, and what stands at its origin.

use vstd::prelude::*;

verus! {

/// Whether a text comes before another, by its bytes.
pub open spec fn comes_before(a: Seq<u8>, b: Seq<u8>) -> bool
    decreases a.len(),
{
    if b.len() == 0 {
        false
    } else if a.len() == 0 {
        true
    } else if a[0] != b[0] {
        a[0] < b[0]
    } else {
        comes_before(a.skip(1), b.skip(1))
    }
}

/// The bytes of a text.
pub open spec fn bytes_of(s: String) -> Seq<u8> {
    vstd::utf8::encode_utf8(s@)
}

/// Whether a text comes before another, by its bytes.
pub fn text_comes_before(a: &str, b: &str) -> (r: bool)
    ensures
        r == comes_before(vstd::utf8::encode_utf8(a@), vstd::utf8::encode_utf8(b@)),
{
    let x: &[u8] = a.as_bytes();
    let y: &[u8] = b.as_bytes();
    let mut i: usize = 0;
    assert(x@.skip(0) =~= x@);
    assert(y@.skip(0) =~= y@);
    while i < x.len() && i < y.len()
        invariant
            i <= x.len(),
            i <= y.len(),
            x@ == vstd::utf8::encode_utf8(a@),
            y@ == vstd::utf8::encode_utf8(b@),
            comes_before(x@, y@) == comes_before(x@.skip(i as int), y@.skip(i as int)),
        decreases x.len() - i,
    {
        if x[i] != y[i] {
            return x[i] < y[i];
        }
        assert(x@.skip(i as int).skip(1) =~= x@.skip(i + 1));
        assert(y@.skip(i as int).skip(1) =~= y@.skip(i + 1));
        i = i + 1;
    }
    i < y.len()
}

/// A text never comes before itself or before one that comes before it.
proof fn lemma_one_way(a: Seq<u8>, b: Seq<u8>)
    ensures
        !(comes_before(a, b) && comes_before(b, a)),
    decreases a.len(),
{
    if a.len() > 0 && b.len() > 0 && a[0] == b[0] {
        lemma_one_way(a.skip(1), b.skip(1));
    }
}

/// What comes before a text that comes no later than a third comes before the
/// third.
proof fn lemma_passes_on(a: Seq<u8>, b: Seq<u8>, c: Seq<u8>)
    requires
        comes_before(a, b),
        !comes_before(c, b),
    ensures
        comes_before(a, c),
    decreases a.len(),
{
    if a.len() > 0 && c.len() > 0 && a[0] == b[0] && b[0] == c[0] {
        lemma_passes_on(a.skip(1), b.skip(1), c.skip(1));
    }
}

/// Whether the row at `i` may be listed before the row at `j`: its path does not
/// come later, and rows with the same path stay in their order.
pub open spec fn in_order(paths: Seq<String>, i: usize, j: usize) -> bool {
    let a = bytes_of(paths[i as int]);
    let b = bytes_of(paths[j as int]);
    comes_before(a, b) || (!comes_before(b, a) && i < j)
}

/// Whether an order lists every row once, by path.
pub open spec fn is_sorted_order(paths: Seq<String>, order: Seq<usize>) -> bool {
    &&& order.len() == paths.len()
    &&& forall|i: int| 0 <= i < order.len() ==> (#[trigger] order[i]) < paths.len()
    &&& forall|i: int, j: int|
        #![trigger order[i], order[j]]
        0 <= i < j < order.len() ==> in_order(paths, order[i], order[j])
    &&& order.no_duplicates()
}

/// Sorts the rows of a report by their paths; rows with the same path stay in
/// their order.
pub fn sort_rows(paths: &Vec<String>) -> (order: Vec<usize>)
    ensures
        is_sorted_order(paths@, order@),
{
    let mut order: Vec<usize> = Vec::new();
    let mut n: usize = 0;
    while n < paths.len()
        invariant
            n <= paths.len(),
            order.len() == n,
            forall|i: int| 0 <= i < n ==> (#[trigger] order@[i]) < n,
            forall|i: int, j: int|
                #![trigger order@[i], order@[j]]
                0 <= i < j < n ==> in_order(paths@, order@[i], order@[j]),
            order@.no_duplicates(),
        decreases paths.len() - n,
    {
        let mut at: usize = n;
        while at > 0 && text_comes_before(paths[n].as_str(), paths[order[at - 1]].as_str())
            invariant
                at <= n,
                n < paths.len(),
                order.len() == n,
                forall|i: int| 0 <= i < n ==> (#[trigger] order@[i]) < n,
                forall|i: int|
                    at <= i < n ==> comes_before(
                        bytes_of(paths@[n as int]),
                        bytes_of(paths@[(#[trigger] order@[i]) as int]),
                    ),
            decreases at,
        {
            at = at - 1;
        }
        let ghost before = order@;
        order.insert(at, n);
        proof {
            let b = bytes_of(paths@[n as int]);
            assert forall|i: int, j: int|
                #![trigger order@[i], order@[j]]
                0 <= i < j < n + 1 implies in_order(paths@, order@[i], order@[j]) by {
                let oi = if i < at { i } else { i - 1 };
                let oj = if j < at { j } else { j - 1 };
                if i != at && j != at {
                    assert(order@[i] == before[oi] && order@[j] == before[oj]);
                    assert(in_order(paths@, before[oi], before[oj]));
                } else if j == at {
                    assert(order@[i] == before[i]);
                    let a = bytes_of(paths@[before[i] as int]);
                    let last = bytes_of(paths@[before[at - 1] as int]);
                    if i < at - 1 {
                        assert(in_order(paths@, before[i], before[at - 1]));
                        if comes_before(b, a) {
                            if comes_before(a, last) {
                                lemma_one_way(a, last);
                                lemma_passes_on(b, a, last);
                            } else {
                                lemma_passes_on(b, a, last);
                            }
                        }
                    }
                } else {
                    assert(order@[j] == before[j - 1]);
                }
            }
            assert forall|i: int, j: int|
                0 <= i < order@.len() && 0 <= j < order@.len() && i != j implies order@[i]
                != order@[j] by {
                let oi = if i < at { i } else { i - 1 };
                let oj = if j < at { j } else { j - 1 };
                if i != at {
                    assert(order@[i] == before[oi]);
                }
                if j != at {
                    assert(order@[j] == before[oj]);
                }
            }
        }
        n = n + 1;
    }
    order
}

/// What to do about a report that is written once.
#[derive(Debug, Clone, Copy, PartialEq, Eq, Structural)]
pub enum ReportAction {
    Nothing,
    Write,
}

/// Decides whether a report is written in this frame: once, when there is a
/// scene, and only if it is asked for.
pub fn report_once(done: &mut bool, count: u32, asked: bool) -> (r: ReportAction)
    ensures
        r == if !*old(done) && count != 0 && asked {
            ReportAction::Write
        } else {
            ReportAction::Nothing
        },
        *final(done) == (*old(done) || count != 0),
{
    if *done || count == 0 {
        return ReportAction::Nothing;
    }
    *done = true;
    if asked {
        ReportAction::Write
    } else {
        ReportAction::Nothing
    }
}

/// The number of entries of a list that hold.
pub open spec fn count_of(list: Seq<bool>) -> int
    decreases list.len(),
{
    if list.len() == 0 {
        0
    } else {
        count_of(list.drop_last()) + if list.last() {
            1int
        } else {
            0
        }
    }
}

/// Counts the rows of a report that have a mesh.
pub fn count_meshes(has_mesh: &Vec<bool>) -> (r: usize)
    ensures
        r == count_of(has_mesh@),
        r <= has_mesh.len(),
{
    let mut n: usize = 0;
    let mut i: usize = 0;
    assert(has_mesh@.take(0) =~= seq![]);
    while i < has_mesh.len()
        invariant
            i <= has_mesh.len(),
            n <= i,
            n == count_of(has_mesh@.take(i as int)),
        decreases has_mesh.len() - i,
    {
        proof {
            assert(has_mesh@.take(i + 1).drop_last() =~= has_mesh@.take(i as int));
        }
        if has_mesh[i] {
            n = n + 1;
        }
        i = i + 1;
    }
    assert(has_mesh@.take(i as int) =~= has_mesh@);
    n
}

/// How many prims a report of the origin lists at most.
pub const ORIGIN_ROWS: usize = 40;

/// What a report of the origin says.
pub struct OriginReport {
    /// The prims that stand there, by their place in the scene.
    pub near: Vec<usize>,
    /// How many of them are listed, from the first on.
    pub listed: usize,
    /// How many are left.
    pub more: usize,
}

/// The places of the entries of a list that hold.
pub open spec fn places_of(list: Seq<bool>) -> Seq<usize>
    decreases list.len(),
{
    if list.len() == 0 {
        seq![]
    } else {
        let front = places_of(list.drop_last());
        if list.last() {
            front.push((list.len() - 1) as usize)
        } else {
            front
        }
    }
}

/// Decides what a report of the origin says: `is_near` tells of each prim
/// whether it stands there. At most forty are listed, and the rest counted.
pub fn origin_report(is_near: &Vec<bool>) -> (r: OriginReport)
    ensures
        r.near@ == places_of(is_near@),
        r.listed == if r.near.len() <= ORIGIN_ROWS {
            r.near.len()
        } else {
            ORIGIN_ROWS
        },
        r.listed + r.more == r.near.len(),
{
    let mut near: Vec<usize> = Vec::new();
    let mut i: usize = 0;
    assert(is_near@.take(0) =~= seq![]);
    while i < is_near.len()
        invariant
            i <= is_near.len(),
            near@ == places_of(is_near@.take(i as int)),
        decreases is_near.len() - i,
    {
        proof {
            assert(is_near@.take(i + 1).drop_last() =~= is_near@.take(i as int));
        }
        if is_near[i] {
            near.push(i);
        }
        i = i + 1;
    }
    assert(is_near@.take(i as int) =~= is_near@);
    let listed: usize = if near.len() <= ORIGIN_ROWS { near.len() } else { ORIGIN_ROWS };
    let more: usize = near.len() - listed;
    OriginReport { near, listed, more }
}

} // verus!
