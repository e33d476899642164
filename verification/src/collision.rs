//! Broad-phase collision queries over a spatial hash: the candidate pairs
//! that share a grid cell, and the objects found in a set of cells. Which
//! cells a shape covers, and the walk over the hash map, are the geometry's
//! part; it hands this module the id lists of the cells in the order it
//! visits them.

use vstd::prelude::*;

verus! {

broadcast use vstd::seq_lib::lemma_seq_contains_after_push;

/// `s` without repeats: each element kept at its first occurrence.
pub open spec fn dedup<A>(s: Seq<A>) -> Seq<A>
    decreases s.len(),
{
    if s.len() == 0 {
        s
    } else {
        let d = dedup(s.drop_last());
        if d.contains(s.last()) {
            d
        } else {
            d.push(s.last())
        }
    }
}

/// A pair of ids with the smaller first.
pub open spec fn ordered_pair(a: usize, b: usize) -> (usize, usize) {
    if a < b {
        (a, b)
    } else {
        (b, a)
    }
}

/// The pairs that position `i` of a cell forms with the later positions,
/// in order.
pub open spec fn row_pairs(ids: Seq<usize>, i: int) -> Seq<(usize, usize)> {
    Seq::new((ids.len() - i - 1) as nat, |t: int| ordered_pair(ids[i], ids[i + 1 + t]))
}

/// The pairs of positions `i < j` of a cell for the first `k` values of
/// `i`, in order.
pub open spec fn rows_pairs(ids: Seq<usize>, k: int) -> Seq<(usize, usize)>
    decreases k,
{
    if k <= 0 {
        Seq::empty()
    } else {
        rows_pairs(ids, k - 1) + row_pairs(ids, k - 1)
    }
}

/// All pairs of positions `i < j` of a cell, in order.
pub open spec fn cell_pairs(ids: Seq<usize>) -> Seq<(usize, usize)> {
    rows_pairs(ids, ids.len() as int)
}

/// The pairs of the first `c` cells, in order.
pub open spec fn cells_pairs(cells: Seq<Seq<usize>>, c: int) -> Seq<(usize, usize)>
    decreases c,
{
    if c <= 0 {
        Seq::empty()
    } else {
        cells_pairs(cells, c - 1) + cell_pairs(cells[c - 1])
    }
}

/// The ids of the first `c` cells, in order.
pub open spec fn cells_ids(cells: Seq<Seq<usize>>, c: int) -> Seq<usize>
    decreases c,
{
    if c <= 0 {
        Seq::empty()
    } else {
        cells_ids(cells, c - 1) + cells[c - 1]
    }
}

/// The pairs of `s` that join two different ids, in order.
pub open spec fn distinct_pairs(s: Seq<(usize, usize)>) -> Seq<(usize, usize)>
    decreases s.len(),
{
    if s.len() == 0 {
        s
    } else {
        let d = distinct_pairs(s.drop_last());
        if s.last().0 == s.last().1 {
            d
        } else {
            d.push(s.last())
        }
    }
}

/// The views of a list of id lists.
pub open spec fn views(cells: Seq<Vec<usize>>) -> Seq<Seq<usize>> {
    cells.map_values(|v: Vec<usize>| v@)
}

/// Whether `p` occurs in `v`.
fn contains_pair(v: &Vec<(usize, usize)>, p: (usize, usize)) -> (r: bool)
    ensures
        r == v@.contains(p),
{
    let mut i: usize = 0;
    while i < v.len()
        invariant
            i <= v@.len(),
            forall|j: int| 0 <= j < i ==> v@[j] != p,
        decreases v@.len() - i,
    {
        let q = v[i];
        if q.0 == p.0 && q.1 == p.1 {
            return true;
        }
        i += 1;
    }
    false
}

/// Whether `x` occurs in `v`.
fn contains_id(v: &Vec<usize>, x: usize) -> (r: bool)
    ensures
        r == v@.contains(x),
{
    let mut i: usize = 0;
    while i < v.len()
        invariant
            i <= v@.len(),
            forall|j: int| 0 <= j < i ==> v@[j] != x,
        decreases v@.len() - i,
    {
        if v[i] == x {
            return true;
        }
        i += 1;
    }
    false
}

/// Candidate collision pairs: every pair of entries with different ids that
/// share a cell, as `(smaller id, larger id)`, each pair once, in the order
/// first met when walking the cells in order and, inside a cell, the
/// positions `i < j` in order.
pub fn pairs_in_cells(cells: &Vec<Vec<usize>>) -> (r: Vec<(usize, usize)>)
    ensures
        r@ == dedup(distinct_pairs(cells_pairs(views(cells@), cells@.len() as int))),
{
    let ghost vs = views(cells@);
    let mut out: Vec<(usize, usize)> = Vec::new();
    let mut c: usize = 0;
    while c < cells.len()
        invariant
            c <= cells@.len(),
            vs == views(cells@),
            out@ == dedup(distinct_pairs(cells_pairs(vs, c as int))),
        decreases cells@.len() - c,
    {
        let ids = &cells[c];
        let ghost before = cells_pairs(vs, c as int);
        let n = ids.len();
        let mut i: usize = 0;
        while i < n
            invariant
                c < cells@.len(),
                vs == views(cells@),
                ids@ == vs[c as int],
                n == ids@.len(),
                i <= n,
                before == cells_pairs(vs, c as int),
                out@ == dedup(distinct_pairs(before + rows_pairs(ids@, i as int))),
            decreases n - i,
        {
            let ghost row_start = before + rows_pairs(ids@, i as int);
            let mut j: usize = i + 1;
            while j < n
                invariant
                    i < n,
                    n == ids@.len(),
                    i + 1 <= j <= n,
                    row_start == before + rows_pairs(ids@, i as int),
                    out@ == dedup(distinct_pairs(row_start + row_pairs(ids@, i as int).take(j - i - 1))),
                decreases n - j,
            {
                let a = ids[i];
                let b = ids[j];
                let key = if a < b { (a, b) } else { (b, a) };
                let ghost prev = row_start + row_pairs(ids@, i as int).take(j - i - 1);
                proof {
                    let next = row_start + row_pairs(ids@, i as int).take(j - i);
                    assert(next.drop_last() =~= prev);
                    assert(next.last() == key);
                    let d = distinct_pairs(prev);
                    if a != b {
                        assert(distinct_pairs(next) == d.push(key));
                        assert(d.push(key).drop_last() =~= d);
                    } else {
                        assert(distinct_pairs(next) == d);
                    }
                }
                if a != b && !contains_pair(&out, key) {
                    out.push(key);
                }
                j += 1;
            }
            proof {
                assert(row_pairs(ids@, i as int).take(n - i - 1) =~= row_pairs(ids@, i as int));
                assert(rows_pairs(ids@, i + 1) == rows_pairs(ids@, i as int) + row_pairs(ids@, i as int));
                assert(before + rows_pairs(ids@, i + 1) =~= row_start + row_pairs(ids@, i as int));
            }
            i += 1;
        }
        proof {
            assert(cells_pairs(vs, c + 1) == cells_pairs(vs, c as int) + cell_pairs(vs[c as int]));
        }
        c += 1;
    }
    out
}

/// The objects found in a run of cells: every id in them, each once, in
/// the order first met.
pub fn ids_in_cells(cells: &Vec<Vec<usize>>) -> (r: Vec<usize>)
    ensures
        r@ == dedup(cells_ids(views(cells@), cells@.len() as int)),
{
    let ghost vs = views(cells@);
    let mut out: Vec<usize> = Vec::new();
    let mut c: usize = 0;
    while c < cells.len()
        invariant
            c <= cells@.len(),
            vs == views(cells@),
            out@ == dedup(cells_ids(vs, c as int)),
        decreases cells@.len() - c,
    {
        let ids = &cells[c];
        let ghost before = cells_ids(vs, c as int);
        let mut k: usize = 0;
        while k < ids.len()
            invariant
                c < cells@.len(),
                ids@ == vs[c as int],
                k <= ids@.len(),
                before == cells_ids(vs, c as int),
                out@ == dedup(before + ids@.take(k as int)),
            decreases ids@.len() - k,
        {
            let id = ids[k];
            proof {
                let next = before + ids@.take(k + 1);
                assert(next.drop_last() =~= before + ids@.take(k as int));
                assert(next.last() == id);
            }
            if !contains_id(&out, id) {
                out.push(id);
            }
            k += 1;
        }
        proof {
            assert(ids@.take(ids@.len() as int) =~= ids@);
        }
        c += 1;
    }
    out
}

/// Removing repeats leaves no repeats and keeps exactly the elements that
/// occur.
pub proof fn law_dedup<A>(s: Seq<A>)
    ensures
        dedup(s).no_duplicates(),
        forall|x: A| dedup(s).contains(x) <==> s.contains(x),
    decreases s.len(),
{
    if s.len() > 0 {
        law_dedup(s.drop_last());
        let d = dedup(s.drop_last());
        assert forall|x: A| s.contains(x) <==> (s.drop_last().contains(x) || x == s.last()) by {
            if s.contains(x) {
                let i = choose|i: int| 0 <= i < s.len() && s[i] == x;
                if i < s.len() - 1 {
                    assert(s.drop_last()[i] == x);
                }
            }
            if s.drop_last().contains(x) {
                let i = choose|i: int| 0 <= i < s.len() - 1 && s.drop_last()[i] == x;
                assert(s[i] == x);
            }
            if x == s.last() {
                assert(s[s.len() - 1] == x);
            }
        }
        if !d.contains(s.last()) {
            let e = d.push(s.last());
            assert forall|i: int, j: int| 0 <= i < e.len() && 0 <= j < e.len() && i != j implies e[i]
                != e[j] by {
                if i < d.len() && j < d.len() {
                } else if i == d.len() {
                    assert(d[j] == e[j]);
                } else {
                    assert(d[i] == e[i]);
                }
            }
        }
    }
}

/// Every candidate pair has the smaller id strictly first and comes from
/// two entries with different ids of one cell; every two such entries give
/// a candidate pair; no pair is reported twice.
pub proof fn law_pairs_exact(cells: Seq<Seq<usize>>, p: (usize, usize))
    ensures
        dedup(distinct_pairs(cells_pairs(cells, cells.len() as int))).no_duplicates(),
        dedup(distinct_pairs(cells_pairs(cells, cells.len() as int))).contains(p) ==> p.0 < p.1,
        dedup(distinct_pairs(cells_pairs(cells, cells.len() as int))).contains(p) <==> exists|
            c: int,
            i: int,
            j: int,
        |
            0 <= c < cells.len() && 0 <= i < j < cells[c].len() && cells[c][i] != cells[c][j]
                && p == ordered_pair(#[trigger] cells[c][i], #[trigger] cells[c][j]),
{
    let all = cells_pairs(cells, cells.len() as int);
    law_dedup(distinct_pairs(all));
    lemma_distinct_pairs_contains(all, p);
    lemma_cells_pairs_contains(cells, cells.len() as int, p);
}

/// A pair survives `distinct_pairs` exactly when it occurs and joins two
/// different ids.
proof fn lemma_distinct_pairs_contains(s: Seq<(usize, usize)>, p: (usize, usize))
    ensures
        distinct_pairs(s).contains(p) <==> (s.contains(p) && p.0 != p.1),
    decreases s.len(),
{
    if s.len() > 0 {
        let t = s.drop_last();
        lemma_distinct_pairs_contains(t, p);
        assert(s =~= t.push(s.last()));
        if s.contains(p) {
            let i = choose|i: int| 0 <= i < s.len() && s[i] == p;
            if i < s.len() - 1 {
                assert(t[i] == p);
            }
        }
        if t.contains(p) {
            let i = choose|i: int| 0 <= i < t.len() && t[i] == p;
            assert(s[i] == p);
        }
        if distinct_pairs(t).contains(p) {
            let i = choose|i: int| 0 <= i < distinct_pairs(t).len() && distinct_pairs(t)[i] == p;
            assert(distinct_pairs(t).push(s.last())[i] == p);
        }
    }
}

proof fn lemma_row_pairs_contains(ids: Seq<usize>, k: int, p: (usize, usize))
    requires
        0 <= k <= ids.len(),
    ensures
        rows_pairs(ids, k).contains(p) <==> exists|i: int, j: int|
            0 <= i < k && i < j < ids.len() && p == ordered_pair(#[trigger] ids[i], #[trigger] ids[j]),
    decreases k,
{
    if k > 0 {
        lemma_row_pairs_contains(ids, k - 1, p);
        let a = rows_pairs(ids, k - 1);
        let b = row_pairs(ids, k - 1);
        assert(rows_pairs(ids, k) == a + b);
        if (a + b).contains(p) {
            let t = choose|t: int| 0 <= t < (a + b).len() && (a + b)[t] == p;
            if t >= a.len() {
                let u = t - a.len();
                assert(b[u] == p);
                assert(p == ordered_pair(ids[k - 1], ids[k - 1 + 1 + u]));
            } else {
                assert(a[t] == p);
            }
        }
        if exists|i: int, j: int|
            0 <= i < k && i < j < ids.len() && p == ordered_pair(#[trigger] ids[i], #[trigger] ids[j]) {
            let (i, j) = choose|i: int, j: int|
                0 <= i < k && i < j < ids.len() && p == ordered_pair(#[trigger] ids[i], #[trigger] ids[j]);
            if i < k - 1 {
                assert(a.contains(p));
                let t = choose|t: int| 0 <= t < a.len() && a[t] == p;
                assert((a + b)[t] == p);
            } else {
                let u = j - i - 1;
                assert(b[u] == p);
                assert((a + b)[a.len() + u] == p);
            }
        }
    }
}

proof fn lemma_cells_pairs_contains(cells: Seq<Seq<usize>>, c: int, p: (usize, usize))
    requires
        0 <= c <= cells.len(),
    ensures
        cells_pairs(cells, c).contains(p) <==> exists|d: int, i: int, j: int|
            0 <= d < c && 0 <= i < j < cells[d].len() && p == ordered_pair(
                #[trigger] cells[d][i],
                #[trigger] cells[d][j],
            ),
    decreases c,
{
    if c > 0 {
        lemma_cells_pairs_contains(cells, c - 1, p);
        let ids = cells[c - 1];
        lemma_row_pairs_contains(ids, ids.len() as int, p);
        let a = cells_pairs(cells, c - 1);
        let b = cell_pairs(ids);
        if (a + b).contains(p) {
            let t = choose|t: int| 0 <= t < (a + b).len() && (a + b)[t] == p;
            if t >= a.len() {
                assert(b[t - a.len()] == p);
                assert(b.contains(p));
                let (i, j) = choose|i: int, j: int|
                    0 <= i < ids.len() && i < j < ids.len() && p == ordered_pair(
                        #[trigger] ids[i],
                        #[trigger] ids[j],
                    );
                assert(p == ordered_pair(cells[c - 1][i], cells[c - 1][j]));
            } else {
                assert(a[t] == p);
            }
        }
        if exists|d: int, i: int, j: int|
            0 <= d < c && 0 <= i < j < cells[d].len() && p == ordered_pair(
                #[trigger] cells[d][i],
                #[trigger] cells[d][j],
            ) {
            let (d, i, j) = choose|d: int, i: int, j: int|
                0 <= d < c && 0 <= i < j < cells[d].len() && p == ordered_pair(
                    #[trigger] cells[d][i],
                    #[trigger] cells[d][j],
                );
            if d < c - 1 {
                assert(a.contains(p));
                let t = choose|t: int| 0 <= t < a.len() && a[t] == p;
                assert((a + b)[t] == p);
            } else {
                assert(p == ordered_pair(ids[i], ids[j]));
                assert(b.contains(p));
                let t = choose|t: int| 0 <= t < b.len() && b[t] == p;
                assert((a + b)[a.len() + t] == p);
            }
        }
    }
}

} // verus!
