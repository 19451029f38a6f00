use vstd::prelude::*;

verus! {

/// The values of the rows of a boolean matrix.
pub open spec fn mview(c: Seq<Vec<bool>>) -> Seq<Seq<bool>> {
    c.map_values(|r: Vec<bool>| r@)
}

/// `m` is a square matrix over `n` nodes.
pub open spec fn square(m: Seq<Seq<bool>>, n: int) -> bool {
    &&& m.len() == n
    &&& forall|i: int| 0 <= i < n ==> (#[trigger] m[i]).len() == n
}

/// `p` is a walk of at least one edge along the edges of `m`.
pub open spec fn is_walk(m: Seq<Seq<bool>>, p: Seq<int>) -> bool {
    &&& p.len() >= 2
    &&& forall|k: int| 0 <= k < p.len() ==> 0 <= #[trigger] p[k] < m.len()
    &&& forall|k: int| 0 <= k < p.len() - 1 ==> m[#[trigger] p[k]][p[k + 1]]
}

/// `j` can be reached from `i` along one or more edges of `m`.
pub open spec fn reach(m: Seq<Seq<bool>>, i: int, j: int) -> bool {
    exists|p: Seq<int>| #[trigger] is_walk(m, p) && p[0] == i && p.last() == j
}

/// Every two-edge step of `c` is also an edge of `c`.
pub open spec fn transitive(c: Seq<Seq<bool>>) -> bool {
    forall|i: int, j: int, k: int|
        0 <= i < c.len() && 0 <= j < c.len() && 0 <= k < c.len() && #[trigger] c[i][j]
            && #[trigger] c[j][k] ==> c[i][k]
}

/// `c` is the transitive closure of `m`.
pub open spec fn closure_of(m: Seq<Seq<bool>>, c: Seq<Seq<bool>>) -> bool {
    &&& square(c, m.len() as int)
    &&& forall|i: int, j: int|
        0 <= i < m.len() && 0 <= j < m.len() ==> (#[trigger] c[i][j] <==> reach(m, i, j))
}

pub open spec fn row_false(r: Seq<bool>) -> nat
    decreases r.len(),
{
    if r.len() == 0 {
        0
    } else {
        row_false(r.drop_last()) + if r.last() {
            0nat
        } else {
            1nat
        }
    }
}

pub open spec fn mat_false(c: Seq<Seq<bool>>) -> nat
    decreases c.len(),
{
    if c.len() == 0 {
        0
    } else {
        mat_false(c.drop_last()) + row_false(c.last())
    }
}

proof fn lemma_row_set(r: Seq<bool>, k: int)
    requires
        0 <= k < r.len(),
        !r[k],
    ensures
        row_false(r.update(k, true)) + 1 == row_false(r),
    decreases r.len(),
{
    let u = r.update(k, true);
    if k == r.len() - 1 {
        assert(u.drop_last() =~= r.drop_last());
    } else {
        assert(u.drop_last() =~= r.drop_last().update(k, true));
        lemma_row_set(r.drop_last(), k);
    }
}

proof fn lemma_mat_set(c: Seq<Seq<bool>>, i: int, r: Seq<bool>)
    requires
        0 <= i < c.len(),
    ensures
        mat_false(c.update(i, r)) + row_false(c[i]) == mat_false(c) + row_false(r),
    decreases c.len(),
{
    let u = c.update(i, r);
    if i == c.len() - 1 {
        assert(u.drop_last() =~= c.drop_last());
    } else {
        assert(u.drop_last() =~= c.drop_last().update(i, r));
        lemma_mat_set(c.drop_last(), i, r);
    }
}

proof fn lemma_edge_reach(m: Seq<Seq<bool>>, i: int, j: int)
    requires
        0 <= i < m.len(),
        0 <= j < m.len(),
        m[i][j],
    ensures
        reach(m, i, j),
{
    let p = seq![i, j];
    assert(is_walk(m, p));
}

proof fn lemma_reach_trans(m: Seq<Seq<bool>>, i: int, j: int, k: int)
    requires
        reach(m, i, j),
        reach(m, j, k),
    ensures
        reach(m, i, k),
{
    let p = choose|p: Seq<int>| #[trigger] is_walk(m, p) && p[0] == i && p.last() == j;
    let q = choose|q: Seq<int>| #[trigger] is_walk(m, q) && q[0] == j && q.last() == k;
    let w = p + q.drop_first();
    assert forall|x: int| 0 <= x < w.len() implies 0 <= #[trigger] w[x] < m.len() by {
        if x >= p.len() {
            assert(w[x] == q[x - p.len() + 1]);
        }
    }
    assert forall|x: int| 0 <= x < w.len() - 1 implies m[#[trigger] w[x]][w[x + 1]] by {
        if x < p.len() - 1 {
        } else if x == p.len() - 1 {
            assert(w[x] == q[0]);
            assert(w[x + 1] == q[1]);
        } else {
            assert(w[x] == q[x - p.len() + 1]);
            assert(w[x + 1] == q[x - p.len() + 2]);
        }
    }
    assert(is_walk(m, w));
    assert(w.last() == q.last());
}

/// A transitive matrix that holds every edge of `m` holds every pair that `m` reaches.
proof fn lemma_walk_in(m: Seq<Seq<bool>>, c: Seq<Seq<bool>>, p: Seq<int>)
    requires
        square(c, m.len() as int),
        transitive(c),
        forall|a: int, b: int| 0 <= a < m.len() && 0 <= b < m.len() && #[trigger] m[a][b] ==> c[a][b],
        is_walk(m, p),
    ensures
        c[p[0]][p.last()],
    decreases p.len(),
{
    if p.len() == 2 {
        assert(m[p[0]][p[1]]);
    } else {
        let q = p.drop_last();
        assert(is_walk(m, q)) by {
            assert forall|k: int| 0 <= k < q.len() - 1 implies m[#[trigger] q[k]][q[k + 1]] by {
                assert(q[k] == p[k] && q[k + 1] == p[k + 1]);
            }
            assert forall|k: int| 0 <= k < q.len() implies 0 <= #[trigger] q[k] < m.len() by {
                assert(q[k] == p[k]);
            }
        }
        lemma_walk_in(m, c, q);
        let a = p[0];
        let b = p[p.len() - 2];
        let d = p.last();
        assert(m[p[p.len() - 2]][p[p.len() - 1]]);
        assert(c[a][b] && c[b][d]);
    }
}

/// Copies a row.
fn copy_row(v: &Vec<bool>) -> (r: Vec<bool>)
    ensures
        r@ == v@,
{
    let mut r: Vec<bool> = Vec::new();
    let mut i: usize = 0;
    while i < v.len()
        invariant
            i <= v.len(),
            r@ == v@.subrange(0, i as int),
        decreases v.len() - i,
    {
        r.push(v[i]);
        i = i + 1;
        assert(r@ =~= v@.subrange(0, i as int));
    }
    assert(v@.subrange(0, v.len() as int) =~= v@);
    r
}

/// The transitive closure of the square matrix `m`: `j` depends on `i` in the result exactly
/// when a chain of one or more edges of `m` leads from `i` to `j`. Edges are added until a full
/// pass adds none.
pub fn transitive_closure(m: &Vec<Vec<bool>>) -> (c: Vec<Vec<bool>>)
    requires
        square(mview(m@), m@.len() as int),
    ensures
        closure_of(mview(m@), mview(c@)),
{
    let n = m.len();
    let ghost mv = mview(m@);
    let mut c: Vec<Vec<bool>> = Vec::new();
    let mut i: usize = 0;
    while i < n
        invariant
            i <= n,
            n == m@.len(),
            mv == mview(m@),
            square(mv, n as int),
            c@.len() == i,
            forall|a: int| 0 <= a < i ==> (#[trigger] c@[a])@ == mv[a],
        decreases n - i,
    {
        c.push(copy_row(&m[i]));
        i = i + 1;
    }
    assert(mview(c@) =~= mv);
    proof {
        assert forall|a: int, b: int| 0 <= a < n && 0 <= b < n && mv[a][b] implies reach(mv, a, b) by {
            lemma_edge_reach(mv, a, b);
        }
    }
    loop
        invariant
            n == m@.len(),
            mv == mview(m@),
            square(mv, n as int),
            square(mview(c@), n as int),
            forall|a: int, b: int| 0 <= a < n && 0 <= b < n && #[trigger] mv[a][b] ==> mview(c@)[a][b],
            forall|a: int, b: int| 0 <= a < n && 0 <= b < n && #[trigger] mview(c@)[a][b] ==> reach(mv, a, b),
        decreases mat_false(mview(c@)),
    {
        let ghost c0 = mview(c@);
        let mut changed = false;
        let mut i: usize = 0;
        while i < n
            invariant
                i <= n,
                n == m@.len(),
                mv == mview(m@),
                square(mv, n as int),
                square(mview(c@), n as int),
                square(c0, n as int),
                forall|a: int, b: int| 0 <= a < n && 0 <= b < n && #[trigger] mv[a][b] ==> mview(c@)[a][b],
                forall|a: int, b: int| 0 <= a < n && 0 <= b < n && #[trigger] mview(c@)[a][b] ==> reach(mv, a, b),
                changed ==> mat_false(mview(c@)) < mat_false(c0),
                !changed ==> mview(c@) == c0,
                !changed ==> forall|a: int, b: int, d: int|
                    0 <= a < i && 0 <= b < n && 0 <= d < n && #[trigger] c0[a][b] && #[trigger] c0[b][d] ==> c0[a][d],
            decreases n - i,
        {
            let ghost cv = mview(c@);
            assert forall|a: int| 0 <= a < n implies cv[a] == (#[trigger] c@[a])@ by {}
            let mut row = copy_row(&c[i]);
            let mut j: usize = 0;
            while j < n
                invariant
                    i < n,
                    j <= n,
                    n == m@.len(),
                    mv == mview(m@),
                    cv == mview(c@),
                    square(mv, n as int),
                    square(cv, n as int),
                    square(c0, n as int),
                    row@.len() == n,
                    forall|a: int| 0 <= a < n ==> cv[a] == (#[trigger] c@[a])@,
                    forall|b: int| 0 <= b < n && #[trigger] cv[i as int][b] ==> row@[b],
                    forall|b: int| 0 <= b < n && #[trigger] row@[b] ==> reach(mv, i as int, b),
                    forall|a: int, b: int| 0 <= a < n && 0 <= b < n && #[trigger] cv[a][b] ==> reach(mv, a, b),
                    changed ==> mat_false(cv) + row_false(row@) < mat_false(c0) + row_false(cv[i as int]),
                    !changed ==> cv == c0 && row@ == cv[i as int],
                    !changed ==> forall|b: int, d: int|
                        0 <= b < j && 0 <= d < n && #[trigger] c0[i as int][b] && #[trigger] c0[b][d] ==> c0[i as int][d],
                decreases n - j,
            {
                if row[j] {
                    let mut k: usize = 0;
                    while k < n
                        invariant
                            i < n,
                            j < n,
                            k <= n,
                            row@[j as int],
                            n == m@.len(),
                            mv == mview(m@),
                            cv == mview(c@),
                            square(mv, n as int),
                            square(cv, n as int),
                            square(c0, n as int),
                            row@.len() == n,
                            forall|a: int| 0 <= a < n ==> cv[a] == (#[trigger] c@[a])@,
                            forall|b: int| 0 <= b < n && #[trigger] cv[i as int][b] ==> row@[b],
                            forall|b: int| 0 <= b < n && #[trigger] row@[b] ==> reach(mv, i as int, b),
                            forall|a: int, b: int| 0 <= a < n && 0 <= b < n && #[trigger] cv[a][b] ==> reach(mv, a, b),
                            changed ==> mat_false(cv) + row_false(row@) < mat_false(c0) + row_false(cv[i as int]),
                            !changed ==> cv == c0 && row@ == cv[i as int],
                            !changed ==> forall|d: int| 0 <= d < k && #[trigger] c0[j as int][d] ==> c0[i as int][d],
                            !changed ==> forall|b: int, d: int|
                                0 <= b < j && 0 <= d < n && #[trigger] c0[i as int][b] && #[trigger] c0[b][d] ==> c0[i as int][d],
                        decreases n - k,
                    {
                        if c[j][k] && !row[k] {
                            proof {
                                assert(cv[j as int][k as int]);
                                lemma_reach_trans(mv, i as int, j as int, k as int);
                                lemma_row_set(row@, k as int);
                            }
                            row.set(k, true);
                            changed = true;
                        }
                        k = k + 1;
                    }
                }
                proof {
                    if !changed {
                        assert(row@[j as int] == c0[i as int][j as int]);
                        assert forall|b: int, d: int|
                            0 <= b <= j && 0 <= d < n && #[trigger] c0[i as int][b] && #[trigger] c0[b][d] implies c0[i as int][d] by {
                            if b == j as int {
                                assert(row@[j as int]);
                                assert(c0[j as int][d]);
                            } else {
                                assert(b < j);
                            }
                        }
                    }
                }
                j = j + 1;
            }
            proof {
                lemma_mat_set(cv, i as int, row@);
            }
            c.set(i, row);
            proof {
                assert(mview(c@) =~= cv.update(i as int, row@));
            }
            i = i + 1;
        }
        if !changed {
            proof {
                let cf = mview(c@);
                assert(transitive(cf));
                assert forall|a: int, b: int| 0 <= a < n && 0 <= b < n && reach(mv, a, b) implies #[trigger] cf[a][b] by {
                    let p = choose|p: Seq<int>| #[trigger] is_walk(mv, p) && p[0] == a && p.last() == b;
                    lemma_walk_in(mv, cf, p);
                }
            }
            return c;
        }
    }
}

} // verus!
