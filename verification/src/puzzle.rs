//! The puzzle generator: a canonical 4x4 magic square is rearranged by a
//! random row order and a random column order, then a requested number of
//! cells is blanked to 0 to form the round's puzzle.

use vstd::prelude::*;

use rand::seq::SliceRandom;

verus! {

/// The rows of a grid, each row a sequence of cells.
pub open spec fn grid_of(v: Vec<Vec<u32>>) -> Seq<Seq<u32>> {
    Seq::new(v@.len(), |i: int| v@[i]@)
}

/// Four rows of four cells each.
pub open spec fn is_grid4(g: Seq<Seq<u32>>) -> bool {
    g.len() == 4 && forall|i: int| 0 <= i < 4 ==> (#[trigger] g[i]).len() == 4
}

/// The canonical 4x4 magic square every round's puzzle is drawn from.
pub open spec fn base_square() -> Seq<Seq<u32>> {
    seq![
        seq![16u32, 2u32, 3u32, 13u32],
        seq![5u32, 11u32, 10u32, 8u32],
        seq![9u32, 7u32, 6u32, 12u32],
        seq![4u32, 14u32, 15u32, 1u32],
    ]
}

/// `s` lists `n` pairwise-distinct indices below `bound`.
pub open spec fn is_index_order(s: Seq<usize>, n: int, bound: int) -> bool {
    &&& s.len() == n
    &&& forall|i: int| 0 <= i < n ==> (#[trigger] s[i]) < bound
    &&& forall|i: int, j: int| 0 <= i < j < n ==> (#[trigger] s[i]) != (#[trigger] s[j])
}

/// `b` rearranges `a` by the row order `r` and the column order `c`.
pub open spec fn grid_permuted(
    a: Seq<Seq<u32>>,
    b: Seq<Seq<u32>>,
    r: Seq<usize>,
    c: Seq<usize>,
) -> bool {
    &&& is_index_order(r, 4, 4)
    &&& is_index_order(c, 4, 4)
    &&& is_grid4(b)
    &&& forall|i: int, j: int|
        0 <= i < 4 && 0 <= j < 4 ==> #[trigger] b[i][j] == a[r[i] as int][c[j] as int]
}

/// How many cells of a row are blank (0).
pub open spec fn row_zero_count(r: Seq<u32>) -> nat
    decreases r.len(),
{
    if r.len() == 0 {
        0
    } else {
        row_zero_count(r.drop_last()) + if r.last() == 0u32 {
            1nat
        } else {
            0nat
        }
    }
}

/// How many cells of a grid are blank (0).
pub open spec fn zero_count(g: Seq<Seq<u32>>) -> nat
    decreases g.len(),
{
    if g.len() == 0 {
        0
    } else {
        zero_count(g.drop_last()) + row_zero_count(g.last())
    }
}

/// No cell of the grid is blank.
pub open spec fn no_zeros(g: Seq<Seq<u32>>) -> bool {
    forall|i: int, j: int|
        0 <= i < g.len() && 0 <= j < g[i].len() ==> #[trigger] g[i][j] != 0u32
}

/// The value appears somewhere in the canonical magic square.
pub open spec fn cell_of_base(v: u32) -> bool {
    exists|i: int, j: int| 0 <= i < 4 && 0 <= j < 4 && #[trigger] base_square()[i][j] == v
}

/// `b` is `a` with exactly the cells at the `n` flat positions `ps` (row
/// times four plus column) blanked to 0.
pub open spec fn is_blanking(a: Seq<Seq<u32>>, b: Seq<Seq<u32>>, ps: Seq<usize>, n: int) -> bool {
    &&& is_index_order(ps, n, 16)
    &&& is_grid4(b)
    &&& forall|i: int, j: int|
        0 <= i < 4 && 0 <= j < 4 ==> #[trigger] b[i][j] == if ps.contains((4 * i + j) as usize) {
            0u32
        } else {
            a[i][j]
        }
}

/// How many cells a request to blank `k` cells actually blanks: `k`, clamped
/// to the sixteen cells of the grid.
pub open spec fn blank_count(k: usize) -> int {
    if k < 16 {
        k as int
    } else {
        16
    }
}

/// The property every issued puzzle has: exactly `k` cells blanked to 0 and
/// every remaining cell drawn from the canonical magic square.
pub open spec fn is_blanked_base(g: Seq<Seq<u32>>, k: int) -> bool {
    &&& is_grid4(g)
    &&& zero_count(g) == k
    &&& forall|i: int, j: int|
        0 <= i < 4 && 0 <= j < 4 && #[trigger] g[i][j] != 0u32 ==> cell_of_base(g[i][j])
}

/// A row without blank cells has a blank count of zero.
proof fn lemma_row_no_zeros(r: Seq<u32>)
    requires
        forall|j: int| 0 <= j < r.len() ==> (#[trigger] r[j]) != 0u32,
    ensures
        row_zero_count(r) == 0,
    decreases r.len(),
{
    if r.len() > 0 {
        lemma_row_no_zeros(r.drop_last());
    }
}

/// A grid without blank cells has a blank count of zero.
proof fn lemma_grid_no_zeros(g: Seq<Seq<u32>>)
    requires
        no_zeros(g),
    ensures
        zero_count(g) == 0,
    decreases g.len(),
{
    if g.len() > 0 {
        assert(no_zeros(g.drop_last())) by {
            assert forall|i: int, j: int|
                0 <= i < g.drop_last().len() && 0 <= j < g.drop_last()[i].len()
                implies #[trigger] g.drop_last()[i][j] != 0u32 by {
                assert(g.drop_last()[i] == g[i]);
            }
        }
        lemma_grid_no_zeros(g.drop_last());
        assert(forall|j: int| 0 <= j < g.last().len() ==> (#[trigger] g.last()[j]) != 0u32) by {
            assert(g.last() == g[g.len() - 1]);
        }
        lemma_row_no_zeros(g.last());
    }
}

/// Blanking one cell that held a value raises the row's blank count by one.
proof fn lemma_row_zero_count_update(r: Seq<u32>, j: int)
    requires
        0 <= j < r.len(),
        r[j] != 0u32,
    ensures
        row_zero_count(r.update(j, 0u32)) == row_zero_count(r) + 1,
    decreases r.len(),
{
    let t = r.update(j, 0u32);
    if j == r.len() - 1 {
        assert(t.drop_last() =~= r.drop_last());
    } else {
        assert(t.drop_last() =~= r.drop_last().update(j, 0u32));
        assert(t.last() == r.last());
        lemma_row_zero_count_update(r.drop_last(), j);
    }
}

/// Replacing one row shifts the grid's blank count by the rows' difference.
proof fn lemma_zero_count_update_row(g: Seq<Seq<u32>>, i: int, row: Seq<u32>)
    requires
        0 <= i < g.len(),
    ensures
        zero_count(g.update(i, row)) + row_zero_count(g[i]) == zero_count(g) + row_zero_count(row),
    decreases g.len(),
{
    let t = g.update(i, row);
    if i == g.len() - 1 {
        assert(t.drop_last() =~= g.drop_last());
    } else {
        assert(t.drop_last() =~= g.drop_last().update(i, row));
        assert(t.last() == g.last());
        lemma_zero_count_update_row(g.drop_last(), i, row);
    }
}

/// Every cell of the canonical magic square holds a value.
proof fn lemma_base_cells_nonzero()
    ensures
        forall|i: int, j: int|
            0 <= i < 4 && 0 <= j < 4 ==> #[trigger] base_square()[i][j] != 0u32,
{
    assert forall|i: int, j: int|
        0 <= i < 4 && 0 <= j < 4 implies #[trigger] base_square()[i][j] != 0u32 by {
        if i == 0 {
            if j == 0 {
            } else if j == 1 {
            } else if j == 2 {
            } else {
            }
        } else if i == 1 {
            if j == 0 {
            } else if j == 1 {
            } else if j == 2 {
            } else {
            }
        } else if i == 2 {
            if j == 0 {
            } else if j == 1 {
            } else if j == 2 {
            } else {
            }
        } else {
            if j == 0 {
            } else if j == 1 {
            } else if j == 2 {
            } else {
            }
        }
    }
}

/// Relies on rand's `SliceRandom::shuffle`: a Fisher-Yates pass that
/// reorders the slice's elements in place by swaps.
#[verifier::external_body]
fn shuffle_indices(v: &mut Vec<usize>)
    ensures
        final(v)@.len() == old(v)@.len(),
        final(v)@.to_multiset() == old(v)@.to_multiset(),
{
    v.shuffle(&mut rand::thread_rng());
}

/// The indices 0 to `n` - 1 in order.
fn index_vec(n: usize) -> (v: Vec<usize>)
    ensures
        v@.len() == n,
        forall|i: int| 0 <= i < n ==> (#[trigger] v@[i]) == i,
{
    let mut v: Vec<usize> = Vec::new();
    for i in 0..n
        invariant
            v@.len() == i,
            forall|j: int| 0 <= j < i ==> (#[trigger] v@[j]) == j,
    {
        v.push(i);
    }
    v
}

/// Whether `v` lists `n` pairwise-distinct indices below `bound`.
fn check_index_order(v: &Vec<usize>, n: usize, bound: usize) -> (b: bool)
    ensures
        b == is_index_order(v@, n as int, bound as int),
{
    if v.len() != n {
        return false;
    }
    for i in 0..n
        invariant
            n == v@.len(),
            forall|j: int| 0 <= j < i ==> (#[trigger] v@[j]) < bound,
    {
        if v[i] >= bound {
            return false;
        }
    }
    for i in 0..n
        invariant
            n == v@.len(),
            forall|j: int| 0 <= j < n ==> (#[trigger] v@[j]) < bound,
            forall|a: int, b: int| 0 <= a < b < n && a < i ==> (#[trigger] v@[a]) != (#[trigger] v@[b]),
    {
        for j in (i + 1)..n
            invariant
                n == v@.len(),
                i < n,
                forall|a: int, b: int|
                    0 <= a < b < n && a < i ==> (#[trigger] v@[a]) != (#[trigger] v@[b]),
                forall|b: int| i < b < j ==> v@[i as int] != (#[trigger] v@[b]),
        {
            if v[i] == v[j] {
                return false;
            }
        }
    }
    true
}

/// A random order on the indices 0 to `n` - 1: the identity order shuffled.
/// The shuffled order is checked and, should it ever not be an order on those
/// indices, replaced by the identity order, so that callers always receive
/// `n` pairwise-distinct indices below `n`.
fn random_order(n: usize) -> (v: Vec<usize>)
    ensures
        is_index_order(v@, n as int, n as int),
{
    let mut v = index_vec(n);
    shuffle_indices(&mut v);
    if check_index_order(&v, n, n) {
        v
    } else {
        index_vec(n)
    }
}

/// The canonical magic square as a grid.
pub fn generate_base_square() -> (g: Vec<Vec<u32>>)
    ensures
        grid_of(g) == base_square(),
{
    let mut g: Vec<Vec<u32>> = Vec::new();
    let mut row: Vec<u32> = Vec::new();
    row.push(16);
    row.push(2);
    row.push(3);
    row.push(13);
    g.push(row);
    let mut row: Vec<u32> = Vec::new();
    row.push(5);
    row.push(11);
    row.push(10);
    row.push(8);
    g.push(row);
    let mut row: Vec<u32> = Vec::new();
    row.push(9);
    row.push(7);
    row.push(6);
    row.push(12);
    g.push(row);
    let mut row: Vec<u32> = Vec::new();
    row.push(4);
    row.push(14);
    row.push(15);
    row.push(1);
    g.push(row);
    proof {
        assert(grid_of(g) =~= base_square()) by {
            assert(grid_of(g)[0] =~= base_square()[0]);
            assert(grid_of(g)[1] =~= base_square()[1]);
            assert(grid_of(g)[2] =~= base_square()[2]);
            assert(grid_of(g)[3] =~= base_square()[3]);
        }
    }
    g
}

/// Rearrange `a` by the given row and column orders.
fn apply_orders(a: &Vec<Vec<u32>>, r: &Vec<usize>, c: &Vec<usize>) -> (out: Vec<Vec<u32>>)
    requires
        is_grid4(grid_of(*a)),
        is_index_order(r@, 4, 4),
        is_index_order(c@, 4, 4),
    ensures
        grid_permuted(grid_of(*a), grid_of(out), r@, c@),
{
    let mut out: Vec<Vec<u32>> = Vec::new();
    for i in 0..4
        invariant
            is_grid4(grid_of(*a)),
            is_index_order(r@, 4, 4),
            is_index_order(c@, 4, 4),
            out@.len() == i,
            forall|ii: int| 0 <= ii < i ==> (#[trigger] out@[ii])@.len() == 4,
            forall|ii: int, j: int|
                0 <= ii < i && 0 <= j < 4 ==> (#[trigger] out@[ii]@[j]) == grid_of(*a)[r@[ii] as int][c@[j] as int],
    {
        let ri = r[i];
        let mut row: Vec<u32> = Vec::new();
        for j in 0..4
            invariant
                is_grid4(grid_of(*a)),
                is_index_order(c@, 4, 4),
                ri == r@[i as int],
                ri < 4,
                row@.len() == j,
                forall|jj: int|
                    0 <= jj < j ==> (#[trigger] row@[jj]) == grid_of(*a)[ri as int][c@[jj] as int],
        {
            let cj = c[j];
            proof {
                assert(grid_of(*a)[ri as int] == a@[ri as int]@);
                assert(a@[ri as int]@.len() == 4);
            }
            row.push(a[ri][cj]);
        }
        out.push(row);
    }
    proof {
        assert(is_grid4(grid_of(out)));
        assert forall|i: int, j: int|
            0 <= i < 4 && 0 <= j < 4 implies #[trigger] grid_of(out)[i][j]
            == grid_of(*a)[r@[i] as int][c@[j] as int] by {
            assert(grid_of(out)[i] == out@[i]@);
        }
    }
    out
}

/// Rearrange a square by a random row order and an independent random column
/// order.
pub fn randomize(square: &Vec<Vec<u32>>) -> (out: Vec<Vec<u32>>)
    requires
        is_grid4(grid_of(*square)),
    ensures
        exists|r: Seq<usize>, c: Seq<usize>| grid_permuted(grid_of(*square), grid_of(out), r, c),
{
    let row_order = random_order(4);
    let col_order = random_order(4);
    let out = apply_orders(square, &row_order, &col_order);
    proof {
        assert(grid_permuted(grid_of(*square), grid_of(out), row_order@, col_order@));
    }
    out
}

/// A copy of the grid.
fn copy_grid(g: &Vec<Vec<u32>>) -> (out: Vec<Vec<u32>>)
    requires
        is_grid4(grid_of(*g)),
    ensures
        grid_of(out) == grid_of(*g),
        out@.len() == 4,
        forall|i: int| 0 <= i < 4 ==> (#[trigger] out@[i])@.len() == 4,
{
    let mut out: Vec<Vec<u32>> = Vec::new();
    for i in 0..4
        invariant
            is_grid4(grid_of(*g)),
            out@.len() == i,
            forall|ii: int| 0 <= ii < i ==> (#[trigger] out@[ii])@.len() == 4,
            forall|ii: int, j: int|
                0 <= ii < i && 0 <= j < 4 ==> (#[trigger] out@[ii]@[j]) == grid_of(*g)[ii][j],
    {
        let mut row: Vec<u32> = Vec::new();
        for j in 0..4
            invariant
                is_grid4(grid_of(*g)),
                i < 4,
                row@.len() == j,
                forall|jj: int| 0 <= jj < j ==> (#[trigger] row@[jj]) == grid_of(*g)[i as int][jj],
        {
            proof {
                assert(grid_of(*g)[i as int] == g@[i as int]@);
            }
            row.push(g[i][j]);
        }
        out.push(row);
    }
    proof {
        assert(grid_of(out) =~= grid_of(*g)) by {
            assert forall|i: int| 0 <= i < 4 implies #[trigger] grid_of(out)[i] =~= grid_of(*g)[i] by {
                assert(grid_of(out)[i] == out@[i]@);
            }
        }
    }
    out
}

/// Blank the cell in row `r`, column `c` of the grid.
fn set_cell_zero(g: &mut Vec<Vec<u32>>, r: usize, c: usize)
    requires
        is_grid4(grid_of(*old(g))),
        r < 4,
        c < 4,
    ensures
        final(g)@.len() == old(g)@.len(),
        grid_of(*final(g)) == grid_of(*old(g)).update(
            r as int,
            grid_of(*old(g))[r as int].update(c as int, 0u32),
        ),
{
    let mut row: Vec<u32> = Vec::new();
    for j in 0..4
        invariant
            is_grid4(grid_of(*g)),
            g@ == old(g)@,
            r < 4,
            c < 4,
            row@.len() == j,
            forall|jj: int|
                0 <= jj < j ==> (#[trigger] row@[jj]) == if jj == c {
                    0u32
                } else {
                    grid_of(*g)[r as int][jj]
                },
    {
        if j == c {
            row.push(0);
        } else {
            proof {
                assert(grid_of(*g)[r as int] == g@[r as int]@);
            }
            row.push(g[r][j]);
        }
    }
    g.set(r, row);
    proof {
        let before = grid_of(*old(g));
        assert(grid_of(*g) =~= before.update(r as int, before[r as int].update(c as int, 0u32)))
            by {
            assert forall|i: int| 0 <= i < 4 implies #[trigger] grid_of(*g)[i] =~= before.update(
                r as int,
                before[r as int].update(c as int, 0u32),
            )[i] by {
                assert(grid_of(*g)[i] == g@[i]@);
            }
        }
    }
}

/// Blank `k` cells of the square, chosen as the first entries of a random
/// order on the sixteen cell positions; a request beyond sixteen is clamped.
/// Exactly that many cells end up blank whenever the square had no blank
/// cell to begin with.
pub fn blank(square: &Vec<Vec<u32>>, k: usize) -> (out: Vec<Vec<u32>>)
    requires
        is_grid4(grid_of(*square)),
    ensures
        exists|ps: Seq<usize>| is_blanking(grid_of(*square), grid_of(out), ps, blank_count(k)),
        no_zeros(grid_of(*square)) ==> zero_count(grid_of(out)) == blank_count(k),
{
    let order = random_order(16);
    let n: usize = if k < 16 {
        k
    } else {
        16
    };
    let mut out = copy_grid(square);
    proof {
        assert(order@.take(0) =~= Seq::<usize>::empty());
        if no_zeros(grid_of(*square)) {
            lemma_grid_no_zeros(grid_of(out));
        }
    }
    for t in 0..n
        invariant
            n <= 16,
            is_index_order(order@, 16, 16),
            is_grid4(grid_of(*square)),
            is_grid4(grid_of(out)),
            out@.len() == 4,
            forall|i: int, j: int|
                0 <= i < 4 && 0 <= j < 4 ==> #[trigger] grid_of(out)[i][j] == if order@.take(
                    t as int,
                ).contains((4 * i + j) as usize) {
                    0u32
                } else {
                    grid_of(*square)[i][j]
                },
            no_zeros(grid_of(*square)) ==> zero_count(grid_of(out)) == t,
    {
        let p = order[t];
        let r = p / 4;
        let c = p % 4;
        proof {
            assert(p < 16);
            assert(r < 4 && c < 4);
            assert(4 * (r as int) + (c as int) == p as int);
        }
        let ghost before = grid_of(out);
        set_cell_zero(&mut out, r, c);
        proof {
            let prefix = order@.take(t as int);
            let next = order@.take(t as int + 1);
            assert(next =~= prefix.push(p));
            // the position just blanked is fresh: the order's entries are
            // pairwise distinct
            assert(!prefix.contains(p)) by {
                assert forall|x: int| 0 <= x < t implies prefix[x] != p by {
                    assert(order@[x] != order@[t as int]);
                }
            }
            assert forall|i: int, j: int|
                0 <= i < 4 && 0 <= j < 4 implies #[trigger] grid_of(out)[i][j] == if next.contains(
                    (4 * i + j) as usize,
                ) {
                    0u32
                } else {
                    grid_of(*square)[i][j]
                } by {
                let pos = (4 * i + j) as usize;
                if i == r as int && j == c as int {
                    assert(pos == p);
                    assert(next.contains(pos)) by {
                        assert(next[next.len() - 1] == p);
                    }
                } else {
                    assert(pos != p);
                    assert(grid_of(out)[i][j] == before[i][j]);
                    assert(next.contains(pos) == prefix.contains(pos)) by {
                        if prefix.contains(pos) {
                            let x = choose|x: int| 0 <= x < prefix.len() && prefix[x] == pos;
                            assert(next[x] == pos);
                        }
                        if next.contains(pos) {
                            let x = choose|x: int| 0 <= x < next.len() && next[x] == pos;
                            assert(x < prefix.len() ==> prefix[x] == pos);
                        }
                    }
                }
            }
            if no_zeros(grid_of(*square)) {
                assert(before[r as int][c as int] == grid_of(*square)[r as int][c as int]);
                assert(before[r as int][c as int] != 0u32);
                lemma_row_zero_count_update(before[r as int], c as int);
                lemma_zero_count_update_row(before, r as int, before[r as int].update(c as int, 0u32));
            }
        }
    }
    proof {
        let ps = order@.take(n as int);
        assert(is_blanking(grid_of(*square), grid_of(out), ps, blank_count(k))) by {
            assert(ps.len() == n as int);
            assert forall|i: int| 0 <= i < n implies (#[trigger] ps[i]) < 16 by {
                assert(ps[i] == order@[i]);
            }
            assert forall|i: int, j: int| 0 <= i < j < n implies (#[trigger] ps[i]) != (
            #[trigger] ps[j]) by {
                assert(ps[i] == order@[i] && ps[j] == order@[j]);
            }
        }
    }
    out
}

/// A random rearrangement of the canonical magic square: every cell still
/// holds one of the canonical square's values, and no cell is blank.
pub fn generate_random_magic_square() -> (out: Vec<Vec<u32>>)
    ensures
        exists|r: Seq<usize>, c: Seq<usize>| grid_permuted(base_square(), grid_of(out), r, c),
        no_zeros(grid_of(out)),
        forall|i: int, j: int|
            0 <= i < 4 && 0 <= j < 4 ==> cell_of_base(#[trigger] grid_of(out)[i][j]),
{
    let base = generate_base_square();
    let out = randomize(&base);
    proof {
        lemma_base_cells_nonzero();
        let (r, c) = choose|r: Seq<usize>, c: Seq<usize>|
            grid_permuted(base_square(), grid_of(out), r, c);
        assert forall|i: int, j: int|
            0 <= i < 4 && 0 <= j < 4 implies cell_of_base(#[trigger] grid_of(out)[i][j])
            && grid_of(out)[i][j] != 0u32 by {
            assert(grid_of(out)[i][j] == base_square()[r[i] as int][c[j] as int]);
            assert(0 <= r[i] < 4 && 0 <= c[j] < 4);
        }
        assert(no_zeros(grid_of(out))) by {
            assert(forall|i: int|
                0 <= i < grid_of(out).len() ==> (#[trigger] grid_of(out)[i]).len() == 4);
        }
    }
    out
}

/// A freshly rearranged canonical square with `num_blank` cells blanked:
/// the round's puzzle. The blanked-cell count is clamped to sixteen.
pub fn generate_incomplete_magic_square(num_blank: usize) -> (out: Vec<Vec<u32>>)
    ensures
        is_blanked_base(grid_of(out), blank_count(num_blank)),
{
    let square = generate_random_magic_square();
    let out = blank(&square, num_blank);
    proof {
        let ps = choose|ps: Seq<usize>|
            is_blanking(grid_of(square), grid_of(out), ps, blank_count(num_blank));
        assert forall|i: int, j: int|
            0 <= i < 4 && 0 <= j < 4 && #[trigger] grid_of(out)[i][j] != 0u32 implies cell_of_base(
            grid_of(out)[i][j]) by {
            assert(grid_of(out)[i][j] == if ps.contains((4 * i + j) as usize) {
                0u32
            } else {
                grid_of(square)[i][j]
            });
        }
    }
    out
}

} // verus!
