//! Neighbourhoods of the sensitivity filter.
//!
//! The filter of Sigmund (1994) weighs each element's neighbours by
//! `max(0, radius - distance)`. Only elements inside the square search window of
//! `reach = ceil(radius / element_size)` cells around an element can get a positive weight;
//! this module finds that window. The weights themselves are real-valued and computed by the
//! caller.
use vstd::prelude::*;

use crate::mesh::Mesh;

verus! {

/// Column and row of element `e` in a grid `nelx` elements wide.
pub open spec fn cell_of(nelx: int, e: int) -> (int, int) {
    (e % nelx, e / nelx)
}

/// Element `f` lies in the square window of `reach` cells around element `e`.
pub open spec fn in_window(nelx: int, e: int, f: int, reach: int) -> bool {
    let (ce, re) = cell_of(nelx, e);
    let (cf, rf) = cell_of(nelx, f);
    &&& ce - reach <= cf <= ce + reach
    &&& re - reach <= rf <= re + reach
}

/// Column and row of an element of the mesh.
pub fn element_position(mesh: &Mesh, elem_id: usize) -> (r: (usize, usize))
    requires
        mesh.nelx > 0,
    ensures
        r.0 == cell_of(mesh.nelx as int, elem_id as int).0,
        r.1 == cell_of(mesh.nelx as int, elem_id as int).1,
        r.0 == elem_id % mesh.nelx,
        r.1 == elem_id / mesh.nelx,
{
    (elem_id % mesh.nelx, elem_id / mesh.nelx)
}

/// `q * d + r` with `0 <= r < d` has quotient `q` and remainder `r`.
proof fn lemma_cell_of_index(d: int, q: int, r: int)
    requires
        0 < d,
        0 <= q,
        0 <= r < d,
    ensures
        cell_of(d, q * d + r) == (r, q),
{
    vstd::arithmetic::div_mod::lemma_fundamental_div_mod_converse(q * d + r, d, q, r);
}

/// The cell of any element index: a column below `d`, a row below `n / d` when the index is
/// below `n`, and the index is `row * d + column`.
proof fn lemma_cell_bounds(d: int, n: int, f: int)
    requires
        0 < d,
        0 <= f,
    ensures
        0 <= f % d < d,
        0 <= f / d,
        f == (f / d) * d + f % d,
        f < n && n % d == 0 ==> f / d < n / d,
{
    vstd::arithmetic::div_mod::lemma_fundamental_div_mod(f, d);
    vstd::arithmetic::div_mod::lemma_mod_bound(f, d);
    vstd::arithmetic::div_mod::lemma_div_pos_is_pos(f, d);
    vstd::arithmetic::mul::lemma_mul_is_commutative(d, f / d);
    if f < n && n % d == 0 {
        vstd::arithmetic::div_mod::lemma_div_is_ordered(f, n, d);
        if f / d == n / d {
            vstd::arithmetic::div_mod::lemma_fundamental_div_mod(n, d);
            vstd::arithmetic::mul::lemma_mul_is_commutative(d, n / d);
        }
    }
}

/// `q < r` implies `q * d + c < r * d` when `c < d`.
proof fn lemma_row_before(q: int, c: int, r: int, d: int)
    by (nonlinear_arith)
    requires
        0 <= q < r,
        0 <= c < d,
    ensures
        q * d + c < r * d,
{
    assert(q * d + d <= r * d);
}

/// The element ids in the search window of `reach` cells around element `e`, in increasing
/// order. A negative reach gives an empty window.
pub fn neighbourhood(mesh: &Mesh, e: usize, reach: isize) -> (ids: Vec<usize>)
    requires
        mesh.nelx > 0,
        mesh.nely > 0,
        mesh.nelx * mesh.nely <= usize::MAX,
        e < mesh.nelx * mesh.nely,
        mesh.nelx <= isize::MAX,
        mesh.nely <= isize::MAX,
        reach + mesh.nelx <= isize::MAX,
        reach + mesh.nely <= isize::MAX,
    ensures
        forall|i: int, j: int| 0 <= i < j < ids@.len() ==> ids@[i] < ids@[j],
        forall|k: int|
            0 <= k < ids@.len() ==> #[trigger] ids@[k] < mesh.nelx * mesh.nely && in_window(
                mesh.nelx as int,
                e as int,
                ids@[k] as int,
                reach as int,
            ),
        forall|f: int|
            0 <= f < mesh.nelx * mesh.nely && #[trigger] in_window(mesh.nelx as int, e as int, f, reach as int)
                ==> ids@.contains(f as usize),
        forall|k: int|
            0 <= k < ids@.len() ==> {
                let f = #[trigger] ids@[k] as int;
                &&& f < mesh.nelx * mesh.nely
                &&& f % (mesh.nelx as int) - e as int % (mesh.nelx as int) <= reach
                &&& e as int % (mesh.nelx as int) - f % (mesh.nelx as int) <= reach
                &&& f / (mesh.nelx as int) - e as int / (mesh.nelx as int) <= reach
                &&& e as int / (mesh.nelx as int) - f / (mesh.nelx as int) <= reach
            },
        forall|f: int|
            0 <= f < mesh.nelx * mesh.nely && f % (mesh.nelx as int) - e as int % (mesh.nelx as int) <= reach && e as int
                % (mesh.nelx as int) - f % (mesh.nelx as int) <= reach && f / (mesh.nelx as int) - e as int / (
            mesh.nelx as int) <= reach && e as int / (mesh.nelx as int) - f / (mesh.nelx as int) <= reach ==> #[trigger] ids@.contains(
                f as usize,
            ),
{
    let nelx = mesh.nelx;
    let nely = mesh.nely;
    let ghost n: int = nelx * nely;
    let ghost w = nelx as int;
    let mut ids: Vec<usize> = Vec::new();
    proof {
        lemma_cell_bounds(w, n, e as int);
        vstd::arithmetic::div_mod::lemma_mod_multiples_basic(nely as int, w);
        vstd::arithmetic::div_mod::lemma_div_multiples_vanish(nely as int, w);
        vstd::arithmetic::mul::lemma_mul_is_commutative(w, nely as int);
    }
    if reach < 0 {
        assert forall|f: int|
            0 <= f < n && #[trigger] in_window(w, e as int, f, reach as int) implies ids@.contains(
                f as usize,
            ) by {
            lemma_cell_bounds(w, n, f);
        }
        assert forall|g: int|
            0 <= g < n && g % w - e as int % w <= reach && e as int % w - g % w <= reach && g / w - e as int / w
                <= reach && e as int / w - g / w <= reach implies #[trigger] ids@.contains(g as usize) by {
            assert(in_window(w, e as int, g, reach as int));
            lemma_cell_bounds(w, n, g);
        }
        return ids;
    }
    let r = reach as usize;
    let col_e = e % nelx;
    let row_e = e / nelx;
    let col_min = if col_e >= r { col_e - r } else { 0 };
    let col_max = if col_e + r <= nelx - 1 { col_e + r } else { nelx - 1 };
    let row_min = if row_e >= r { row_e - r } else { 0 };
    let row_max = if row_e + r <= nely - 1 { row_e + r } else { nely - 1 };

    for row_f in row_min..row_max + 1
        invariant
            nelx == mesh.nelx,
            nely == mesh.nely,
            w == nelx,
            0 < nelx,
            n == nelx * nely,
            n % w == 0,
            n / w == nely,
            n <= usize::MAX,
            e < n,
            col_e == e % nelx,
            row_e == e / nelx,
            r == reach,
            col_min <= col_max < nelx,
            row_max < nely,
            col_min == (if col_e >= r { col_e - r } else { 0 }),
            col_max == (if col_e + r <= nelx - 1 { col_e + r } else { nelx - 1 }),
            row_min == (if row_e >= r { row_e - r } else { 0 }),
            row_max == (if row_e + r <= nely - 1 { row_e + r } else { nely - 1 }),
            forall|i: int, j: int| 0 <= i < j < ids@.len() ==> ids@[i] < ids@[j],
            forall|k: int| 0 <= k < ids@.len() ==> #[trigger] ids@[k] < row_f * w,
            forall|k: int|
                0 <= k < ids@.len() ==> #[trigger] ids@[k] < n && in_window(w, e as int, ids@[k] as int, reach as int),
            forall|f: int|
                0 <= f < n && #[trigger] in_window(w, e as int, f, reach as int) && f / w < row_f
                    ==> ids@.contains(f as usize),
    {
        for col_f in col_min..col_max + 1
            invariant
                nelx == mesh.nelx,
                nely == mesh.nely,
                w == nelx,
                0 < nelx,
                n == nelx * nely,
                n % w == 0,
                n / w == nely,
                n <= usize::MAX,
                e < n,
                col_e == e % nelx,
                row_e == e / nelx,
                r == reach,
                col_min <= col_max < nelx,
                row_min <= row_f <= row_max < nely,
                col_min == (if col_e >= r { col_e - r } else { 0 }),
                col_max == (if col_e + r <= nelx - 1 { col_e + r } else { nelx - 1 }),
                row_min == (if row_e >= r { row_e - r } else { 0 }),
                row_max == (if row_e + r <= nely - 1 { row_e + r } else { nely - 1 }),
                forall|i: int, j: int| 0 <= i < j < ids@.len() ==> ids@[i] < ids@[j],
                forall|k: int| 0 <= k < ids@.len() ==> #[trigger] ids@[k] < row_f * w + col_f,
                forall|k: int|
                    0 <= k < ids@.len() ==> #[trigger] ids@[k] < n && in_window(w, e as int, ids@[k] as int, reach as int),
                forall|f: int|
                    0 <= f < n && #[trigger] in_window(w, e as int, f, reach as int) && (f / w < row_f || (f / w
                        == row_f && f % w < col_f)) ==> ids@.contains(f as usize),
        {
            proof {
                lemma_row_before(row_f as int, col_f as int, nely as int, w);
                vstd::arithmetic::mul::lemma_mul_is_commutative(w, nely as int);
                lemma_cell_of_index(w, row_f as int, col_f as int);
            }
            let f = row_f * nelx + col_f;
            let ghost old_ids = ids@;
            ids.push(f);
            proof {
                assert(ids@[old_ids.len() as int] == f);
                assert forall|g: int|
                    0 <= g < n && #[trigger] in_window(w, e as int, g, reach as int) && (g / w < row_f || (g / w
                        == row_f && g % w < col_f + 1)) implies ids@.contains(g as usize) by {
                    if g / w < row_f || (g / w == row_f && g % w < col_f) {
                        assert(old_ids.contains(g as usize));
                        let k = choose|k: int| 0 <= k < old_ids.len() && old_ids[k] == g as usize;
                        assert(ids@[k] == g as usize);
                    } else {
                        lemma_cell_bounds(w, n, g);
                        assert(g == f);
                    }
                }
            }
        }
        proof {
            assert forall|g: int|
                0 <= g < n && #[trigger] in_window(w, e as int, g, reach as int) && g / w < row_f + 1
                    implies ids@.contains(g as usize) by {
                lemma_cell_bounds(w, n, g);
            }
            assert forall|k: int| 0 <= k < ids@.len() implies #[trigger] ids@[k] < (row_f + 1) * w by {
                lemma_row_before(row_f as int, col_max as int, row_f + 1, w);
            }
        }
    }
    proof {
        assert forall|g: int|
            0 <= g < n && #[trigger] in_window(w, e as int, g, reach as int) implies ids@.contains(g as usize) by {
            lemma_cell_bounds(w, n, g);
        }
        assert forall|g: int|
            0 <= g < n && g % w - e as int % w <= reach && e as int % w - g % w <= reach && g / w - e as int / w
                <= reach && e as int / w - g / w <= reach implies #[trigger] ids@.contains(g as usize) by {
            assert(in_window(w, e as int, g, reach as int));
        }
    }
    ids
}

/// The window of `reach` cells is the square of all elements whose column and row each
/// differ from those of `e` by at most `reach`, whatever `reach` is.
pub proof fn law_window_is_square(nelx: int, e: int, f: int, reach: int)
    requires
        nelx > 0,
    ensures
        in_window(nelx, e, f, reach) <==> (-reach <= f % nelx - e % nelx <= reach && -reach <= f / nelx - e
            / nelx <= reach),
{
}

/// Window membership is symmetric: `f` is in the window of `e` exactly when `e` is in the
/// window of `f`, so the filter's neighbour relation is symmetric.
pub proof fn law_window_symmetric(nelx: int, e: int, f: int, reach: int)
    ensures
        in_window(nelx, e, f, reach) == in_window(nelx, f, e, reach),
{
}

/// With a non-negative reach, every element lies in its own window (so every element is
/// its own neighbour when the filter radius is positive).
pub proof fn law_window_contains_self(nelx: int, e: int, reach: int)
    requires
        reach >= 0,
    ensures
        in_window(nelx, e, e, reach),
{
}

} // verus!
