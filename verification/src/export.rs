//! Text picture of an optimisation result, one character per element.
use vstd::prelude::*;

verus! {

/// How full an element is, relative to the display threshold.
#[derive(Debug, Clone, Copy, PartialEq, Eq, Structural)]
pub enum Shade {
    /// Density at or above the threshold.
    Solid,
    /// Density at or above half the threshold.
    Partial,
    /// Anything lighter.
    Void,
}

/// The character drawn for a shade.
pub open spec fn shade_char(s: Shade) -> char {
    match s {
        Shade::Solid => '█',
        Shade::Partial => '▒',
        Shade::Void => '░',
    }
}

/// The text line of grid row `row`: its `nelx` characters left to right, then a newline.
pub open spec fn picture_line(nelx: int, row: int, shades: Seq<Shade>) -> Seq<char> {
    Seq::new(nelx as nat, |c: int| shade_char(shades[row * nelx + c])).push('\n')
}

/// The first `k` lines of the picture of a grid `nelx × nely`: the top row first.
pub open spec fn picture_lines(nelx: int, nely: int, shades: Seq<Shade>, k: nat) -> Seq<char>
    decreases k,
{
    if k == 0 {
        Seq::empty()
    } else {
        picture_lines(nelx, nely, shades, (k - 1) as nat) + picture_line(nelx, nely - k, shades)
    }
}

/// Draws the grid as text, top row first, one character per element and one line per row.
pub fn render_picture(nelx: usize, nely: usize, shades: &Vec<Shade>) -> (s: String)
    requires
        shades@.len() == nelx * nely,
    ensures
        s@ == picture_lines(nelx as int, nely as int, shades@, nely as nat),
        s@.len() == nely * (nelx + 1),
        forall|i: int, c: int|
            0 <= i < nely && 0 <= c <= nelx ==> #[trigger] s@[i * (nelx + 1) + c] == if c == nelx {
                '\n'
            } else {
                match shades@[(nely - 1 - i) * nelx + c] {
                    Shade::Solid => '█',
                    Shade::Partial => '▒',
                    Shade::Void => '░',
                }
            },
{
    let total = shades.len();
    let mut out = String::new();
    let mut k: usize = 0;
    while k < nely
        invariant
            k <= nely,
            shades@.len() == nelx * nely,
            total == shades@.len(),
            out@ == picture_lines(nelx as int, nely as int, shades@, k as nat),
        decreases nely - k,
    {
        let row = nely - 1 - k;
        let ghost before = out@;
        proof {
            vstd::arithmetic::mul::lemma_mul_is_commutative(nelx as int, nely as int);
        }
        for col in 0..nelx
            invariant
                k < nely,
                row == nely - 1 - k,
                shades@.len() == nelx * nely,
                total == shades@.len(),
                out@ == before + Seq::new(col as nat, |c: int| shade_char(shades@[row * nelx + c])),
        {
            proof {
                lemma_cell_index_below(row as int, col as int, nely as int, nelx as int);
                reveal_strlit("█");
                reveal_strlit("▒");
                reveal_strlit("░");
            }
            let piece = match shades[row * nelx + col] {
                Shade::Solid => "█",
                Shade::Partial => "▒",
                Shade::Void => "░",
            };
            out.append(piece);
            assert(out@ =~= before + Seq::new((col + 1) as nat, |c: int| shade_char(shades@[row * nelx + c])));
        }
        let ghost line = out@;
        proof {
            reveal_strlit("\n");
        }
        out.append("\n");
        assert(line == before + Seq::new(nelx as nat, |c: int| shade_char(shades@[row * nelx + c])));
        assert(out@ == line.push('\n'));
        assert(picture_line(nelx as int, row as int, shades@) =~= Seq::new(nelx as nat, |c: int| shade_char(shades@[row * nelx + c])).push('\n'));
        assert(out@ =~= picture_lines(nelx as int, nely as int, shades@, (k + 1) as nat));
        k = k + 1;
    }
    proof {
        law_picture_layout(nelx as int, nely as int, shades@, nely as nat);
    }
    out
}

/// `r * w + c` lies below `h * w` for `r < h` and `c < w`.
proof fn lemma_cell_index_below(r: int, c: int, h: int, w: int)
    by (nonlinear_arith)
    requires
        0 <= r < h,
        0 <= c < w,
    ensures
        r * w + c < h * w,
        r * w + c < w * h,
{
    assert(r * w + c < (r + 1) * w);
    assert((r + 1) * w <= h * w);
}

/// The picture has `k` lines of `nelx + 1` characters: line `i` holds the elements of grid row
/// `nely - 1 - i`, left to right, and ends with the only newline of the line.
pub proof fn law_picture_layout(nelx: int, nely: int, shades: Seq<Shade>, k: nat)
    requires
        0 <= nelx,
    ensures
        picture_lines(nelx, nely, shades, k).len() == k * (nelx + 1),
        forall|i: int, c: int|
            0 <= i < k && 0 <= c <= nelx ==> #[trigger] picture_lines(nelx, nely, shades, k)[i * (nelx + 1) + c]
                == if c == nelx {
                '\n'
            } else {
                match shades[(nely - 1 - i) * nelx + c] {
                    Shade::Solid => '█',
                    Shade::Partial => '▒',
                    Shade::Void => '░',
                }
            },
    decreases k,
{
    if k == 0 {
        assert(0 * (nelx + 1) == 0) by (nonlinear_arith);
    } else {
        law_picture_layout(nelx, nely, shades, (k - 1) as nat);
        let prev = picture_lines(nelx, nely, shades, (k - 1) as nat);
        let all = picture_lines(nelx, nely, shades, k);
        assert(prev.len() == (k - 1) * (nelx + 1));
        assert(picture_line(nelx, nely - k, shades).len() == nelx + 1);
        assert(k * (nelx + 1) == (k - 1) * (nelx + 1) + (nelx + 1)) by (nonlinear_arith);
        assert forall|i: int, c: int| 0 <= i < k && 0 <= c <= nelx implies #[trigger] all[i * (nelx + 1) + c]
            == if c == nelx {
            '\n'
        } else {
            match shades[(nely - 1 - i) * nelx + c] {
                    Shade::Solid => '█',
                    Shade::Partial => '▒',
                    Shade::Void => '░',
                }
        } by {
            if i < k - 1 {
                assert(i * (nelx + 1) + c < (k - 1) * (nelx + 1)) by (nonlinear_arith)
                    requires
                        0 <= i < k - 1,
                        0 <= c <= nelx,
                ;
                assert(all[i * (nelx + 1) + c] == prev[i * (nelx + 1) + c]);
            } else {
                assert(i * (nelx + 1) == (k - 1) * (nelx + 1));
            }
        }
    }
}

} // verus!
