//! Regular grid of bilinear quadrilateral (Q4) elements.
//!
//! Nodes are numbered row by row, `(nelx + 1)` to a row; elements are numbered row by row,
//! `nelx` to a row. Every node carries two degrees of freedom: `2 * id` (x) and `2 * id + 1` (y).
use vstd::prelude::*;

use crate::error::TopoError;

verus! {

/// A grid node, located by its column and row in the node lattice.
#[derive(Debug, Clone, Copy)]
pub struct Node {
    pub id: usize,
    pub col: usize,
    pub row: usize,
}

impl Node {
    pub fn new(id: usize, col: usize, row: usize) -> (n: Node)
        ensures
            n.id == id,
            n.col == col,
            n.row == row,
    {
        Node { id, col, row }
    }
}

/// The degrees of freedom of a node: `2 * node` for x and `2 * node + 1` for y.
pub open spec fn node_dofs(node: int) -> Seq<int> {
    seq![2 * node, 2 * node + 1]
}

/// The eight degrees of freedom of an element whose corner nodes are `ids`, node by node.
pub open spec fn element_dofs(ids: Seq<usize>) -> Seq<int> {
    node_dofs(ids[0] as int) + node_dofs(ids[1] as int) + node_dofs(ids[2] as int) + node_dofs(
        ids[3] as int,
    )
}

/// A Q4 element; its corner nodes are listed counter-clockwise from the lower left:
/// ```text
///  3 --- 2
///  |     |
///  0 --- 1
/// ```
#[derive(Debug, Clone, Copy)]
pub struct Element {
    pub id: usize,
    pub node_ids: [usize; 4],
}

impl Element {
    pub fn new(id: usize, node_ids: [usize; 4]) -> (e: Element)
        ensures
            e.id == id,
            e.node_ids@ == node_ids@,
    {
        Element { id, node_ids }
    }

    /// The eight degrees of freedom of this element (two per node, four nodes).
    pub fn dofs(&self) -> (d: [usize; 8])
        requires
            forall|k: int| 0 <= k < 4 ==> 2 * self.node_ids@[k] + 1 <= usize::MAX,
        ensures
            d@.len() == 8,
            forall|k: int| 0 <= k < 8 ==> d@[k] == element_dofs(self.node_ids@)[k],
            forall|k: int|
                0 <= k < 4 ==> #[trigger] d@[2 * k] == 2 * self.node_ids@[k] && d@[2 * k + 1] == 2
                    * self.node_ids@[k] + 1,
    {
        let n = self.node_ids;
        let d = [
            2 * n[0],
            2 * n[0] + 1,
            2 * n[1],
            2 * n[1] + 1,
            2 * n[2],
            2 * n[2] + 1,
            2 * n[3],
            2 * n[3] + 1,
        ];
        assert(forall|k: int| 0 <= k < 4 ==> #[trigger] d@[2 * k] == 2 * n@[k] && d@[2 * k + 1] == 2 * n@[k] + 1) by {
            assert forall|k: int| 0 <= k < 4 implies #[trigger] d@[2 * k] == 2 * n@[k] && d@[2 * k + 1] == 2 * n@[k] + 1 by {
                if k == 0 {} else if k == 1 {} else if k == 2 {} else {}
            }
        }
        d
    }
}

/// The element's dof list names, for each corner `k` in order, first its x dof `2 * node`
/// and then its y dof `2 * node + 1` — the numbering that boundary conditions use too.
pub proof fn law_element_dofs_are_node_dofs(ids: Seq<usize>, k: int)
    requires
        ids.len() == 4,
        0 <= k < 4,
    ensures
        element_dofs(ids).len() == 8,
        element_dofs(ids)[2 * k] == 2 * ids[k],
        element_dofs(ids)[2 * k + 1] == 2 * ids[k] + 1,
        element_dofs(ids)[2 * k] % 2 == 0,
        element_dofs(ids)[2 * k + 1] / 2 == ids[k],
{
    let d = element_dofs(ids);
    if k == 0 {} else if k == 1 {} else if k == 2 {} else {}
}


/// Index of the node at column `col` and row `row` of a grid `nelx` elements wide.
pub open spec fn node_index(nelx: int, col: int, row: int) -> int {
    row * (nelx + 1) + col
}

/// Index of the element at column `col` and row `row` of a grid `nelx` elements wide.
pub open spec fn element_index(nelx: int, col: int, row: int) -> int {
    row * nelx + col
}

/// The grid's degrees of freedom, two per node, are counted by a `usize`.
pub open spec fn grid_fits(nelx: int, nely: int) -> bool {
    &&& 0 <= nelx
    &&& 0 <= nely
    &&& 2 * ((nelx + 1) * (nely + 1)) <= usize::MAX
}

/// Whether a grid `nelx × nely` fits, i.e. its degree-of-freedom count is a `usize`.
pub fn grid_fits_usize(nelx: usize, nely: usize) -> (b: bool)
    ensures
        b == grid_fits(nelx as int, nely as int),
{
    if nelx == usize::MAX || nely == usize::MAX {
        proof {
            assert(2 * ((nelx + 1) * (nely + 1)) > usize::MAX) by (nonlinear_arith)
                requires
                    nelx == usize::MAX || nely == usize::MAX,
            ;
        }
        return false;
    }
    match (nelx + 1).checked_mul(nely + 1) {
        Some(nodes) => match nodes.checked_mul(2) {
            Some(_) => true,
            None => false,
        },
        None => {
            proof {
                assert(2 * ((nelx + 1) * (nely + 1)) > usize::MAX) by (nonlinear_arith)
                    requires
                        (nelx + 1) * (nely + 1) > usize::MAX,
                ;
            }
            false
        },
    }
}

/// Node `i` of a grid `nelx` elements wide: it lies at column `i % (nelx + 1)`, row `i / (nelx + 1)`.
pub open spec fn is_grid_node(nelx: int, i: int, n: Node) -> bool {
    &&& n.id == i
    &&& n.col == i % (nelx + 1) as int
    &&& n.row == i / (nelx + 1)
}

/// The corner nodes of the element at (`col`, `row`), counter-clockwise from the lower left.
pub open spec fn corner_nodes(nelx: int, col: int, row: int) -> Seq<int> {
    seq![
        node_index(nelx, col, row),
        node_index(nelx, col + 1, row),
        node_index(nelx, col + 1, row + 1),
        node_index(nelx, col, row + 1),
    ]
}

/// Element `e` of a grid `nelx` elements wide: it lies at column `e % nelx`, row `e / nelx`.
pub open spec fn is_grid_element(nelx: int, e: int, el: Element) -> bool {
    &&& el.id == e
    &&& el.node_ids@.len() == 4
    &&& forall|k: int|
        0 <= k < 4 ==> el.node_ids@[k] == #[trigger] corner_nodes(nelx, e % nelx, e / nelx)[k]
}

/// The whole FEM grid.
#[derive(Debug, Clone)]
pub struct Mesh {
    pub nodes: Vec<Node>,
    pub elements: Vec<Element>,
    /// Number of elements in x.
    pub nelx: usize,
    /// Number of elements in y.
    pub nely: usize,
}

/// For `0 <= r < rows` and `0 <= c < w`: `r * w + c` lies below `rows * w`, and so does `(r + 1) * w - 1`.
proof fn lemma_row_major_bound(r: int, c: int, rows: int, w: int)
    by (nonlinear_arith)
    requires
        0 <= r < rows,
        0 <= c < w,
    ensures
        0 <= r * w + c < rows * w,
        (r + 1) * w <= rows * w,
        r * w + c + w == (r + 1) * w + c,
{
}

/// Consequences of `grid_fits`: every count of nodes, elements and dofs is a `usize`.
pub proof fn lemma_grid_fits(nelx: int, nely: int)
    by (nonlinear_arith)
    requires
        grid_fits(nelx, nely),
    ensures
        nelx + 1 <= (nelx + 1) * (nely + 1),
        nely + 1 <= (nelx + 1) * (nely + 1),
        nelx * nely <= (nelx + 1) * (nely + 1),
        (nelx + 1) * (nely + 1) <= usize::MAX,
        2 * ((nelx + 1) * (nely + 1)) <= usize::MAX,
{
}

/// Row-major indices grow with the row and, within a row, with the column.
proof fn lemma_index_monotone(r: int, c: int, big_r: int, big_c: int, w: int)
    by (nonlinear_arith)
    requires
        0 <= r <= big_r,
        0 <= c <= big_c,
        0 <= w,
    ensures
        r * w + c <= big_r * w + big_c,
{
}

/// `r * w + c` with `c < w` has quotient `r` and remainder `c` by `w`.
proof fn lemma_row_major_div_mod(r: int, c: int, w: int)
    requires
        0 <= r,
        0 <= c < w,
    ensures
        (r * w + c) / w == r,
        (r * w + c) % w == c,
{
    vstd::arithmetic::div_mod::lemma_fundamental_div_mod_converse(r * w + c, w, r, c);
}

impl Mesh {
    /// The mesh is the regular grid of `nelx × nely` elements.
    pub open spec fn wf(&self) -> bool {
        &&& 0 < self.nelx
        &&& 0 < self.nely
        &&& grid_fits(self.nelx as int, self.nely as int)
        &&& self.nodes@.len() == (self.nelx + 1) * (self.nely + 1)
        &&& forall|i: int|
            0 <= i < self.nodes@.len() ==> is_grid_node(self.nelx as int, i, #[trigger] self.nodes@[i])
        &&& self.elements@.len() == self.nelx * self.nely
        &&& forall|e: int|
            0 <= e < self.elements@.len() ==> is_grid_element(
                self.nelx as int,
                e,
                #[trigger] self.elements@[e],
            )
    }

    /// Builds the regular rectangular grid of `nelx × nely` elements.
    ///
    /// Fails when the grid would have no element.
    pub fn regular_grid(nelx: usize, nely: usize) -> (res: Result<Mesh, TopoError>)
        requires
            grid_fits(nelx as int, nely as int),
        ensures
            (nelx == 0 || nely == 0) <==> res is Err,
            res matches Err(e) ==> e matches TopoError::Mesh(msg) && msg@
                == "Gitter muss mindestens 1×1 Element haben"@,
            res matches Ok(m) ==> m.wf() && m.nelx == nelx && m.nely == nely,
            res matches Ok(m) ==> m.nodes@.len() == (nelx + 1) * (nely + 1),
            res matches Ok(m) ==> forall|i: int|
            0 <= i < m.nodes@.len() ==> (#[trigger] m.nodes@[i]).id == i && m.nodes@[i].col == i % (nelx + 1) as int
                && m.nodes@[i].row == i / (nelx + 1) as int,
            res matches Ok(m) ==> m.elements@.len() == nelx * nely,
            res matches Ok(m) ==> forall|e: int|
            0 <= e < m.elements@.len() ==> (#[trigger] m.elements@[e]).id == e && m.elements@[e].node_ids@.len() == 4
                && m.elements@[e].node_ids@[0] == (e / (nelx as int)) * (nelx + 1) + e % (nelx as int)
                && m.elements@[e].node_ids@[1] == m.elements@[e].node_ids@[0] + 1
                && m.elements@[e].node_ids@[3] == m.elements@[e].node_ids@[0] + nelx + 1
                && m.elements@[e].node_ids@[2] == m.elements@[e].node_ids@[3] + 1,
    {
        if nelx == 0 || nely == 0 {
            return Err(TopoError::Mesh(String::from_str("Gitter muss mindestens 1×1 Element haben")));
        }
        proof {
            lemma_grid_fits(nelx as int, nely as int);
        }
        let node_cols = nelx + 1;
        let node_rows = nely + 1;
        let ghost w = node_cols as int;

        proof {
            vstd::arithmetic::mul::lemma_mul_is_commutative(node_cols as int, node_rows as int);
        }
        let mut nodes: Vec<Node> = Vec::new();
        for row in 0..node_rows
            invariant
                node_cols == nelx + 1,
                node_rows == nely + 1,
                w == node_cols,
                grid_fits(nelx as int, nely as int),
                node_rows * w <= usize::MAX,
                nodes@.len() == row * w,
                forall|i: int| 0 <= i < nodes@.len() ==> is_grid_node(nelx as int, i, #[trigger] nodes@[i]),
        {
            for col in 0..node_cols
                invariant
                    node_cols == nelx + 1,
                    node_rows == nely + 1,
                    w == node_cols,
                    0 <= row < node_rows,
                    grid_fits(nelx as int, nely as int),
                    node_rows * w <= usize::MAX,
                    nodes@.len() == row * w + col,
                    forall|i: int| 0 <= i < nodes@.len() ==> is_grid_node(nelx as int, i, #[trigger] nodes@[i]),
            {
                proof {
                    lemma_row_major_bound(row as int, col as int, node_rows as int, w);
                    lemma_row_major_div_mod(row as int, col as int, w);
                }
                nodes.push(Node::new(row * node_cols + col, col, row));
            }
            proof {
                lemma_row_major_bound(row as int, 0, node_rows as int, w);
            }
        }

        proof {
            vstd::arithmetic::mul::lemma_mul_is_commutative(nelx as int, nely as int);
            vstd::arithmetic::mul::lemma_mul_is_commutative(node_cols as int, node_rows as int);
            vstd::arithmetic::mul::lemma_mul_basics(nelx as int);
        }
        let mut elements: Vec<Element> = Vec::new();
        for row in 0..nely
            invariant
                node_cols == nelx + 1,
                node_rows == nely + 1,
                0 < nelx,
                grid_fits(nelx as int, nely as int),
                nely * nelx <= usize::MAX,
                node_rows * node_cols <= usize::MAX,
                elements@.len() == row * nelx,
                forall|e: int|
                    0 <= e < elements@.len() ==> is_grid_element(nelx as int, e, #[trigger] elements@[e]),
        {
            for col in 0..nelx
                invariant
                    node_cols == nelx + 1,
                    node_rows == nely + 1,
                    0 < nelx,
                    0 <= row < nely,
                    grid_fits(nelx as int, nely as int),
                    nely * nelx <= usize::MAX,
                    node_rows * node_cols <= usize::MAX,
                    elements@.len() == row * nelx + col,
                    forall|e: int|
                        0 <= e < elements@.len() ==> is_grid_element(nelx as int, e, #[trigger] elements@[e]),
            {
                proof {
                    lemma_row_major_bound(row as int, col as int, nely as int, nelx as int);
                    lemma_row_major_bound(row as int + 1, col as int + 1, node_rows as int, node_cols as int);
                    lemma_row_major_bound(row as int, col as int + 1, node_rows as int, node_cols as int);
                    lemma_row_major_div_mod(row as int, col as int, nelx as int);
                }
                let id = row * nelx + col;
                let n0 = row * node_cols + col;
                let n1 = row * node_cols + col + 1;
                let n2 = (row + 1) * node_cols + col + 1;
                let n3 = (row + 1) * node_cols + col;
                let el = Element::new(id, [n0, n1, n2, n3]);
                assert(el.node_ids@ =~= corner_nodes(nelx as int, col as int, row as int).map_values(
                    |x: int| x as usize,
                ));
                elements.push(el);
            }
            proof {
                lemma_row_major_bound(row as int, 0, nely as int, nelx as int);
            }
        }
        let m = Mesh { nodes, elements, nelx, nely };
        proof {
            law_grid_shape(&m);
        }
        Ok(m)
    }

    /// Total number of degrees of freedom: two per node.
    pub fn ndof(&self) -> (n: usize)
        requires
            2 * self.nodes@.len() <= usize::MAX,
        ensures
            n == 2 * self.nodes@.len(),
    {
        2 * self.nodes.len()
    }

    /// Id of the node at column `col`, row `row`.
    pub fn node_id(&self, col: usize, row: usize) -> (id: usize)
        requires
            self.nelx + 1 <= usize::MAX,
            node_index(self.nelx as int, col as int, row as int) <= usize::MAX,
        ensures
            id == node_index(self.nelx as int, col as int, row as int),
            id == row * (self.nelx + 1) + col,
    {
        proof {
            lemma_index_monotone(row as int, 0, row as int, col as int, self.nelx + 1);
        }
        row * (self.nelx + 1) + col
    }

    /// Id of the element at column `col`, row `row`.
    pub fn element_id(&self, col: usize, row: usize) -> (id: usize)
        requires
            element_index(self.nelx as int, col as int, row as int) <= usize::MAX,
        ensures
            id == element_index(self.nelx as int, col as int, row as int),
            id == row * self.nelx + col,
    {
        proof {
            lemma_index_monotone(row as int, 0, row as int, col as int, self.nelx as int);
        }
        row * self.nelx + col
    }

    /// All nodes on the left edge (column 0), bottom to top.
    pub fn left_edge_nodes(&self) -> (ids: Vec<usize>)
        requires
            grid_fits(self.nelx as int, self.nely as int),
        ensures
            ids@.len() == self.nely + 1,
            forall|row: int|
                0 <= row <= self.nely ==> #[trigger] ids@[row] == node_index(self.nelx as int, 0, row),
            forall|row: int| 0 <= row <= self.nely ==> #[trigger] ids@[row] == row * (self.nelx + 1),
    {
        self.column_nodes(0)
    }

    /// All nodes on the right edge (column `nelx`), bottom to top.
    pub fn right_edge_nodes(&self) -> (ids: Vec<usize>)
        requires
            grid_fits(self.nelx as int, self.nely as int),
        ensures
            ids@.len() == self.nely + 1,
            forall|row: int|
                0 <= row <= self.nely ==> #[trigger] ids@[row] == node_index(
                    self.nelx as int,
                    self.nelx as int,
                    row,
                ),
            forall|row: int|
                0 <= row <= self.nely ==> #[trigger] ids@[row] == row * (self.nelx + 1) + self.nelx,
    {
        self.column_nodes(self.nelx)
    }

    /// The nodes of column `col`, bottom to top.
    fn column_nodes(&self, col: usize) -> (ids: Vec<usize>)
        requires
            grid_fits(self.nelx as int, self.nely as int),
            col <= self.nelx,
        ensures
            ids@.len() == self.nely + 1,
            forall|row: int|
                0 <= row <= self.nely ==> #[trigger] ids@[row] == node_index(self.nelx as int, col as int, row),
            forall|row: int| 0 <= row <= self.nely ==> #[trigger] ids@[row] == row * (self.nelx + 1) + col,
    {
        proof {
            lemma_grid_fits(self.nelx as int, self.nely as int);
        }
        let mut ids: Vec<usize> = Vec::new();
        for row in 0..self.nely + 1
            invariant
                grid_fits(self.nelx as int, self.nely as int),
                col <= self.nelx,
                ids@.len() == row,
                forall|r: int| 0 <= r < row ==> #[trigger] ids@[r] == node_index(self.nelx as int, col as int, r),
        {
            proof {
                lemma_row_major_bound(row as int, col as int, self.nely + 1, self.nelx + 1);
                lemma_grid_fits(self.nelx as int, self.nely as int);
                vstd::arithmetic::mul::lemma_mul_is_commutative(self.nelx + 1, self.nely + 1);
            }
            ids.push(self.node_id(col, row));
        }
        ids
    }

    /// All nodes on the bottom edge (row 0), left to right.
    pub fn bottom_edge_nodes(&self) -> (ids: Vec<usize>)
        requires
            grid_fits(self.nelx as int, self.nely as int),
        ensures
            ids@.len() == self.nelx + 1,
            forall|col: int|
                0 <= col <= self.nelx ==> #[trigger] ids@[col] == node_index(self.nelx as int, col, 0),
            forall|col: int| 0 <= col <= self.nelx ==> #[trigger] ids@[col] == col,
    {
        proof {
            lemma_grid_fits(self.nelx as int, self.nely as int);
        }
        let mut ids: Vec<usize> = Vec::new();
        for col in 0..self.nelx + 1
            invariant
                grid_fits(self.nelx as int, self.nely as int),
                ids@.len() == col,
                forall|c: int| 0 <= c < col ==> #[trigger] ids@[c] == node_index(self.nelx as int, c, 0),
        {
            proof {
                lemma_grid_fits(self.nelx as int, self.nely as int);
            }
            ids.push(self.node_id(col, 0));
        }
        ids
    }
}

/// Every mesh that is the regular grid has this shape: nodes row by
/// row, and each element's corners counter-clockwise from its lower left node.
pub proof fn law_grid_shape(m: &Mesh)
    requires
        m.wf(),
    ensures
        m.nodes@.len() == (m.nelx + 1) * (m.nely + 1),
        forall|i: int|
            0 <= i < m.nodes@.len() ==> (#[trigger] m.nodes@[i]).id == i && m.nodes@[i].col == i % (m.nelx + 1) as int
                && m.nodes@[i].row == i / (m.nelx + 1) as int,
        m.elements@.len() == m.nelx * m.nely,
        forall|e: int|
            0 <= e < m.elements@.len() ==> (#[trigger] m.elements@[e]).id == e && m.elements@[e].node_ids@.len() == 4
                && m.elements@[e].node_ids@[0] == (e / (m.nelx as int)) * (m.nelx + 1) + e % (m.nelx as int)
                && m.elements@[e].node_ids@[1] == m.elements@[e].node_ids@[0] + 1
                && m.elements@[e].node_ids@[3] == m.elements@[e].node_ids@[0] + m.nelx + 1
                && m.elements@[e].node_ids@[2] == m.elements@[e].node_ids@[3] + 1,
{
    let nelx = m.nelx as int;
    assert forall|e: int| 0 <= e < m.elements@.len() implies (#[trigger] m.elements@[e]).id == e
        && m.elements@[e].node_ids@.len() == 4 && m.elements@[e].node_ids@[0] == (e / (nelx as int)) * (nelx + 1) + e % (nelx as int)
        && m.elements@[e].node_ids@[1] == m.elements@[e].node_ids@[0] + 1 && m.elements@[e].node_ids@[3]
        == m.elements@[e].node_ids@[0] + nelx + 1 && m.elements@[e].node_ids@[2] == m.elements@[e].node_ids@[3] + 1 by {
        assert(is_grid_element(nelx, e, m.elements@[e]));
        let c = corner_nodes(nelx, e % nelx, e / nelx);
        assert(m.elements@[e].node_ids@[0] == c[0]);
        assert(m.elements@[e].node_ids@[1] == c[1]);
        assert(m.elements@[e].node_ids@[2] == c[2]);
        assert(m.elements@[e].node_ids@[3] == c[3]);
        let r = e / nelx;
        assert((r + 1) * (nelx + 1) == r * (nelx + 1) + nelx + 1) by (nonlinear_arith);
    }
    assert forall|i: int| 0 <= i < m.nodes@.len() implies (#[trigger] m.nodes@[i]).id == i && m.nodes@[i].col == i
        % (nelx + 1) && m.nodes@[i].row == i / (nelx + 1) by {
        assert(is_grid_node(nelx, i, m.nodes@[i]));
    }
}

/// In the regular grid, the node that `node_index` names for (`col`, `row`) is the node at
/// that column and row.
pub proof fn law_grid_node_lookup(m: &Mesh, col: int, row: int)
    requires
        m.wf(),
        0 <= col <= m.nelx,
        0 <= row <= m.nely,
    ensures
        0 <= node_index(m.nelx as int, col, row) < m.nodes@.len(),
        m.nodes@[node_index(m.nelx as int, col, row)].id == node_index(m.nelx as int, col, row),
        m.nodes@[node_index(m.nelx as int, col, row)].col == col,
        m.nodes@[node_index(m.nelx as int, col, row)].row == row,
{
    lemma_row_major_bound(row, col, m.nely + 1, m.nelx + 1);
    vstd::arithmetic::mul::lemma_mul_is_commutative(m.nelx + 1, m.nely + 1);
    lemma_row_major_div_mod(row, col, m.nelx + 1);
    assert(is_grid_node(m.nelx as int, node_index(m.nelx as int, col, row), m.nodes@[node_index(m.nelx as int, col, row)]));
}

/// In the regular grid, the element that `element_index` names for (`col`, `row`) has the
/// corner nodes of that cell, counter-clockwise from the lower left.
pub proof fn law_grid_element_lookup(m: &Mesh, col: int, row: int)
    requires
        m.wf(),
        0 <= col < m.nelx,
        0 <= row < m.nely,
    ensures
        0 <= element_index(m.nelx as int, col, row) < m.elements@.len(),
        m.elements@[element_index(m.nelx as int, col, row)].id == element_index(m.nelx as int, col, row),
        forall|k: int|
            0 <= k < 4 ==> m.elements@[element_index(m.nelx as int, col, row)].node_ids@[k]
                == #[trigger] corner_nodes(m.nelx as int, col, row)[k],
{
    lemma_row_major_bound(row, col, m.nely as int, m.nelx as int);
    vstd::arithmetic::mul::lemma_mul_is_commutative(m.nelx as int, m.nely as int);
    lemma_row_major_div_mod(row, col, m.nelx as int);
    assert(is_grid_element(m.nelx as int, element_index(m.nelx as int, col, row), m.elements@[element_index(m.nelx as int, col, row)]));
}

/// Every element of the regular grid has four distinct corner nodes of the grid, and all its
/// degrees of freedom lie below `ndof`.
pub proof fn law_element_dofs_in_range(m: &Mesh, e: int)
    requires
        m.wf(),
        0 <= e < m.elements@.len(),
    ensures
        forall|k: int| 0 <= k < 4 ==> #[trigger] m.elements@[e].node_ids@[k] < m.nodes@.len(),
        forall|j: int, k: int|
            0 <= j < k < 4 ==> m.elements@[e].node_ids@[j] != m.elements@[e].node_ids@[k],
        forall|k: int| 0 <= k < 8 ==> 0 <= #[trigger] element_dofs(m.elements@[e].node_ids@)[k] < 2 * m.nodes@.len(),
{
    let nelx = m.nelx as int;
    let col = e % nelx;
    let row = e / nelx;
    vstd::arithmetic::div_mod::lemma_fundamental_div_mod(e, nelx);
    vstd::arithmetic::mul::lemma_mul_is_commutative(nelx, m.nely as int);
    assert(0 <= col < nelx);
    assert(0 <= row < m.nely) by {
        if row >= m.nely {
            vstd::arithmetic::mul::lemma_mul_inequality(m.nely as int, row, nelx);
        }
        if row < 0 {
            vstd::arithmetic::div_mod::lemma_div_pos_is_pos(e, nelx);
        }
    }
    lemma_row_major_bound(row + 1, col + 1, m.nely + 1, nelx + 1);
    lemma_row_major_bound(row, col + 1, m.nely + 1, nelx + 1);
    vstd::arithmetic::mul::lemma_mul_is_commutative(nelx + 1, m.nely + 1);
    assert(is_grid_element(nelx, e, m.elements@[e]));
    let ids = m.elements@[e].node_ids@;
    assert(ids[0] == corner_nodes(nelx, col, row)[0]);
    assert(ids[1] == corner_nodes(nelx, col, row)[1]);
    assert(ids[2] == corner_nodes(nelx, col, row)[2]);
    assert(ids[3] == corner_nodes(nelx, col, row)[3]);
}

} // verus!
