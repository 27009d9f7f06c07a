//! Boundary conditions of the planar elasticity problem and their check against the grid.
//!
//! A prescribed displacement or a force is a real number; the library carries it as the
//! IEEE-754 bit pattern of the `f64` that the solver reads (`f64::to_bits`), and never looks
//! inside it.
use vstd::prelude::*;

verus! {

/// Bit pattern of `+0.0`, the displacement that fixing a node prescribes.
pub const ZERO_BITS: u64 = 0;

/// A list of (degree of freedom, value bits) pairs.
pub type DofValues = Vec<(usize, u64)>;

/// The two pairs that fix both degrees of freedom of `node` at `+0.0`.
pub open spec fn clamp_pairs(node: int) -> Seq<(usize, u64)> {
    seq![((2 * node) as usize, ZERO_BITS), ((2 * node + 1) as usize, ZERO_BITS)]
}

/// Boundary conditions of the FEM problem.
#[derive(Debug, Clone)]
pub struct BoundaryConditions {
    /// Dirichlet conditions: (dof, bits of the prescribed displacement).
    pub fixed_dofs: DofValues,
    /// Applied loads: (dof, bits of the force).
    pub forces: DofValues,
}

impl BoundaryConditions {
    pub fn new() -> (bc: BoundaryConditions)
        ensures
            bc.fixed_dofs@ == Seq::<(usize, u64)>::empty(),
            bc.forces@ == Seq::<(usize, u64)>::empty(),
    {
        BoundaryConditions { fixed_dofs: Vec::new(), forces: Vec::new() }
    }

    /// Fixes both degrees of freedom of a node (full clamp).
    pub fn fix_node(&mut self, node_id: usize)
        requires
            2 * node_id + 1 <= usize::MAX,
        ensures
            final(self).fixed_dofs@ == old(self).fixed_dofs@ + clamp_pairs(node_id as int),
            final(self).forces@ == old(self).forces@,
            final(self).fixed_dofs@.len() == old(self).fixed_dofs@.len() + 2,
            forall|i: int|
                0 <= i < old(self).fixed_dofs@.len() ==> #[trigger] final(self).fixed_dofs@[i] == old(
                    self,
                ).fixed_dofs@[i],
            final(self).fixed_dofs@[old(self).fixed_dofs@.len() as int].0 == 2 * node_id,
            final(self).fixed_dofs@[old(self).fixed_dofs@.len() as int].1 == 0u64,
            final(self).fixed_dofs@[old(self).fixed_dofs@.len() + 1int].0 == 2 * node_id + 1,
            final(self).fixed_dofs@[old(self).fixed_dofs@.len() + 1int].1 == 0u64,
    {
        self.fixed_dofs.push((2 * node_id, ZERO_BITS));
        self.fixed_dofs.push((2 * node_id + 1, ZERO_BITS));
        assert(self.fixed_dofs@ =~= old(self).fixed_dofs@ + clamp_pairs(node_id as int));
    }

    /// Fixes only the x displacement of a node.
    pub fn fix_node_x(&mut self, node_id: usize)
        requires
            2 * node_id <= usize::MAX,
        ensures
            final(self).fixed_dofs@ == old(self).fixed_dofs@.push(((2 * node_id) as usize, 0u64)),
            final(self).forces@ == old(self).forces@,
    {
        self.fixed_dofs.push((2 * node_id, ZERO_BITS));
    }

    /// Fixes only the y displacement of a node.
    pub fn fix_node_y(&mut self, node_id: usize)
        requires
            2 * node_id + 1 <= usize::MAX,
        ensures
            final(self).fixed_dofs@ == old(self).fixed_dofs@.push(((2 * node_id + 1) as usize, 0u64)),
            final(self).forces@ == old(self).forces@,
    {
        self.fixed_dofs.push((2 * node_id + 1, ZERO_BITS));
    }

    /// Applies a force in x at a node; `force` is the bit pattern of the force.
    pub fn apply_force_x(&mut self, node_id: usize, force: u64)
        requires
            2 * node_id <= usize::MAX,
        ensures
            final(self).forces@ == old(self).forces@.push(((2 * node_id) as usize, force)),
            final(self).fixed_dofs@ == old(self).fixed_dofs@,
    {
        self.forces.push((2 * node_id, force));
    }

    /// Applies a force in y at a node; `force` is the bit pattern of the force.
    pub fn apply_force_y(&mut self, node_id: usize, force: u64)
        requires
            2 * node_id + 1 <= usize::MAX,
        ensures
            final(self).forces@ == old(self).forces@.push(((2 * node_id + 1) as usize, force)),
            final(self).fixed_dofs@ == old(self).fixed_dofs@,
    {
        self.forces.push((2 * node_id + 1, force));
    }
}

impl Default for BoundaryConditions {
    fn default() -> (bc: BoundaryConditions)
        ensures
            bc.fixed_dofs@ == Seq::<(usize, u64)>::empty(),
            bc.forces@ == Seq::<(usize, u64)>::empty(),
    {
        Self::new()
    }
}

/// A boundary condition that names a degree of freedom outside the grid.
#[derive(Debug, Clone, Copy, PartialEq, Eq)]
pub enum DofViolation {
    /// A force acts on `dof`, but the grid has only `ndof` degrees of freedom.
    Force { dof: usize, ndof: usize },
    /// `dof` is fixed, but the grid has only `ndof` degrees of freedom.
    Fixed { dof: usize, ndof: usize },
}

/// Every pair of `pairs` names a degree of freedom below `ndof`.
pub open spec fn all_in_range(pairs: Seq<(usize, u64)>, ndof: int) -> bool {
    forall|i: int| 0 <= i < pairs.len() ==> (#[trigger] pairs[i]).0 < ndof
}

/// `i` is the first pair of `pairs` whose degree of freedom is not below `ndof`.
pub open spec fn first_out_of_range(pairs: Seq<(usize, u64)>, ndof: int, i: int) -> bool {
    &&& 0 <= i < pairs.len()
    &&& pairs[i].0 >= ndof
    &&& all_in_range(pairs.take(i), ndof)
}

/// The first violation in plain terms: it is out of range and everything before it is in range.
proof fn lemma_first_out_of_range_raw(pairs: Seq<(usize, u64)>, ndof: int, i: int)
    requires
        first_out_of_range(pairs, ndof, i),
    ensures
        0 <= i < pairs.len(),
        pairs[i].0 >= ndof,
        forall|j: int| 0 <= j < i ==> (#[trigger] pairs[j]).0 < ndof,
{
    assert forall|j: int| 0 <= j < i implies (#[trigger] pairs[j]).0 < ndof by {
        assert(pairs.take(i)[j] == pairs[j]);
    }
}

/// Index of the first pair whose degree of freedom is not below `ndof`, if any.
fn find_out_of_range(pairs: &DofValues, ndof: usize) -> (r: Option<usize>)
    ensures
        r is None <==> all_in_range(pairs@, ndof as int),
        r matches Some(i) ==> first_out_of_range(pairs@, ndof as int, i as int),
{
    let n = pairs.len();
    for i in 0..n
        invariant
            n == pairs@.len(),
            all_in_range(pairs@.take(i as int), ndof as int),
    {
        if pairs[i].0 >= ndof {
            return Some(i);
        }
        assert(pairs@.take(i + 1) =~= pairs@.take(i as int).push(pairs@[i as int]));
    }
    assert(pairs@.take(n as int) =~= pairs@);
    None
}

/// Checks the boundary conditions against a grid with `ndof` degrees of freedom, forces first
/// and then fixed degrees of freedom, each list in its order; the first violation found is
/// returned.
pub fn check_boundary_conditions(bc: &BoundaryConditions, ndof: usize) -> (r: Result<(), DofViolation>)
    ensures
        r is Ok <==> all_in_range(bc.forces@, ndof as int) && all_in_range(bc.fixed_dofs@, ndof as int),
        r matches Err(DofViolation::Force { dof, ndof: n }) ==> n == ndof && exists|i: int|
            first_out_of_range(bc.forces@, ndof as int, i) && #[trigger] bc.forces@[i].0 == dof,
        r matches Err(DofViolation::Fixed { dof, ndof: n }) ==> n == ndof && all_in_range(
            bc.forces@,
            ndof as int,
        ) && exists|i: int|
            first_out_of_range(bc.fixed_dofs@, ndof as int, i) && #[trigger] bc.fixed_dofs@[i].0 == dof,
        r is Ok <==> (forall|i: int| 0 <= i < bc.forces@.len() ==> (#[trigger] bc.forces@[i]).0 < ndof) && (forall|
            i: int,
        |
            0 <= i < bc.fixed_dofs@.len() ==> (#[trigger] bc.fixed_dofs@[i]).0 < ndof),
        r matches Err(DofViolation::Force { dof, ndof: n }) ==> n == ndof && dof >= ndof && exists|i: int|
            0 <= i < bc.forces@.len() && #[trigger] bc.forces@[i].0 == dof && forall|j: int|
                0 <= j < i ==> (#[trigger] bc.forces@[j]).0 < ndof,
        r matches Err(DofViolation::Fixed { dof, ndof: n }) ==> n == ndof && dof >= ndof && (forall|i: int|
            0 <= i < bc.forces@.len() ==> (#[trigger] bc.forces@[i]).0 < ndof) && exists|i: int|
            0 <= i < bc.fixed_dofs@.len() && #[trigger] bc.fixed_dofs@[i].0 == dof && forall|j: int|
                0 <= j < i ==> (#[trigger] bc.fixed_dofs@[j]).0 < ndof,
{
    match find_out_of_range(&bc.forces, ndof) {
        Some(i) => {
            proof {
                lemma_first_out_of_range_raw(bc.forces@, ndof as int, i as int);
            }
            return Err(DofViolation::Force { dof: bc.forces[i].0, ndof });
        },
        None => {},
    }
    match find_out_of_range(&bc.fixed_dofs, ndof) {
        Some(i) => {
            proof {
                lemma_first_out_of_range_raw(bc.fixed_dofs@, ndof as int, i as int);
            }
            Err(DofViolation::Fixed { dof: bc.fixed_dofs[i].0, ndof })
        },
        None => Ok(()),
    }
}

/// There is only one first violation in a list: the check's answer is determined.
pub proof fn law_first_out_of_range_unique(pairs: Seq<(usize, u64)>, ndof: int, i: int, j: int)
    requires
        first_out_of_range(pairs, ndof, i),
        first_out_of_range(pairs, ndof, j),
    ensures
        i == j,
{
    if i < j {
        assert(pairs.take(j)[i] == pairs[i]);
    } else if j < i {
        assert(pairs.take(i)[j] == pairs[j]);
    }
}

} // verus!
