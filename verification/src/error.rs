use vstd::prelude::*;

verus! {

/// Errors of the optimisation engine.
#[derive(Debug, Clone, PartialEq, Eq)]
pub enum TopoError {
    /// The grid cannot be built.
    Mesh(String),
    /// The linear solver failed.
    Solver(String),
    /// The optimisation did not converge.
    NotConverged { iterations: usize },
    /// A boundary condition names a degree of freedom that the grid does not have.
    InvalidBoundaryCondition(String),
    /// The stiffness matrix is singular at this degree of freedom.
    SingularMatrix { dof: usize },
}

} // verus!
