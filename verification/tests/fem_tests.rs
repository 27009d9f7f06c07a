use topo_core::fem::{check_boundary_conditions, BoundaryConditions, DofViolation, ZERO_BITS};
use topo_core::jobs::{LoadScenario, UNIT_LOAD_DOWN_BITS};
use topo_core::mesh::Mesh;

#[test]
fn fixing_nodes_pushes_their_dofs() {
    let mut bc = BoundaryConditions::new();
    bc.fix_node(3);
    bc.fix_node_x(5);
    bc.fix_node_y(6);
    assert_eq!(bc.fixed_dofs, vec![(6, 0), (7, 0), (10, 0), (13, 0)]);
    assert!(bc.forces.is_empty());
    assert_eq!(f64::from_bits(ZERO_BITS), 0.0);
}

#[test]
fn forces_are_pushed_on_the_right_dof() {
    let mut bc = BoundaryConditions::default();
    bc.apply_force_x(2, 2.5f64.to_bits());
    bc.apply_force_y(2, (-1.0f64).to_bits());
    assert_eq!(bc.forces, vec![(4, 2.5f64.to_bits()), (5, (-1.0f64).to_bits())]);
    assert!(bc.fixed_dofs.is_empty());
}

#[test]
fn check_accepts_conditions_inside_grid() {
    let mut bc = BoundaryConditions::new();
    bc.fix_node(0);
    bc.apply_force_y(5, UNIT_LOAD_DOWN_BITS);
    assert_eq!(check_boundary_conditions(&bc, 12), Ok(()));
}

#[test]
fn check_reports_first_bad_force() {
    let mut bc = BoundaryConditions::new();
    bc.fix_node(100);
    bc.apply_force_x(1, 0);
    bc.apply_force_y(7, 0);
    bc.apply_force_x(9, 0);
    assert_eq!(
        check_boundary_conditions(&bc, 12),
        Err(DofViolation::Force { dof: 15, ndof: 12 })
    );
}

#[test]
fn check_reports_first_bad_fixed_dof() {
    let mut bc = BoundaryConditions::new();
    bc.fix_node(1);
    bc.fix_node(6);
    bc.fix_node(9);
    bc.apply_force_y(2, 0);
    assert_eq!(
        check_boundary_conditions(&bc, 12),
        Err(DofViolation::Fixed { dof: 12, ndof: 12 })
    );
}

#[test]
fn cantilever_boundary_conditions() {
    // Boundary conditions of the cantilever test of the solver: 2×1 grid, left edge clamped,
    // downward unit load at the top right node.
    let mesh = Mesh::regular_grid(2, 1).unwrap();
    let mut bc = BoundaryConditions::new();
    for &node_id in &mesh.left_edge_nodes() {
        bc.fix_node(node_id);
    }
    let top_right_node = mesh.node_id(mesh.nelx, mesh.nely);
    bc.apply_force_y(top_right_node, (-1.0f64).to_bits());
    assert_eq!(top_right_node, 5);
    assert_eq!(bc.fixed_dofs, vec![(0, 0), (1, 0), (6, 0), (7, 0)]);
    assert_eq!(bc.forces, vec![(11, (-1.0f64).to_bits())]);
    assert_eq!(check_boundary_conditions(&bc, mesh.ndof()), Ok(()));
}

#[test]
fn cantilever_scenario() {
    let mesh = Mesh::regular_grid(4, 2).unwrap();
    let bc = LoadScenario::Cantilever.build_bc(&mesh);
    assert_eq!(bc.fixed_dofs, vec![(0, 0), (1, 0), (10, 0), (11, 0), (20, 0), (21, 0)]);
    assert_eq!(bc.forces, vec![(19, UNIT_LOAD_DOWN_BITS)]);
    assert_eq!(f64::from_bits(UNIT_LOAD_DOWN_BITS), -1.0);
}

#[test]
fn bridge_scenario() {
    let mesh = Mesh::regular_grid(4, 2).unwrap();
    let bc = LoadScenario::Bridge.build_bc(&mesh);
    assert_eq!(bc.fixed_dofs, vec![(0, 0), (1, 0), (8, 0), (9, 0)]);
    assert_eq!(bc.forces, vec![(25, UNIT_LOAD_DOWN_BITS)]);
}

#[test]
fn mbb_beam_scenario() {
    let mesh = Mesh::regular_grid(4, 2).unwrap();
    let bc = LoadScenario::MbbBeam.build_bc(&mesh);
    assert_eq!(bc.fixed_dofs, vec![(21, 0), (9, 0)]);
    assert_eq!(bc.forces, vec![(21, UNIT_LOAD_DOWN_BITS)]);
}

#[test]
fn scenarios_fit_their_grid() {
    for (nelx, nely) in [(1, 1), (3, 5), (10, 2)] {
        let mesh = Mesh::regular_grid(nelx, nely).unwrap();
        for s in [LoadScenario::Cantilever, LoadScenario::Bridge, LoadScenario::MbbBeam] {
            let bc = s.build_bc(&mesh);
            assert_eq!(check_boundary_conditions(&bc, mesh.ndof()), Ok(()));
        }
    }
}
