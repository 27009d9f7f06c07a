use topo_core::error::TopoError;
use topo_core::mesh::{Element, Mesh, Node};

#[test]
fn test_regular_grid_node_count() {
    let mesh = Mesh::regular_grid(4, 3).unwrap();
    assert_eq!(mesh.nodes.len(), 5 * 4); // (nelx+1)*(nely+1)
    assert_eq!(mesh.elements.len(), 4 * 3);
}

#[test]
fn test_element_dofs() {
    let mesh = Mesh::regular_grid(2, 2).unwrap();
    let elem = &mesh.elements[0];
    let dofs = elem.dofs();
    assert_eq!(dofs.len(), 8);
}

#[test]
fn test_invalid_mesh() {
    assert!(Mesh::regular_grid(0, 3).is_err());
    assert!(Mesh::regular_grid(3, 0).is_err());
}

#[test]
fn grid_error_message() {
    match Mesh::regular_grid(0, 0) {
        Err(TopoError::Mesh(msg)) => assert_eq!(msg, "Gitter muss mindestens 1×1 Element haben"),
        other => panic!("unexpected {:?}", other),
    }
}

#[test]
fn grid_nodes_are_row_major() {
    let mesh = Mesh::regular_grid(2, 1).unwrap();
    let cells: Vec<(usize, usize, usize)> = mesh.nodes.iter().map(|n| (n.id, n.col, n.row)).collect();
    assert_eq!(
        cells,
        vec![(0, 0, 0), (1, 1, 0), (2, 2, 0), (3, 0, 1), (4, 1, 1), (5, 2, 1)]
    );
}

#[test]
fn grid_elements_counter_clockwise() {
    let mesh = Mesh::regular_grid(2, 2).unwrap();
    assert_eq!(mesh.elements[0].node_ids, [0, 1, 4, 3]);
    assert_eq!(mesh.elements[1].node_ids, [1, 2, 5, 4]);
    assert_eq!(mesh.elements[3].node_ids, [4, 5, 8, 7]);
    for (i, e) in mesh.elements.iter().enumerate() {
        assert_eq!(e.id, i);
    }
}

#[test]
fn element_dofs_exact() {
    let mesh = Mesh::regular_grid(2, 2).unwrap();
    assert_eq!(mesh.elements[0].dofs(), [0, 1, 2, 3, 8, 9, 6, 7]);
    let e = Element::new(7, [10, 11, 12, 13]);
    assert_eq!(e.dofs(), [20, 21, 22, 23, 24, 25, 26, 27]);
}

#[test]
fn node_and_element_ids() {
    let mesh = Mesh::regular_grid(4, 2).unwrap();
    assert_eq!(mesh.ndof(), 2 * 15);
    assert_eq!(mesh.node_id(4, 1), 9);
    assert_eq!(mesh.node_id(0, 2), 10);
    assert_eq!(mesh.element_id(3, 1), 7);
    let n = Node::new(3, 1, 2);
    assert_eq!((n.id, n.col, n.row), (3, 1, 2));
}

#[test]
fn edge_nodes() {
    let mesh = Mesh::regular_grid(3, 2).unwrap();
    assert_eq!(mesh.left_edge_nodes(), vec![0, 4, 8]);
    assert_eq!(mesh.right_edge_nodes(), vec![3, 7, 11]);
    assert_eq!(mesh.bottom_edge_nodes(), vec![0, 1, 2, 3]);
}

#[test]
fn single_element_grid() {
    let mesh = Mesh::regular_grid(1, 1).unwrap();
    assert_eq!(mesh.nodes.len(), 4);
    assert_eq!(mesh.elements.len(), 1);
    assert_eq!(mesh.elements[0].node_ids, [0, 1, 3, 2]);
}

#[test]
fn element_dofs_lie_in_the_grid() {
    let mesh = Mesh::regular_grid(5, 3).unwrap();
    let ndof = mesh.ndof();
    for e in &mesh.elements {
        let mut ids = e.node_ids.to_vec();
        ids.sort();
        ids.dedup();
        assert_eq!(ids.len(), 4);
        for d in e.dofs() {
            assert!(d < ndof);
        }
    }
}

#[test]
fn node_lookup_matches_position() {
    let mesh = Mesh::regular_grid(3, 4).unwrap();
    for row in 0..=4 {
        for col in 0..=3 {
            let n = &mesh.nodes[mesh.node_id(col, row)];
            assert_eq!((n.col, n.row), (col, row));
        }
    }
    for row in 0..4 {
        for col in 0..3 {
            let e = &mesh.elements[mesh.element_id(col, row)];
            assert_eq!(e.node_ids[0], mesh.node_id(col, row));
            assert_eq!(e.node_ids[2], mesh.node_id(col + 1, row + 1));
        }
    }
}
