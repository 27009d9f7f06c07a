use topo_core::export::{render_picture, Shade};
use topo_core::filter::{element_position, neighbourhood};
use topo_core::mesh::Mesh;

#[test]
fn test_filter_construction() {
    // Filter radius 1.5 on unit elements: search reach ceil(1.5) = 2.
    let mesh = Mesh::regular_grid(10, 5).unwrap();
    for e in 0..mesh.elements.len() {
        let nbrs = neighbourhood(&mesh, e, 2);
        assert!(!nbrs.is_empty());
        assert!(nbrs.contains(&e));
    }
}

#[test]
fn window_is_clamped_at_the_corner() {
    let mesh = Mesh::regular_grid(10, 5).unwrap();
    assert_eq!(neighbourhood(&mesh, 0, 1), vec![0, 1, 10, 11]);
    assert_eq!(neighbourhood(&mesh, 49, 1), vec![38, 39, 48, 49]);
}

#[test]
fn window_in_the_middle() {
    let mesh = Mesh::regular_grid(4, 3).unwrap();
    assert_eq!(neighbourhood(&mesh, 5, 1), vec![0, 1, 2, 4, 5, 6, 8, 9, 10]);
    assert_eq!(neighbourhood(&mesh, 5, 0), vec![5]);
    assert_eq!(neighbourhood(&mesh, 5, 10).len(), 12);
}

#[test]
fn negative_reach_is_empty() {
    let mesh = Mesh::regular_grid(4, 3).unwrap();
    assert!(neighbourhood(&mesh, 5, -1).is_empty());
}

#[test]
fn window_is_symmetric() {
    let mesh = Mesh::regular_grid(6, 4).unwrap();
    for e in 0..24 {
        for f in neighbourhood(&mesh, e, 2) {
            assert!(neighbourhood(&mesh, f, 2).contains(&e));
        }
    }
}

#[test]
fn element_positions() {
    let mesh = Mesh::regular_grid(4, 3).unwrap();
    assert_eq!(element_position(&mesh, 0), (0, 0));
    assert_eq!(element_position(&mesh, 6), (2, 1));
    assert_eq!(element_position(&mesh, 11), (3, 2));
}

#[test]
fn test_ascii_export() {
    let (nelx, nely) = (4usize, 2usize);
    let shades = vec![Shade::Solid; nelx * nely];
    let ascii = render_picture(nelx, nely, &shades);
    let lines: Vec<&str> = ascii.lines().collect();
    assert_eq!(lines.len(), nely);
    assert_eq!(lines[0].chars().count(), nelx);
}

#[test]
fn picture_top_row_first() {
    let shades = vec![
        Shade::Solid, Shade::Void, Shade::Partial, // row 0
        Shade::Void, Shade::Void, Shade::Solid, // row 1
    ];
    let s = render_picture(3, 2, &shades);
    assert_eq!(s, "░░█\n█░▒\n");
}

#[test]
fn empty_picture() {
    assert_eq!(render_picture(3, 0, &Vec::new()), "");
    assert_eq!(render_picture(0, 2, &Vec::new()), "\n\n");
}
