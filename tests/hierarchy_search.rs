use foxtrot::hierarchy::{search_in_children, Hierarchy, PrimitiveTopology};

#[test]
fn only_grandchild_with_mesh_is_found() {
    let mut h = Hierarchy::new();
    let mesh = h.add_mesh(PrimitiveTopology::TriangleList);
    let child = h.add_child(0, None);
    let grandchild = h.add_child(child, Some(mesh));
    assert_eq!(search_in_children(&h, 0), Some(vec![(grandchild, mesh)]));
}

#[test]
fn direct_child_comes_before_its_grandchild() {
    let mut h = Hierarchy::new();
    let outer = h.add_mesh(PrimitiveTopology::TriangleList);
    let inner = h.add_mesh(PrimitiveTopology::TriangleList);
    let child = h.add_child(0, Some(outer));
    let grandchild = h.add_child(child, Some(inner));
    assert_eq!(
        search_in_children(&h, 0),
        Some(vec![(child, outer), (grandchild, inner)])
    );
}

#[test]
fn leaf_yields_empty_list() {
    let mut h = Hierarchy::new();
    assert_eq!(search_in_children(&h, 0), Some(vec![]));
    let mesh = h.add_mesh(PrimitiveTopology::TriangleList);
    let leaf = h.add_child(0, Some(mesh));
    assert_eq!(search_in_children(&h, leaf), Some(vec![]));
}

#[test]
fn all_direct_matches_precede_deeper_ones() {
    let mut h = Hierarchy::new();
    let m = h.add_mesh(PrimitiveTopology::TriangleList);
    let a = h.add_child(0, None);
    let b = h.add_child(0, Some(m));
    let a1 = h.add_child(a, Some(m));
    let c = h.add_child(0, Some(m));
    let b1 = h.add_child(b, None);
    let b11 = h.add_child(b1, Some(m));
    assert_eq!(
        search_in_children(&h, 0),
        Some(vec![(b, m), (c, m), (a1, m), (b11, m)])
    );
    assert_eq!(search_in_children(&h, b), Some(vec![(b11, m)]));
}

#[test]
fn non_triangle_list_mesh_fails_the_search() {
    let mut h = Hierarchy::new();
    let good = h.add_mesh(PrimitiveTopology::TriangleList);
    let bad = h.add_mesh(PrimitiveTopology::LineStrip);
    let child = h.add_child(0, Some(good));
    h.add_child(child, Some(bad));
    assert_eq!(search_in_children(&h, 0), None);
    assert_eq!(search_in_children(&h, child), None);
}

#[test]
fn root_mesh_is_not_part_of_its_own_search() {
    let mut h = Hierarchy::new();
    let m = h.add_mesh(PrimitiveTopology::TriangleStrip);
    let child = h.add_child(0, None);
    let grandchild = h.add_child(child, None);
    assert_eq!(search_in_children(&h, 0), Some(vec![]));
    let n = h.add_child(grandchild, Some(m));
    assert_eq!(search_in_children(&h, n), Some(vec![]));
}
