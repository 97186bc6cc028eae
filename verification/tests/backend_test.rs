use petgraph::graph::NodeIndex;
use q_rust::backend::Backend;

#[test]
fn test_backend_creation() {
    let backend = Backend::new("test_backend".to_string(), 5);
    assert_eq!(backend.num_qubits, 5);
    assert_eq!(backend.coupling_map.node_count(), 5);
    assert_eq!(backend.coupling_map.edge_count(), 0);
}

#[test]
fn test_coupling_map() {
    let mut backend = Backend::new("test_backend".to_string(), 3);
    // Linear connectivity: 0 -> 1 -> 2
    let edges = vec![(0, 1), (1, 2)];
    backend.set_coupling_map(edges);

    assert_eq!(backend.coupling_map.edge_count(), 2);
    assert!(backend
        .coupling_map
        .contains_edge(NodeIndex::new(0), NodeIndex::new(1)));
    assert!(backend
        .coupling_map
        .contains_edge(NodeIndex::new(1), NodeIndex::new(2)));
    assert!(!backend
        .coupling_map
        .contains_edge(NodeIndex::new(0), NodeIndex::new(2)));
}

#[test]
fn coupling_map_skips_pairs_outside_the_device() {
    let mut backend = Backend::new("small".to_string(), 2);
    backend.set_coupling_map(vec![(0, 1), (1, 2), (5, 0), (1, 0)]);
    assert_eq!(backend.coupling_map.node_count(), 2);
    assert_eq!(backend.coupling_map.edge_count(), 2);
    assert!(backend
        .coupling_map
        .contains_edge(NodeIndex::new(0), NodeIndex::new(1)));
    assert!(backend
        .coupling_map
        .contains_edge(NodeIndex::new(1), NodeIndex::new(0)));
}

#[test]
fn coupling_map_is_replaced_not_extended() {
    let mut backend = Backend::new("small".to_string(), 3);
    backend.set_coupling_map(vec![(0, 1), (1, 2)]);
    backend.set_coupling_map(vec![(2, 0)]);
    assert_eq!(backend.coupling_map.edge_count(), 1);
    assert!(backend
        .coupling_map
        .contains_edge(NodeIndex::new(2), NodeIndex::new(0)));
    assert!(!backend
        .coupling_map
        .contains_edge(NodeIndex::new(0), NodeIndex::new(1)));
}

#[test]
fn basis_gates_are_kept_once() {
    let mut backend = Backend::new("dev".to_string(), 1);
    assert!(!backend.has_basis_gate("cx"));
    backend.add_basis_gate("cx");
    backend.add_basis_gate("h");
    backend.add_basis_gate("cx");
    assert!(backend.has_basis_gate("cx"));
    assert!(backend.has_basis_gate("h"));
    assert!(!backend.has_basis_gate("x"));
    assert_eq!(backend.basis_gates.len(), 2);
}

#[test]
fn backend_clone_keeps_the_graph() {
    let mut backend = Backend::new("dev".to_string(), 3);
    backend.add_basis_gate("cx");
    backend.set_coupling_map(vec![(0, 1)]);
    let copy = backend.clone();
    assert_eq!(copy.name, "dev");
    assert_eq!(copy.num_qubits, 3);
    assert_eq!(copy.basis_gates, vec!["cx".to_string()]);
    assert_eq!(copy.coupling_map.node_count(), 3);
    assert!(copy
        .coupling_map
        .contains_edge(NodeIndex::new(0), NodeIndex::new(1)));
}
