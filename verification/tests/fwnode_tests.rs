use fwgraph::fwnode::{Graph, Node};

fn chain_graph(endpoints: usize) -> (Graph, usize) {
    let mut g = Graph::new();
    let root = g.add_root();
    let mut i = 0;
    while i < endpoints {
        g.add_endpoint(root);
        i += 1;
    }
    (g, root)
}

#[test]
fn acquire_present_node() {
    let mut g = Graph::new();
    let root = g.add_root();
    assert_eq!(g.refcount(root), 1);
    let n = Node::from(&mut g, root);
    assert!(n.is_some());
    let n = n.unwrap();
    assert_eq!(n.node_id(), root);
    assert_eq!(g.refcount(root), 2);
    n.release(&mut g);
    assert_eq!(g.refcount(root), 1);
}

#[test]
fn acquire_absent_identifier_yields_no_node() {
    let mut g = Graph::new();
    let root = g.add_root();
    assert!(Node::from(&mut g, root + 1).is_none());
    assert!(Node::from(&mut g, usize::MAX).is_none());
    // The graph is untouched by the failed acquisitions.
    assert_eq!(g.refcount(root), 1);
}

#[test]
fn clone_then_release_is_balanced() {
    let mut g = Graph::new();
    let root = g.add_root();
    let n = Node::from(&mut g, root).unwrap();
    let before = g.refcount(root);
    let c = n.clone_in(&mut g);
    assert_eq!(c.node_id(), root);
    assert_eq!(g.refcount(root), before + 1);
    c.release(&mut g);
    assert_eq!(g.refcount(root), before);
    n.release(&mut g);
}

#[test]
fn parent_of_top_node_is_none() {
    let mut g = Graph::new();
    let root = g.add_root();
    let n = Node::from(&mut g, root).unwrap();
    assert!(Node::parent(&n, &mut g).is_none());
    n.release(&mut g);
}

#[test]
fn parent_of_child_is_retained() {
    let mut g = Graph::new();
    let root = g.add_root();
    let child = g.add_child(root);
    let n = Node::from(&mut g, child).unwrap();
    let p = Node::parent(&n, &mut g).unwrap();
    assert_eq!(p.node_id(), root);
    // The parent handle owns its own reference unit.
    assert_eq!(g.refcount(root), 2);
    p.release(&mut g);
    assert_eq!(g.refcount(root), 1);
    n.release(&mut g);
}

#[test]
fn children_cursor_walks_both_children_then_stays_exhausted() {
    let mut g = Graph::new();
    let root = g.add_root();
    let c1 = g.add_child(root);
    let c2 = g.add_child(root);
    let n = Node::from(&mut g, root).unwrap();
    let mut it = Node::children(n);

    let first = it.next(&mut g).unwrap();
    assert_eq!(first.node_id(), c1);
    let second = it.next(&mut g).unwrap();
    assert_eq!(second.node_id(), c2);
    assert!(it.next(&mut g).is_none());
    assert!(it.next(&mut g).is_none());

    first.release(&mut g);
    second.release(&mut g);
    it.release(&mut g);
    assert_eq!(g.refcount(root), 1);
    assert_eq!(g.refcount(c1), 1);
    assert_eq!(g.refcount(c2), 1);
}

#[test]
fn endpoint_chain_yields_exactly_its_length() {
    let n_endpoints = 3;
    let (mut g, root) = chain_graph(n_endpoints);
    let n = Node::from(&mut g, root).unwrap();
    let mut it = Node::endpoints(n);
    let mut seen = 0;
    loop {
        match it.next(&mut g) {
            Some(h) => {
                seen += 1;
                h.release(&mut g);
            }
            None => break,
        }
    }
    assert_eq!(seen, n_endpoints);
    // Exhaustion is terminal: every later advance keeps answering none.
    assert!(it.next(&mut g).is_none());
    assert!(it.next(&mut g).is_none());
    it.release(&mut g);
}

#[test]
fn empty_enumeration_exhausts_immediately() {
    let mut g = Graph::new();
    let root = g.add_root();
    let n = Node::from(&mut g, root).unwrap();
    let mut it = Node::children(n);
    assert!(it.next(&mut g).is_none());
    assert!(it.next(&mut g).is_none());
    it.release(&mut g);
    assert_eq!(g.refcount(root), 1);
}

#[test]
fn two_cursors_produce_identical_sequences() {
    let mut g = Graph::new();
    let root = g.add_root();
    g.add_child(root);
    g.add_child(root);
    g.add_child(root);

    let a = Node::from(&mut g, root).unwrap();
    let b = Node::from(&mut g, root).unwrap();
    let mut it_a = Node::children(a);
    let mut it_b = Node::children(b);

    let mut ids_a: Vec<usize> = Vec::new();
    let mut ids_b: Vec<usize> = Vec::new();
    loop {
        match it_a.next(&mut g) {
            Some(h) => {
                ids_a.push(h.node_id());
                h.release(&mut g);
            }
            None => break,
        }
    }
    loop {
        match it_b.next(&mut g) {
            Some(h) => {
                ids_b.push(h.node_id());
                h.release(&mut g);
            }
            None => break,
        }
    }
    assert_eq!(ids_a, ids_b);
    assert_eq!(ids_a.len(), 3);
    it_a.release(&mut g);
    it_b.release(&mut g);
}

#[test]
fn releasing_cursor_midway_releases_root_and_position_only() {
    let mut g = Graph::new();
    let root = g.add_root();
    let c1 = g.add_child(root);
    let c2 = g.add_child(root);
    let n = Node::from(&mut g, root).unwrap();
    let mut it = Node::children(n);

    let yielded = it.next(&mut g).unwrap();
    yielded.release(&mut g);

    // The cursor owns the root and its position on the first child.
    assert_eq!(g.refcount(root), 2);
    assert_eq!(g.refcount(c1), 2);
    assert_eq!(g.refcount(c2), 1);

    it.release(&mut g);

    assert_eq!(g.refcount(root), 1);
    assert_eq!(g.refcount(c1), 1);
    assert_eq!(g.refcount(c2), 1);
}

#[test]
fn cursor_retains_position_and_yields_fresh_handles() {
    let mut g = Graph::new();
    let root = g.add_root();
    let c1 = g.add_child(root);
    let n = Node::from(&mut g, root).unwrap();
    let mut it = Node::children(n);

    let yielded = it.next(&mut g).unwrap();
    // One unit for the cursor's position, one for the yielded handle.
    assert_eq!(g.refcount(c1), 3);
    yielded.release(&mut g);
    assert_eq!(g.refcount(c1), 2);
    // Exhausting the cursor releases the position.
    assert!(it.next(&mut g).is_none());
    assert_eq!(g.refcount(c1), 1);
    it.release(&mut g);
    assert_eq!(g.refcount(root), 1);
}

#[test]
fn collecting_a_children_walk_gives_the_whole_enumeration() {
    let mut g = Graph::new();
    let root = g.add_root();
    let c1 = g.add_child(root);
    let c2 = g.add_child(root);
    let c3 = g.add_child(root);
    // A grandchild is not part of the root's own child enumeration.
    g.add_child(c2);

    let n = Node::from(&mut g, root).unwrap();
    let it = Node::children(n);
    let ids = it.collect_ids(&mut g);
    assert_eq!(ids, vec![c1, c2, c3]);
    // The walk gave back everything it took.
    assert_eq!(g.refcount(root), 1);
    assert_eq!(g.refcount(c1), 1);
    assert_eq!(g.refcount(c2), 1);
    assert_eq!(g.refcount(c3), 1);
}

#[test]
fn collecting_walks_twice_gives_identical_sequences() {
    let mut g = Graph::new();
    let root = g.add_root();
    g.add_endpoint(root);
    g.add_endpoint(root);

    let a = Node::from(&mut g, root).unwrap();
    let ids_a = Node::endpoints(a).collect_ids(&mut g);
    let b = Node::from(&mut g, root).unwrap();
    let ids_b = Node::endpoints(b).collect_ids(&mut g);
    assert_eq!(ids_a, ids_b);
    assert_eq!(ids_a.len(), 2);
}

#[test]
fn enumeration_queries_are_stateless_and_repeatable() {
    let mut g = Graph::new();
    let root = g.add_root();
    let c1 = g.add_child(root);
    let c2 = g.add_child(root);

    assert_eq!(g.next_child(root, None), Some(c1));
    assert_eq!(g.next_child(root, None), Some(c1));
    assert_eq!(g.next_child(root, Some(c1)), Some(c2));
    assert_eq!(g.next_child(root, Some(c1)), Some(c2));
    assert_eq!(g.next_child(root, Some(c2)), None);
    assert_eq!(g.next_endpoint(root, None), None);
    assert_eq!(g.get_parent(c1), Some(root));
    assert_eq!(g.get_parent(root), None);
    assert_eq!(g.len(), 3);
}
