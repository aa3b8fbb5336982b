use pincushion::link::Link;
use pincushion::object::{AvObject, MetadataRecord, NetObject, Node, Object};
use pincushion::store::SceneGraph;

fn plain_shape() -> Object {
    Object::AvObject(AvObject { net: NetObject { extra_data: Link::null() }, adjustments: vec![] })
}

fn plain_node(children: Vec<Link>) -> Object {
    Object::Node(Node {
        av: AvObject { net: NetObject { extra_data: Link::null() }, adjustments: vec![] },
        children,
    })
}

fn is_node(graph: &SceneGraph, link: Link) -> bool {
    matches!(graph.get(link), Some(Object::Node(_)))
}

#[test]
fn normalize_leaves_a_node_root_alone() {
    let objects = vec![plain_shape(), plain_node(vec![Link::at(0)])];
    let mut graph = SceneGraph::from_parts(objects.clone(), vec![Link::at(1)]).unwrap();
    let before = graph.clone();
    let root = graph.normalize();
    assert_eq!(root, Link::at(1));
    assert_eq!(graph.len(), 2);
    assert_eq!(graph, before);
}

#[test]
fn normalize_wraps_a_shape_root() {
    let mut graph = SceneGraph::from_parts(vec![plain_shape()], vec![Link::at(0)]).unwrap();
    let root = graph.normalize();
    assert_eq!(root, Link::at(1));
    assert_eq!(graph.len(), 2);
    assert_eq!(graph.roots(), &vec![Link::at(1)]);
    assert_eq!(graph.get(Link::at(0)), Some(&plain_shape()));
    assert_eq!(graph.get(Link::at(1)), Some(&plain_node(vec![Link::at(0)])));
}

#[test]
fn normalize_wraps_a_root_that_leads_nowhere() {
    let mut graph = SceneGraph::from_parts(vec![plain_shape()], vec![Link::null()]).unwrap();
    let root = graph.normalize();
    assert_eq!(root, Link::at(1));
    assert_eq!(graph.roots(), &vec![Link::at(1)]);
    assert_eq!(graph.get(Link::at(1)), Some(&plain_node(vec![Link::null()])));
}

#[test]
fn normalize_wraps_a_root_without_transform() {
    let objects = vec![
        Object::StringMetadata(MetadataRecord { value: "a".to_string(), next: Link::null() }),
        Object::Other,
        Object::Net(NetObject { extra_data: Link::null() }),
    ];
    for slot in 0..3 {
        let mut graph = SceneGraph::from_parts(objects.clone(), vec![Link::at(slot)]).unwrap();
        let root = graph.normalize();
        assert_eq!(root, Link::at(3));
        assert_eq!(graph.roots(), &vec![Link::at(3)]);
        assert_eq!(graph.get(root), Some(&plain_node(vec![Link::at(slot)])));
    }
}

#[test]
fn normalize_always_ends_with_one_node_root() {
    let objects = vec![plain_shape(), plain_node(vec![Link::at(0)]), Object::Other];
    for root in [Link::at(0), Link::at(1), Link::at(2), Link::null()] {
        let mut graph = SceneGraph::from_parts(objects.clone(), vec![root]).unwrap();
        let normal = graph.normalize();
        assert_eq!(graph.roots().len(), 1);
        assert_eq!(graph.roots()[0], normal);
        assert!(is_node(&graph, normal));
    }
}

#[test]
fn normalize_twice_is_normalize_once() {
    let mut graph = SceneGraph::from_parts(vec![plain_shape()], vec![Link::at(0)]).unwrap();
    let first = graph.normalize();
    let once = graph.clone();
    let second = graph.normalize();
    assert_eq!(first, second);
    assert_eq!(graph, once);
}

#[test]
fn insert_root_parent_takes_every_root_in_order() {
    let objects = vec![plain_shape(), plain_node(vec![]), plain_shape()];
    let roots = vec![Link::at(2), Link::at(0), Link::at(1)];
    let mut graph = SceneGraph::from_parts(objects, roots.clone()).unwrap();
    let root = graph.insert_root_parent();
    assert_eq!(root, Link::at(3));
    assert_eq!(graph.roots(), &vec![Link::at(3)]);
    assert_eq!(graph.get(root), Some(&plain_node(roots)));
}

#[test]
fn insert_root_parent_wraps_even_a_node_root() {
    let mut graph = SceneGraph::from_parts(vec![plain_node(vec![])], vec![Link::at(0)]).unwrap();
    let root = graph.insert_root_parent();
    assert_eq!(root, Link::at(1));
    assert_eq!(graph.get(root), Some(&plain_node(vec![Link::at(0)])));
    assert_eq!(graph.get(Link::at(0)), Some(&plain_node(vec![])));
}

#[test]
fn insert_root_parent_of_a_rootless_graph_has_no_children() {
    let mut graph = SceneGraph::new();
    let root = graph.insert_root_parent();
    assert_eq!(root, Link::at(0));
    assert_eq!(graph.roots(), &vec![Link::at(0)]);
    assert_eq!(graph.get(root), Some(&plain_node(vec![])));
}
