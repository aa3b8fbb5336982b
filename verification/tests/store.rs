use pincushion::link::Link;
use pincushion::object::{AvObject, MetadataRecord, NetObject, Node, Object};
use pincushion::store::SceneGraph;

fn shape() -> Object {
    Object::AvObject(AvObject { net: NetObject { extra_data: Link::null() }, adjustments: vec![] })
}

fn node(children: Vec<Link>) -> Object {
    Object::Node(Node {
        av: AvObject { net: NetObject { extra_data: Link::null() }, adjustments: vec![] },
        children,
    })
}

fn record(value: &str, next: Link) -> Object {
    Object::StringMetadata(MetadataRecord { value: value.to_string(), next })
}

#[test]
fn null_link_has_no_slot() {
    assert!(Link::null().is_null());
    assert_eq!(Link::null().index(), None);
}

#[test]
fn link_at_names_its_slot() {
    let link = Link::at(7);
    assert!(!link.is_null());
    assert_eq!(link.index(), Some(7));
    assert_eq!(link, Link { slot: Some(7) });
    assert_ne!(link, Link::at(8));
}

#[test]
fn new_graph_is_empty() {
    let graph = SceneGraph::new();
    assert_eq!(graph.len(), 0);
    assert!(graph.roots().is_empty());
    assert_eq!(graph.get(Link::at(0)), None);
    assert_eq!(graph.get(Link::null()), None);
}

#[test]
fn insert_hands_out_fresh_links_in_order() {
    let mut graph = SceneGraph::new();
    assert_eq!(graph.insert(shape()), Some(Link::at(0)));
    assert_eq!(graph.insert(node(vec![Link::at(0)])), Some(Link::at(1)));
    assert_eq!(graph.insert(Object::Other), Some(Link::at(2)));
    assert_eq!(graph.len(), 3);
    assert_eq!(graph.get(Link::at(0)), Some(&shape()));
    assert_eq!(graph.get(Link::at(1)), Some(&node(vec![Link::at(0)])));
    assert_eq!(graph.get(Link::at(2)), Some(&Object::Other));
    assert_eq!(graph.get(Link::at(3)), None);
}

#[test]
fn insert_accepts_a_link_to_the_new_slot_itself() {
    let mut graph = SceneGraph::new();
    assert_eq!(graph.insert(node(vec![Link::at(0)])), Some(Link::at(0)));
    assert_eq!(graph.len(), 1);
}

#[test]
fn insert_turns_down_a_link_out_of_the_arena() {
    let mut graph = SceneGraph::new();
    assert_eq!(graph.insert(shape()), Some(Link::at(0)));
    assert_eq!(graph.insert(node(vec![Link::at(0), Link::at(2)])), None);
    assert_eq!(graph.insert(record("x", Link::at(5))), None);
    assert_eq!(
        graph.insert(Object::Net(NetObject { extra_data: Link::at(2) })),
        None
    );
    assert_eq!(graph.len(), 1);
    assert_eq!(graph.get(Link::at(0)), Some(&shape()));
}

#[test]
fn add_root_appends_in_order() {
    let mut graph = SceneGraph::new();
    graph.insert(shape());
    graph.insert(shape());
    assert!(graph.add_root(Link::at(1)));
    assert!(graph.add_root(Link::null()));
    assert!(graph.add_root(Link::at(0)));
    assert_eq!(graph.roots(), &vec![Link::at(1), Link::null(), Link::at(0)]);
}

#[test]
fn add_root_turns_down_a_link_out_of_the_arena() {
    let mut graph = SceneGraph::new();
    graph.insert(shape());
    assert!(!graph.add_root(Link::at(1)));
    assert!(graph.roots().is_empty());
}

#[test]
fn from_parts_takes_forward_links_and_cycles() {
    let objects = vec![
        node(vec![Link::at(1), Link::at(2), Link::null()]),
        node(vec![Link::at(0)]),
        record("a", Link::at(2)),
    ];
    let graph = SceneGraph::from_parts(objects.clone(), vec![Link::at(0)]).unwrap();
    assert_eq!(graph.len(), 3);
    assert_eq!(graph.roots(), &vec![Link::at(0)]);
    for (slot, object) in objects.iter().enumerate() {
        assert_eq!(graph.get(Link::at(slot)), Some(object));
    }
}

#[test]
fn from_parts_turns_down_a_root_out_of_the_arena() {
    assert!(SceneGraph::from_parts(vec![shape()], vec![Link::at(1)]).is_none());
    assert!(SceneGraph::from_parts(vec![], vec![Link::at(0)]).is_none());
    assert!(SceneGraph::from_parts(vec![], vec![Link::null()]).is_some());
}

#[test]
fn from_parts_turns_down_an_object_with_a_link_out_of_the_arena() {
    assert!(SceneGraph::from_parts(vec![shape(), node(vec![Link::at(2)])], vec![]).is_none());
    assert!(SceneGraph::from_parts(vec![record("a", Link::at(1))], vec![]).is_none());
    let headed = Object::AvObject(AvObject {
        net: NetObject { extra_data: Link::at(9) },
        adjustments: vec![],
    });
    assert!(SceneGraph::from_parts(vec![headed], vec![]).is_none());
    let named = Object::Net(NetObject { extra_data: Link::at(1) });
    assert!(SceneGraph::from_parts(vec![named], vec![]).is_none());
    let heavy = Object::Node(Node {
        av: AvObject { net: NetObject { extra_data: Link::at(1) }, adjustments: vec![] },
        children: vec![],
    });
    assert!(SceneGraph::from_parts(vec![heavy], vec![]).is_none());
}
