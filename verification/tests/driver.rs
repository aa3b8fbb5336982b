use pincushion::error::SurgeryError;
use pincushion::link::Link;
use pincushion::object::{AvObject, MetadataRecord, NetObject, Node, Object};
use pincushion::policy::{Adjustment, Category, Scalar, TransformConfig};
use pincushion::store::SceneGraph;

fn number(value: f32) -> Scalar {
    Scalar { bits: value.to_bits() }
}

fn settings() -> TransformConfig {
    TransformConfig {
        arrow_offset: number(8.0),
        arrow_scale: number(0.5),
        bolt_offset: number(4.0),
        bolt_scale: number(1.0),
    }
}

fn arrow_shift() -> Adjustment {
    Adjustment::Shift { offset: number(8.0), factor: number(0.5) }
}

fn bolt_shift() -> Adjustment {
    Adjustment::Shift { offset: number(4.0), factor: number(1.0) }
}

fn mesh(extra_data: Link, adjustments: Vec<Adjustment>) -> Object {
    Object::AvObject(AvObject { net: NetObject { extra_data }, adjustments })
}

fn group(extra_data: Link, adjustments: Vec<Adjustment>, children: Vec<Link>) -> Object {
    Object::Node(Node { av: AvObject { net: NetObject { extra_data }, adjustments }, children })
}

fn note(value: &str, next: Link) -> Object {
    Object::StringMetadata(MetadataRecord { value: value.to_string(), next })
}

fn strings(values: &[&str]) -> Vec<String> {
    values.iter().map(|value| value.to_string()).collect()
}

#[test]
fn asset_under_a_node_root_is_adjusted_in_place() {
    let objects = vec![
        group(Link::null(), vec![], vec![Link::at(1), Link::at(2)]),
        mesh(Link::null(), vec![]),
        group(Link::null(), vec![], vec![Link::at(3)]),
        mesh(Link::null(), vec![]),
    ];
    let mut graph = SceneGraph::from_parts(objects, vec![Link::at(0)]).unwrap();
    assert_eq!(graph.process_asset(Category::Arrow, &settings()), Ok(()));
    assert_eq!(graph.len(), 5);
    assert_eq!(graph.roots(), &vec![Link::at(0)]);
    assert_eq!(
        graph.get(Link::at(0)),
        Some(&group(Link::at(4), vec![], vec![Link::at(1), Link::at(2)]))
    );
    assert_eq!(graph.get(Link::at(1)), Some(&mesh(Link::null(), vec![arrow_shift()])));
    assert_eq!(
        graph.get(Link::at(2)),
        Some(&group(Link::null(), vec![arrow_shift()], vec![Link::at(3)]))
    );
    assert_eq!(graph.get(Link::at(3)), Some(&mesh(Link::null(), vec![])));
    assert_eq!(graph.get(Link::at(4)), Some(&note("NC", Link::null())));
}

#[test]
fn asset_under_a_shape_root_is_wrapped_first() {
    let objects = vec![mesh(Link::at(1), vec![]), note("kept", Link::null())];
    let mut graph = SceneGraph::from_parts(objects, vec![Link::at(0)]).unwrap();
    assert_eq!(graph.process_asset(Category::Bolt, &settings()), Ok(()));
    assert_eq!(graph.len(), 4);
    assert_eq!(graph.roots(), &vec![Link::at(2)]);
    assert_eq!(graph.get(Link::at(0)), Some(&mesh(Link::at(1), vec![bolt_shift()])));
    assert_eq!(graph.get(Link::at(1)), Some(&note("kept", Link::null())));
    assert_eq!(graph.get(Link::at(2)), Some(&group(Link::at(3), vec![], vec![Link::at(0)])));
    assert_eq!(graph.get(Link::at(3)), Some(&note("NC", Link::null())));
    assert_eq!(graph.metadata_values(Link::at(2)), strings(&["NC"]));
    assert_eq!(graph.metadata_values(Link::at(0)), strings(&["kept"]));
}

#[test]
fn asset_marker_goes_before_the_metadata_of_a_node_root() {
    let objects = vec![
        group(Link::at(1), vec![], vec![]),
        note("v1", Link::at(2)),
        note("v2", Link::null()),
    ];
    let mut graph = SceneGraph::from_parts(objects, vec![Link::at(0)]).unwrap();
    assert_eq!(graph.process_asset(Category::Thrown, &settings()), Ok(()));
    assert_eq!(graph.metadata_values(Link::at(0)), strings(&["NC", "v1", "v2"]));
}

#[test]
fn asset_of_a_thrown_weapon_is_flipped() {
    let mut graph = SceneGraph::from_parts(vec![mesh(Link::null(), vec![])], vec![Link::at(0)])
        .unwrap();
    assert_eq!(graph.process_asset(Category::Thrown, &settings()), Ok(()));
    assert_eq!(graph.get(Link::at(0)), Some(&mesh(Link::null(), vec![Adjustment::Flip])));
}

#[test]
fn asset_root_itself_is_not_adjusted() {
    let objects = vec![group(Link::null(), vec![], vec![Link::at(1)]), mesh(Link::null(), vec![])];
    let mut graph = SceneGraph::from_parts(objects, vec![Link::at(0)]).unwrap();
    assert_eq!(graph.process_asset(Category::Arrow, &settings()), Ok(()));
    assert_eq!(graph.get(Link::at(0)), Some(&group(Link::at(2), vec![], vec![Link::at(1)])));
}

#[test]
fn asset_without_a_root_is_turned_down_untouched() {
    let objects = vec![group(Link::null(), vec![], vec![Link::at(1)]), mesh(Link::null(), vec![])];
    let mut graph = SceneGraph::from_parts(objects, vec![]).unwrap();
    let before = graph.clone();
    assert_eq!(
        graph.process_asset(Category::Arrow, &settings()),
        Err(SurgeryError::InvalidRootCount)
    );
    assert_eq!(graph, before);
}

#[test]
fn asset_with_several_roots_is_turned_down_untouched() {
    let objects = vec![group(Link::null(), vec![], vec![Link::at(1)]), mesh(Link::null(), vec![])];
    for roots in [
        vec![Link::at(0), Link::at(1)],
        vec![Link::at(0), Link::at(0)],
        vec![Link::at(0), Link::at(1), Link::null()],
    ] {
        let mut graph = SceneGraph::from_parts(objects.clone(), roots).unwrap();
        let before = graph.clone();
        assert_eq!(
            graph.process_asset(Category::Bolt, &settings()),
            Err(SurgeryError::InvalidRootCount)
        );
        assert_eq!(graph, before);
    }
}

#[test]
fn asset_after_a_turned_down_one_is_processed() {
    let mut bad = SceneGraph::from_parts(vec![mesh(Link::null(), vec![])], vec![]).unwrap();
    let mut good = SceneGraph::from_parts(vec![mesh(Link::null(), vec![])], vec![Link::at(0)])
        .unwrap();
    assert!(bad.process_asset(Category::Arrow, &settings()).is_err());
    assert_eq!(good.process_asset(Category::Arrow, &settings()), Ok(()));
    assert_eq!(good.get(Link::at(0)), Some(&mesh(Link::null(), vec![arrow_shift()])));
}

#[test]
fn children_that_do_not_resolve_are_passed_over() {
    let objects = vec![
        group(Link::null(), vec![], vec![Link::null(), Link::at(1), Link::at(2), Link::at(3), Link::at(4)]),
        note("a", Link::null()),
        Object::Other,
        Object::Net(NetObject { extra_data: Link::null() }),
        mesh(Link::null(), vec![]),
    ];
    let mut graph = SceneGraph::from_parts(objects.clone(), vec![Link::at(0)]).unwrap();
    assert_eq!(graph.process_asset(Category::Arrow, &settings()), Ok(()));
    for slot in 1..4 {
        assert_eq!(graph.get(Link::at(slot)), Some(&objects[slot]));
    }
    assert_eq!(graph.get(Link::at(4)), Some(&mesh(Link::null(), vec![arrow_shift()])));
}

#[test]
fn adjust_child_says_whether_it_found_a_transform() {
    let objects = vec![
        group(Link::null(), vec![], vec![]),
        mesh(Link::null(), vec![]),
        note("a", Link::null()),
        Object::Other,
        Object::Net(NetObject { extra_data: Link::null() }),
    ];
    let mut graph = SceneGraph::from_parts(objects.clone(), vec![]).unwrap();
    assert!(graph.adjust_child(Link::at(0), Category::Thrown, &settings()));
    assert!(graph.adjust_child(Link::at(1), Category::Thrown, &settings()));
    let adjusted = graph.clone();
    for link in [Link::at(2), Link::at(3), Link::at(4), Link::at(5), Link::null()] {
        assert!(!graph.adjust_child(link, Category::Thrown, &settings()));
        assert_eq!(graph, adjusted);
    }
    assert_eq!(graph.get(Link::at(0)), Some(&group(Link::null(), vec![Adjustment::Flip], vec![])));
    assert_eq!(graph.get(Link::at(1)), Some(&mesh(Link::null(), vec![Adjustment::Flip])));
}

#[test]
fn child_listed_twice_is_adjusted_twice() {
    let objects = vec![
        group(Link::null(), vec![], vec![Link::at(1), Link::at(1)]),
        mesh(Link::null(), vec![]),
    ];
    let mut graph = SceneGraph::from_parts(objects, vec![Link::at(0)]).unwrap();
    assert_eq!(graph.process_asset(Category::Arrow, &settings()), Ok(()));
    assert_eq!(
        graph.get(Link::at(1)),
        Some(&mesh(Link::null(), vec![arrow_shift(), arrow_shift()]))
    );
}

#[test]
fn adjust_children_visits_the_list_it_was_given() {
    let objects = vec![
        group(Link::null(), vec![], vec![Link::at(1), Link::at(2), Link::at(3)]),
        mesh(Link::null(), vec![]),
        mesh(Link::null(), vec![]),
        mesh(Link::null(), vec![]),
    ];
    let mut graph = SceneGraph::from_parts(objects, vec![Link::at(0)]).unwrap();
    let snapshot = vec![Link::at(1), Link::at(2)];
    graph.adjust_children(&snapshot, Category::Bolt, &settings());
    assert_eq!(graph.get(Link::at(1)), Some(&mesh(Link::null(), vec![bolt_shift()])));
    assert_eq!(graph.get(Link::at(2)), Some(&mesh(Link::null(), vec![bolt_shift()])));
    assert_eq!(graph.get(Link::at(3)), Some(&mesh(Link::null(), vec![])));
    assert_eq!(
        graph.children_snapshot(Link::at(0)),
        vec![Link::at(1), Link::at(2), Link::at(3)]
    );
}

#[test]
fn snapshot_is_a_copy_of_the_child_list() {
    let objects = vec![
        group(Link::null(), vec![], vec![Link::at(1), Link::null(), Link::at(1)]),
        mesh(Link::null(), vec![]),
    ];
    let mut graph = SceneGraph::from_parts(objects, vec![Link::at(0)]).unwrap();
    let snapshot = graph.children_snapshot(Link::at(0));
    assert_eq!(snapshot, vec![Link::at(1), Link::null(), Link::at(1)]);
    graph.insert_root_parent();
    graph.adjust_children(&snapshot, Category::Thrown, &settings());
    assert_eq!(snapshot, vec![Link::at(1), Link::null(), Link::at(1)]);
    assert_eq!(
        graph.get(Link::at(1)),
        Some(&mesh(Link::null(), vec![Adjustment::Flip, Adjustment::Flip]))
    );
    assert_eq!(graph.children_snapshot(Link::at(1)), vec![]);
    assert_eq!(graph.children_snapshot(Link::null()), vec![]);
    assert_eq!(graph.children_snapshot(Link::at(9)), vec![]);
}

#[test]
fn asset_that_is_its_own_child_is_adjusted_and_marked() {
    let objects = vec![group(Link::null(), vec![], vec![Link::at(0)])];
    let mut graph = SceneGraph::from_parts(objects, vec![Link::at(0)]).unwrap();
    assert_eq!(graph.process_asset(Category::Thrown, &settings()), Ok(()));
    assert_eq!(
        graph.get(Link::at(0)),
        Some(&group(Link::at(1), vec![Adjustment::Flip], vec![Link::at(0)]))
    );
}
