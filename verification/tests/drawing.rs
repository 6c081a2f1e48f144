use scenegraph::draw::{draw_scene, DrawCall};
use scenegraph::node::{is_propagated, update_node_transformations, SceneNode};
use scenegraph::transform::{compose, LocalTransform, Placement, TransformStep};
use scenegraph::vector::Vec3;

fn small_scene() -> SceneNode {
    let mut group = SceneNode::new();
    group.add_child(SceneNode::from_vao(2, 20).unwrap());
    group.add_child(SceneNode::new());
    group.add_child(SceneNode::from_vao(3, 30).unwrap());
    let mut first = SceneNode::from_vao(1, 10).unwrap();
    first.add_child(group);
    let mut root = SceneNode::new();
    root.add_child(first);
    root.add_child(SceneNode::from_vao(4, 40).unwrap());
    root
}

#[test]
fn draw_calls_come_in_traversal_order() {
    let mut root = small_scene();
    update_node_transformations(&mut root, &Vec::new());
    let calls = draw_scene(&root, &Vec::new());
    let handles: Vec<u32> = calls.iter().map(|call| call.buffer_handle).collect();
    let counts: Vec<u32> = calls.iter().map(|call| call.index_count).collect();
    assert_eq!(handles, vec![1, 2, 3, 4]);
    assert_eq!(counts, vec![10, 20, 30, 40]);
}

#[test]
fn group_nodes_give_no_draw_call() {
    let mut root = SceneNode::new();
    root.add_child(SceneNode::new());
    root.add_child(SceneNode::new());
    update_node_transformations(&mut root, &Vec::new());
    assert_eq!(draw_scene(&root, &Vec::new()), Vec::<DrawCall>::new());
}

#[test]
fn every_drawable_node_gives_one_draw_call() {
    let mut root = small_scene();
    update_node_transformations(&mut root, &Vec::new());
    let calls = draw_scene(&root, &Vec::new());
    assert_eq!(calls.len(), 4);
    for handle in 1..=4u32 {
        assert_eq!(calls.iter().filter(|call| call.buffer_handle == handle).count(), 1);
    }
}

#[test]
fn children_of_a_group_node_are_still_drawn() {
    let mut group = SceneNode::new();
    group.add_child(SceneNode::from_vao(8, 80).unwrap());
    let mut root = SceneNode::new();
    root.add_child(group);
    update_node_transformations(&mut root, &Vec::new());
    let calls = draw_scene(&root, &Vec::new());
    assert_eq!(calls.len(), 1);
    assert_eq!(calls[0].buffer_handle, 8);
}

#[test]
fn draw_call_carries_world_and_view_projection_times_world() {
    let mut root = small_scene();
    root.set_at(&vec![1], Placement::Position, Vec3::new(1, 2, 3)).unwrap();
    update_node_transformations(&mut root, &Vec::new());
    let view_projection = vec![TransformStep::RotateY(9), TransformStep::RotateX(8)];
    let calls = draw_scene(&root, &view_projection);
    let world = root.node_at(&vec![1]).unwrap().world_transform().clone();
    assert_eq!(calls[3].model, world);
    assert_eq!(calls[3].mvp, compose(&view_projection, &world));
    assert_eq!(calls[3].mvp[..2].to_vec(), view_projection);
    assert_eq!(calls[3].mvp.len(), 16);
    let first = root.node_at(&vec![0]).unwrap().world_transform().clone();
    assert_eq!(calls[0].model, first);
}

#[test]
fn drawing_a_single_node_gives_its_call() {
    let mut root = SceneNode::from_vao(1, 3).unwrap();
    let input = vec![TransformStep::RotateX(4)];
    update_node_transformations(&mut root, &input);
    assert!(is_propagated(&root, &input));
    let calls = draw_scene(&root, &vec![TransformStep::RotateZ(1)]);
    let mut model = input.clone();
    model.extend(LocalTransform::identity().steps());
    let mut mvp = vec![TransformStep::RotateZ(1)];
    mvp.extend(model.clone());
    assert_eq!(calls, vec![DrawCall { buffer_handle: 1, index_count: 3, model, mvp }]);
}

#[test]
fn drawing_a_subtree_gives_the_calls_below_it() {
    let mut root = small_scene();
    update_node_transformations(&mut root, &Vec::new());
    let group = root.node_at(&vec![0, 0]).unwrap();
    let handles: Vec<u32> =
        draw_scene(group, &Vec::new()).iter().map(|call| call.buffer_handle).collect();
    assert_eq!(handles, vec![2, 3]);
}

#[test]
fn drawing_twice_gives_the_same_calls() {
    let mut root = small_scene();
    update_node_transformations(&mut root, &Vec::new());
    let view_projection = vec![TransformStep::RotateY(9)];
    assert_eq!(draw_scene(&root, &view_projection), draw_scene(&root, &view_projection));
}
