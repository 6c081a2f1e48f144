use scenegraph::fixed::UNIT;
use scenegraph::node::{Drawable, SceneError, SceneNode};
use scenegraph::transform::{
    compose, copy_transform, same_transform, LocalTransform, Placement, TransformStep,
};
use scenegraph::vector::Vec3;

#[test]
fn group_node_has_default_placement_and_draws_nothing() {
    let node = SceneNode::new();
    assert_eq!(node.position(), Vec3::new(0, 0, 0));
    assert_eq!(node.rotation(), Vec3::new(0, 0, 0));
    assert_eq!(node.scale(), Vec3::new(UNIT, UNIT, UNIT));
    assert_eq!(node.reference_point(), Vec3::new(0, 0, 0));
    assert_eq!(node.drawable(), None);
    assert!(!node.is_drawable());
    assert_eq!(node.child_count(), 0);
    assert!(node.world_transform().is_empty());
}

#[test]
fn drawable_node_has_default_placement_and_its_payload() {
    let node = SceneNode::from_vao(3, 36).unwrap();
    assert_eq!(node.local(), LocalTransform::identity());
    assert_eq!(node.drawable(), Some(Drawable { buffer_handle: 3, index_count: 36 }));
    assert!(node.is_drawable());
    assert_eq!(node.child_count(), 0);
}

#[test]
fn drawable_node_may_have_no_indices() {
    let node = SceneNode::from_vao(1, 0).unwrap();
    assert_eq!(node.drawable(), Some(Drawable { buffer_handle: 1, index_count: 0 }));
}

#[test]
fn negative_index_count_is_refused() {
    assert_eq!(SceneNode::from_vao(3, -1).err(), Some(SceneError::NegativeIndexCount));
    assert_eq!(SceneNode::from_vao(3, i32::MIN).err(), Some(SceneError::NegativeIndexCount));
    assert!(SceneNode::from_vao(3, i32::MAX).is_ok());
}

#[test]
fn from_drawable_keeps_the_payload() {
    let payload = Drawable { buffer_handle: 9, index_count: 12 };
    let node = SceneNode::from_drawable(payload);
    assert_eq!(node.drawable(), Some(payload));
    assert_eq!(node.local(), LocalTransform::identity());
}

#[test]
fn add_child_appends_in_order() {
    let mut parent = SceneNode::new();
    assert_eq!(parent.add_child(SceneNode::from_vao(1, 3).unwrap()), 0);
    assert_eq!(parent.add_child(SceneNode::new()), 1);
    assert_eq!(parent.add_child(SceneNode::from_vao(2, 6).unwrap()), 2);
    assert_eq!(parent.child_count(), 3);
    assert_eq!(parent.child(0).unwrap().drawable().unwrap().buffer_handle, 1);
    assert!(!parent.child(1).unwrap().is_drawable());
    assert_eq!(parent.child(2).unwrap().drawable().unwrap().buffer_handle, 2);
    assert!(parent.child(3).is_none());
}

#[test]
fn add_child_keeps_the_subtree_of_the_child() {
    let mut inner = SceneNode::new();
    inner.add_child(SceneNode::from_vao(5, 9).unwrap());
    let mut outer = SceneNode::new();
    outer.add_child(inner);
    let leaf = outer.node_at(&vec![0, 0]).unwrap();
    assert_eq!(leaf.drawable(), Some(Drawable { buffer_handle: 5, index_count: 9 }));
}

#[test]
fn setters_change_one_part_each() {
    let mut node = SceneNode::from_vao(1, 3).unwrap();
    node.set_position(Vec3::new(1, 2, 3));
    node.set_rotation(Vec3::new(4, 5, 6));
    node.set_scale(Vec3::new(7, 8, 9));
    node.set_reference_point(Vec3::new(10, 11, 12));
    assert_eq!(node.position(), Vec3::new(1, 2, 3));
    assert_eq!(node.rotation(), Vec3::new(4, 5, 6));
    assert_eq!(node.scale(), Vec3::new(7, 8, 9));
    assert_eq!(node.reference_point(), Vec3::new(10, 11, 12));
    assert_eq!(node.drawable(), Some(Drawable { buffer_handle: 1, index_count: 3 }));
    node.set_local(LocalTransform::identity());
    assert_eq!(node.local(), LocalTransform::identity());
}

#[test]
fn rotation_components_feed_yaw_pitch_and_roll() {
    let local = LocalTransform::identity().with(Placement::Rotation, Vec3::new(11, 22, 33));
    assert_eq!(local.yaw_component(), 11);
    assert_eq!(local.pitch_component(), 22);
    assert_eq!(local.roll_component(), 33);
}

#[test]
fn with_replaces_the_named_part_only() {
    let start = LocalTransform::identity();
    let value = Vec3::new(1, 2, 3);
    let moved = start.with(Placement::Position, value);
    assert_eq!(moved, LocalTransform { position: value, ..start });
    let turned = start.with(Placement::Rotation, value);
    assert_eq!(turned, LocalTransform { rotation: value, ..start });
    let scaled = start.with(Placement::Scale, value);
    assert_eq!(scaled, LocalTransform { scale: value, ..start });
    let pivoted = start.with(Placement::ReferencePoint, value);
    assert_eq!(pivoted, LocalTransform { reference_point: value, ..start });
}

#[test]
fn local_transform_is_the_product_in_the_stated_order() {
    let local = LocalTransform {
        position: Vec3::new(1, 2, 3),
        rotation: Vec3::new(4, 5, 6),
        scale: Vec3::new(7, 8, 9),
        reference_point: Vec3::new(10, 11, 12),
    };
    assert_eq!(
        local.steps(),
        vec![
            TransformStep::Translate(Vec3::new(1, 2, 3)),
            TransformStep::Translate(Vec3::new(10, 11, 12)),
            TransformStep::RotateY(4),
            TransformStep::RotateX(5),
            TransformStep::RotateZ(6),
            TransformStep::Scale(Vec3::new(7, 8, 9)),
            TransformStep::TranslateBack(Vec3::new(10, 11, 12)),
        ]
    );
}

#[test]
fn append_to_keeps_what_was_there() {
    let mut transform = vec![TransformStep::RotateZ(1)];
    LocalTransform::identity().append_to(&mut transform);
    assert_eq!(transform.len(), 8);
    assert_eq!(transform[0], TransformStep::RotateZ(1));
    assert_eq!(transform[1..].to_vec(), LocalTransform::identity().steps());
}

#[test]
fn compose_puts_the_left_transform_first() {
    let left = vec![TransformStep::RotateX(1), TransformStep::RotateY(2)];
    let right = vec![TransformStep::RotateZ(3)];
    assert_eq!(
        compose(&left, &right),
        vec![TransformStep::RotateX(1), TransformStep::RotateY(2), TransformStep::RotateZ(3)]
    );
    assert_eq!(compose(&Vec::new(), &right), right);
    assert_eq!(compose(&left, &Vec::new()), left);
    assert_eq!(copy_transform(&left), left);
}

#[test]
fn node_at_follows_the_path() {
    let mut leaf_parent = SceneNode::new();
    leaf_parent.add_child(SceneNode::from_vao(1, 3).unwrap());
    leaf_parent.add_child(SceneNode::from_vao(2, 3).unwrap());
    let mut root = SceneNode::new();
    root.add_child(SceneNode::from_vao(3, 3).unwrap());
    root.add_child(leaf_parent);
    assert!(!root.node_at(&vec![]).unwrap().is_drawable());
    assert_eq!(root.node_at(&vec![0]).unwrap().drawable().unwrap().buffer_handle, 3);
    assert_eq!(root.node_at(&vec![1, 0]).unwrap().drawable().unwrap().buffer_handle, 1);
    assert_eq!(root.node_at(&vec![1, 1]).unwrap().drawable().unwrap().buffer_handle, 2);
    assert!(root.node_at(&vec![2]).is_none());
    assert!(root.node_at(&vec![1, 2]).is_none());
    assert!(root.node_at(&vec![0, 0]).is_none());
    assert!(root.node_at(&vec![1, 0, 0]).is_none());
}

#[test]
fn set_at_changes_the_node_at_the_path_only() {
    let mut inner = SceneNode::new();
    inner.add_child(SceneNode::from_vao(1, 3).unwrap());
    inner.add_child(SceneNode::from_vao(2, 3).unwrap());
    let mut root = SceneNode::new();
    root.add_child(inner);
    let value = Vec3::new(5, 6, 7);
    assert_eq!(root.set_at(&vec![0, 1], Placement::Scale, value), Ok(()));
    assert_eq!(root.node_at(&vec![0, 1]).unwrap().scale(), value);
    assert_eq!(root.node_at(&vec![0, 1]).unwrap().position(), Vec3::zero());
    assert_eq!(root.node_at(&vec![0, 0]).unwrap().local(), LocalTransform::identity());
    assert_eq!(root.node_at(&vec![0]).unwrap().local(), LocalTransform::identity());
    assert_eq!(root.local(), LocalTransform::identity());
    assert_eq!(root.set_at(&vec![], Placement::Position, value), Ok(()));
    assert_eq!(root.position(), value);
}

#[test]
fn set_at_refuses_a_path_that_leads_nowhere() {
    let mut inner = SceneNode::new();
    inner.add_child(SceneNode::from_vao(1, 3).unwrap());
    let mut root = SceneNode::new();
    root.add_child(inner);
    let value = Vec3::new(5, 6, 7);
    assert_eq!(root.set_at(&vec![0, 1], Placement::Position, value), Err(SceneError::NoSuchNode));
    assert_eq!(root.set_at(&vec![1], Placement::Position, value), Err(SceneError::NoSuchNode));
    assert_eq!(
        root.set_at(&vec![0, 0, 0], Placement::Position, value),
        Err(SceneError::NoSuchNode)
    );
    assert_eq!(root.local(), LocalTransform::identity());
    assert_eq!(root.node_at(&vec![0]).unwrap().local(), LocalTransform::identity());
    assert_eq!(root.node_at(&vec![0, 0]).unwrap().local(), LocalTransform::identity());
}

#[test]
fn same_transform_compares_step_by_step() {
    let first = vec![TransformStep::RotateX(1), TransformStep::RotateY(2)];
    assert!(same_transform(&first, &first.clone()));
    assert!(same_transform(&Vec::new(), &Vec::new()));
    assert!(!same_transform(&first, &vec![TransformStep::RotateX(1)]));
    assert!(!same_transform(&vec![TransformStep::RotateX(1)], &first));
    assert!(!same_transform(&first, &vec![TransformStep::RotateX(1), TransformStep::RotateY(3)]));
    assert!(!same_transform(&first, &vec![TransformStep::RotateX(1), TransformStep::RotateX(2)]));
    assert!(!same_transform(
        &vec![TransformStep::Translate(Vec3::new(1, 2, 3))],
        &vec![TransformStep::TranslateBack(Vec3::new(1, 2, 3))]
    ));
}
