use vstd::prelude::*;
use crate::animation::{
    door_animation, main_rotor_rotation, tail_rotor_rotation, with_door_moved, MAIN_ROTOR_RATE,
    TAIL_ROTOR_RATE,
};
use crate::camera::Controls;
use crate::draw::{calls_view, draw_scene, DrawCall};
use crate::input::InputFrame;
use crate::node::{update_node_transformations, Drawable, NodeView, SceneError, SceneNode};
use crate::transform::{LocalTransform, Perspective, Placement, TransformStep};
use crate::vector::Vec3;

verus! {

/// Where the moving parts of the helicopter are in the tree: the paths from the
/// root to the door and to the two rotors.
#[derive(Debug, PartialEq, Eq)]
pub struct Helicopter {
    pub door: Vec<usize>,
    pub main_rotor: Vec<usize>,
    pub tail_rotor: Vec<usize>,
}

/// What the scene is drawn from: the buffers of the terrain and of the four parts
/// of the helicopter.
#[derive(Clone, Copy, Debug, PartialEq, Eq, Structural)]
pub struct Meshes {
    pub terrain: Drawable,
    pub body: Drawable,
    pub door: Drawable,
    pub main_rotor: Drawable,
    pub tail_rotor: Drawable,
}

/// The pivot of the tail rotor.
pub open spec fn tail_rotor_pivot() -> Vec3 {
    Vec3 { x: 350_000, y: 2_300_000, z: 10_400_000 }
}

/// The scene as it is set up: a root that holds the terrain, which holds the
/// helicopter, a group of body, door, main rotor and tail rotor, in this order.
/// Only the tail rotor has a pivot away from its origin.
pub open spec fn spec_scene(meshes: Meshes) -> NodeView {
    let tail_rotor = NodeView {
        local: LocalTransform {
            reference_point: tail_rotor_pivot(),
            ..LocalTransform::spec_identity()
        },
        ..NodeView::leaf(meshes.tail_rotor)
    };
    let helicopter = NodeView {
        children: seq![
            NodeView::leaf(meshes.body),
            NodeView::leaf(meshes.door),
            NodeView::leaf(meshes.main_rotor),
            tail_rotor,
        ],
        ..NodeView::group()
    };
    let terrain = NodeView { children: seq![helicopter], ..NodeView::leaf(meshes.terrain) };
    NodeView { children: seq![terrain], ..NodeView::group() }
}

impl Helicopter {
    /// All three paths lead to nodes of `tree`.
    pub open spec fn fits(self, tree: NodeView) -> bool {
        &&& tree.descendant(self.door@) is Some
        &&& tree.descendant(self.main_rotor@) is Some
        &&& tree.descendant(self.tail_rotor@) is Some
    }

    /// The tree after the animation of one frame: the main rotor turned about Y
    /// and the tail rotor about X, each by its rate times the time that has
    /// passed, and the door moved one frame towards its target.
    pub open spec fn animated(
        self,
        tree: NodeView,
        door_open: bool,
        elapsed_ms: int,
        delta_ms: int,
    ) -> NodeView {
        let main_turned = tree.with_placement_at(
            self.main_rotor@,
            Placement::Rotation,
            Vec3 { x: (MAIN_ROTOR_RATE * elapsed_ms) as i64, y: 0, z: 0 },
        );
        let tail_turned = main_turned.with_placement_at(
            self.tail_rotor@,
            Placement::Rotation,
            Vec3 { x: 0, y: (TAIL_ROTOR_RATE * elapsed_ms) as i64, z: 0 },
        );
        with_door_moved(tail_turned, self.door@, door_open, delta_ms)
    }

    /// Whether all three paths lead to nodes of the tree under `root`.
    pub fn check(&self, root: &SceneNode) -> (fits: bool)
        ensures
            fits == self.fits(root@),
    {
        root.node_at(&self.door).is_some() && root.node_at(&self.main_rotor).is_some()
            && root.node_at(&self.tail_rotor).is_some()
    }

    /// Animates the helicopter for one frame, `elapsed_ms` milliseconds after the
    /// start and `delta_ms` after the frame before. Where a path leads to no
    /// node the call is refused, and the tree stays as it is.
    pub fn animate(&self, root: &mut SceneNode, door_open: bool, elapsed_ms: u32, delta_ms: u32) -> (done:
        Result<(), SceneError>)
        ensures
            self.fits(old(root)@) ==> done is Ok && final(root)@ == self.animated(
                old(root)@,
                door_open,
                elapsed_ms as int,
                delta_ms as int,
            ),
            !self.fits(old(root)@) ==> done == Err::<(), SceneError>(SceneError::NoSuchNode)
                && final(root)@ == old(root)@,
    {
        if !self.check(root) {
            return Err(SceneError::NoSuchNode);
        }
        let main_rotation = main_rotor_rotation(elapsed_ms);
        let tail_rotation = tail_rotor_rotation(elapsed_ms);
        proof {
            lemma_placement_keeps_paths(
                root@,
                self.main_rotor@,
                Placement::Rotation,
                main_rotation,
                self.tail_rotor@,
            );
            lemma_placement_keeps_paths(
                root@,
                self.main_rotor@,
                Placement::Rotation,
                main_rotation,
                self.door@,
            );
        }
        match root.set_at(&self.main_rotor, Placement::Rotation, main_rotation) {
            Ok(()) => {},
            Err(error) => {
                return Err(error);
            },
        }
        proof {
            lemma_placement_keeps_paths(
                root@,
                self.tail_rotor@,
                Placement::Rotation,
                tail_rotation,
                self.door@,
            );
        }
        match root.set_at(&self.tail_rotor, Placement::Rotation, tail_rotation) {
            Ok(()) => {},
            Err(error) => {
                return Err(error);
            },
        }
        door_animation(root, &self.door, door_open, delta_ms)
    }
}

/// Replacing a placement moves no node to another place in the tree: a path
/// leads to a node afterwards if and only if it did before.
pub proof fn lemma_placement_keeps_paths(
    tree: NodeView,
    path: Seq<usize>,
    part: Placement,
    value: Vec3,
    other: Seq<usize>,
)
    ensures
        tree.with_placement_at(path, part, value).descendant(other) is Some <==> tree.descendant(
            other,
        ) is Some,
    decreases other.len(),
{
    if other.len() > 0 && path.len() > 0 && path[0] < tree.children.len() && other[0]
        < tree.children.len() {
        if other[0] == path[0] {
            lemma_placement_keeps_paths(
                tree.children[path[0] as int],
                path.skip(1),
                part,
                value,
                other.skip(1),
            );
        }
    }
}

/// Sets the scene up, and says where the moving parts of the helicopter are.
pub fn build_scene(meshes: Meshes) -> (made: (SceneNode, Helicopter))
    ensures
        made.0@ == spec_scene(meshes),
        made.1.fits(made.0@),
        made.1.door@ == seq![0usize, 0, 1],
        made.1.main_rotor@ == seq![0usize, 0, 2],
        made.1.tail_rotor@ == seq![0usize, 0, 3],
{
    let mut root = SceneNode::new();
    let mut terrain = SceneNode::from_drawable(meshes.terrain);
    let mut helicopter = SceneNode::new();
    let body = SceneNode::from_drawable(meshes.body);
    let door = SceneNode::from_drawable(meshes.door);
    let main_rotor = SceneNode::from_drawable(meshes.main_rotor);
    let mut tail_rotor = SceneNode::from_drawable(meshes.tail_rotor);
    tail_rotor.set_reference_point(Vec3::new(350_000, 2_300_000, 10_400_000));
    helicopter.add_child(body);
    helicopter.add_child(door);
    helicopter.add_child(main_rotor);
    helicopter.add_child(tail_rotor);
    assert(helicopter@.children =~= spec_scene(meshes).children[0].children[0].children);
    terrain.add_child(helicopter);
    assert(terrain@.children =~= spec_scene(meshes).children[0].children);
    root.add_child(terrain);
    assert(root@.children =~= spec_scene(meshes).children);
    let parts = Helicopter {
        door: vec![0, 0, 1],
        main_rotor: vec![0, 0, 2],
        tail_rotor: vec![0, 0, 3],
    };
    proof {
        reveal_with_fuel(NodeView::descendant, 4);
        assert(parts.door@ =~= seq![0usize, 0, 1]);
        assert(parts.main_rotor@ =~= seq![0usize, 0, 2]);
        assert(parts.tail_rotor@ =~= seq![0usize, 0, 3]);
        lemma_path_of_three(root@, 0, 0, 1);
        lemma_path_of_three(root@, 0, 0, 2);
        lemma_path_of_three(root@, 0, 0, 3);
    }
    (root, parts)
}

/// Where a path of three steps leads.
proof fn lemma_path_of_three(tree: NodeView, a: usize, b: usize, c: usize)
    requires
        a < tree.children.len(),
        b < tree.children[a as int].children.len(),
        c < tree.children[a as int].children[b as int].children.len(),
    ensures
        tree.descendant(seq![a, b, c]) == Some(
            tree.children[a as int].children[b as int].children[c as int],
        ),
{
    let path = seq![a, b, c];
    assert(path.skip(1) =~= seq![b, c]);
    assert(seq![b, c].skip(1) =~= seq![c]);
    assert(seq![c].skip(1) =~= Seq::<usize>::empty());
    reveal_with_fuel(NodeView::descendant, 4);
}

/// One frame of the scene: the input acts on the controls, the helicopter is
/// animated, the world transforms are recomputed from the identity, and the tree
/// is drawn under the camera's view-projection transform, in this order. The draw
/// calls thus come from world transforms of this frame. Where a path of `parts`
/// leads to no node the call is refused, and nothing has changed.
pub fn render_frame(
    root: &mut SceneNode,
    parts: &Helicopter,
    controls: &mut Controls,
    input: &mut InputFrame,
    elapsed_ms: u32,
    delta_ms: u32,
    perspective: Perspective,
    world_offset: Vec3,
) -> (drawn: Result<Vec<DrawCall>, SceneError>)
    ensures
        parts.fits(old(root)@) ==> drawn is Ok && *final(controls) == old(controls).after_frame(
            old(input)@.keys,
            old(input)@.mouse_delta,
            delta_ms as int,
        ) && final(input)@.keys == old(input)@.keys && final(input)@.mouse_delta == (0i64, 0i64)
            && final(root)@ == parts.animated(
            old(root)@,
            final(controls).door_open,
            elapsed_ms as int,
            delta_ms as int,
        ).propagate(Seq::empty()) && calls_view(drawn->Ok_0@) == final(root)@.draw_calls(
            final(controls).camera.spec_view_projection(perspective, world_offset),
        ),
        !parts.fits(old(root)@) ==> drawn is Err && drawn->Err_0 == SceneError::NoSuchNode
            && final(root)@ == old(root)@ && *final(controls) == *old(controls) && final(input)@
            == old(input)@,
{
    if !parts.check(root) {
        return Err(SceneError::NoSuchNode);
    }
    controls.update(input, delta_ms);
    match parts.animate(root, controls.door_open, elapsed_ms, delta_ms) {
        Ok(()) => {},
        Err(error) => {
            return Err(error);
        },
    }
    let identity: Vec<TransformStep> = Vec::new();
    update_node_transformations(root, &identity);
    let view_projection = controls.camera.view_projection(perspective, world_offset);
    Ok(draw_scene(root, &view_projection))
}

} // verus!
