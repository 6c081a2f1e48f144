use vstd::prelude::*;
use crate::laws::lemma_propagate_is_propagated;
use crate::vector::Vec3;
use crate::transform::{
    copy_transform, same_transform, LocalTransform, Placement, TransformStep,
};

verus! {

/// What a node hands to the renderer: the handle of its buffers and the number of
/// indices to draw.
#[derive(Clone, Copy, Debug, PartialEq, Eq, Structural)]
pub struct Drawable {
    pub buffer_handle: u32,
    pub index_count: u32,
}

/// Why a scene operation was refused.
#[derive(Clone, Copy, Debug, PartialEq, Eq, Structural)]
pub enum SceneError {
    /// A drawable node was asked for with a negative number of indices.
    NegativeIndexCount,
    /// A path leads to no node of the tree.
    NoSuchNode,
}

/// A node of the scene: its placement relative to its parent, what it draws if it
/// draws anything, the world transform that the last propagation gave it, and the
/// children it owns.
#[derive(Debug)]
pub struct SceneNode {
    local: LocalTransform,
    drawable: Option<Drawable>,
    world_transform: Vec<TransformStep>,
    children: Vec<SceneNode>,
}

/// A node as a mathematical value.
pub ghost struct NodeView {
    pub local: LocalTransform,
    pub drawable: Option<Drawable>,
    pub world_transform: Seq<TransformStep>,
    pub children: Seq<NodeView>,
}

impl View for SceneNode {
    type V = NodeView;

    closed spec fn view(&self) -> NodeView {
        self.model()
    }
}

impl NodeView {
    /// A new node that draws nothing and has no children.
    pub open spec fn group() -> NodeView {
        NodeView {
            local: LocalTransform::spec_identity(),
            drawable: None,
            world_transform: Seq::empty(),
            children: Seq::empty(),
        }
    }

    /// A new node that draws `drawable` and has no children.
    pub open spec fn leaf(drawable: Drawable) -> NodeView {
        NodeView { drawable: Some(drawable), ..NodeView::group() }
    }

    /// The tree after propagation from `parent_world`: each node's world transform
    /// is that of its parent times its own local transform, and nothing else has
    /// changed.
    pub open spec fn propagate(self, parent_world: Seq<TransformStep>) -> NodeView
        decreases self,
    {
        let world = parent_world + self.local.spec_steps();
        NodeView {
            world_transform: world,
            children: Seq::new(
                self.children.len(),
                |i: int|
                    if 0 <= i < self.children.len() {
                        self.children[i].propagate(world)
                    } else {
                        arbitrary()
                    },
            ),
            ..self
        }
    }

    /// Every world transform in the tree is up to date: that of the root is
    /// `parent_world` times the root's local transform, and that of every other
    /// node is its parent's world transform times its own local transform.
    pub open spec fn is_propagated(self, parent_world: Seq<TransformStep>) -> bool
        decreases self,
    {
        &&& self.world_transform == parent_world + self.local.spec_steps()
        &&& forall|i: int|
            0 <= i < self.children.len() ==> (#[trigger] self.children[i]).is_propagated(
                self.world_transform,
            )
    }

    /// The world transforms of the tree are up to date for some input: each node
    /// below the root holds its parent's world transform times its own local
    /// transform, and the root's ends in its own local transform.
    pub open spec fn is_current(self) -> bool {
        exists|parent_world: Seq<TransformStep>| self.is_propagated(parent_world)
    }

    /// The two trees have the same shape, and node by node the same placement and
    /// the same drawable. Their world transforms may differ.
    pub open spec fn same_scene(self, other: NodeView) -> bool
        decreases self,
    {
        &&& self.local == other.local
        &&& self.drawable == other.drawable
        &&& self.children.len() == other.children.len()
        &&& forall|i: int|
            0 <= i < self.children.len() ==> (#[trigger] self.children[i]).same_scene(
                other.children[i],
            )
    }

    /// The node that `path` leads to: each entry of the path picks a child, the
    /// empty path the node itself.
    pub open spec fn descendant(self, path: Seq<usize>) -> Option<NodeView>
        decreases path.len(),
    {
        if path.len() == 0 {
            Some(self)
        } else if path[0] < self.children.len() {
            self.children[path[0] as int].descendant(path.skip(1))
        } else {
            None
        }
    }

    /// The product of the local transforms along `path`, from this node down to
    /// the node the path leads to, both included.
    pub open spec fn chain(self, path: Seq<usize>) -> Seq<TransformStep>
        decreases path.len(),
    {
        if path.len() == 0 {
            self.local.spec_steps()
        } else if path[0] < self.children.len() {
            self.local.spec_steps() + self.children[path[0] as int].chain(path.skip(1))
        } else {
            self.local.spec_steps()
        }
    }

    /// The tree with one part of the placement of the node at `path` replaced by
    /// `value`. A path that leads nowhere leaves the tree as it is.
    pub open spec fn with_placement_at(self, path: Seq<usize>, part: Placement, value: Vec3) -> NodeView
        decreases path.len(),
    {
        if path.len() == 0 {
            NodeView { local: self.local.spec_with(part, value), ..self }
        } else if path[0] < self.children.len() {
            NodeView {
                children: self.children.update(
                    path[0] as int,
                    self.children[path[0] as int].with_placement_at(path.skip(1), part, value),
                ),
                ..self
            }
        } else {
            self
        }
    }
}

impl SceneNode {
    spec fn model(self) -> NodeView
        decreases self, self.children@.len() + 1,
    {
        NodeView {
            local: self.local,
            drawable: self.drawable,
            world_transform: self.world_transform@,
            children: self.child_models(self.children@.len()),
        }
    }

    /// The views of the first `k` children, in their order.
    spec fn child_models(self, k: nat) -> Seq<NodeView>
        decreases self, k,
    {
        if k == 0 || k > self.children@.len() {
            Seq::empty()
        } else {
            self.child_models((k - 1) as nat).push(self.children@[k - 1].model())
        }
    }

    proof fn lemma_child_models(self, k: nat)
        requires
            k <= self.children@.len(),
        ensures
            self.child_models(k).len() == k,
            forall|j: int| 0 <= j < k ==> #[trigger] self.child_models(k)[j] == self.children@[j]@,
        decreases k,
    {
        if k > 0 {
            self.lemma_child_models((k - 1) as nat);
        }
    }

    /// What the view of a node is, field by field.
    proof fn lemma_view(self)
        ensures
            self@.local == self.local,
            self@.drawable == self.drawable,
            self@.world_transform == self.world_transform@,
            self@.children.len() == self.children@.len(),
            forall|j: int|
                0 <= j < self.children@.len() ==> #[trigger] self@.children[j]
                    == self.children@[j]@,
    {
        self.lemma_child_models(self.children@.len());
    }

    /// A group node: it draws nothing and only holds its children together.
    pub fn new() -> (node: SceneNode)
        ensures
            node@ == NodeView::group(),
    {
        let node = SceneNode {
            local: LocalTransform::identity(),
            drawable: None,
            world_transform: Vec::new(),
            children: Vec::new(),
        };
        assert(node@.children =~= Seq::empty());
        node
    }

    /// A drawable node: it hands `drawable` to the renderer.
    pub fn from_drawable(drawable: Drawable) -> (node: SceneNode)
        ensures
            node@ == NodeView::leaf(drawable),
    {
        let node = SceneNode {
            local: LocalTransform::identity(),
            drawable: Some(drawable),
            world_transform: Vec::new(),
            children: Vec::new(),
        };
        assert(node@.children =~= Seq::empty());
        node
    }

    /// A drawable node for the buffers `vao_id`, of which `index_count` indices
    /// are drawn. A negative count is refused.
    pub fn from_vao(vao_id: u32, index_count: i32) -> (made: Result<SceneNode, SceneError>)
        ensures
            index_count >= 0 ==> made is Ok && made->Ok_0@ == NodeView::leaf(
                Drawable { buffer_handle: vao_id, index_count: index_count as u32 },
            ),
            index_count < 0 ==> made is Err && made->Err_0 == SceneError::NegativeIndexCount,
    {
        if index_count < 0 {
            return Err(SceneError::NegativeIndexCount);
        }
        Ok(
            SceneNode::from_drawable(
                Drawable { buffer_handle: vao_id, index_count: index_count as u32 },
            ),
        )
    }

    /// Makes `child` the last child of this node, which owns it from now on, and
    /// returns its index among the children.
    pub fn add_child(&mut self, child: SceneNode) -> (index: usize)
        ensures
            index == old(self)@.children.len(),
            final(self)@ == (NodeView {
                children: old(self)@.children.push(child@),
                ..old(self)@
            }),
    {
        let index = self.children.len();
        self.children.push(child);
        proof {
            self.lemma_view();
            old(self).lemma_view();
        }
        assert(self@.children =~= old(self)@.children.push(child@));
        index
    }

    /// Replaces the whole placement of this node.
    pub fn set_local(&mut self, local: LocalTransform)
        ensures
            final(self)@ == (NodeView { local, ..old(self)@ }),
    {
        self.local = local;
        proof {
            self.lemma_view();
            old(self).lemma_view();
        }
        assert(self@.children =~= old(self)@.children);
    }

    pub fn set_position(&mut self, position: Vec3)
        ensures
            final(self)@ == (NodeView {
                local: LocalTransform { position, ..old(self)@.local },
                ..old(self)@
            }),
    {
        self.local.position = position;
        proof {
            self.lemma_view();
            old(self).lemma_view();
        }
        assert(self@.children =~= old(self)@.children);
    }

    pub fn set_rotation(&mut self, rotation: Vec3)
        ensures
            final(self)@ == (NodeView {
                local: LocalTransform { rotation, ..old(self)@.local },
                ..old(self)@
            }),
    {
        self.local.rotation = rotation;
        proof {
            self.lemma_view();
            old(self).lemma_view();
        }
        assert(self@.children =~= old(self)@.children);
    }

    pub fn set_scale(&mut self, scale: Vec3)
        ensures
            final(self)@ == (NodeView {
                local: LocalTransform { scale, ..old(self)@.local },
                ..old(self)@
            }),
    {
        self.local.scale = scale;
        proof {
            self.lemma_view();
            old(self).lemma_view();
        }
        assert(self@.children =~= old(self)@.children);
    }

    pub fn set_reference_point(&mut self, reference_point: Vec3)
        ensures
            final(self)@ == (NodeView {
                local: LocalTransform { reference_point, ..old(self)@.local },
                ..old(self)@
            }),
    {
        self.local.reference_point = reference_point;
        proof {
            self.lemma_view();
            old(self).lemma_view();
        }
        assert(self@.children =~= old(self)@.children);
    }

    pub fn local(&self) -> (local: LocalTransform)
        ensures
            local == self@.local,
    {
        self.local
    }

    pub fn position(&self) -> (position: Vec3)
        ensures
            position == self@.local.position,
    {
        self.local.position
    }

    pub fn rotation(&self) -> (rotation: Vec3)
        ensures
            rotation == self@.local.rotation,
    {
        self.local.rotation
    }

    pub fn scale(&self) -> (scale: Vec3)
        ensures
            scale == self@.local.scale,
    {
        self.local.scale
    }

    pub fn reference_point(&self) -> (reference_point: Vec3)
        ensures
            reference_point == self@.local.reference_point,
    {
        self.local.reference_point
    }

    pub fn drawable(&self) -> (drawable: Option<Drawable>)
        ensures
            drawable == self@.drawable,
    {
        self.drawable
    }

    pub fn is_drawable(&self) -> (yes: bool)
        ensures
            yes == self@.drawable.is_some(),
    {
        self.drawable.is_some()
    }

    /// The world transform that the last propagation left in this node.
    pub fn world_transform(&self) -> (world: &Vec<TransformStep>)
        ensures
            world@ == self@.world_transform,
    {
        &self.world_transform
    }

    pub fn child_count(&self) -> (count: usize)
        ensures
            count == self@.children.len(),
    {
        proof {
            self.lemma_view();
        }
        self.children.len()
    }

    /// The child with the given index, if there is one.
    pub fn child(&self, index: usize) -> (child: Option<&SceneNode>)
        ensures
            index < self@.children.len() ==> child is Some && child->Some_0@
                == self@.children[index as int],
            index >= self@.children.len() ==> child is None,
    {
        proof {
            self.lemma_view();
        }
        if index < self.children.len() {
            Some(&self.children[index])
        } else {
            None
        }
    }

    /// The node that `path` leads to, if it leads to one: each entry of the path
    /// is the index of a child, and the empty path leads to this node.
    pub fn node_at(&self, path: &Vec<usize>) -> (node: Option<&SceneNode>)
        ensures
            match node {
                Some(found) => self@.descendant(path@) == Some(found@),
                None => self@.descendant(path@) is None,
            },
    {
        let mut current: &SceneNode = self;
        let mut depth: usize = 0;
        assert(path@.skip(0) =~= path@);
        while depth < path.len()
            invariant
                depth <= path.len(),
                self@.descendant(path@) == current@.descendant(path@.skip(depth as int)),
            decreases path.len() - depth,
        {
            assert(path@.skip(depth as int).skip(1) =~= path@.skip(depth + 1));
            match current.child(path[depth]) {
                Some(child) => {
                    current = child;
                },
                None => {
                    return None;
                },
            }
            depth += 1;
        }
        Some(current)
    }

    /// Replaces one part of the placement of the node that the rest of `path`
    /// leads to, from `depth` on, and says whether there is such a node.
    fn set_from(&mut self, path: &Vec<usize>, depth: usize, part: Placement, value: Vec3) -> (found:
        bool)
        requires
            depth <= path.len(),
        ensures
            found == old(self)@.descendant(path@.skip(depth as int)) is Some,
            final(self)@ == old(self)@.with_placement_at(path@.skip(depth as int), part, value),
        decreases path.len() - depth,
    {
        proof {
            old(self).lemma_view();
        }
        let rest = Ghost(path@.skip(depth as int));
        if depth == path.len() {
            self.local = self.local.with(part, value);
            proof {
                self.lemma_view();
            }
            assert(self@.children =~= old(self)@.children);
            true
        } else {
            let index = path[depth];
            assert(rest@[0] == index);
            assert(rest@.skip(1) =~= path@.skip(depth + 1));
            if index < self.children.len() {
                let child = &mut self.children[index];
                let found = child.set_from(path, depth + 1, part, value);
                proof {
                    self.lemma_view();
                }
                assert(self@.children =~= old(self)@.with_placement_at(
                    rest@,
                    part,
                    value,
                ).children);
                found
            } else {
                false
            }
        }
    }

    /// Replaces one part of the placement of the node that `path` leads to. A path
    /// that leads to no node is refused, and the tree stays as it is.
    pub fn set_at(&mut self, path: &Vec<usize>, part: Placement, value: Vec3) -> (done: Result<
        (),
        SceneError,
    >)
        ensures
            old(self)@.descendant(path@) is Some ==> done is Ok && final(self)@
                == old(self)@.with_placement_at(path@, part, value),
            old(self)@.descendant(path@) is None ==> done == Err::<(), SceneError>(
                SceneError::NoSuchNode,
            ) && final(self)@ == old(self)@,
    {
        assert(path@.skip(0) =~= path@);
        proof {
            lemma_missing_node_is_not_placed(self@, path@, part, value);
        }
        if self.set_from(path, 0, part, value) {
            Ok(())
        } else {
            Err(SceneError::NoSuchNode)
        }
    }
}

/// Recomputes the world transform of `node` and of every node below it, parents
/// before children and children in their order: each becomes its parent's world
/// transform times its own local transform, with `transformation_so_far` in the
/// parent's place for `node` itself.
pub fn update_node_transformations(node: &mut SceneNode, transformation_so_far: &Vec<TransformStep>)
    ensures
        final(node)@ == old(node)@.propagate(transformation_so_far@),
        final(node)@.is_propagated(transformation_so_far@),
        final(node)@.is_current(),
    decreases *old(node),
{
    let mut world = copy_transform(transformation_so_far);
    node.local.append_to(&mut world);
    node.world_transform = world;
    let count: usize = node.children.len();
    let mut i: usize = 0;
    while i < count
        invariant
            i <= count,
            count == node.children@.len(),
            count == old(node).children@.len(),
            node.local == old(node).local,
            node.drawable == old(node).drawable,
            node.world_transform@ == transformation_so_far@ + node.local.spec_steps(),
            forall|j: int|
                0 <= j < i ==> (#[trigger] node.children@[j])@ == old(node).children@[j]@.propagate(
                    node.world_transform@,
                ),
            forall|j: int| i <= j < count ==> node.children@[j] == old(node).children@[j],
        decreases count - i,
    {
        let child = &mut node.children[i];
        update_node_transformations(child, &node.world_transform);
        i += 1;
    }
    proof {
        node.lemma_view();
        old(node).lemma_view();
    }
    assert(node@.children =~= old(node)@.propagate(transformation_so_far@).children);
    proof {
        lemma_propagate_is_propagated(old(node)@, transformation_so_far@);
    }
}

/// Whether every world transform in the tree under `node` is up to date: whether
/// a propagation from `transformation_so_far` would change nothing.
pub fn is_propagated(node: &SceneNode, transformation_so_far: &Vec<TransformStep>) -> (current: bool)
    ensures
        current == node@.is_propagated(transformation_so_far@),
    decreases *node,
{
    proof {
        node.lemma_view();
    }
    let mut expected = copy_transform(transformation_so_far);
    node.local.append_to(&mut expected);
    if !same_transform(&node.world_transform, &expected) {
        return false;
    }
    let mut i: usize = 0;
    while i < node.children.len()
        invariant
            i <= node.children.len(),
            node.world_transform@ == transformation_so_far@ + node.local.spec_steps(),
            forall|j: int|
                0 <= j < i ==> (#[trigger] node.children@[j])@.is_propagated(
                    node.world_transform@,
                ),
        decreases node.children.len() - i,
    {
        proof {
            node.lemma_view();
        }
        if !is_propagated(&node.children[i], &node.world_transform) {
            assert(!node@.children[i as int].is_propagated(node@.world_transform));
            return false;
        }
        i += 1;
    }
    proof {
        node.lemma_view();
    }
    true
}

/// In a scene node every node can be reached by a path.
pub proof fn lemma_scene_is_within_reach(node: SceneNode)
    ensures
        node@.within_reach(),
    decreases node,
{
    node.lemma_view();
    assert(node.children@.len() == node.children.len());
    assert forall|i: int| 0 <= i < node@.children.len() implies (#[trigger] node@.children[i]).within_reach() by {
        lemma_scene_is_within_reach(node.children@[i]);
    }
}

/// Where a path leads to no node, replacing a placement at its end changes nothing.
pub proof fn lemma_missing_node_is_not_placed(
    tree: NodeView,
    path: Seq<usize>,
    part: Placement,
    value: Vec3,
)
    ensures
        tree.descendant(path) is None ==> tree.with_placement_at(path, part, value) == tree,
    decreases path.len(),
{
    if path.len() > 0 && path[0] < tree.children.len() {
        let child = tree.children[path[0] as int];
        lemma_missing_node_is_not_placed(child, path.skip(1), part, value);
        if tree.descendant(path) is None {
            assert(tree.children.update(path[0] as int, child) =~= tree.children);
        }
    }
}

} // verus!
