use vstd::prelude::*;
use crate::draw::DrawCallView;
use crate::node::NodeView;
use crate::transform::TransformStep;

verus! {

impl NodeView {
    /// The nodes of the tree in the order of the traversal: the node, then the
    /// tree of each child, the children in their order.
    pub open spec fn preorder(self) -> Seq<NodeView>
        decreases self, self.children.len() + 1,
    {
        self.preorder_upto(self.children.len())
    }

    /// The node and the trees of its first `k` children, in the order of the
    /// traversal.
    pub open spec fn preorder_upto(self, k: nat) -> Seq<NodeView>
        decreases self, k,
    {
        if k == 0 || k > self.children.len() {
            seq![self]
        } else {
            self.preorder_upto((k - 1) as nat) + self.children[k - 1].preorder()
        }
    }

    /// The place in the traversal order of the node that `path` leads to.
    pub open spec fn place(self, path: Seq<usize>) -> nat
        decreases path.len(),
    {
        if path.len() == 0 || path[0] >= self.children.len() {
            0
        } else {
            self.preorder_upto(path[0] as nat).len() + self.children[path[0] as int].place(
                path.skip(1),
            )
        }
    }

    /// Every node of the tree can be reached by a path: none has more children
    /// than an index can count. The view of a scene node is such a tree.
    pub open spec fn within_reach(self) -> bool
        decreases self,
    {
        &&& self.children.len() <= usize::MAX
        &&& forall|i: int|
            0 <= i < self.children.len() ==> (#[trigger] self.children[i]).within_reach()
    }
}

/// Whether a node is drawable, as a predicate on nodes.
pub open spec fn drawable_nodes() -> spec_fn(NodeView) -> bool {
    |node: NodeView| node.drawable is Some
}

/// The draw call of a node under `view_projection`, as a function on nodes.
pub open spec fn call_under(view_projection: Seq<TransformStep>) -> spec_fn(NodeView) -> DrawCallView {
    |node: NodeView| node.call(view_projection)
}

/// After propagation every node's world transform is its parent's world
/// transform times its own local transform, the root's being the input times the
/// root's local transform; and the scene itself is as it was.
pub proof fn lemma_propagate_is_propagated(tree: NodeView, parent_world: Seq<TransformStep>)
    ensures
        tree.propagate(parent_world).is_propagated(parent_world),
        tree.propagate(parent_world).same_scene(tree),
    decreases tree,
{
    let after = tree.propagate(parent_world);
    assert forall|i: int| 0 <= i < after.children.len() implies (#[trigger] after.children[i]).is_propagated(
        after.world_transform,
    ) && after.children[i].same_scene(tree.children[i]) by {
        lemma_propagate_is_propagated(tree.children[i], after.world_transform);
    }
}

/// Propagation depends on the placements and on the input alone: two trees that
/// hold the same scene come out equal, whatever world transforms they held
/// before.
pub proof fn lemma_propagate_reads_scene_only(
    first: NodeView,
    second: NodeView,
    parent_world: Seq<TransformStep>,
)
    requires
        first.same_scene(second),
    ensures
        first.propagate(parent_world) == second.propagate(parent_world),
    decreases first,
{
    let world = parent_world + first.local.spec_steps();
    assert forall|i: int| 0 <= i < first.children.len() implies first.children[i].propagate(world)
        == second.children[i].propagate(world) by {
        lemma_propagate_reads_scene_only(first.children[i], second.children[i], world);
    }
    assert(first.propagate(parent_world).children =~= second.propagate(parent_world).children);
}

/// Propagating a second time with the same input changes nothing.
pub proof fn lemma_propagate_twice(tree: NodeView, parent_world: Seq<TransformStep>)
    ensures
        tree.propagate(parent_world).propagate(parent_world) == tree.propagate(parent_world),
{
    lemma_propagate_is_propagated(tree, parent_world);
    lemma_propagate_reads_scene_only(tree.propagate(parent_world), tree, parent_world);
}

/// A tree whose world transforms are up to date is the result of propagating
/// any tree that holds the same scene.
pub proof fn lemma_propagated_is_unique(
    tree: NodeView,
    scene: NodeView,
    parent_world: Seq<TransformStep>,
)
    requires
        tree.is_propagated(parent_world),
        tree.same_scene(scene),
    ensures
        tree == scene.propagate(parent_world),
    decreases tree,
{
    let after = scene.propagate(parent_world);
    assert forall|i: int| 0 <= i < tree.children.len() implies tree.children[i]
        == after.children[i] by {
        lemma_propagated_is_unique(tree.children[i], scene.children[i], tree.world_transform);
    }
    assert(tree.children =~= after.children);
}

/// In a tree whose world transforms are up to date, the world transform of the
/// node at the end of a path is the input times the local transforms along the
/// path, from the root down to that node.
pub proof fn lemma_world_is_chain(
    tree: NodeView,
    parent_world: Seq<TransformStep>,
    path: Seq<usize>,
)
    requires
        tree.is_propagated(parent_world),
        tree.descendant(path) is Some,
    ensures
        tree.descendant(path).unwrap().world_transform == parent_world + tree.chain(path),
    decreases path.len(),
{
    if path.len() > 0 {
        let child = tree.children[path[0] as int];
        lemma_world_is_chain(child, tree.world_transform, path.skip(1));
        assert(parent_world + tree.local.spec_steps() + child.chain(path.skip(1)) =~= parent_world
            + (tree.local.spec_steps() + child.chain(path.skip(1))));
    }
}

/// The draw calls of a tree are the calls of its drawable nodes, one for each, in
/// the order of the traversal: a group node gives none, and no call is given
/// twice.
pub proof fn lemma_draw_calls_are_drawables(tree: NodeView, view_projection: Seq<TransformStep>)
    ensures
        tree.draw_calls(view_projection) == tree.preorder().filter(drawable_nodes()).map_values(
            call_under(view_projection),
        ),
    decreases tree, tree.children.len() + 1,
{
    lemma_draw_calls_upto(tree, view_projection, tree.children.len());
}

proof fn lemma_draw_calls_upto(tree: NodeView, view_projection: Seq<TransformStep>, k: nat)
    requires
        k <= tree.children.len(),
    ensures
        tree.draw_calls_upto(view_projection, k) == tree.preorder_upto(k).filter(
            drawable_nodes(),
        ).map_values(call_under(view_projection)),
    decreases tree, k,
{
    let keep = drawable_nodes();
    let call = call_under(view_projection);
    if k == 0 {
        let alone = Seq::<NodeView>::empty().push(tree);
        assert(alone =~= seq![tree]);
        Seq::<NodeView>::empty().lemma_filter_push(tree, keep);
        assert(Seq::<NodeView>::empty().filter(keep) =~= Seq::<NodeView>::empty()) by {
            reveal(Seq::filter);
        }
        assert(tree.own_calls(view_projection) =~= seq![tree].filter(keep).map_values(call));
    } else {
        let child = tree.children[k - 1];
        let before = tree.preorder_upto((k - 1) as nat);
        lemma_draw_calls_upto(tree, view_projection, (k - 1) as nat);
        lemma_draw_calls_are_drawables(child, view_projection);
        Seq::filter_distributes_over_add(before, child.preorder(), keep);
        assert((before.filter(keep) + child.preorder().filter(keep)).map_values(call)
            =~= before.filter(keep).map_values(call) + child.preorder().filter(keep).map_values(
            call,
        ));
    }
}

/// The traversal starts with the node itself.
proof fn lemma_preorder_starts_with_node(tree: NodeView, k: nat)
    ensures
        tree.preorder_upto(k).len() >= 1,
        tree.preorder_upto(k)[0] == tree,
    decreases k,
{
    if k > 0 && k <= tree.children.len() {
        lemma_preorder_starts_with_node(tree, (k - 1) as nat);
    }
}

/// The traversal of the first children is the start of the traversal of more of
/// them.
proof fn lemma_preorder_upto_grows(tree: NodeView, k: nat, m: nat)
    requires
        k <= m <= tree.children.len(),
    ensures
        tree.preorder_upto(k).len() <= tree.preorder_upto(m).len(),
        tree.preorder_upto(m).take(tree.preorder_upto(k).len() as int) == tree.preorder_upto(k),
    decreases m,
{
    if k < m {
        lemma_preorder_upto_grows(tree, k, (m - 1) as nat);
        assert(tree.preorder_upto(m).take(tree.preorder_upto(k).len() as int)
            =~= tree.preorder_upto((m - 1) as nat).take(tree.preorder_upto(k).len() as int));
    } else {
        assert(tree.preorder_upto(m).take(tree.preorder_upto(m).len() as int)
            =~= tree.preorder_upto(m));
    }
}

/// Every node of the tree is visited: the traversal holds the node at the end of
/// a path at the place of that path.
pub proof fn lemma_preorder_holds_node(tree: NodeView, path: Seq<usize>)
    requires
        tree.descendant(path) is Some,
    ensures
        tree.place(path) < tree.preorder().len(),
        tree.preorder()[tree.place(path) as int] == tree.descendant(path).unwrap(),
    decreases path.len(),
{
    if path.len() == 0 {
        lemma_preorder_starts_with_node(tree, tree.children.len());
    } else {
        let i = path[0] as nat;
        let child = tree.children[i as int];
        lemma_preorder_holds_node(child, path.skip(1));
        lemma_preorder_upto_grows(tree, i + 1, tree.children.len());
        let at = tree.place(path) as int;
        assert(tree.preorder_upto(i + 1)[at] == child.preorder()[child.place(path.skip(1)) as int]);
        assert(tree.preorder().take(tree.preorder_upto(i + 1).len() as int)[at]
            == tree.preorder()[at]);
    }
}

/// No node is visited twice: two paths that differ and lead to nodes have
/// different places in the traversal.
pub proof fn lemma_preorder_places_differ(tree: NodeView, first: Seq<usize>, second: Seq<usize>)
    requires
        tree.descendant(first) is Some,
        tree.descendant(second) is Some,
        first != second,
    ensures
        tree.place(first) != tree.place(second),
    decreases first.len(),
{
    if first.len() == 0 {
        assert(second.len() > 0) by {
            if second.len() == 0 {
                assert(first =~= second);
            }
        }
        lemma_preorder_starts_with_node(tree, second[0] as nat);
    } else if second.len() == 0 {
        lemma_preorder_starts_with_node(tree, first[0] as nat);
    } else if first[0] == second[0] {
        assert(first.skip(1) != second.skip(1)) by {
            if first.skip(1) == second.skip(1) {
                assert(first =~= seq![first[0]] + first.skip(1));
                assert(second =~= seq![second[0]] + second.skip(1));
            }
        }
        lemma_preorder_places_differ(tree.children[first[0] as int], first.skip(1), second.skip(1));
    } else if first[0] < second[0] {
        lemma_places_in_order(tree, first, second);
    } else {
        lemma_places_in_order(tree, second, first);
    }
}

/// A node below an earlier child is visited before every node below a later
/// child.
proof fn lemma_places_in_order(tree: NodeView, earlier: Seq<usize>, later: Seq<usize>)
    requires
        tree.descendant(earlier) is Some,
        tree.descendant(later) is Some,
        earlier.len() > 0,
        later.len() > 0,
        earlier[0] < later[0],
    ensures
        tree.place(earlier) < tree.place(later),
{
    let i = earlier[0] as nat;
    lemma_preorder_holds_node(tree.children[i as int], earlier.skip(1));
    lemma_preorder_upto_grows(tree, i + 1, later[0] as nat);
}

/// Nothing but the nodes of the tree is visited: every place in the traversal is
/// the place of a path that leads to a node.
pub proof fn lemma_preorder_holds_nodes_only(tree: NodeView, at: int)
    requires
        tree.within_reach(),
        0 <= at < tree.preorder().len(),
    ensures
        exists|path: Seq<usize>| #[trigger] tree.descendant(path) is Some && tree.place(path) == at,
{
    lemma_place_has_node(tree, tree.children.len(), at);
}

proof fn lemma_place_has_node(tree: NodeView, k: nat, at: int)
    requires
        tree.within_reach(),
        k <= tree.children.len(),
        0 <= at < tree.preorder_upto(k).len(),
    ensures
        exists|path: Seq<usize>| #[trigger] tree.descendant(path) is Some && tree.place(path) == at,
    decreases tree, k,
{
    if k == 0 {
        let path = Seq::<usize>::empty();
        assert(tree.descendant(path) is Some && tree.place(path) == at);
    } else {
        let before = tree.preorder_upto((k - 1) as nat).len() as int;
        if at < before {
            lemma_place_has_node(tree, (k - 1) as nat, at);
        } else {
            let child = tree.children[k - 1];
            assert(tree.preorder_upto(k) == tree.preorder_upto((k - 1) as nat) + child.preorder());
            assert(child.preorder() == child.preorder_upto(child.children.len()));
            lemma_place_has_node(child, child.children.len(), at - before);
            let rest = choose|rest: Seq<usize>| #[trigger]
                child.descendant(rest) is Some && child.place(rest) == at - before;
            let path = seq![(k - 1) as usize] + rest;
            assert(path.skip(1) =~= rest);
            assert(path[0] == k - 1);
            assert(tree.descendant(path) is Some && tree.place(path) == at);
        }
    }
}

} // verus!
