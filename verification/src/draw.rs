use vstd::prelude::*;
use crate::node::{NodeView, SceneNode};
use crate::transform::{compose, copy_transform, TransformStep};

verus! {

/// One draw call for the renderer: which buffers, how many indices, and the two
/// transforms it is drawn with.
#[derive(Debug, PartialEq, Eq)]
pub struct DrawCall {
    pub buffer_handle: u32,
    pub index_count: u32,
    /// The world transform of the node.
    pub model: Vec<TransformStep>,
    /// The view-projection transform times the world transform of the node.
    pub mvp: Vec<TransformStep>,
}

/// A draw call as a mathematical value.
pub ghost struct DrawCallView {
    pub buffer_handle: u32,
    pub index_count: u32,
    pub model: Seq<TransformStep>,
    pub mvp: Seq<TransformStep>,
}

impl View for DrawCall {
    type V = DrawCallView;

    open spec fn view(&self) -> DrawCallView {
        DrawCallView {
            buffer_handle: self.buffer_handle,
            index_count: self.index_count,
            model: self.model@,
            mvp: self.mvp@,
        }
    }
}

/// A list of draw calls as a sequence of mathematical values.
pub open spec fn calls_view(calls: Seq<DrawCall>) -> Seq<DrawCallView> {
    calls.map_values(|call: DrawCall| call@)
}

impl NodeView {
    /// The draw call that a drawable node issues under `view_projection`. For a
    /// group node the value has no meaning.
    pub open spec fn call(self, view_projection: Seq<TransformStep>) -> DrawCallView {
        DrawCallView {
            buffer_handle: self.drawable.unwrap().buffer_handle,
            index_count: self.drawable.unwrap().index_count,
            model: self.world_transform,
            mvp: view_projection + self.world_transform,
        }
    }

    /// The draw calls of the node itself: one if it is drawable, none if it is a
    /// group node.
    pub open spec fn own_calls(self, view_projection: Seq<TransformStep>) -> Seq<DrawCallView> {
        if self.drawable is Some {
            seq![self.call(view_projection)]
        } else {
            Seq::empty()
        }
    }

    /// The draw calls of the whole tree: those of the node, then those of each
    /// child's tree, the children in their order.
    pub open spec fn draw_calls(self, view_projection: Seq<TransformStep>) -> Seq<DrawCallView>
        decreases self, self.children.len() + 1,
    {
        self.draw_calls_upto(view_projection, self.children.len())
    }

    /// The draw calls of the node and of the trees of its first `k` children.
    pub open spec fn draw_calls_upto(self, view_projection: Seq<TransformStep>, k: nat) -> Seq<
        DrawCallView,
    >
        decreases self, k,
    {
        if k == 0 || k > self.children.len() {
            self.own_calls(view_projection)
        } else {
            self.draw_calls_upto(view_projection, (k - 1) as nat) + self.children[k
                - 1].draw_calls(view_projection)
        }
    }
}

/// Adds the draw calls of the tree under `node` to `calls`.
fn collect_draw_calls(
    node: &SceneNode,
    view_projection_matrix: &Vec<TransformStep>,
    calls: &mut Vec<DrawCall>,
)
    requires
        node@.is_current(),
    ensures
        calls_view(final(calls)@) == calls_view(old(calls)@) + node@.draw_calls(
            view_projection_matrix@,
        ),
    decreases node@,
{
    match node.drawable() {
        Some(drawable) => {
            let model = copy_transform(node.world_transform());
            let mvp = compose(view_projection_matrix, node.world_transform());
            calls.push(
                DrawCall {
                    buffer_handle: drawable.buffer_handle,
                    index_count: drawable.index_count,
                    model,
                    mvp,
                },
            );
        },
        None => {},
    }
    assert(calls_view(calls@) =~= calls_view(old(calls)@) + node@.own_calls(
        view_projection_matrix@,
    ));
    let count: usize = node.child_count();
    let mut i: usize = 0;
    while i < count
        invariant
            i <= count,
            count == node@.children.len(),
            node@.is_current(),
            calls_view(calls@) == calls_view(old(calls)@) + node@.draw_calls_upto(
                view_projection_matrix@,
                i as nat,
            ),
        decreases count - i,
    {
        let child = node.child(i).unwrap();
        assert(child@.is_propagated(node@.world_transform));
        collect_draw_calls(child, view_projection_matrix, calls);
        assert(calls_view(calls@) =~= calls_view(old(calls)@) + node@.draw_calls_upto(
            view_projection_matrix@,
            (i + 1) as nat,
        ));
        i += 1;
    }
}

/// The draw calls for the tree under `node`, in the order of the traversal: a node
/// before its children, the children in their order. A drawable node gives one
/// call, with its world transform as the model transform and
/// `view_projection_matrix` times its world transform; a group node gives none,
/// and its children are visited all the same. The tree is only read. Its world
/// transforms have to be up to date: the tree is drawn after the propagation of
/// the frame, not before.
pub fn draw_scene(node: &SceneNode, view_projection_matrix: &Vec<TransformStep>) -> (calls: Vec<
    DrawCall,
>)
    requires
        node@.is_current(),
    ensures
        calls_view(calls@) == node@.draw_calls(view_projection_matrix@),
{
    let mut calls: Vec<DrawCall> = Vec::new();
    collect_draw_calls(node, view_projection_matrix, &mut calls);
    assert(calls_view(calls@) =~= node@.draw_calls(view_projection_matrix@));
    calls
}

} // verus!
