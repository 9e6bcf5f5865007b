use vstd::prelude::*;

verus! {

/// A handle to a node of a scene: the slot it occupies and the generation of
/// that slot when the node was created.
#[derive(Clone, Copy, Debug, PartialEq, Eq, Structural)]
pub struct NodeHandle {
    pub index: u32,
    pub generation: u32,
}

/// The editing gizmo of a 2D triangle collider: one draggable handle node per
/// vertex of the triangle.
pub struct Triangle2DShapeGizmo {
    a_handle: NodeHandle,
    b_handle: NodeHandle,
    c_handle: NodeHandle,
}

impl Triangle2DShapeGizmo {
    /// The handles of the vertices `a`, `b` and `c`, in that order.
    pub closed spec fn handles(&self) -> Seq<NodeHandle> {
        seq![self.a_handle, self.b_handle, self.c_handle]
    }

    /// A gizmo over the three handle nodes made for the vertices `a`, `b`, `c`.
    pub fn new(a_handle: NodeHandle, b_handle: NodeHandle, c_handle: NodeHandle) -> (r: Self)
        ensures
            r.handles() == seq![a_handle, b_handle, c_handle],
    {
        Triangle2DShapeGizmo { a_handle, b_handle, c_handle }
    }

    /// The handles of the vertices, in the order `a`, `b`, `c`.
    pub fn handle_list(&self) -> (r: Vec<NodeHandle>)
        ensures
            r@ == self.handles(),
    {
        let r = vec![self.a_handle, self.b_handle, self.c_handle];
        assert(r@ =~= self.handles());
        r
    }

    /// The vertex (0 for `a`, 1 for `b`, 2 for `c`) that `handle` drags: the
    /// first one whose handle it is, or `None` if it belongs to no vertex.
    pub fn vertex_of(&self, handle: NodeHandle) -> (r: Option<usize>)
        ensures
            match r {
                Some(i) => i < 3 && self.handles()[i as int] == handle && forall|k: int|
                    0 <= k < i ==> self.handles()[k] != handle,
                None => !self.handles().contains(handle),
            },
    {
        if handle == self.a_handle {
            Some(0)
        } else if handle == self.b_handle {
            Some(1)
        } else if handle == self.c_handle {
            Some(2)
        } else {
            assert(forall|k: int| 0 <= k < 3 ==> self.handles()[k] != handle);
            None
        }
    }

    /// Whether `handle` is one of the vertex handles, all of which carry vectors.
    pub fn is_vector_handle(&self, handle: NodeHandle) -> (r: bool)
        ensures
            r == self.handles().contains(handle),
    {
        let r = handle == self.a_handle || handle == self.b_handle || handle == self.c_handle;
        assert(self.handles()[0] == self.a_handle && self.handles()[1] == self.b_handle && self.handles()[2] == self.c_handle);
        r
    }
}

} // verus!
