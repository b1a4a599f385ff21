//! One instance of the instanced rectangle: where it sits, its colour, and
//! the per-instance vertex built from the two.

use vstd::prelude::*;
use crate::vertex_types::Vertex3DColor3D;

verus! {

/// An instance of the rectangle. `position` and `color` hold the components
/// it was made with; `instance_vertex` is empty until `build` fills it.
pub struct RectangleInstance {
    pub position: Vec<u32>,
    pub color: Vec<u32>,
    pub instance_vertex: Option<Vertex3DColor3D>,
}

impl RectangleInstance {
    /// An instance at `position` with colour `color`, not yet built.
    pub fn new(position: [u32; 3], color: [u32; 3]) -> (instance: RectangleInstance)
        ensures
            instance.position@ == position@,
            instance.color@ == color@,
            instance.instance_vertex is None,
    {
        let instance = RectangleInstance {
            position: vec![position[0], position[1], position[2]],
            color: vec![color[0], color[1], color[2]],
            instance_vertex: None,
        };
        assert(instance.position@ =~= position@);
        assert(instance.color@ =~= color@);
        instance
    }

    /// Whether `build` can run: both component lists hold at least three
    /// entries.
    pub open spec fn buildable(&self) -> bool {
        self.position@.len() >= 3 && self.color@.len() >= 3
    }

    /// Builds the per-instance vertex from the first three components of
    /// `position` and of `color`, and stores it. The components themselves
    /// stay as they were.
    pub fn build(&mut self)
        requires
            old(self).buildable(),
        ensures
            final(self).position == old(self).position,
            final(self).color == old(self).color,
            final(self).instance_vertex matches Some(vertex) && {
                &&& vertex.instance_position@ == old(self).position@.take(3)
                &&& vertex.instance_color@ == old(self).color@.take(3)
            },
    {
        let vertex = Vertex3DColor3D {
            instance_position: [self.position[0], self.position[1], self.position[2]],
            instance_color: [self.color[0], self.color[1], self.color[2]],
        };
        assert(vertex.instance_position@ =~= self.position@.take(3));
        assert(vertex.instance_color@ =~= self.color@.take(3));
        self.instance_vertex = Some(vertex);
    }

    /// The per-instance vertex that `build` stored.
    pub fn get_instance_vertex(&self) -> (vertex: Vertex3DColor3D)
        requires
            self.instance_vertex is Some,
        ensures
            Some(vertex) == self.instance_vertex,
    {
        self.instance_vertex.unwrap()
    }
}

} // verus!
