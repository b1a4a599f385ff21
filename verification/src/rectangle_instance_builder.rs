//! Making rectangle instances that are ready to draw.

use vstd::prelude::*;
use crate::rectangle_instance::RectangleInstance;

verus! {

/// Makes rectangle instances and builds them in one step.
pub struct RectangleInstanceBuilder;

impl RectangleInstanceBuilder {
    /// An instance at `position` with colour `color`, with its per-instance
    /// vertex already built from exactly those components.
    pub fn create(position: [u32; 3], color: [u32; 3]) -> (instance: RectangleInstance)
        ensures
            instance.position@ == position@,
            instance.color@ == color@,
            instance.instance_vertex matches Some(vertex) && {
                &&& vertex.instance_position@ == position@
                &&& vertex.instance_color@ == color@
            },
    {
        let mut rectangle_instance = RectangleInstance::new(position, color);
        rectangle_instance.build();
        assert(position@.take(3) =~= position@);
        assert(color@.take(3) =~= color@);
        rectangle_instance
    }
}

} // verus!
