//! A handle on a node of a scene graph, with the operations of the graph
//! that concern one node.

use vstd::prelude::*;
use glam::{Quat, Vec3};
use crate::common::{Color, RendererError};
use crate::linear::{
    decomposition,
    mat4_cols,
    mat4_to_scale_rotation_translation,
    quat_bits,
    vec3_bits,
};
use crate::scene_graph::{NodeId, SceneGraph, SceneNodeView};

verus! {

/// High level wrapper around a scene node.
pub struct SceneObject {
    /// The node ID in the scene graph
    node_id: NodeId,
}

impl View for SceneObject {
    type V = NodeId;

    closed spec fn view(&self) -> NodeId {
        self.node_id
    }
}

impl SceneObject {
    /// Creates an object for an existing node ID.
    pub fn from_node_id(node_id: NodeId) -> (o: Self)
        ensures
            o@ == node_id,
    {
        Self { node_id }
    }

    /// The node ID.
    pub fn node_id(&self) -> (id: NodeId)
        ensures
            id == self@,
    {
        self.node_id
    }

    /// Sets the position of this object. Rotation and scale are set to
    /// those that `glam` reads out of the object's world transform as it
    /// was before.
    pub fn set_position(&self, graph: &mut SceneGraph, position: Vec3) -> (r: Result<
        (),
        RendererError,
    >)
        requires
            old(graph).wf(),
        ensures
            final(graph).wf(),
            !old(graph)@.has(self@) ==> r == Err::<(), RendererError>(RendererError::InvalidMeshId)
                && final(graph)@ == old(graph)@,
            old(graph)@.has(self@) ==> r == Ok::<(), RendererError>(()) && final(graph)@ == old(
                graph,
            )@.with_node(
                self@,
                SceneNodeView {
                    position: vec3_bits(position),
                    rotation: final(graph)@.node(self@).rotation,
                    scale: final(graph)@.node(self@).scale,
                    ..old(graph)@.node(self@)
                },
            ) && exists|translation: Seq<u32>| #[trigger]
                old(graph).read_from_world(
                    self@,
                    final(graph)@.node(self@).scale,
                    final(graph)@.node(self@).rotation,
                    translation,
                ),
    {
        match graph.get_world_transform(self.node_id) {
            Ok(world_transform) => {
                let (scale, rotation, translation) = mat4_to_scale_rotation_translation(
                    world_transform,
                );
                proof {
                    assert(decomposition(
                        mat4_cols(world_transform),
                        vec3_bits(scale),
                        quat_bits(rotation),
                        vec3_bits(translation),
                    ));
                    assert(graph.read_from_world(
                        self@,
                        vec3_bits(scale),
                        quat_bits(rotation),
                        vec3_bits(translation),
                    ));
                }
                graph.set_transform(self.node_id, position, rotation, scale)
            },
            Err(e) => Err(e),
        }
    }

    /// Sets the rotation of this object. Position and scale are set to
    /// those that `glam` reads out of the object's world transform as it
    /// was before.
    pub fn set_rotation(&self, graph: &mut SceneGraph, rotation: Quat) -> (r: Result<
        (),
        RendererError,
    >)
        requires
            old(graph).wf(),
        ensures
            final(graph).wf(),
            !old(graph)@.has(self@) ==> r == Err::<(), RendererError>(RendererError::InvalidMeshId)
                && final(graph)@ == old(graph)@,
            old(graph)@.has(self@) ==> r == Ok::<(), RendererError>(()) && final(graph)@ == old(
                graph,
            )@.with_node(
                self@,
                SceneNodeView {
                    position: final(graph)@.node(self@).position,
                    rotation: quat_bits(rotation),
                    scale: final(graph)@.node(self@).scale,
                    ..old(graph)@.node(self@)
                },
            ) && exists|read_rotation: Seq<u32>| #[trigger]
                old(graph).read_from_world(
                    self@,
                    final(graph)@.node(self@).scale,
                    read_rotation,
                    final(graph)@.node(self@).position,
                ),
    {
        match graph.get_world_transform(self.node_id) {
            Ok(world_transform) => {
                let (scale, read_rotation, position) = mat4_to_scale_rotation_translation(
                    world_transform,
                );
                proof {
                    assert(decomposition(
                        mat4_cols(world_transform),
                        vec3_bits(scale),
                        quat_bits(read_rotation),
                        vec3_bits(position),
                    ));
                    assert(graph.read_from_world(
                        self@,
                        vec3_bits(scale),
                        quat_bits(read_rotation),
                        vec3_bits(position),
                    ));
                }
                graph.set_transform(self.node_id, position, rotation, scale)
            },
            Err(e) => Err(e),
        }
    }

    /// Sets the scale of this object. Position and rotation are set to
    /// those that `glam` reads out of the object's world transform as it
    /// was before.
    pub fn set_scale(&self, graph: &mut SceneGraph, scale: Vec3) -> (r: Result<(), RendererError>)
        requires
            old(graph).wf(),
        ensures
            final(graph).wf(),
            !old(graph)@.has(self@) ==> r == Err::<(), RendererError>(RendererError::InvalidMeshId)
                && final(graph)@ == old(graph)@,
            old(graph)@.has(self@) ==> r == Ok::<(), RendererError>(()) && final(graph)@ == old(
                graph,
            )@.with_node(
                self@,
                SceneNodeView {
                    position: final(graph)@.node(self@).position,
                    rotation: final(graph)@.node(self@).rotation,
                    scale: vec3_bits(scale),
                    ..old(graph)@.node(self@)
                },
            ) && exists|read_scale: Seq<u32>| #[trigger]
                old(graph).read_from_world(
                    self@,
                    read_scale,
                    final(graph)@.node(self@).rotation,
                    final(graph)@.node(self@).position,
                ),
    {
        match graph.get_world_transform(self.node_id) {
            Ok(world_transform) => {
                let (read_scale, rotation, position) = mat4_to_scale_rotation_translation(
                    world_transform,
                );
                proof {
                    assert(decomposition(
                        mat4_cols(world_transform),
                        vec3_bits(read_scale),
                        quat_bits(rotation),
                        vec3_bits(position),
                    ));
                    assert(graph.read_from_world(
                        self@,
                        vec3_bits(read_scale),
                        quat_bits(rotation),
                        vec3_bits(position),
                    ));
                }
                graph.set_transform(self.node_id, position, rotation, scale)
            },
            Err(e) => Err(e),
        }
    }

    /// Sets position, rotation and scale of this object relative to its
    /// parent.
    pub fn set_transform(
        &self,
        graph: &mut SceneGraph,
        position: Vec3,
        rotation: Quat,
        scale: Vec3,
    ) -> (r: Result<(), RendererError>)
        requires
            old(graph).wf(),
        ensures
            final(graph).wf(),
            !old(graph)@.has(self@) ==> r == Err::<(), RendererError>(RendererError::InvalidMeshId)
                && final(graph)@ == old(graph)@,
            old(graph)@.has(self@) ==> r == Ok::<(), RendererError>(()) && final(graph)@ == old(
                graph,
            )@.with_node(
                self@,
                SceneNodeView {
                    position: vec3_bits(position),
                    rotation: quat_bits(rotation),
                    scale: vec3_bits(scale),
                    ..old(graph)@.node(self@)
                },
            ),
    {
        graph.set_transform(self.node_id, position, rotation, scale)
    }

    /// Sets the color of this object.
    pub fn set_color(&self, graph: &mut SceneGraph, color: Color) -> (r: Result<(), RendererError>)
        requires
            old(graph).wf(),
        ensures
            final(graph).wf(),
            !old(graph)@.has(self@) ==> r == Err::<(), RendererError>(RendererError::InvalidMeshId)
                && final(graph)@ == old(graph)@,
            old(graph)@.has(self@) ==> r == Ok::<(), RendererError>(()) && final(graph)@ == old(
                graph,
            )@.with_node(self@, SceneNodeView { color, ..old(graph)@.node(self@) }),
    {
        graph.set_color(self.node_id, color)
    }

    /// Shows or hides this object and everything below it.
    pub fn set_visible(&self, graph: &mut SceneGraph, visible: bool) -> (r: Result<
        (),
        RendererError,
    >)
        requires
            old(graph).wf(),
        ensures
            final(graph).wf(),
            !old(graph)@.has(self@) ==> r == Err::<(), RendererError>(RendererError::InvalidMeshId)
                && final(graph)@ == old(graph)@,
            old(graph)@.has(self@) ==> r == Ok::<(), RendererError>(()) && final(graph)@ == old(
                graph,
            )@.with_node(self@, SceneNodeView { visible, ..old(graph)@.node(self@) }),
    {
        graph.set_visible(self.node_id, visible)
    }

    /// Moves this object under another one, or to the roots.
    pub fn set_parent(&self, graph: &mut SceneGraph, parent: Option<&SceneObject>) -> (r: Result<
        (),
        RendererError,
    >)
        requires
            old(graph).wf(),
        ensures
            final(graph).wf(),
            old(graph).invalid_link(self@, parent_id(parent)) ==> r == Err::<(), RendererError>(
                RendererError::InvalidMeshId,
            ) && final(graph)@ == old(graph)@,
            !old(graph).invalid_link(self@, parent_id(parent)) && old(graph).cyclic_link(
                self@,
                parent_id(parent),
            ) ==> r == Err::<(), RendererError>(RendererError::InvalidMeshId) && final(graph)@
                == old(graph)@.reparented(self@, None),
            !old(graph).invalid_link(self@, parent_id(parent)) && !old(graph).cyclic_link(
                self@,
                parent_id(parent),
            ) ==> r == Ok::<(), RendererError>(()) && final(graph)@ == old(graph)@.reparented(
                self@,
                parent_id(parent),
            ),
    {
        let parent_id = match parent {
            Some(p) => Some(p.node_id),
            None => None,
        };
        graph.set_parent(self.node_id, parent_id)
    }
}

/// The node ID of an optional object.
pub open spec fn parent_id(parent: Option<&SceneObject>) -> Option<NodeId> {
    match parent {
        Some(p) => Some(p@),
        None => None,
    }
}

} // verus!
