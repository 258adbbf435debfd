//! Builders for primitive shapes and meshes.
//!
//! A shape is described once, as `ShapeData`, and then turned either into a
//! `PrimitiveBuilder`, which draws it as a one-shot primitive, or into a
//! `MeshBuilder`, which stores it in the mesh cache and draws it by handle.

use vstd::prelude::*;
use glam::{Mat4, Vec3};
use crate::common::{Color, PrimitiveType, Vertex};
use crate::linear::{identity_cols, mat4_cols, mat4_identity, vec3_bits, vec3_to_bits};
use crate::backend::GraphicsBackend;
use crate::mesh::MeshView;
use crate::render_core::Renderer;
use crate::render_queue::{
    clone_indices,
    clone_instances,
    instance_views,
    optional_indices,
    optional_instance_views,
    DrawCommandBuilder,
    DrawCommandView,
    InstanceData,
    InstanceDataView,
};

verus! {

/// Conversion of a shape into a primitive builder or a mesh builder.
pub trait ShapeBuilder {
    fn as_primitive(self) -> PrimitiveBuilder;

    fn as_mesh(self) -> MeshBuilder;
}

/// The description of a shape.
pub struct ShapeData {
    pub vertices: Vec<Vertex>,
    pub indices: Option<Vec<u32>>,
    pub primitive_type: PrimitiveType,
    pub transform: Mat4,
    pub instances: Option<Vec<InstanceData>>,
}

/// What a shape description holds.
pub struct ShapeDataView {
    pub vertices: Seq<Vertex>,
    pub indices: Option<Seq<u32>>,
    pub primitive_type: PrimitiveType,
    pub transform: Seq<u32>,
    pub instances: Option<Seq<InstanceDataView>>,
}

impl ShapeDataView {
    /// A shape with the given vertices and primitive type, without indices
    /// or instances, under the identity transform.
    pub open spec fn plain(vertices: Seq<Vertex>, primitive_type: PrimitiveType) -> ShapeDataView {
        ShapeDataView {
            vertices,
            indices: None,
            primitive_type,
            transform: identity_cols(),
            instances: None,
        }
    }

    /// The same shape with the given indices.
    pub open spec fn with_indices(self, indices: Seq<u32>) -> ShapeDataView {
        ShapeDataView { indices: Some(indices), ..self }
    }

    /// The same shape with the given transform.
    pub open spec fn with_transform(self, cols: Seq<u32>) -> ShapeDataView {
        ShapeDataView { transform: cols, ..self }
    }

    /// The same shape with the given instances.
    pub open spec fn with_instances(self, instances: Seq<InstanceDataView>) -> ShapeDataView {
        ShapeDataView { instances: Some(instances), ..self }
    }

    /// The command that draws the shape as a one-shot primitive.
    pub open spec fn primitive_command(self) -> DrawCommandView {
        DrawCommandView::Primitive {
            vertices: self.vertices,
            indices: self.indices,
            primitive_type: self.primitive_type,
            instance_data: self.instances,
            transform: self.transform,
        }
    }

    /// The command that draws the shape from the mesh stored under
    /// `mesh_id`.
    pub open spec fn mesh_command(self, mesh_id: usize) -> DrawCommandView {
        DrawCommandView::Mesh { mesh_id, instance_data: self.instances, transform: self.transform }
    }
}

impl View for ShapeData {
    type V = ShapeDataView;

    open spec fn view(&self) -> ShapeDataView {
        ShapeDataView {
            vertices: self.vertices@,
            indices: optional_indices(self.indices),
            primitive_type: self.primitive_type,
            transform: mat4_cols(self.transform),
            instances: optional_instance_views(self.instances),
        }
    }
}

impl Clone for ShapeData {
    fn clone(&self) -> (s: Self)
        ensures
            s@ == self@,
    {
        ShapeData {
            vertices: self.vertices.clone(),
            indices: clone_indices(&self.indices),
            primitive_type: self.primitive_type,
            transform: self.transform,
            instances: clone_instances(&self.instances),
        }
    }
}

impl ShapeData {
    /// Creates a new `ShapeData` with the given vertices and primitive type.
    pub fn new(vertices: Vec<Vertex>, primitive_type: PrimitiveType) -> (s: Self)
        ensures
            s@ == ShapeDataView::plain(vertices@, primitive_type),
    {
        Self { vertices, indices: None, primitive_type, transform: mat4_identity(), instances: None }
    }

    /// Adds indices to the shape.
    pub(crate) fn with_indices(self, indices: Vec<u32>) -> (s: Self)
        ensures
            s@ == self@.with_indices(indices@),
    {
        Self {
            vertices: self.vertices,
            indices: Some(indices),
            primitive_type: self.primitive_type,
            transform: self.transform,
            instances: self.instances,
        }
    }

    /// Applies a transformation to the shape.
    pub(crate) fn with_transform(self, transform: Mat4) -> (s: Self)
        ensures
            s@ == self@.with_transform(mat4_cols(transform)),
    {
        Self {
            vertices: self.vertices,
            indices: self.indices,
            primitive_type: self.primitive_type,
            transform,
            instances: self.instances,
        }
    }

    /// Adds instances to the shape.
    pub(crate) fn with_instances(self, instances: Vec<InstanceData>) -> (s: Self)
        ensures
            s@ == self@.with_instances(instance_views(instances@)),
    {
        Self {
            vertices: self.vertices,
            indices: self.indices,
            primitive_type: self.primitive_type,
            transform: self.transform,
            instances: Some(instances),
        }
    }
}

impl ShapeBuilder for ShapeData {
    fn as_primitive(self) -> (b: PrimitiveBuilder)
        ensures
            b@ == self@,
    {
        PrimitiveBuilder { data: self }
    }

    fn as_mesh(self) -> (b: MeshBuilder)
        ensures
            b@ == self@,
    {
        MeshBuilder { data: self }
    }
}

/// Builder for creating and customizing primitive shapes.
pub struct PrimitiveBuilder {
    pub(crate) data: ShapeData,
}

impl View for PrimitiveBuilder {
    type V = ShapeDataView;

    /// The shape that the builder describes.
    closed spec fn view(&self) -> ShapeDataView {
        self.data@
    }
}

impl PrimitiveBuilder {
    /// Creates a new `PrimitiveBuilder` with the given vertices and
    /// primitive type.
    pub fn new(vertices: Vec<Vertex>, primitive_type: PrimitiveType) -> (b: Self)
        ensures
            b@ == ShapeDataView::plain(vertices@, primitive_type),
    {
        Self { data: ShapeData::new(vertices, primitive_type) }
    }

    /// The shape that the builder describes.
    pub fn data(&self) -> (d: &ShapeData)
        ensures
            d@ == self@,
    {
        &self.data
    }

    /// Adds indices to the primitive.
    pub fn with_indices(self, indices: Vec<u32>) -> (b: Self)
        ensures
            b@ == self@.with_indices(indices@),
    {
        Self { data: self.data.with_indices(indices) }
    }

    /// Applies a transformation to the primitive.
    pub fn with_transform(self, transform: Mat4) -> (b: Self)
        ensures
            b@ == self@.with_transform(mat4_cols(transform)),
    {
        Self { data: self.data.with_transform(transform) }
    }

    /// Adds instances to the primitive.
    pub fn with_instances(self, instances: Vec<InstanceData>) -> (b: Self)
        ensures
            b@ == self@.with_instances(instance_views(instances@)),
    {
        Self { data: self.data.with_instances(instances) }
    }

    /// Queues the primitive for the next frame of the given renderer.
    pub fn draw<B: GraphicsBackend>(self, renderer: &mut Renderer<B>)
        ensures
            final(renderer).queue() == old(renderer).queue().push(self@.primitive_command()),
            final(renderer).meshes() == old(renderer).meshes(),
            final(renderer).trace() == old(renderer).trace(),
            final(renderer).backend_state() == old(renderer).backend_state(),
    {
        let mut draw_command = DrawCommandBuilder::new_primitive(
            self.data.vertices,
            self.data.indices,
            self.data.primitive_type,
        ).with_transform(self.data.transform);
        if let Some(instances) = self.data.instances {
            draw_command = draw_command.with_instances(instances);
        }
        renderer.draw_immediate(draw_command.build());
    }
}

/// Builder for creating and customizing mesh shapes.
pub struct MeshBuilder {
    pub data: ShapeData,
}

impl View for MeshBuilder {
    type V = ShapeDataView;

    open spec fn view(&self) -> ShapeDataView {
        self.data@
    }
}

impl Clone for MeshBuilder {
    fn clone(&self) -> (b: Self)
        ensures
            b@ == self@,
    {
        MeshBuilder { data: self.data.clone() }
    }
}

impl MeshBuilder {
    /// Creates a new `MeshBuilder` with the given vertices and primitive
    /// type.
    pub fn new(vertices: Vec<Vertex>, primitive_type: PrimitiveType) -> (b: Self)
        ensures
            b@ == ShapeDataView::plain(vertices@, primitive_type),
    {
        Self { data: ShapeData::new(vertices, primitive_type) }
    }

    /// Adds indices to the mesh.
    pub fn with_indices(self, indices: Vec<u32>) -> (b: Self)
        ensures
            b@ == self@.with_indices(indices@),
    {
        Self { data: self.data.with_indices(indices) }
    }

    /// Applies a transformation to the mesh.
    pub fn with_transform(self, transform: Mat4) -> (b: Self)
        ensures
            b@ == self@.with_transform(mat4_cols(transform)),
    {
        Self { data: self.data.with_transform(transform) }
    }

    /// Adds instances to the mesh.
    pub fn with_instances(self, instances: Vec<InstanceData>) -> (b: Self)
        ensures
            b@ == self@.with_instances(instance_views(instances@)),
    {
        Self { data: self.data.with_instances(instances) }
    }

    /// Stores the mesh in the cache of the given renderer and queues a
    /// command that draws it for the next frame.
    pub fn draw<B: GraphicsBackend>(&self, renderer: &mut Renderer<B>)
        ensures
            final(renderer).meshes() == old(renderer).meshes().push(MeshView::of_shape(self@)),
            final(renderer).queue() == old(renderer).queue().push(
                self@.mesh_command(old(renderer).meshes().len() as usize),
            ),
            final(renderer).trace() == old(renderer).trace(),
            final(renderer).backend_state() == old(renderer).backend_state(),
    {
        let mesh_id = renderer.add_mesh(self.clone());
        let mut draw_command = DrawCommandBuilder::new_mesh(mesh_id).with_transform(
            self.data.transform,
        );
        if let Some(instances) = &self.data.instances {
            draw_command = draw_command.with_instances(instances.clone());
        }
        renderer.draw_immediate(draw_command.build());
    }
}

/// Converts a position and a color to a vertex.
pub fn vec3_color_to_vertex(position: Vec3, color: Color) -> (v: Vertex)
    ensures
        v.position@ == vec3_bits(position),
        v.color@ == color.components(),
{
    let v = Vertex { position: vec3_to_bits(position), color: color.into() };
    assert(v.color@ =~= color.components());
    v
}

} // verus!
