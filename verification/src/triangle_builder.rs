//! A builder for a single triangle, as an example of a shape of its own
//! that converts into a primitive builder or a mesh builder.

use vstd::prelude::*;
use glam::Vec3;
use crate::common::{Color, PrimitiveType, Vertex};
use crate::linear::vec3_bits;
use crate::shape_builder::{
    vec3_color_to_vertex,
    MeshBuilder,
    PrimitiveBuilder,
    ShapeBuilder,
    ShapeDataView,
};

verus! {

/// Builder for creating a simple triangle primitive.
pub struct TriangleBuilder {
    vertices: [Vertex; 3],
}

impl View for TriangleBuilder {
    type V = Seq<Vertex>;

    /// The three corners, in the order in which they were given.
    closed spec fn view(&self) -> Seq<Vertex> {
        self.vertices@
    }
}

impl TriangleBuilder {
    /// Creates a triangle with the three given corners, all of one color.
    pub fn new(v1: Vec3, v2: Vec3, v3: Vec3, color: Color) -> (t: Self)
        ensures
            t@.len() == 3,
            t@[0].position@ == vec3_bits(v1),
            t@[1].position@ == vec3_bits(v2),
            t@[2].position@ == vec3_bits(v3),
            forall|i: int| 0 <= i < 3 ==> (#[trigger] t@[i]).color@ == color.components(),
    {
        TriangleBuilder {
            vertices: [
                vec3_color_to_vertex(v1, color),
                vec3_color_to_vertex(v2, color),
                vec3_color_to_vertex(v3, color),
            ],
        }
    }

    /// The three corners of the triangle.
    pub fn vertices(&self) -> (v: &[Vertex; 3])
        ensures
            v@ == self@,
    {
        &self.vertices
    }

    fn corners(&self) -> (v: Vec<Vertex>)
        ensures
            v@ == self@,
    {
        let mut v: Vec<Vertex> = Vec::new();
        v.push(self.vertices[0]);
        v.push(self.vertices[1]);
        v.push(self.vertices[2]);
        assert(v@ =~= self@);
        v
    }
}

impl ShapeBuilder for TriangleBuilder {
    fn as_primitive(self) -> (b: PrimitiveBuilder)
        ensures
            b@ == ShapeDataView::plain(self@, PrimitiveType::Triangle),
    {
        PrimitiveBuilder::new(self.corners(), PrimitiveType::Triangle)
    }

    fn as_mesh(self) -> (b: MeshBuilder)
        ensures
            b@ == ShapeDataView::plain(self@, PrimitiveType::Triangle),
    {
        MeshBuilder::new(self.corners(), PrimitiveType::Triangle)
    }
}

} // verus!
