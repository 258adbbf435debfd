//! Meshes and the mesh cache.
//!
//! A mesh is reusable geometry: vertices, optional indices and a primitive
//! type. The cache is append-only; a mesh is referred to by the index at
//! which it was stored and never changes afterwards.

use vstd::prelude::*;
use crate::common::{PrimitiveType, Vertex};
use crate::render_queue::optional_indices;
use crate::shape_builder::{MeshBuilder, ShapeDataView};

verus! {

/// A mesh with vertices, optional indices and a primitive type.
pub struct Mesh {
    pub vertices: Vec<Vertex>,
    pub indices: Option<Vec<u32>>,
    pub primitive_type: PrimitiveType,
}

/// What a mesh holds.
pub struct MeshView {
    pub vertices: Seq<Vertex>,
    pub indices: Option<Seq<u32>>,
    pub primitive_type: PrimitiveType,
}

impl MeshView {
    /// The mesh that a shape description gives: its vertices, indices and
    /// primitive type.
    pub open spec fn of_shape(shape: ShapeDataView) -> MeshView {
        MeshView {
            vertices: shape.vertices,
            indices: shape.indices,
            primitive_type: shape.primitive_type,
        }
    }
}

impl View for Mesh {
    type V = MeshView;

    open spec fn view(&self) -> MeshView {
        MeshView {
            vertices: self.vertices@,
            indices: optional_indices(self.indices),
            primitive_type: self.primitive_type,
        }
    }
}

impl Mesh {
    /// Creates a new mesh from a `MeshBuilder`.
    pub fn new(mesh_builder: MeshBuilder) -> (m: Self)
        ensures
            m@ == MeshView::of_shape(mesh_builder@),
    {
        Mesh {
            vertices: mesh_builder.data.vertices,
            indices: mesh_builder.data.indices,
            primitive_type: mesh_builder.data.primitive_type,
        }
    }
}

/// The meshes of a sequence, in order.
pub open spec fn mesh_views(meshes: Seq<Mesh>) -> Seq<MeshView> {
    meshes.map_values(|m: Mesh| m@)
}

/// Stores meshes and hands out their handles.
pub struct MeshStorage {
    meshes: Vec<Mesh>,
}

impl View for MeshStorage {
    type V = Seq<MeshView>;

    /// The stored meshes; a mesh's handle is its position.
    closed spec fn view(&self) -> Seq<MeshView> {
        mesh_views(self.meshes@)
    }
}

impl MeshStorage {
    /// Creates a new, empty `MeshStorage`.
    pub fn new() -> (s: Self)
        ensures
            s@ == Seq::<MeshView>::empty(),
    {
        let s = Self { meshes: Vec::new() };
        assert(s@ =~= Seq::<MeshView>::empty());
        s
    }

    /// Adds a new mesh to the storage and returns its handle: the number of
    /// meshes stored before.
    pub fn add_mesh(&mut self, mesh_builder: MeshBuilder) -> (index: usize)
        ensures
            index == old(self)@.len(),
            final(self)@ == old(self)@.push(MeshView::of_shape(mesh_builder@)),
    {
        let mesh = Mesh::new(mesh_builder);
        self.meshes.push(mesh);
        let index = self.meshes.len() - 1;
        assert(self@ =~= old(self)@.push(MeshView::of_shape(mesh_builder@)));
        index
    }

    /// Retrieves a mesh by its handle; `None` for a handle that was never
    /// given out.
    pub fn get_mesh(&self, index: usize) -> (mesh: Option<&Mesh>)
        ensures
            index < self@.len() ==> (mesh matches Some(m) && m@ == self@[index as int]),
            index >= self@.len() ==> mesh is None,
    {
        if index < self.meshes.len() {
            Some(&self.meshes[index])
        } else {
            None
        }
    }

    /// The number of meshes stored.
    pub fn len(&self) -> (n: usize)
        ensures
            n == self@.len(),
    {
        self.meshes.len()
    }
}

/// Handles are stable: storing a mesh gives it the next handle, under which
/// exactly what was passed in is found, and leaves what the earlier handles
/// name as it was.
pub proof fn lemma_mesh_handles_are_stable(stored: Seq<MeshView>, shape: ShapeDataView)
    ensures
        stored.push(MeshView::of_shape(shape)).len() == stored.len() + 1,
        stored.push(MeshView::of_shape(shape))[stored.len() as int].vertices == shape.vertices,
        stored.push(MeshView::of_shape(shape))[stored.len() as int].indices == shape.indices,
        stored.push(MeshView::of_shape(shape))[stored.len() as int].primitive_type
            == shape.primitive_type,
        forall|id: int|
            0 <= id < stored.len() ==> stored.push(MeshView::of_shape(shape))[id] == stored[id],
{
}

} // verus!
