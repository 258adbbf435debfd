use render_engine::common::{PrimitiveType, Vertex};
use render_engine::mesh::{Mesh, MeshStorage};
use render_engine::shape_builder::MeshBuilder;

fn vertex(position: [f32; 3], color: [f32; 4]) -> Vertex {
    Vertex { position: position.map(f32::to_bits), color: color.map(f32::to_bits) }
}

fn create_test_mesh_builder() -> MeshBuilder {
    let vertices = vec![
        vertex([0.0, 0.5, 0.0], [1.0, 0.0, 0.0, 1.0]),
        vertex([-0.5, -0.5, 0.0], [0.0, 1.0, 0.0, 1.0]),
        vertex([0.5, -0.5, 0.0], [0.0, 0.0, 1.0, 1.0]),
    ];
    MeshBuilder::new(vertices, PrimitiveType::Triangle)
}

#[test]
fn mesh_test_mesh_creation() {
    let mesh_builder = create_test_mesh_builder();
    let mesh = Mesh::new(mesh_builder);

    assert_eq!(mesh.vertices.len(), 3);
    assert_eq!(mesh.primitive_type, PrimitiveType::Triangle);
    assert!(mesh.indices.is_none());
}

#[test]
fn mesh_test_mesh_storage() {
    let mut storage = MeshStorage::new();

    let mesh_builder = create_test_mesh_builder();
    let mesh_id = storage.add_mesh(mesh_builder);
    assert_eq!(mesh_id, 0);

    let retrieved_mesh = storage.get_mesh(mesh_id);
    assert!(retrieved_mesh.is_some());

    let mesh = retrieved_mesh.unwrap();
    assert_eq!(mesh.vertices.len(), 3);
    assert_eq!(mesh.primitive_type, PrimitiveType::Triangle);
}

#[test]
fn test_mesh_handles_are_sequential_and_stable() {
    let mut storage = MeshStorage::new();
    assert_eq!(storage.len(), 0);
    assert!(storage.get_mesh(0).is_none());

    let first = vec![vertex([1.0, 2.0, 3.0], [0.5, 0.5, 0.5, 1.0])];
    let second = vec![
        vertex([0.0, 0.0, 0.0], [1.0, 1.0, 1.0, 1.0]),
        vertex([1.0, 0.0, 0.0], [1.0, 1.0, 1.0, 1.0]),
    ];
    let a = storage.add_mesh(MeshBuilder::new(first.clone(), PrimitiveType::Point));
    let b = storage.add_mesh(
        MeshBuilder::new(second.clone(), PrimitiveType::LineStrip).with_indices(vec![0, 1, 0]),
    );
    let c = storage.add_mesh(create_test_mesh_builder());
    assert_eq!((a, b, c), (0, 1, 2));
    assert_eq!(storage.len(), 3);

    let mesh = storage.get_mesh(a).unwrap();
    assert_eq!(mesh.vertices, first);
    assert_eq!(mesh.indices, None);
    assert_eq!(mesh.primitive_type, PrimitiveType::Point);

    let mesh = storage.get_mesh(b).unwrap();
    assert_eq!(mesh.vertices, second);
    assert_eq!(mesh.indices, Some(vec![0, 1, 0]));
    assert_eq!(mesh.primitive_type, PrimitiveType::LineStrip);

    assert!(storage.get_mesh(3).is_none());
    assert!(storage.get_mesh(usize::MAX).is_none());
}
