use glam::{Mat4, Vec3};
use render_engine::common::{Color, PrimitiveType, Vertex};
use render_engine::render_queue::InstanceData;
use render_engine::shape_builder::{
    vec3_color_to_vertex, MeshBuilder, PrimitiveBuilder, ShapeBuilder, ShapeData,
};
use render_engine::triangle_builder::TriangleBuilder;

fn vertex(position: [f32; 3], color: [f32; 4]) -> Vertex {
    Vertex { position: position.map(f32::to_bits), color: color.map(f32::to_bits) }
}

fn color(r: f32, g: f32, b: f32, a: f32) -> Color {
    Color::new(r.to_bits(), g.to_bits(), b.to_bits(), a.to_bits())
}

// Helper function to create a sample triangle
fn create_sample_triangle() -> Vec<Vertex> {
    vec![
        vertex([0.0, 0.5, 0.0], [1.0, 0.0, 0.0, 1.0]),
        vertex([-0.5, -0.5, 0.0], [0.0, 1.0, 0.0, 1.0]),
        vertex([0.5, -0.5, 0.0], [0.0, 0.0, 1.0, 1.0]),
    ]
}

#[test]
fn test_primitive_builder() {
    let vertices = create_sample_triangle();
    let builder = PrimitiveBuilder::new(vertices.clone(), PrimitiveType::Triangle)
        .with_indices(vec![0, 1, 2])
        .with_transform(Mat4::from_translation(Vec3::new(1.0, 2.0, 3.0)))
        .with_instances(vec![InstanceData::new(
            Mat4::IDENTITY,
            color(1.0, 0.0, 0.0, 1.0),
        )]);

    assert_eq!(builder.data().vertices, vertices);
    assert_eq!(builder.data().primitive_type, PrimitiveType::Triangle);
    assert_eq!(builder.data().indices, Some(vec![0, 1, 2]));
    assert_eq!(
        builder.data().transform,
        Mat4::from_translation(Vec3::new(1.0, 2.0, 3.0))
    );
    assert!(builder.data().instances.is_some());
}

#[test]
fn test_mesh_builder() {
    let vertices = create_sample_triangle();
    let builder = MeshBuilder::new(vertices.clone(), PrimitiveType::Triangle)
        .with_indices(vec![0, 1, 2])
        .with_transform(Mat4::from_translation(Vec3::new(1.0, 2.0, 3.0)))
        .with_instances(vec![InstanceData::new(
            Mat4::IDENTITY,
            color(1.0, 0.0, 0.0, 1.0),
        )]);

    assert_eq!(builder.data.vertices, vertices);
    assert_eq!(builder.data.primitive_type, PrimitiveType::Triangle);
    assert_eq!(builder.data.indices, Some(vec![0, 1, 2]));
    assert_eq!(
        builder.data.transform,
        Mat4::from_translation(Vec3::new(1.0, 2.0, 3.0))
    );
    assert!(builder.data.instances.is_some());
}

#[test]
fn test_vec3_color_to_vertex() {
    let position = Vec3::new(1.0, 2.0, 3.0);
    let color = color(0.1, 0.2, 0.3, 1.0);
    let vertex = vec3_color_to_vertex(position, color);
    assert_eq!(vertex.position.map(f32::from_bits), [1.0, 2.0, 3.0]);
    assert_eq!(vertex.color.map(f32::from_bits), [0.1, 0.2, 0.3, 1.0]);
}

#[test]
fn test_triangle_builder() {
    let color = color(1.0, 0.0, 0.0, 1.0);
    let triangle = TriangleBuilder::new(
        Vec3::new(0.0, 0.5, 0.0),
        Vec3::new(-0.5, -0.5, 0.0),
        Vec3::new(0.5, -0.5, 0.0),
        color,
    );

    assert_eq!(triangle.vertices().len(), 3);
    assert_eq!(triangle.vertices()[0].position.map(f32::from_bits), [0.0, 0.5, 0.0]);
    assert_eq!(triangle.vertices()[1].position.map(f32::from_bits), [-0.5, -0.5, 0.0]);
    assert_eq!(triangle.vertices()[2].position.map(f32::from_bits), [0.5, -0.5, 0.0]);
}

#[test]
fn test_shape_data_starts_plain() {
    let shape = ShapeData::new(create_sample_triangle(), PrimitiveType::TriangleStrip);
    assert_eq!(shape.vertices, create_sample_triangle());
    assert_eq!(shape.indices, None);
    assert_eq!(shape.primitive_type, PrimitiveType::TriangleStrip);
    assert_eq!(shape.transform, Mat4::IDENTITY);
    assert!(shape.instances.is_none());
}

#[test]
fn test_shape_data_converts_to_both_builders() {
    let shape = ShapeData::new(create_sample_triangle(), PrimitiveType::Line);
    let primitive = shape.clone().as_primitive();
    assert_eq!(primitive.data().vertices, create_sample_triangle());
    assert_eq!(primitive.data().primitive_type, PrimitiveType::Line);
    let mesh = shape.as_mesh();
    assert_eq!(mesh.data.vertices, create_sample_triangle());
    assert_eq!(mesh.data.primitive_type, PrimitiveType::Line);
}

#[test]
fn test_triangle_builder_converts_to_both_builders() {
    let white = color(1.0, 1.0, 1.0, 1.0);
    let corners = [Vec3::new(0.0, 1.0, 0.0), Vec3::new(-1.0, 0.0, 0.0), Vec3::new(1.0, 0.0, 0.0)];
    let expected = vec![
        vertex([0.0, 1.0, 0.0], [1.0, 1.0, 1.0, 1.0]),
        vertex([-1.0, 0.0, 0.0], [1.0, 1.0, 1.0, 1.0]),
        vertex([1.0, 0.0, 0.0], [1.0, 1.0, 1.0, 1.0]),
    ];
    let primitive =
        TriangleBuilder::new(corners[0], corners[1], corners[2], white).as_primitive();
    assert_eq!(primitive.data().vertices, expected);
    assert_eq!(primitive.data().primitive_type, PrimitiveType::Triangle);
    assert_eq!(primitive.data().indices, None);
    let mesh = TriangleBuilder::new(corners[0], corners[1], corners[2], white).as_mesh();
    assert_eq!(mesh.data.vertices, expected);
    assert_eq!(mesh.data.primitive_type, PrimitiveType::Triangle);
}

#[test]
fn test_mesh_builder_clone_keeps_everything() {
    let instances = vec![InstanceData::new(
        Mat4::from_translation(Vec3::new(0.0, 0.0, -1.0)),
        color(0.0, 1.0, 0.0, 1.0),
    )];
    let builder = MeshBuilder::new(create_sample_triangle(), PrimitiveType::Triangle)
        .with_indices(vec![2, 1, 0])
        .with_transform(Mat4::from_scale(Vec3::splat(3.0)))
        .with_instances(instances.clone());
    let copy = builder.clone();
    assert_eq!(copy.data.vertices, builder.data.vertices);
    assert_eq!(copy.data.indices, Some(vec![2, 1, 0]));
    assert_eq!(copy.data.transform, Mat4::from_scale(Vec3::splat(3.0)));
    assert_eq!(copy.data.instances, Some(instances));
}
