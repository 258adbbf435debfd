use glam::{Mat4, Vec3};
use render_engine::buffer_manager::{BufferManager, MAX_INDICES, MAX_INSTANCES, MAX_VERTICES};
use render_engine::common::{Color, RendererError, Uniforms, Vertex};
use render_engine::render_queue::InstanceData;

fn vertex(position: [f32; 3], color: [f32; 4]) -> Vertex {
    Vertex { position: position.map(f32::to_bits), color: color.map(f32::to_bits) }
}

// Helper function to compare floats with a small epsilon
fn approx_eq(a: f32, b: f32, epsilon: f32) -> bool {
    (a - b).abs() < epsilon
}

// Helper function to compare Vertex structs
fn vertex_approx_eq(a: &Vertex, b: &Vertex, epsilon: f32) -> bool {
    let (pa, pb) = (a.position.map(f32::from_bits), b.position.map(f32::from_bits));
    let (ca, cb) = (a.color.map(f32::from_bits), b.color.map(f32::from_bits));
    approx_eq(pa[0], pb[0], epsilon)
        && approx_eq(pa[1], pb[1], epsilon)
        && approx_eq(pa[2], pb[2], epsilon)
        && approx_eq(ca[0], cb[0], epsilon)
        && approx_eq(ca[1], cb[1], epsilon)
        && approx_eq(ca[2], cb[2], epsilon)
        && approx_eq(ca[3], cb[3], epsilon)
}

#[test]
fn test_buffer_manager() {
    println!("IN TEST-BUFFER-MANAGER");
    let mut buffer_manager = BufferManager::new().unwrap();

    let vertices = vec![
        vertex([0.0, 0.0, 0.0], [1.0, 0.0, 0.0, 1.0]),
        vertex([1.0, 0.0, 0.0], [0.0, 1.0, 0.0, 1.0]),
        vertex([0.0, 1.0, 0.0], [0.0, 0.0, 1.0, 1.0]),
    ];

    let indices = vec![0, 1, 2];

    println!("Original vertices: {:?}", vertices);
    println!("Original indices: {:?}", indices);

    assert!(buffer_manager.update_vertex_buffer(&vertices).is_ok());
    assert!(buffer_manager.update_index_buffer(&indices).is_ok());

    assert_eq!(buffer_manager.get_vertex_count(), vertices.len());
    assert_eq!(buffer_manager.get_index_count(), indices.len());

    // Check if the data was correctly written to the buffers
    let vertex_data = &buffer_manager.vertex_buffer()[..vertices.len()];
    for (i, vertex) in vertices.iter().enumerate() {
        assert!(
            vertex_approx_eq(&vertex_data[i], vertex, f32::EPSILON),
            "Vertex mismatch at index {}: {:?} != {:?}",
            i,
            vertex_data[i],
            vertex
        );
    }

    let index_data = &buffer_manager.index_buffer()[..indices.len()];
    println!("Read indices: {:?}", index_data);
    assert_eq!(index_data, indices.as_slice());
}

#[test]
fn test_buffer_overflow() {
    println!("IN TEST-BUFFER-OVERFLOW");
    let mut buffer_manager = BufferManager::new().unwrap();

    let too_many_vertices = vec![Vertex::default(); MAX_VERTICES + 1];
    let too_many_indices = vec![0u32; MAX_INDICES + 1];

    assert!(matches!(
        buffer_manager.update_vertex_buffer(&too_many_vertices),
        Err(RendererError::BufferOverflow)
    ));
    assert!(matches!(
        buffer_manager.update_index_buffer(&too_many_indices),
        Err(RendererError::BufferOverflow)
    ));
}

#[test]
fn test_capacities() {
    assert_eq!(MAX_VERTICES, 65_536);
    assert_eq!(MAX_INDICES, 196_608);
    assert_eq!(MAX_INSTANCES, 4_096);
    let manager = BufferManager::new().unwrap();
    assert_eq!(manager.vertex_buffer().len(), MAX_VERTICES);
    assert_eq!(manager.index_buffer().len(), MAX_INDICES);
    assert_eq!(manager.instance_buffer().len(), MAX_INSTANCES);
    assert_eq!(manager.get_vertex_count(), 0);
    assert_eq!(manager.get_index_count(), 0);
    assert_eq!(manager.get_instance_count(), 0);
    assert!(manager.uniform_buffer().is_none());
    assert!(manager.depth_texture().is_none());
}

#[test]
fn test_vertex_capacity_boundary() {
    let mut manager = BufferManager::new().unwrap();
    let marker = vertex([1.0, 2.0, 3.0], [0.25, 0.5, 0.75, 1.0]);
    assert!(manager.update_vertex_buffer(&[marker, marker]).is_ok());
    assert_eq!(manager.get_vertex_count(), 2);

    let too_many = vec![Vertex::default(); 65_537];
    assert!(matches!(
        manager.update_vertex_buffer(&too_many),
        Err(RendererError::BufferOverflow)
    ));
    // Nothing was written and the count is the old one.
    assert_eq!(manager.get_vertex_count(), 2);
    assert_eq!(manager.vertex_buffer()[0], marker);
    assert_eq!(manager.vertex_buffer()[1], marker);

    let exactly = vec![Vertex::default(); 65_536];
    assert!(manager.update_vertex_buffer(&exactly).is_ok());
    assert_eq!(manager.get_vertex_count(), 65_536);
    assert_eq!(manager.vertex_buffer()[0], Vertex::default());
    assert_eq!(manager.vertex_buffer()[65_535], Vertex::default());
    assert_eq!(manager.vertex_buffer().len(), MAX_VERTICES);
}

#[test]
fn test_index_capacity_boundary() {
    let mut manager = BufferManager::new().unwrap();
    assert!(manager.update_index_buffer(&[7, 8, 9]).is_ok());
    assert!(matches!(
        manager.update_index_buffer(&vec![1u32; MAX_INDICES + 1]),
        Err(RendererError::BufferOverflow)
    ));
    assert_eq!(manager.get_index_count(), 3);
    assert_eq!(&manager.index_buffer()[..3], &[7, 8, 9]);
    assert!(manager.update_index_buffer(&vec![1u32; MAX_INDICES]).is_ok());
    assert_eq!(manager.get_index_count(), MAX_INDICES);
    assert_eq!(manager.index_buffer().len(), MAX_INDICES);
}

#[test]
fn test_instance_capacity_boundary() {
    let mut manager = BufferManager::new().unwrap();
    let instance = InstanceData::new(
        Mat4::from_translation(Vec3::new(1.0, 2.0, 3.0)),
        Color::new(1, 2, 3, 4),
    );
    assert!(manager.update_instance_buffer(&[instance]).is_ok());
    assert_eq!(manager.get_instance_count(), 1);
    assert!(matches!(
        manager.update_instance_buffer(&vec![instance; MAX_INSTANCES + 1]),
        Err(RendererError::BufferOverflow)
    ));
    assert_eq!(manager.get_instance_count(), 1);
    assert_eq!(manager.instance_buffer()[0], instance);
    assert!(manager.update_instance_buffer(&vec![instance; MAX_INSTANCES]).is_ok());
    assert_eq!(manager.get_instance_count(), MAX_INSTANCES);
    assert_eq!(manager.instance_buffer()[MAX_INSTANCES - 1], instance);
}

#[test]
fn test_update_overwrites_the_front_only() {
    let mut manager = BufferManager::new().unwrap();
    assert!(manager.update_index_buffer(&[1, 2, 3, 4, 5]).is_ok());
    assert!(manager.update_index_buffer(&[9, 8]).is_ok());
    assert_eq!(manager.get_index_count(), 2);
    assert_eq!(&manager.index_buffer()[..6], &[9, 8, 3, 4, 5, 0]);
    assert!(manager.update_index_buffer(&[]).is_ok());
    assert_eq!(manager.get_index_count(), 0);
    assert_eq!(&manager.index_buffer()[..3], &[9, 8, 3]);
}

#[test]
fn test_uniform_slot_is_overwritten_as_a_whole() {
    let mut manager = BufferManager::new().unwrap();
    let first = Uniforms {
        view_projection_matrix: Mat4::from_scale(Vec3::splat(2.0)),
        model_matrix: Mat4::from_translation(Vec3::X),
    };
    let second = Uniforms {
        view_projection_matrix: Mat4::IDENTITY,
        model_matrix: Mat4::from_translation(Vec3::Y),
    };
    assert!(manager.update_uniform_buffer(&first).is_ok());
    let stored = manager.uniform_buffer().unwrap();
    assert_eq!(stored.view_projection_matrix, first.view_projection_matrix);
    assert_eq!(stored.model_matrix, first.model_matrix);
    assert!(manager.update_uniform_buffer(&second).is_ok());
    let stored = manager.uniform_buffer().unwrap();
    assert_eq!(stored.view_projection_matrix, second.view_projection_matrix);
    assert_eq!(stored.model_matrix, second.model_matrix);
}

#[test]
fn test_depth_texture_sizing_is_idempotent() {
    let mut manager = BufferManager::new().unwrap();
    assert!(manager.ensure_depth_texture(800, 600));
    assert_eq!(manager.depth_texture(), Some((800, 600)));
    assert!(!manager.ensure_depth_texture(800, 600));
    assert_eq!(manager.depth_texture(), Some((800, 600)));
    assert!(manager.ensure_depth_texture(1024, 600));
    assert_eq!(manager.depth_texture(), Some((1024, 600)));
    assert!(manager.ensure_depth_texture(1024, 768));
    manager.update_depth_texture(1, 2);
    assert_eq!(manager.depth_texture(), Some((1, 2)));
}
