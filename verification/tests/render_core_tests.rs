use glam::{Mat4, Vec3};
use render_engine::backend::GraphicsBackend;
use render_engine::common::{
    BackendDrawCommand, Color, IndexType, PrimitiveType, RendererError, Uniforms, Vertex,
};
use render_engine::render_core::{ObjectId, Renderer};
use render_engine::render_queue::{DrawCommand, DrawCommandBuilder, InstanceData};
use render_engine::shape_builder::{MeshBuilder, PrimitiveBuilder, ShapeBuilder};

fn vertex(position: [f32; 3], color: [f32; 4]) -> Vertex {
    Vertex { position: position.map(f32::to_bits), color: color.map(f32::to_bits) }
}

fn triangle() -> Vec<Vertex> {
    vec![
        vertex([0.0, 0.5, 0.0], [1.0, 0.0, 0.0, 1.0]),
        vertex([-0.5, -0.5, 0.0], [0.0, 1.0, 0.0, 1.0]),
        vertex([0.5, -0.5, 0.0], [0.0, 0.0, 1.0, 1.0]),
    ]
}

fn instance(x: f32) -> InstanceData {
    InstanceData::new(Mat4::from_translation(Vec3::new(x, 0.0, 0.0)), Color::new(1, 2, 3, 4))
}

#[derive(Debug, PartialEq)]
enum Call {
    Vertices(Vec<Vertex>),
    Indices(Vec<u32>),
    Uniforms(Mat4, Mat4),
    Instances(Vec<InstanceData>),
    Draw(BackendDrawCommand),
}

/// A backend that records what it is asked and fails at a chosen call.
struct Recorder {
    calls: Vec<Call>,
    fail_at: Option<usize>,
}

impl Recorder {
    fn new() -> Self {
        Recorder { calls: Vec::new(), fail_at: None }
    }

    fn failing_at(call: usize) -> Self {
        Recorder { calls: Vec::new(), fail_at: Some(call) }
    }

    fn record(&mut self, call: Call) -> Result<(), RendererError> {
        self.calls.push(call);
        if self.fail_at == Some(self.calls.len() - 1) {
            Err(RendererError::DrawFailed(format!("call {}", self.calls.len() - 1)))
        } else {
            Ok(())
        }
    }
}

impl GraphicsBackend for Recorder {
    fn draw(&mut self, draw_command: BackendDrawCommand) -> Result<(), RendererError> {
        self.record(Call::Draw(draw_command))
    }

    fn update_vertex_buffer(&mut self, vertices: &[Vertex]) -> Result<(), RendererError> {
        self.record(Call::Vertices(vertices.to_vec()))
    }

    fn update_index_buffer(&mut self, indices: &[u32]) -> Result<(), RendererError> {
        self.record(Call::Indices(indices.to_vec()))
    }

    fn update_uniform_buffer(&mut self, uniforms: &Uniforms) -> Result<(), RendererError> {
        self.record(Call::Uniforms(uniforms.view_projection_matrix, uniforms.model_matrix))
    }

    fn update_instance_buffer(&mut self, instances: &[InstanceData]) -> Result<(), RendererError> {
        self.record(Call::Instances(instances.to_vec()))
    }
}

fn basic(count: u64) -> BackendDrawCommand {
    BackendDrawCommand::Basic {
        primitive_type: PrimitiveType::Triangle,
        vertex_start: 0,
        vertex_count: count,
    }
}

#[test]
fn test_object_id_is_plain_number() {
    assert!(ObjectId(2) == ObjectId(2));
    assert!(ObjectId(2) != ObjectId(3));
}

#[test]
fn test_classification_depends_on_indices_and_instances_only() {
    let renderer = Renderer::new(Recorder::new());
    let plain = DrawCommandBuilder::new_mesh(0).build();
    let instanced = DrawCommandBuilder::new_mesh(0)
        .with_instances(vec![instance(0.0), instance(1.0)])
        .build();
    for count in [0usize, 1, 3, 100] {
        let vertices = vec![Vertex::default(); count];
        for index_count in [0usize, 3, 7] {
            let indices = Some(vec![0u32; index_count]);
            assert_eq!(
                renderer.create_backend_draw_command_from_primitive(
                    &vertices,
                    &None,
                    &PrimitiveType::Line,
                    &plain
                ),
                BackendDrawCommand::Basic {
                    primitive_type: PrimitiveType::Line,
                    vertex_start: 0,
                    vertex_count: count as u64,
                }
            );
            assert_eq!(
                renderer.create_backend_draw_command_from_primitive(
                    &vertices,
                    &indices,
                    &PrimitiveType::Line,
                    &plain
                ),
                BackendDrawCommand::Indexed {
                    primitive_type: PrimitiveType::Line,
                    index_count: index_count as u64,
                    index_type: IndexType::UInt32,
                    index_buffer_offset: 0,
                }
            );
            assert_eq!(
                renderer.create_backend_draw_command_from_primitive(
                    &vertices,
                    &None,
                    &PrimitiveType::Line,
                    &instanced
                ),
                BackendDrawCommand::Instanced {
                    primitive_type: PrimitiveType::Line,
                    vertex_start: 0,
                    vertex_count: count as u64,
                    instance_count: 2,
                }
            );
            assert_eq!(
                renderer.create_backend_draw_command_from_primitive(
                    &vertices,
                    &indices,
                    &PrimitiveType::Line,
                    &instanced
                ),
                BackendDrawCommand::IndexedInstanced {
                    primitive_type: PrimitiveType::Line,
                    index_count: index_count as u64,
                    index_type: IndexType::UInt32,
                    index_buffer_offset: 0,
                    instance_count: 2,
                }
            );
        }
    }
}

#[test]
fn test_classification_of_mesh_commands() {
    let mut renderer = Renderer::new(Recorder::new());
    let plain_mesh = renderer.add_mesh(MeshBuilder::new(triangle(), PrimitiveType::Triangle));
    let indexed_mesh = renderer.add_mesh(
        MeshBuilder::new(triangle(), PrimitiveType::TriangleStrip).with_indices(vec![0, 1, 2, 0]),
    );
    assert_eq!((plain_mesh, indexed_mesh), (0, 1));

    let plain = DrawCommandBuilder::new_mesh(plain_mesh).build();
    assert_eq!(renderer.create_backend_draw_command(&plain).unwrap(), basic(3));
    let mesh = renderer.mesh_storage().get_mesh(indexed_mesh).unwrap();
    assert_eq!(
        renderer.create_backend_draw_command_from_mesh(mesh, &plain),
        BackendDrawCommand::Indexed {
            primitive_type: PrimitiveType::TriangleStrip,
            index_count: 4,
            index_type: IndexType::UInt32,
            index_buffer_offset: 0,
        }
    );

    let instanced = DrawCommandBuilder::new_mesh(indexed_mesh)
        .with_instances(vec![instance(0.0)])
        .build();
    assert_eq!(
        renderer.create_backend_draw_command(&instanced).unwrap(),
        BackendDrawCommand::IndexedInstanced {
            primitive_type: PrimitiveType::TriangleStrip,
            index_count: 4,
            index_type: IndexType::UInt32,
            index_buffer_offset: 0,
            instance_count: 1,
        }
    );
    let instanced = DrawCommandBuilder::new_mesh(plain_mesh)
        .with_instances(vec![instance(0.0), instance(1.0), instance(2.0)])
        .build();
    assert_eq!(
        renderer.create_backend_draw_command(&instanced).unwrap(),
        BackendDrawCommand::Instanced {
            primitive_type: PrimitiveType::Triangle,
            vertex_start: 0,
            vertex_count: 3,
            instance_count: 3,
        }
    );

    let missing = DrawCommandBuilder::new_mesh(2).build();
    assert!(matches!(
        renderer.create_backend_draw_command(&missing),
        Err(RendererError::InvalidMeshId)
    ));
    let primitive =
        DrawCommandBuilder::new_primitive(triangle(), Some(vec![0, 1]), PrimitiveType::Line).build();
    assert_eq!(
        renderer.create_backend_draw_command(&primitive).unwrap(),
        BackendDrawCommand::Indexed {
            primitive_type: PrimitiveType::Line,
            index_count: 2,
            index_type: IndexType::UInt32,
            index_buffer_offset: 0,
        }
    );
}

#[test]
fn test_render_issues_requests_in_queue_order() {
    let mut renderer = Renderer::new(Recorder::new());
    let projection = Mat4::from_scale(Vec3::new(1.5, 2.5, -1.0));
    let view = Mat4::from_rotation_translation(
        glam::Quat::from_rotation_y(0.4),
        Vec3::new(0.0, 0.0, -3.0),
    );
    let view_projection = projection * view;

    let mesh_transform = Mat4::from_translation(Vec3::new(1.0, 2.0, 3.0));
    let instances = vec![instance(1.0), instance(2.0)];
    MeshBuilder::new(triangle(), PrimitiveType::Triangle)
        .with_indices(vec![0, 1, 2])
        .with_transform(mesh_transform)
        .with_instances(instances.clone())
        .draw(&mut renderer);
    let line = vec![Vertex::default(), Vertex::default()];
    PrimitiveBuilder::new(line.clone(), PrimitiveType::Line).draw(&mut renderer);
    assert_eq!(renderer.render_queue().draw_commands.len(), 2);
    assert_eq!(renderer.mesh_storage().len(), 1);

    assert!(renderer.render(projection, view).is_ok());

    assert!(renderer.render_queue().draw_commands.is_empty());
    assert_eq!(
        renderer.backend().calls,
        vec![
            Call::Vertices(triangle()),
            Call::Indices(vec![0, 1, 2]),
            Call::Uniforms(view_projection, mesh_transform),
            Call::Instances(instances),
            Call::Draw(BackendDrawCommand::IndexedInstanced {
                primitive_type: PrimitiveType::Triangle,
                index_count: 3,
                index_type: IndexType::UInt32,
                index_buffer_offset: 0,
                instance_count: 2,
            }),
            Call::Vertices(line),
            Call::Uniforms(view_projection, Mat4::IDENTITY),
            Call::Draw(BackendDrawCommand::Basic {
                primitive_type: PrimitiveType::Line,
                vertex_start: 0,
                vertex_count: 2,
            }),
        ]
    );

    // The queue was drained: another frame asks for nothing.
    assert!(renderer.render(projection, view).is_ok());
    assert_eq!(renderer.backend().calls.len(), 8);
}

#[test]
fn test_render_one_draw_call_per_command() {
    let mut renderer = Renderer::new(Recorder::new());
    let mesh_id = renderer.add_mesh(MeshBuilder::new(triangle(), PrimitiveType::Triangle));
    for _ in 0..4 {
        renderer.draw_immediate(DrawCommandBuilder::new_mesh(mesh_id).build());
    }
    assert!(renderer.render(Mat4::IDENTITY, Mat4::IDENTITY).is_ok());
    let draws = renderer
        .backend()
        .calls
        .iter()
        .filter(|call| matches!(call, Call::Draw(_)))
        .count();
    assert_eq!(draws, 4);
    assert_eq!(renderer.backend().calls.len(), 12);
}

#[test]
fn test_render_stops_at_a_missing_mesh() {
    let mut renderer = Renderer::new(Recorder::new());
    let mesh_id = renderer.add_mesh(MeshBuilder::new(triangle(), PrimitiveType::Triangle));
    renderer.draw_immediate(DrawCommandBuilder::new_mesh(mesh_id).build());
    renderer.draw_immediate(DrawCommandBuilder::new_mesh(5).build());
    renderer.draw_immediate(DrawCommandBuilder::new_mesh(mesh_id).build());

    assert!(matches!(
        renderer.render(Mat4::IDENTITY, Mat4::IDENTITY),
        Err(RendererError::InvalidMeshId)
    ));
    // The first command was drawn, nothing was asked for the others, and
    // the queue is empty all the same.
    assert_eq!(
        renderer.backend().calls,
        vec![
            Call::Vertices(triangle()),
            Call::Uniforms(Mat4::IDENTITY, Mat4::IDENTITY),
            Call::Draw(basic(3)),
        ]
    );
    assert!(renderer.render_queue().draw_commands.is_empty());
}

#[test]
fn test_render_stops_at_the_first_failed_request() {
    for failing in 0..6 {
        let mut renderer = Renderer::new(Recorder::failing_at(failing));
        renderer.draw_immediate(
            DrawCommandBuilder::new_primitive(triangle(), None, PrimitiveType::Triangle).build(),
        );
        renderer.draw_immediate(
            DrawCommandBuilder::new_primitive(triangle(), None, PrimitiveType::Triangle).build(),
        );
        match renderer.render(Mat4::IDENTITY, Mat4::IDENTITY) {
            Err(RendererError::DrawFailed(message)) => {
                assert_eq!(message, format!("call {}", failing))
            }
            other => panic!("unexpected result {:?}", other),
        }
        assert_eq!(renderer.backend().calls.len(), failing + 1);
        assert!(renderer.render_queue().draw_commands.is_empty());
    }
    let mut renderer = Renderer::new(Recorder::failing_at(6));
    renderer.draw_immediate(
        DrawCommandBuilder::new_primitive(triangle(), None, PrimitiveType::Triangle).build(),
    );
    renderer.draw_immediate(
        DrawCommandBuilder::new_primitive(triangle(), None, PrimitiveType::Triangle).build(),
    );
    assert!(renderer.render(Mat4::IDENTITY, Mat4::IDENTITY).is_ok());
    assert_eq!(renderer.backend().calls.len(), 6);
}

#[test]
fn test_render_computes_projection_times_view() {
    let mut renderer = Renderer::new(Recorder::new());
    let projection = Mat4::from_scale(Vec3::new(2.0, 3.0, 4.0));
    let view = Mat4::from_translation(Vec3::new(1.0, 1.0, 1.0));
    assert_ne!(projection * view, view * projection);
    renderer.draw_immediate(
        DrawCommandBuilder::new_primitive(triangle(), None, PrimitiveType::Triangle).build(),
    );
    assert!(renderer.render(projection, view).is_ok());
    assert_eq!(renderer.backend().calls[1], Call::Uniforms(projection * view, Mat4::IDENTITY));
}

#[test]
fn test_mesh_builder_draw_stores_and_queues() {
    let mut renderer = Renderer::new(Recorder::new());
    let transform = Mat4::from_translation(Vec3::new(0.0, -0.5, 0.0));
    let builder = MeshBuilder::new(triangle(), PrimitiveType::Triangle)
        .with_indices(vec![0, 1, 2])
        .with_transform(transform);
    builder.draw(&mut renderer);
    builder.draw(&mut renderer);
    assert_eq!(renderer.mesh_storage().len(), 2);
    let mesh = renderer.mesh_storage().get_mesh(1).unwrap();
    assert_eq!(mesh.vertices, triangle());
    assert_eq!(mesh.indices, Some(vec![0, 1, 2]));
    let queued = &renderer.render_queue().draw_commands;
    assert_eq!(queued.len(), 2);
    for (position, command) in queued.iter().enumerate() {
        match command {
            DrawCommand::Mesh { mesh_id, instance_data, transform: t } => {
                assert_eq!(*mesh_id, position);
                assert!(instance_data.is_none());
                assert_eq!(*t, transform);
            }
            _ => panic!("Wrong draw command type"),
        }
    }
}

#[test]
fn test_primitive_builder_draw_queues_the_shape() {
    let mut renderer = Renderer::new(Recorder::new());
    let transform = Mat4::from_translation(Vec3::new(0.0, -2.0, 0.0));
    let instances = vec![instance(3.0)];
    PrimitiveBuilder::new(triangle(), PrimitiveType::Triangle)
        .with_indices(vec![2, 1, 0])
        .with_transform(transform)
        .with_instances(instances.clone())
        .draw(&mut renderer);
    assert_eq!(renderer.mesh_storage().len(), 0);
    match &renderer.render_queue().draw_commands[0] {
        DrawCommand::Primitive { vertices, indices, primitive_type, instance_data, transform: t } => {
            assert_eq!(vertices, &triangle());
            assert_eq!(indices, &Some(vec![2, 1, 0]));
            assert_eq!(*primitive_type, PrimitiveType::Triangle);
            assert_eq!(instance_data, &Some(instances));
            assert_eq!(*t, transform);
        }
        _ => panic!("Wrong draw command type"),
    }
}

#[test]
fn test_create_shape_and_triangle() {
    let mut renderer = Renderer::new(Recorder::new());
    let red = Color::new(1.0f32.to_bits(), 0, 0, 1.0f32.to_bits());
    let blue = Color::new(0, 0, 1.0f32.to_bits(), 1.0f32.to_bits());
    let shape = renderer.create_shape(vec![
        (Vec3::new(0.0, 1.5, 0.0), red),
        (Vec3::new(-0.5, 0.0, -0.5), blue),
    ]);
    assert_eq!(
        shape.vertices,
        vec![
            vertex([0.0, 1.5, 0.0], [1.0, 0.0, 0.0, 1.0]),
            vertex([-0.5, 0.0, -0.5], [0.0, 0.0, 1.0, 1.0]),
        ]
    );
    assert_eq!(shape.primitive_type, PrimitiveType::Triangle);
    assert_eq!(shape.indices, None);
    assert_eq!(shape.transform, Mat4::IDENTITY);
    assert!(shape.instances.is_none());

    let triangle = renderer.create_triangle(
        Vec3::new(0.0, 0.5, 0.0),
        Vec3::new(-0.5, -0.5, 0.0),
        Vec3::new(0.5, -0.5, 0.0),
        red,
    );
    let primitive = triangle.as_primitive();
    assert_eq!(
        primitive.data().vertices,
        vec![
            vertex([0.0, 0.5, 0.0], [1.0, 0.0, 0.0, 1.0]),
            vertex([-0.5, -0.5, 0.0], [1.0, 0.0, 0.0, 1.0]),
            vertex([0.5, -0.5, 0.0], [1.0, 0.0, 0.0, 1.0]),
        ]
    );
}
