use glam::{Mat4, Vec3};
use render_engine::common::{Color, PrimitiveType, Vertex};
use render_engine::render_queue::{DrawCommand, DrawCommandBuilder, InstanceData, RenderQueue};

fn red() -> Color {
    Color::new(1.0f32.to_bits(), 0.0f32.to_bits(), 0.0f32.to_bits(), 1.0f32.to_bits())
}

#[test]
fn test_render_queue_new() {
    let queue = RenderQueue::new();
    assert!(queue.draw_commands.is_empty());
}

#[test]
fn test_render_queue_add_draw_command() {
    let mut queue = RenderQueue::new();
    let command = DrawCommand::Mesh {
        mesh_id: 1,
        instance_data: None,
        transform: Mat4::IDENTITY,
    };
    queue.add_draw_command(command.clone());
    assert_eq!(queue.draw_commands.len(), 1);
    assert!(matches!(
        queue.draw_commands[0],
        DrawCommand::Mesh { mesh_id: 1, .. }
    ))
}

#[test]
fn test_render_queue_get_draw_commands() {
    let mut queue = RenderQueue::new();
    queue.add_draw_command(DrawCommand::Mesh {
        mesh_id: 1,
        instance_data: None,
        transform: Mat4::IDENTITY,
    });
    let commands = queue.get_draw_commands();
    assert_eq!(commands.len(), 1);
    assert!(matches!(commands[0], DrawCommand::Mesh { mesh_id: 1, .. }))
}

#[test]
fn test_draw_command_builder_new_mesh() {
    let builder = DrawCommandBuilder::new_mesh(1);
    let command = builder.build();
    assert!(matches!(command, DrawCommand::Mesh { mesh_id: 1, .. }));
}

#[test]
fn test_draw_command_builder_new_primitive() {
    let vertices = vec![Vertex::default()];
    let builder =
        DrawCommandBuilder::new_primitive(vertices.clone(), None, PrimitiveType::Triangle);
    let command = builder.build();
    assert!(matches!(
        command,
        DrawCommand::Primitive {
            primitive_type: PrimitiveType::Triangle,
            ..
        }
    ));
}

#[test]
fn test_draw_command_builder_with_instances() {
    let instances = vec![InstanceData::new(Mat4::IDENTITY, red())];
    let builder = DrawCommandBuilder::new_mesh(1).with_instances(instances.clone());
    let command = builder.build();
    assert!(
        matches!(command, DrawCommand::Mesh { instance_data: Some(data), .. } if data == instances),
    );
}

#[test]
fn test_draw_command_builder_with_transform() {
    let transform = Mat4::from_scale(Vec3::new(2.0, 2.0, 2.0));
    let builder = DrawCommandBuilder::new_mesh(1).with_transform(transform);
    let command = builder.build();
    assert!(matches!(command, DrawCommand::Mesh { transform: t, .. } if t == transform));
}

#[test]
fn test_new_commands_have_identity_transform_and_no_instances() {
    match DrawCommandBuilder::new_mesh(7).build() {
        DrawCommand::Mesh { mesh_id, instance_data, transform } => {
            assert_eq!(mesh_id, 7);
            assert!(instance_data.is_none());
            assert_eq!(transform, Mat4::IDENTITY);
        }
        _ => panic!("Wrong draw command type"),
    }
    let vertices = vec![Vertex::default(), Vertex::default()];
    match DrawCommandBuilder::new_primitive(vertices.clone(), Some(vec![0, 1]), PrimitiveType::Line)
        .build()
    {
        DrawCommand::Primitive { vertices: v, indices, primitive_type, instance_data, transform } => {
            assert_eq!(v, vertices);
            assert_eq!(indices, Some(vec![0, 1]));
            assert_eq!(primitive_type, PrimitiveType::Line);
            assert!(instance_data.is_none());
            assert_eq!(transform, Mat4::IDENTITY);
        }
        _ => panic!("Wrong draw command type"),
    }
}

#[test]
fn test_builder_on_primitive_keeps_geometry() {
    let vertices = vec![Vertex::default()];
    let instances = vec![InstanceData::new(Mat4::from_translation(Vec3::X), red())];
    let transform = Mat4::from_translation(Vec3::new(1.0, 2.0, 3.0));
    let command = DrawCommandBuilder::new_primitive(vertices.clone(), None, PrimitiveType::Point)
        .with_instances(instances.clone())
        .with_transform(transform)
        .build();
    match &command {
        DrawCommand::Primitive { vertices: v, indices, primitive_type, instance_data, transform: t } => {
            assert_eq!(v, &vertices);
            assert!(indices.is_none());
            assert_eq!(*primitive_type, PrimitiveType::Point);
            assert_eq!(instance_data.as_ref(), Some(&instances));
            assert_eq!(*t, transform);
        }
        _ => panic!("Wrong draw command type"),
    }
    assert_eq!(command.instance_data(), Some(&instances));
    assert!(DrawCommandBuilder::new_mesh(0).build().instance_data().is_none());
}

#[test]
fn test_clone_keeps_the_command() {
    let transform = Mat4::from_translation(Vec3::new(4.0, 5.0, 6.0));
    let instances = vec![InstanceData::new(Mat4::IDENTITY, red())];
    let command = DrawCommandBuilder::new_primitive(
        vec![Vertex::default()],
        Some(vec![0, 0, 0]),
        PrimitiveType::Triangle,
    )
    .with_transform(transform)
    .with_instances(instances.clone())
    .build();
    match command.clone() {
        DrawCommand::Primitive { vertices, indices, primitive_type, instance_data, transform: t } => {
            assert_eq!(vertices, vec![Vertex::default()]);
            assert_eq!(indices, Some(vec![0, 0, 0]));
            assert_eq!(primitive_type, PrimitiveType::Triangle);
            assert_eq!(instance_data, Some(instances));
            assert_eq!(t, transform);
        }
        _ => panic!("Wrong draw command type"),
    }
}

#[test]
fn test_queue_is_first_in_first_out() {
    let mut queue = RenderQueue::new();
    for id in 0..5 {
        queue.add_draw_command(DrawCommandBuilder::new_mesh(id).build());
    }
    let drained = queue.drain();
    assert_eq!(drained.len(), 5);
    for (position, command) in drained.iter().enumerate() {
        assert!(matches!(command, DrawCommand::Mesh { mesh_id, .. } if *mesh_id == position));
    }
    assert!(queue.draw_commands.is_empty());
    assert!(queue.get_draw_commands().is_empty());
    assert!(queue.drain().is_empty());
}

#[test]
fn test_default_queue_is_empty() {
    let queue = RenderQueue::default();
    assert!(queue.draw_commands.is_empty());
}
