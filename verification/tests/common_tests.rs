use render_engine::common::{Color, IndexType, PrimitiveType, RendererError, TextureId, Vertex};

#[test]
fn test_color_creation() {
    let color = Color::new(
        0.1f32.to_bits(),
        0.2f32.to_bits(),
        0.3f32.to_bits(),
        0.4f32.to_bits(),
    );
    assert_eq!(f32::from_bits(color.r), 0.1);
    assert_eq!(f32::from_bits(color.g), 0.2);
    assert_eq!(f32::from_bits(color.b), 0.3);
    assert_eq!(f32::from_bits(color.a), 0.4);
}

#[test]
fn test_color_to_array() {
    let color = Color::new(
        0.1f32.to_bits(),
        0.2f32.to_bits(),
        0.3f32.to_bits(),
        0.4f32.to_bits(),
    );
    let array: [u32; 4] = color.into();
    assert_eq!(array.map(f32::from_bits), [0.1, 0.2, 0.3, 0.4]);
}

#[test]
fn test_vertex_default() {
    let vertex = Vertex::default();
    assert_eq!(vertex.position.map(f32::from_bits), [0.0, 0.0, 0.0]);
    assert_eq!(vertex.color.map(f32::from_bits), [1.0, 1.0, 1.0, 1.0]);
}

#[test]
fn test_primitive_type_conversion() {
    // The raw values of MTLPrimitiveType::Point, Line and Triangle.
    assert_eq!(PrimitiveType::Point.to_metal(), 0);
    assert_eq!(PrimitiveType::Line.to_metal(), 1);
    assert_eq!(PrimitiveType::Triangle.to_metal(), 3);
}

#[test]
fn test_index_type_conversion() {
    // The raw values of MTLIndexType::UInt16 and UInt32.
    assert_eq!(IndexType::UInt16.to_metal(), 0);
    assert_eq!(IndexType::UInt32.to_metal(), 1);
}

#[test]
fn test_primitive_type_conversion_covers_strips() {
    assert_eq!(PrimitiveType::LineStrip.to_metal(), 2);
    assert_eq!(PrimitiveType::TriangleStrip.to_metal(), 4);
}

#[test]
fn test_one_and_zero_bit_patterns() {
    assert_eq!(render_engine::linear::ONE_BITS, 1.0f32.to_bits());
    assert_eq!(render_engine::linear::ZERO_BITS, 0.0f32.to_bits());
}

#[test]
fn test_error_messages() {
    assert_eq!(RendererError::DeviceNotFound.message(), "Metal device not found");
    assert_eq!(
        RendererError::ShaderCompilationFailed("bad".to_string()).message(),
        "Shader compilation failed: bad"
    );
    assert_eq!(
        RendererError::ShaderFunctionNotFound("vertex_main".to_string()).message(),
        "Shader function not found: vertex_main"
    );
    assert_eq!(
        RendererError::PipelineCreationFailed("x".to_string()).message(),
        "Pipeline creation failed: x"
    );
    assert_eq!(
        RendererError::DrawFailed("No next drawable".to_string()).message(),
        "Draw operation failed: No next drawable"
    );
    assert_eq!(
        RendererError::WindowCreationFailed("w".to_string()).message(),
        "Window creation with winit failed: w"
    );
    assert_eq!(
        RendererError::EventLoopError("e".to_string()).message(),
        "Winit event loop error: e"
    );
    assert_eq!(
        RendererError::WindowHandleError("h".to_string()).message(),
        "Winit window handle error: h"
    );
    assert_eq!(RendererError::BufferOverflow.message(), "Buffer overflow");
    assert_eq!(RendererError::InvalidTextureId.message(), "Invalid texture Id");
    assert_eq!(RendererError::InvalidPipelineId.message(), "Invalid pipeline Id");
    assert_eq!(RendererError::InvalidMeshId.message(), "Invalid mesh Id");
    assert_eq!(RendererError::UnsupportedPlatform.message(), "Unsupported platform");
}

#[test]
fn test_texture_id_is_plain_number() {
    assert_eq!(TextureId(3).0, 3);
}

#[test]
fn test_window_handle_errors_keep_their_text() {
    let unavailable: RendererError = raw_window_handle::HandleError::Unavailable.into();
    match unavailable {
        RendererError::WindowHandleError(text) => {
            assert_eq!(text, "the underlying handle is not available")
        }
        other => panic!("unexpected error {:?}", other),
    }
    let unsupported = RendererError::from(raw_window_handle::HandleError::NotSupported);
    assert_eq!(
        unsupported.message(),
        "Winit window handle error: the underlying handle cannot be represented using the types in this crate"
    );
}
