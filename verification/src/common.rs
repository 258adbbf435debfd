//! Common types used throughout the renderer: colors, vertices, primitive
//! and index types, backend draw commands and the error type.

use vstd::prelude::*;
use vstd::std_specs::convert::FromSpecImpl;
use glam::Mat4;
use raw_window_handle::HandleError;
use crate::linear::{mat4_cols, ONE_BITS, ZERO_BITS};

verus! {

/// A texture ID. IDs count from one; zero names no texture.
#[derive(Clone, Copy, Debug, PartialEq, Eq, Hash, Structural)]
pub struct TextureId(pub u32);

/// Different primitive types for rendering.
#[derive(Debug, Clone, Copy, PartialEq, Eq, Structural)]
pub enum PrimitiveType {
    Point,
    Line,
    LineStrip,
    Triangle,
    TriangleStrip,
}

impl PrimitiveType {
    /// The raw value of the Metal primitive type of the same name.
    pub open spec fn metal_code(self) -> u64 {
        match self {
            PrimitiveType::Point => 0,
            PrimitiveType::Line => 1,
            PrimitiveType::LineStrip => 2,
            PrimitiveType::Triangle => 3,
            PrimitiveType::TriangleStrip => 4,
        }
    }

    /// Converts to the raw value that a Metal encoder takes.
    pub fn to_metal(self) -> (code: u64)
        ensures
            code == self.metal_code(),
    {
        match self {
            PrimitiveType::Point => 0,
            PrimitiveType::Line => 1,
            PrimitiveType::LineStrip => 2,
            PrimitiveType::Triangle => 3,
            PrimitiveType::TriangleStrip => 4,
        }
    }
}

/// Different index types for rendering.
#[derive(Debug, Clone, Copy, PartialEq, Eq, Structural)]
pub enum IndexType {
    UInt16,
    UInt32,
}

impl IndexType {
    /// The raw value of the Metal index type of the same name.
    pub open spec fn metal_code(self) -> u64 {
        match self {
            IndexType::UInt16 => 0,
            IndexType::UInt32 => 1,
        }
    }

    /// Converts to the raw value that a Metal encoder takes.
    pub fn to_metal(self) -> (code: u64)
        ensures
            code == self.metal_code(),
    {
        match self {
            IndexType::UInt16 => 0,
            IndexType::UInt32 => 1,
        }
    }
}

/// A draw command for the backend.
#[derive(Debug, Clone, Copy, PartialEq, Eq, Structural)]
pub enum BackendDrawCommand {
    Basic { primitive_type: PrimitiveType, vertex_start: u64, vertex_count: u64 },
    Indexed {
        primitive_type: PrimitiveType,
        index_count: u64,
        index_type: IndexType,
        index_buffer_offset: u64,
    },
    Instanced {
        primitive_type: PrimitiveType,
        vertex_start: u64,
        vertex_count: u64,
        instance_count: u64,
    },
    IndexedInstanced {
        primitive_type: PrimitiveType,
        index_count: u64,
        index_type: IndexType,
        index_buffer_offset: u64,
        instance_count: u64,
    },
}

/// A color with red, green, blue and alpha components. Each component is
/// the bit pattern of a single-precision number, nominally in `[0, 1]`.
#[derive(Clone, Copy, PartialEq, Eq, Debug, Structural)]
pub struct Color {
    pub r: u32,
    pub g: u32,
    pub b: u32,
    pub a: u32,
}

impl Color {
    /// Creates a new color from the bit patterns of its components.
    pub fn new(r: u32, g: u32, b: u32, a: u32) -> (c: Self)
        ensures
            c == (Color { r, g, b, a }),
    {
        Self { r, g, b, a }
    }

    /// Opaque white.
    pub open spec fn white() -> Color {
        Color { r: ONE_BITS, g: ONE_BITS, b: ONE_BITS, a: ONE_BITS }
    }

    /// The components in the order red, green, blue, alpha.
    pub open spec fn components(self) -> Seq<u32> {
        seq![self.r, self.g, self.b, self.a]
    }
}

impl From<Color> for [u32; 4] {
    fn from(color: Color) -> (a: [u32; 4]) {
        [color.r, color.g, color.b, color.a]
    }
}

impl FromSpecImpl<Color> for [u32; 4] {
    open spec fn obeys_from_spec() -> bool {
        true
    }

    open spec fn from_spec(color: Color) -> [u32; 4] {
        [color.r, color.g, color.b, color.a]
    }
}

/// A vertex with position and color, each component the bit pattern of a
/// single-precision number.
#[derive(Clone, Copy, PartialEq, Eq, Debug)]
pub struct Vertex {
    pub position: [u32; 3],
    pub color: [u32; 4],
}

impl Default for Vertex {
    /// The origin, in opaque white.
    fn default() -> (v: Vertex)
        ensures
            v.position@ == seq![ZERO_BITS, ZERO_BITS, ZERO_BITS],
            v.color@ == Color::white().components(),
    {
        Vertex {
            position: [ZERO_BITS, ZERO_BITS, ZERO_BITS],
            color: [ONE_BITS, ONE_BITS, ONE_BITS, ONE_BITS],
        }
    }
}

/// Uniform data for rendering.
#[derive(Clone, Copy)]
pub struct Uniforms {
    pub view_projection_matrix: Mat4,
    pub model_matrix: Mat4,
}

/// What a `Uniforms` record holds.
pub struct UniformsView {
    pub view_projection_matrix: Seq<u32>,
    pub model_matrix: Seq<u32>,
}

impl View for Uniforms {
    type V = UniformsView;

    open spec fn view(&self) -> UniformsView {
        UniformsView {
            view_projection_matrix: mat4_cols(self.view_projection_matrix),
            model_matrix: mat4_cols(self.model_matrix),
        }
    }
}

/// Errors that can occur in the renderer.
#[derive(Debug)]
pub enum RendererError {
    DeviceNotFound,
    ShaderCompilationFailed(String),
    ShaderFunctionNotFound(String),
    PipelineCreationFailed(String),
    DrawFailed(String),
    WindowCreationFailed(String),
    EventLoopError(String),
    WindowHandleError(String),
    BufferOverflow,
    InvalidTextureId,
    InvalidPipelineId,
    InvalidMeshId,
    UnsupportedPlatform,
}

/// A label, followed by a text.
fn labelled(label: &str, text: &String) -> (r: String)
    ensures
        r@ == label@ + text@,
{
    label.to_owned().concat(text.as_str())
}

impl RendererError {
    /// The text that describes the error.
    pub open spec fn message_text(&self) -> Seq<char> {
        match self {
            RendererError::DeviceNotFound => "Metal device not found"@,
            RendererError::ShaderCompilationFailed(msg) => "Shader compilation failed: "@ + msg@,
            RendererError::ShaderFunctionNotFound(name) => "Shader function not found: "@ + name@,
            RendererError::PipelineCreationFailed(msg) => "Pipeline creation failed: "@ + msg@,
            RendererError::DrawFailed(msg) => "Draw operation failed: "@ + msg@,
            RendererError::WindowCreationFailed(msg) => "Window creation with winit failed: "@
                + msg@,
            RendererError::EventLoopError(msg) => "Winit event loop error: "@ + msg@,
            RendererError::WindowHandleError(msg) => "Winit window handle error: "@ + msg@,
            RendererError::BufferOverflow => "Buffer overflow"@,
            RendererError::InvalidTextureId => "Invalid texture Id"@,
            RendererError::InvalidPipelineId => "Invalid pipeline Id"@,
            RendererError::InvalidMeshId => "Invalid mesh Id"@,
            RendererError::UnsupportedPlatform => "Unsupported platform"@,
        }
    }

    /// Describes the error in words.
    pub fn message(&self) -> (r: String)
        ensures
            r@ == self.message_text(),
    {
        match self {
            RendererError::DeviceNotFound => "Metal device not found".to_owned(),
            RendererError::ShaderCompilationFailed(msg) => labelled(
                "Shader compilation failed: ",
                msg,
            ),
            RendererError::ShaderFunctionNotFound(name) => labelled(
                "Shader function not found: ",
                name,
            ),
            RendererError::PipelineCreationFailed(msg) => labelled(
                "Pipeline creation failed: ",
                msg,
            ),
            RendererError::DrawFailed(msg) => labelled("Draw operation failed: ", msg),
            RendererError::WindowCreationFailed(msg) => labelled(
                "Window creation with winit failed: ",
                msg,
            ),
            RendererError::EventLoopError(msg) => labelled("Winit event loop error: ", msg),
            RendererError::WindowHandleError(msg) => labelled("Winit window handle error: ", msg),
            RendererError::BufferOverflow => "Buffer overflow".to_owned(),
            RendererError::InvalidTextureId => "Invalid texture Id".to_owned(),
            RendererError::InvalidPipelineId => "Invalid pipeline Id".to_owned(),
            RendererError::InvalidMeshId => "Invalid mesh Id".to_owned(),
            RendererError::UnsupportedPlatform => "Unsupported platform".to_owned(),
        }
    }
}

/// `raw_window_handle::HandleError`, the error of fetching a window handle.
#[verifier::external_type_specification]
#[verifier::external_body]
pub struct ExHandleError(HandleError);

/// Which error a `HandleError` is. The outside type may gain variants;
/// any but the two known ones is `Other`.
#[derive(Clone, Copy, Debug, PartialEq, Eq, Structural)]
pub enum HandleErrorKind {
    /// The handle cannot be represented
    NotSupported,
    /// The handle is not available for now
    Unavailable,
    /// Another error
    Other,
}

/// The variant of a `HandleError`.
pub uninterp spec fn handle_error_kind(error: HandleError) -> HandleErrorKind;

/// Whether `text` is what a window handle error of the given kind
/// displays: one fixed text for each of the two known kinds. Of another
/// kind nothing is said.
pub open spec fn handle_error_shows(kind: HandleErrorKind, text: Seq<char>) -> bool {
    match kind {
        HandleErrorKind::NotSupported => text
            == "the underlying handle cannot be represented using the types in this crate"@,
        HandleErrorKind::Unavailable => text == "the underlying handle is not available"@,
        HandleErrorKind::Other => true,
    }
}

/// `HandleError::to_string`: the text that the error displays, one fixed
/// text for each of the two known variants.
#[verifier::external_body]
fn handle_error_to_string(error: &HandleError) -> (r: String)
    ensures
        handle_error_shows(handle_error_kind(*error), r@),
{
    error.to_string()
}

impl From<HandleError> for RendererError {
    /// A window handle error becomes a `WindowHandleError` with the text
    /// that the error displays.
    fn from(error: HandleError) -> (r: RendererError)
        ensures
            r matches RendererError::WindowHandleError(text) && handle_error_shows(
                handle_error_kind(error),
                text@,
            ),
    {
        RendererError::WindowHandleError(handle_error_to_string(&error))
    }
}

impl FromSpecImpl<HandleError> for RendererError {
    /// The conversion is specified on `from` itself, through the text of
    /// the error, and not through `from_spec`.
    open spec fn obeys_from_spec() -> bool {
        false
    }

    open spec fn from_spec(error: HandleError) -> RendererError {
        arbitrary()
    }
}

} // verus!
