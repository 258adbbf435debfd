//! A backend-agnostic rendering core: draw commands and the render queue,
//! the mesh cache, the scene graph, the buffer manager and the render pass
//! that turns queued commands into backend calls.

pub mod linear;
pub mod common;
pub mod render_queue;
pub mod shape_builder;
pub mod triangle_builder;
pub mod mesh;
pub mod backend;
pub mod render_core;
pub mod scene_graph;
pub mod buffer_manager;
pub mod texture_manager;
pub mod pipeline;
pub mod camera;
pub mod scene_objects;
pub mod factory;
