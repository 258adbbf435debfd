use render_engine::backend::{GraphicsBackend, TracedBackend};
use render_engine::common::{
    BackendDrawCommand, PrimitiveType, RendererError, TextureId, Uniforms, Vertex,
};
use render_engine::factory::ShapeFactory;
use render_engine::pipeline::{
    required_functions_found, RenderPipelineCache, ShaderLoadOptions, ShaderSource,
};
use render_engine::render_queue::InstanceData;
use render_engine::texture_manager::TextureManager;

struct Counting {
    draws: usize,
    uploads: usize,
}

impl GraphicsBackend for Counting {
    fn draw(&mut self, _draw_command: BackendDrawCommand) -> Result<(), RendererError> {
        self.draws += 1;
        Err(RendererError::InvalidPipelineId)
    }

    fn update_vertex_buffer(&mut self, _vertices: &[Vertex]) -> Result<(), RendererError> {
        self.uploads += 1;
        Ok(())
    }

    fn update_index_buffer(&mut self, _indices: &[u32]) -> Result<(), RendererError> {
        self.uploads += 1;
        Ok(())
    }

    fn update_uniform_buffer(&mut self, _uniforms: &Uniforms) -> Result<(), RendererError> {
        self.uploads += 1;
        Ok(())
    }

    fn update_instance_buffer(&mut self, _instances: &[InstanceData]) -> Result<(), RendererError> {
        self.uploads += 1;
        Err(RendererError::BufferOverflow)
    }
}

#[test]
fn test_traced_backend_forwards_every_call() {
    let mut traced = TracedBackend::new(Counting { draws: 0, uploads: 0 });
    assert!(traced.update_vertex_buffer(&[Vertex::default()]).is_ok());
    assert!(traced.update_index_buffer(&[0, 1, 2]).is_ok());
    assert!(matches!(
        traced.update_instance_buffer(&[]),
        Err(RendererError::BufferOverflow)
    ));
    let command = BackendDrawCommand::Basic {
        primitive_type: PrimitiveType::Point,
        vertex_start: 0,
        vertex_count: 1,
    };
    assert!(matches!(traced.draw(command), Err(RendererError::InvalidPipelineId)));
    assert_eq!(traced.backend().uploads, 3);
    assert_eq!(traced.backend().draws, 1);
    let backend = traced.into_inner();
    assert_eq!(backend.draws, 1);
}

#[test]
fn test_texture_ids_count_from_one() {
    let mut textures: TextureManager<&'static str> = TextureManager::new();
    assert!(matches!(textures.texture(TextureId(1)), Err(RendererError::InvalidTextureId)));
    let first = textures.create_texture("depth");
    let second = textures.create_texture("color");
    assert_eq!(first, TextureId(1));
    assert_eq!(second, TextureId(2));
    assert_eq!(textures.texture(first).unwrap(), &"depth");
    assert_eq!(textures.texture(second).unwrap(), &"color");
    assert!(matches!(textures.texture(TextureId(0)), Err(RendererError::InvalidTextureId)));
    assert!(matches!(textures.texture(TextureId(3)), Err(RendererError::InvalidTextureId)));
    assert!(matches!(
        textures.texture(TextureId(u32::MAX)),
        Err(RendererError::InvalidTextureId)
    ));
}

#[test]
fn test_pipeline_cache_keeps_the_last_state() {
    let mut cache: RenderPipelineCache<&'static str, u32> =
        RenderPipelineCache::new(Ok("library")).unwrap();
    assert_eq!(*cache.get_shader_library(), "library");
    assert!(cache.get_pipeline_state().is_none());
    assert!(cache.create_pipeline_state(Ok(7)).is_ok());
    assert_eq!(cache.get_pipeline_state(), Some(&7));
    match cache.create_pipeline_state(Err("no such function".to_string())) {
        Err(RendererError::PipelineCreationFailed(message)) => {
            assert_eq!(message, "no such function")
        }
        other => panic!("unexpected result {:?}", other),
    }
    assert_eq!(cache.get_pipeline_state(), Some(&7));
    assert!(cache.create_pipeline_state(Ok(8)).is_ok());
    assert_eq!(cache.get_pipeline_state(), Some(&8));
    assert_eq!(*cache.get_shader_library(), "library");
}

#[test]
fn test_pipeline_cache_hands_on_the_library_error() {
    let failed: Result<RenderPipelineCache<&'static str, u32>, RendererError> =
        RenderPipelineCache::new(Err(RendererError::ShaderCompilationFailed("broken".to_string())));
    match failed {
        Err(RendererError::ShaderCompilationFailed(message)) => assert_eq!(message, "broken"),
        _ => panic!("the error of the load was expected"),
    }
}

#[test]
fn test_shader_source_order() {
    let default = ShaderLoadOptions::default();
    assert!(default.shader_path.is_none());
    assert!(!default.use_runtime_compilation);
    assert_eq!(default.choose_source(false, false), ShaderSource::Embedded);
    assert_eq!(default.choose_source(true, false), ShaderSource::Embedded);
    assert_eq!(default.choose_source(false, true), ShaderSource::EnvironmentPath);

    let with_path = ShaderLoadOptions {
        shader_path: Some("shaders.metallib".to_string()),
        use_runtime_compilation: true,
    };
    assert_eq!(with_path.choose_source(true, true), ShaderSource::CustomPath);
    assert_eq!(with_path.choose_source(true, false), ShaderSource::CustomPath);
    assert_eq!(with_path.choose_source(false, true), ShaderSource::EnvironmentPath);
    assert_eq!(with_path.choose_source(false, false), ShaderSource::RuntimeCompilation);
}

#[test]
fn test_cube_and_plane_indices() {
    assert_eq!(
        ShapeFactory::cube_indices(),
        vec![
            0, 1, 2, 0, 2, 3, 4, 6, 5, 4, 7, 6, 0, 3, 7, 0, 7, 4, 1, 5, 6, 1, 6, 2, 3, 2, 6, 3,
            6, 7, 0, 4, 5, 0, 5, 1,
        ]
    );
    assert_eq!(ShapeFactory::plane_indices(), vec![0, 2, 1, 0, 3, 2]);
}

#[test]
fn test_sphere_indices() {
    assert_eq!(
        ShapeFactory::sphere_indices(2, 1),
        vec![0, 3, 4, 0, 4, 1, 1, 4, 5, 1, 5, 2]
    );
    assert_eq!(
        ShapeFactory::sphere_indices(1, 2),
        vec![0, 2, 3, 0, 3, 1, 2, 4, 5, 2, 5, 3]
    );
    assert!(ShapeFactory::sphere_indices(0, 5).is_empty());
    assert!(ShapeFactory::sphere_indices(5, 0).is_empty());
    assert_eq!(ShapeFactory::sphere_indices(16, 8).len(), 6 * 16 * 8);
}

#[test]
fn test_cone_indices() {
    assert_eq!(
        ShapeFactory::cone_indices(3),
        vec![0, 1, 2, 0, 2, 3, 0, 3, 1, 4, 2, 1, 4, 3, 2, 4, 1, 3]
    );
    assert_eq!(ShapeFactory::cone_indices(1), vec![0, 1, 1, 2, 1, 1]);
    assert!(ShapeFactory::cone_indices(0).is_empty());
}

#[test]
fn test_required_shader_functions() {
    assert!(required_functions_found(true, true).is_ok());
    for (vertex, fragment) in [(true, false), (false, true), (false, false)] {
        match required_functions_found(vertex, fragment) {
            Err(RendererError::ShaderCompilationFailed(message)) => {
                assert_eq!(message, "Required shader functions not found in library")
            }
            other => panic!("unexpected result {:?}", other),
        }
    }
}
