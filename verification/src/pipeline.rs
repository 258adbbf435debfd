//! The cache of the render pipeline state, and the options for loading the
//! shader library that the pipeline is built from.

use vstd::prelude::*;
use crate::common::RendererError;

verus! {

/// Configuration options for shader loading.
#[derive(Clone, Debug)]
pub struct ShaderLoadOptions {
    /// Custom path to a compiled shader library
    pub shader_path: Option<String>,
    /// Whether to use runtime compilation instead of pre-compiled shaders
    pub use_runtime_compilation: bool,
}

impl Default for ShaderLoadOptions {
    /// No custom path, pre-compiled shaders.
    fn default() -> (o: Self)
        ensures
            o.shader_path is None,
            !o.use_runtime_compilation,
    {
        ShaderLoadOptions { shader_path: None, use_runtime_compilation: false }
    }
}

/// Where the shader library is to be loaded from.
#[derive(Clone, Copy, Debug, PartialEq, Eq, Structural)]
pub enum ShaderSource {
    /// The file that the options name
    CustomPath,
    /// The file that the environment names
    EnvironmentPath,
    /// Compilation of the embedded sources
    RuntimeCompilation,
    /// The embedded pre-compiled library
    Embedded,
}

impl ShaderLoadOptions {
    /// Chooses where to load the shader library from. The file that the
    /// options name comes first, if it exists; then the file that the
    /// environment names, if it exists; then runtime compilation, if the
    /// options ask for it; else the embedded library.
    pub fn choose_source(&self, custom_path_exists: bool, environment_path_exists: bool) -> (s:
        ShaderSource)
        ensures
            s == (if self.shader_path is Some && custom_path_exists {
                ShaderSource::CustomPath
            } else if environment_path_exists {
                ShaderSource::EnvironmentPath
            } else if self.use_runtime_compilation {
                ShaderSource::RuntimeCompilation
            } else {
                ShaderSource::Embedded
            }),
    {
        if self.shader_path.is_some() && custom_path_exists {
            ShaderSource::CustomPath
        } else if environment_path_exists {
            ShaderSource::EnvironmentPath
        } else if self.use_runtime_compilation {
            ShaderSource::RuntimeCompilation
        } else {
            ShaderSource::Embedded
        }
    }
}

/// Whether a shader library can be used: it has to hold both the vertex
/// function and the fragment function of the renderer.
pub fn required_functions_found(has_vertex_main: bool, has_fragment_main: bool) -> (r: Result<
    (),
    RendererError,
>)
    ensures
        has_vertex_main && has_fragment_main ==> r == Ok::<(), RendererError>(()),
        !(has_vertex_main && has_fragment_main) ==> (r matches Err(
            RendererError::ShaderCompilationFailed(m),
        ) && m@ == "Required shader functions not found in library"@),
{
    if has_vertex_main && has_fragment_main {
        Ok(())
    } else {
        Err(
            RendererError::ShaderCompilationFailed(
                "Required shader functions not found in library".to_owned(),
            ),
        )
    }
}

/// The cache of the render pipeline state of a backend. `L` is the
/// backend's shader library type, `S` its pipeline state type.
pub struct RenderPipelineCache<L, S> {
    shader_library: L,
    pipeline_state: Option<S>,
}

impl<L, S> RenderPipelineCache<L, S> {
    /// The shader library.
    pub closed spec fn shader_library(&self) -> L {
        self.shader_library
    }

    /// The cached pipeline state, if one was created.
    pub closed spec fn pipeline_state(&self) -> Option<S> {
        self.pipeline_state
    }

    /// Creates a cache around the outcome of loading the shader library:
    /// a cache without pipeline state, or the error of the load.
    pub fn new(shader_library: Result<L, RendererError>) -> (r: Result<Self, RendererError>)
        ensures
            match shader_library {
                Ok(library) => r matches Ok(cache) && cache.shader_library() == library
                    && cache.pipeline_state() is None,
                Err(e) => r matches Err(f) && f == e,
            },
    {
        match shader_library {
            Ok(library) => Ok(RenderPipelineCache { shader_library: library, pipeline_state: None }),
            Err(e) => Err(e),
        }
    }

    /// Caches the outcome of creating a pipeline state: a new state takes
    /// the place of the cached one; a failure is reported as
    /// `PipelineCreationFailed` with its message and leaves the cache as it
    /// is.
    pub fn create_pipeline_state(&mut self, created: Result<S, String>) -> (r: Result<
        (),
        RendererError,
    >)
        ensures
            final(self).shader_library() == old(self).shader_library(),
            match created {
                Ok(state) => r == Ok::<(), RendererError>(()) && final(self).pipeline_state()
                    == Some(state),
                Err(message) => r == Err::<(), RendererError>(
                    RendererError::PipelineCreationFailed(message),
                ) && final(self).pipeline_state() == old(self).pipeline_state(),
            },
    {
        match created {
            Ok(state) => {
                self.pipeline_state = Some(state);
                Ok(())
            },
            Err(message) => Err(RendererError::PipelineCreationFailed(message)),
        }
    }

    /// Retrieves the cached pipeline state.
    pub fn get_pipeline_state(&self) -> (state: Option<&S>)
        ensures
            match self.pipeline_state() {
                Some(s) => state == Some(&s),
                None => state is None,
            },
    {
        self.pipeline_state.as_ref()
    }

    /// Returns the shader library.
    pub fn get_shader_library(&self) -> (library: &L)
        ensures
            *library == self.shader_library(),
    {
        &self.shader_library
    }
}

} // verus!
