//! The capability that the render core requires of a graphics backend.
//!
//! A backend takes buffer updates and draw commands. Nothing is promised of
//! what a backend answers: every call may fail. The render core talks to
//! its backend through `TracedBackend`, which keeps, for the proofs only, the
//! list of the requests made so far together with the answers. No request
//! reaches the backend without an entry in that list.

use vstd::prelude::*;
use crate::common::{BackendDrawCommand, RendererError, Uniforms, UniformsView, Vertex};
use crate::render_queue::{instance_views, InstanceData, InstanceDataView};

verus! {

/// The interface for graphics backends.
pub trait GraphicsBackend {
    fn draw(&mut self, draw_command: BackendDrawCommand) -> Result<(), RendererError>;

    fn update_vertex_buffer(&mut self, vertices: &[Vertex]) -> Result<(), RendererError>;

    fn update_index_buffer(&mut self, indices: &[u32]) -> Result<(), RendererError>;

    fn update_uniform_buffer(&mut self, uniforms: &Uniforms) -> Result<(), RendererError>;

    fn update_instance_buffer(&mut self, instances: &[InstanceData]) -> Result<
        (),
        RendererError,
    >;
}

/// A request made of a backend, with what was handed over.
pub enum BackendRequest {
    UpdateVertexBuffer(Seq<Vertex>),
    UpdateIndexBuffer(Seq<u32>),
    UpdateUniformBuffer(UniformsView),
    UpdateInstanceBuffer(Seq<InstanceDataView>),
    Draw(BackendDrawCommand),
    /// The backend was handed out to be changed in place, and may have been
    /// asked anything
    Direct,
}

/// A request together with the backend's answer.
pub struct BackendEvent {
    pub request: BackendRequest,
    pub outcome: Result<(), RendererError>,
}

/// A backend together with the record of the requests made through this
/// value. The record exists in proofs only.
pub struct TracedBackend<B: GraphicsBackend> {
    backend: B,
    trace: Ghost<Seq<BackendEvent>>,
}

impl<B: GraphicsBackend> TracedBackend<B> {
    /// The requests made so far, oldest first, each with its answer.
    pub closed spec fn trace(&self) -> Seq<BackendEvent> {
        self.trace@
    }

    /// The backend that is wrapped.
    pub closed spec fn inner(&self) -> B {
        self.backend
    }

    /// Wraps a backend; no request has been made yet.
    pub fn new(backend: B) -> (t: Self)
        ensures
            t.inner() == backend,
            t.trace() == Seq::<BackendEvent>::empty(),
    {
        TracedBackend { backend, trace: Ghost(Seq::empty()) }
    }

    /// The backend itself.
    pub fn backend(&self) -> (b: &B)
        ensures
            *b == self.inner(),
    {
        &self.backend
    }

    /// The event that marks that the backend was handed out.
    pub open spec fn direct() -> BackendEvent {
        BackendEvent { request: BackendRequest::Direct, outcome: Ok(()) }
    }

    /// The backend itself, to be changed in place. What is asked of it
    /// through the reference is not recorded one by one; the record gets
    /// one mark for the handing out.
    pub fn backend_mut(&mut self) -> (b: &mut B)
        ensures
            *b == old(self).inner(),
            final(self).inner() == *final(b),
            final(self).trace() == old(self).trace().push(Self::direct()),
    {
        proof {
            self.trace@ = self.trace@.push(Self::direct());
        }
        &mut self.backend
    }

    /// Gives the backend back.
    pub fn into_inner(self) -> (b: B)
        ensures
            b == self.inner(),
    {
        self.backend
    }

    /// Asks the backend to draw.
    pub fn draw(&mut self, draw_command: BackendDrawCommand) -> (r: Result<(), RendererError>)
        ensures
            final(self).trace() == old(self).trace().push(
                BackendEvent { request: BackendRequest::Draw(draw_command), outcome: r },
            ),
    {
        let r = self.backend.draw(draw_command);
        proof {
            self.trace@ = self.trace@.push(
                BackendEvent { request: BackendRequest::Draw(draw_command), outcome: r },
            );
        }
        r
    }

    /// Hands the backend the vertices to draw from.
    pub fn update_vertex_buffer(&mut self, vertices: &[Vertex]) -> (r: Result<(), RendererError>)
        ensures
            final(self).trace() == old(self).trace().push(
                BackendEvent { request: BackendRequest::UpdateVertexBuffer(vertices@), outcome: r },
            ),
    {
        let r = self.backend.update_vertex_buffer(vertices);
        proof {
            self.trace@ = self.trace@.push(
                BackendEvent { request: BackendRequest::UpdateVertexBuffer(vertices@), outcome: r },
            );
        }
        r
    }

    /// Hands the backend the indices to draw with.
    pub fn update_index_buffer(&mut self, indices: &[u32]) -> (r: Result<(), RendererError>)
        ensures
            final(self).trace() == old(self).trace().push(
                BackendEvent { request: BackendRequest::UpdateIndexBuffer(indices@), outcome: r },
            ),
    {
        let r = self.backend.update_index_buffer(indices);
        proof {
            self.trace@ = self.trace@.push(
                BackendEvent { request: BackendRequest::UpdateIndexBuffer(indices@), outcome: r },
            );
        }
        r
    }

    /// Hands the backend the uniform record.
    pub fn update_uniform_buffer(&mut self, uniforms: &Uniforms) -> (r: Result<(), RendererError>)
        ensures
            final(self).trace() == old(self).trace().push(
                BackendEvent { request: BackendRequest::UpdateUniformBuffer(uniforms@), outcome: r },
            ),
    {
        let r = self.backend.update_uniform_buffer(uniforms);
        proof {
            self.trace@ = self.trace@.push(
                BackendEvent { request: BackendRequest::UpdateUniformBuffer(uniforms@), outcome: r },
            );
        }
        r
    }

    /// Hands the backend the per-instance records.
    pub fn update_instance_buffer(&mut self, instances: &[InstanceData]) -> (r: Result<
        (),
        RendererError,
    >)
        ensures
            final(self).trace() == old(self).trace().push(
                BackendEvent {
                    request: BackendRequest::UpdateInstanceBuffer(instance_views(instances@)),
                    outcome: r,
                },
            ),
    {
        let r = self.backend.update_instance_buffer(instances);
        proof {
            self.trace@ = self.trace@.push(
                BackendEvent {
                    request: BackendRequest::UpdateInstanceBuffer(instance_views(instances@)),
                    outcome: r,
                },
            );
        }
        r
    }
}

} // verus!
