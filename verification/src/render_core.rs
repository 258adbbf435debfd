//! The render core: it drains the render queue once per frame, resolves each
//! draw command against the mesh cache, hands the geometry, the uniforms and
//! the instances to the backend and issues one backend draw call per queued
//! command, in queue order. The first failure ends the frame.

use vstd::prelude::*;
use glam::{Mat4, Vec3};
use crate::backend::{BackendEvent, BackendRequest, GraphicsBackend, TracedBackend};
use crate::common::{
    BackendDrawCommand,
    Color,
    IndexType,
    PrimitiveType,
    RendererError,
    Uniforms,
    UniformsView,
    Vertex,
};
use crate::linear::{canonical, mat4_cols, mat4_mul, product_cols, vec3_bits};
use crate::mesh::{Mesh, MeshStorage, MeshView};
use crate::render_queue::{
    command_views,
    instance_views,
    optional_indices,
    DrawCommand,
    DrawCommandView,
    InstanceData,
    InstanceDataView,
    RenderQueue,
};
use crate::shape_builder::{vec3_color_to_vertex, MeshBuilder, ShapeData, ShapeDataView};
use crate::triangle_builder::TriangleBuilder;

verus! {

/// Handle of an object placed in a scene.
#[derive(Clone, Copy, PartialEq, Eq, Structural)]
pub struct ObjectId(pub usize);

/// The backend draw command for geometry of the given primitive type with
/// `vertex_count` vertices, drawn with the given number of indices, if it is
/// indexed, and the given number of instances, if it is instanced. Which of
/// the four kinds it is depends only on whether there are indices and
/// whether there are instances.
pub open spec fn backend_command(
    primitive_type: PrimitiveType,
    vertex_count: nat,
    index_count: Option<nat>,
    instance_count: Option<nat>,
) -> BackendDrawCommand {
    match (instance_count, index_count) {
        (Some(instances), Some(indices)) => BackendDrawCommand::IndexedInstanced {
            primitive_type,
            index_count: indices as u64,
            index_type: IndexType::UInt32,
            index_buffer_offset: 0,
            instance_count: instances as u64,
        },
        (Some(instances), None) => BackendDrawCommand::Instanced {
            primitive_type,
            vertex_start: 0,
            vertex_count: vertex_count as u64,
            instance_count: instances as u64,
        },
        (None, Some(indices)) => BackendDrawCommand::Indexed {
            primitive_type,
            index_count: indices as u64,
            index_type: IndexType::UInt32,
            index_buffer_offset: 0,
        },
        (None, None) => BackendDrawCommand::Basic {
            primitive_type,
            vertex_start: 0,
            vertex_count: vertex_count as u64,
        },
    }
}

/// The length of an optional sequence.
pub open spec fn optional_len<T>(s: Option<Seq<T>>) -> Option<nat> {
    match s {
        Some(s) => Some(s.len()),
        None => None,
    }
}

/// The requests that drawing one piece of geometry takes, in the order in
/// which they are made: the vertices, the indices if there are any, the
/// uniforms, the instances if there are any, and the draw call.
pub open spec fn geometry_requests(
    vertices: Seq<Vertex>,
    indices: Option<Seq<u32>>,
    primitive_type: PrimitiveType,
    instances: Option<Seq<InstanceDataView>>,
    transform: Seq<u32>,
    view_projection: Seq<u32>,
) -> Seq<BackendRequest> {
    seq![BackendRequest::UpdateVertexBuffer(vertices)] + (match indices {
        Some(i) => seq![BackendRequest::UpdateIndexBuffer(i)],
        None => seq![],
    }) + seq![
        BackendRequest::UpdateUniformBuffer(
            UniformsView { view_projection_matrix: view_projection, model_matrix: transform },
        ),
    ] + (match instances {
        Some(i) => seq![BackendRequest::UpdateInstanceBuffer(i)],
        None => seq![],
    }) + seq![
        BackendRequest::Draw(
            backend_command(
                primitive_type,
                vertices.len(),
                optional_len(indices),
                optional_len(instances),
            ),
        ),
    ]
}

/// Whether the command can be drawn from the given mesh cache: a command
/// that refers to a mesh needs that mesh to be there.
pub open spec fn resolvable(command: DrawCommandView, meshes: Seq<MeshView>) -> bool {
    match command {
        DrawCommandView::Mesh { mesh_id, .. } => mesh_id < meshes.len(),
        DrawCommandView::Primitive { .. } => true,
    }
}

/// The requests that one draw command takes, or `InvalidMeshId` where it
/// refers to a mesh that is not in the cache.
pub open spec fn command_requests(
    command: DrawCommandView,
    meshes: Seq<MeshView>,
    view_projection: Seq<u32>,
) -> Result<Seq<BackendRequest>, RendererError> {
    match command {
        DrawCommandView::Mesh { mesh_id, instance_data, transform } => {
            if mesh_id < meshes.len() {
                let mesh = meshes[mesh_id as int];
                Ok(
                    geometry_requests(
                        mesh.vertices,
                        mesh.indices,
                        mesh.primitive_type,
                        instance_data,
                        transform,
                        view_projection,
                    ),
                )
            } else {
                Err(RendererError::InvalidMeshId)
            }
        },
        DrawCommandView::Primitive {
            vertices,
            indices,
            primitive_type,
            instance_data,
            transform,
        } => Ok(
            geometry_requests(
                vertices,
                indices,
                primitive_type,
                instance_data,
                transform,
                view_projection,
            ),
        ),
    }
}

/// The requests that a frame takes if no request fails: those of each
/// command in queue order, up to the first command that cannot be resolved.
pub open spec fn frame_requests(
    commands: Seq<DrawCommandView>,
    meshes: Seq<MeshView>,
    view_projection: Seq<u32>,
) -> Seq<BackendRequest>
    decreases commands.len(),
{
    if commands.len() == 0 {
        seq![]
    } else {
        match command_requests(commands[0], meshes, view_projection) {
            Ok(requests) => requests + frame_requests(commands.skip(1), meshes, view_projection),
            Err(_) => seq![],
        }
    }
}

/// How a frame ends if no request fails: with `InvalidMeshId` if some
/// command cannot be resolved, else well.
pub open spec fn frame_result(commands: Seq<DrawCommandView>, meshes: Seq<MeshView>) -> Result<
    (),
    RendererError,
> {
    if forall|i: int| 0 <= i < commands.len() ==> resolvable(#[trigger] commands[i], meshes) {
        Ok(())
    } else {
        Err(RendererError::InvalidMeshId)
    }
}

/// What the events of one frame look like: the view-projection matrix
/// that was handed over with every command is one and the same, its
/// canonical components are those of the product `projection * view`, and
/// the events are the fail-fast run of the requests of the frame under that
/// matrix.
pub open spec fn frame_run(
    commands: Seq<DrawCommandView>,
    meshes: Seq<MeshView>,
    projection: Seq<u32>,
    view: Seq<u32>,
    events: Seq<BackendEvent>,
    result: Result<(), RendererError>,
) -> bool {
    exists|view_projection: Seq<u32>|
        canonical(view_projection) == product_cols(canonical(projection), canonical(view))
            && fail_fast(
            #[trigger] frame_requests(commands, meshes, view_projection),
            frame_result(commands, meshes),
            events,
            result,
        )
}

/// The requests of a list of events, in order.
pub open spec fn requests_of(events: Seq<BackendEvent>) -> Seq<BackendRequest> {
    events.map_values(|e: BackendEvent| e.request)
}

/// Every request of the list was answered with `Ok`.
pub open spec fn all_ok(events: Seq<BackendEvent>) -> bool {
    forall|i: int| 0 <= i < events.len() ==> (#[trigger] events[i]).outcome is Ok
}

/// `events` is what happens when the requests `planned` are made in order
/// until one fails: the requests made are the first of `planned`, all but
/// the last were answered with `Ok`, and either the last failed and
/// `result` is its error, or all of `planned` were made and `result` is
/// `otherwise`.
pub open spec fn fail_fast(
    planned: Seq<BackendRequest>,
    otherwise: Result<(), RendererError>,
    events: Seq<BackendEvent>,
    result: Result<(), RendererError>,
) -> bool {
    &&& events.len() <= planned.len()
    &&& requests_of(events) == planned.take(events.len() as int)
    &&& forall|i: int| 0 <= i < events.len() - 1 ==> (#[trigger] events[i]).outcome is Ok
    &&& if events.len() > 0 && events.last().outcome is Err {
        result == events.last().outcome
    } else {
        events.len() == planned.len() && result == otherwise
    }
}

/// The requests made since the trace was `start` are the first of
/// `planned`, in order, and all were answered with `Ok`.
pub open spec fn answered_in_order(
    start: Seq<BackendEvent>,
    trace: Seq<BackendEvent>,
    planned: Seq<BackendRequest>,
) -> bool {
    let made = trace.skip(start.len() as int);
    &&& start.is_prefix_of(trace)
    &&& made.len() <= planned.len()
    &&& requests_of(made) == planned.take(made.len() as int)
    &&& all_ok(made)
}

/// One more request of a plan was made: if it failed, the run has ended
/// with its error; if not, the requests made are still in order, and once
/// they are all of the plan, the run has ended well.
pub proof fn lemma_request_made(
    start: Seq<BackendEvent>,
    before: Seq<BackendEvent>,
    after: Seq<BackendEvent>,
    planned: Seq<BackendRequest>,
)
    requires
        answered_in_order(start, before, planned),
        before.len() - start.len() < planned.len(),
        after == before.push(after.last()),
        after.last().request == planned[before.len() - start.len()],
    ensures
        start.is_prefix_of(after),
        after.last().outcome is Err ==> fail_fast(
            planned,
            Ok(()),
            after.skip(start.len() as int),
            after.last().outcome,
        ),
        after.last().outcome is Ok ==> answered_in_order(start, after, planned),
        after.last().outcome is Ok && after.len() - start.len() == planned.len() ==> fail_fast(
            planned,
            Ok(()),
            after.skip(start.len() as int),
            Ok(()),
        ),
{
    let made = before.skip(start.len() as int);
    let now = after.skip(start.len() as int);
    assert(after.len() == before.len() + 1);
    assert forall|i: int| 0 <= i < before.len() implies after[i] == before[i] by {
        assert(before.push(after.last())[i] == before[i]);
    }
    assert forall|i: int| 0 <= i < made.len() implies now[i] == made[i] by {}
    assert(now.last() == after.last());
    assert(requests_of(now) =~= planned.take(now.len() as int)) by {
        assert forall|i: int| 0 <= i < now.len() implies requests_of(now)[i] == planned[i] by {
            if i < made.len() {
                assert(requests_of(made)[i] == planned.take(made.len() as int)[i]);
            }
        }
    }
    assert forall|i: int| 0 <= i < now.len() - 1 implies (#[trigger] now[i]).outcome is Ok by {
        assert(made[i].outcome is Ok);
    }
    if after.len() - start.len() == planned.len() {
        assert(planned.take(planned.len() as int) =~= planned);
    }
}

/// What the events of one command's submission look like.
pub open spec fn command_run(
    plan: Result<Seq<BackendRequest>, RendererError>,
    events: Seq<BackendEvent>,
    result: Result<(), RendererError>,
) -> bool {
    match plan {
        Ok(planned) => fail_fast(planned, Ok(()), events, result),
        Err(e) => events.len() == 0 && result == Err::<(), RendererError>(e),
    }
}

/// The render core.
pub struct Renderer<B: GraphicsBackend> {
    backend: TracedBackend<B>,
    mesh_storage: MeshStorage,
    render_queue: RenderQueue,
}

impl<B: GraphicsBackend> Renderer<B> {
    /// The cached meshes; a mesh's handle is its position.
    pub closed spec fn meshes(&self) -> Seq<MeshView> {
        self.mesh_storage@
    }

    /// The commands queued for the next frame, oldest first.
    pub closed spec fn queue(&self) -> Seq<DrawCommandView> {
        self.render_queue@
    }

    /// The requests made of the backend so far, oldest first, each with its
    /// answer.
    pub closed spec fn trace(&self) -> Seq<BackendEvent> {
        self.backend.trace()
    }

    /// The backend, as it is now.
    pub closed spec fn backend_state(&self) -> B {
        self.backend.inner()
    }

    /// Creates a renderer over the given backend, with an empty mesh cache
    /// and an empty queue.
    pub fn new(backend: B) -> (r: Self)
        ensures
            r.backend_state() == backend,
            r.meshes() == Seq::<MeshView>::empty(),
            r.queue() == Seq::<DrawCommandView>::empty(),
            r.trace() == Seq::<BackendEvent>::empty(),
    {
        Renderer {
            backend: TracedBackend::new(backend),
            mesh_storage: MeshStorage::new(),
            render_queue: RenderQueue::new(),
        }
    }

    /// The backend.
    pub fn backend(&self) -> (b: &B)
        ensures
            *b == self.backend_state(),
    {
        self.backend.backend()
    }

    /// The backend, to be changed in place. The record of requests gets a
    /// mark for the handing out.
    pub fn backend_mut(&mut self) -> (b: &mut B)
        ensures
            *b == old(self).backend_state(),
            final(self).backend_state() == *final(b),
            final(self).meshes() == old(self).meshes(),
            final(self).queue() == old(self).queue(),
            final(self).trace() == old(self).trace().push(TracedBackend::<B>::direct()),
    {
        self.backend.backend_mut()
    }

    /// The mesh cache.
    pub fn mesh_storage(&self) -> (m: &MeshStorage)
        ensures
            m@ == self.meshes(),
    {
        &self.mesh_storage
    }

    /// The render queue.
    pub fn render_queue(&self) -> (q: &RenderQueue)
        ensures
            q@ == self.queue(),
    {
        &self.render_queue
    }

    /// Hands the backend the geometry of one command and asks it to draw.
    fn submit_geometry(
        backend: &mut TracedBackend<B>,
        vertices: &Vec<Vertex>,
        indices: &Option<Vec<u32>>,
        instance_data: Option<&Vec<InstanceData>>,
        transform: Mat4,
        view_projection: Mat4,
        backend_draw_command: BackendDrawCommand,
    ) -> (r: Result<(), RendererError>)
        ensures
            old(backend).trace().is_prefix_of(final(backend).trace()),
            fail_fast(
                seq![BackendRequest::UpdateVertexBuffer(vertices@)] + (match indices {
                    Some(i) => seq![BackendRequest::UpdateIndexBuffer(i@)],
                    None => seq![],
                }) + seq![
                    BackendRequest::UpdateUniformBuffer(
                        UniformsView {
                            view_projection_matrix: mat4_cols(view_projection),
                            model_matrix: mat4_cols(transform),
                        },
                    ),
                ] + (match instance_data {
                    Some(i) => seq![BackendRequest::UpdateInstanceBuffer(instance_views(i@))],
                    None => seq![],
                }) + seq![BackendRequest::Draw(backend_draw_command)],
                Ok(()),
                final(backend).trace().skip(old(backend).trace().len() as int),
                r,
            ),
    {
        let ghost start = backend.trace();
        let ghost planned = seq![BackendRequest::UpdateVertexBuffer(vertices@)] + (match indices {
            Some(i) => seq![BackendRequest::UpdateIndexBuffer(i@)],
            None => seq![],
        }) + seq![
            BackendRequest::UpdateUniformBuffer(
                UniformsView {
                    view_projection_matrix: mat4_cols(view_projection),
                    model_matrix: mat4_cols(transform),
                },
            ),
        ] + (match instance_data {
            Some(i) => seq![BackendRequest::UpdateInstanceBuffer(instance_views(i@))],
            None => seq![],
        }) + seq![BackendRequest::Draw(backend_draw_command)];
        proof {
            assert(requests_of(start.skip(start.len() as int)) =~= planned.take(0));
        }
        let ghost before = backend.trace();
        let r = backend.update_vertex_buffer(vertices.as_slice());
        proof {
            lemma_request_made(start, before, backend.trace(), planned);
        }
        if let Err(e) = r {
            return Err(e);
        }
        if let Some(indices) = indices {
            let ghost before = backend.trace();
            let r = backend.update_index_buffer(indices.as_slice());
            proof {
                lemma_request_made(start, before, backend.trace(), planned);
            }
            if let Err(e) = r {
                return Err(e);
            }
        }
        let uniforms = Uniforms { view_projection_matrix: view_projection, model_matrix: transform };
        let ghost before = backend.trace();
        let r = backend.update_uniform_buffer(&uniforms);
        proof {
            lemma_request_made(start, before, backend.trace(), planned);
        }
        if let Err(e) = r {
            return Err(e);
        }
        if let Some(instance_data) = instance_data {
            let ghost before = backend.trace();
            let r = backend.update_instance_buffer(instance_data.as_slice());
            proof {
                lemma_request_made(start, before, backend.trace(), planned);
            }
            if let Err(e) = r {
                return Err(e);
            }
        }
        let ghost before = backend.trace();
        let r = backend.draw(backend_draw_command);
        proof {
            lemma_request_made(start, before, backend.trace(), planned);
        }
        match r {
            Ok(_) => Ok(()),
            Err(e) => Err(e),
        }
    }

    /// Submits one draw command: resolves its mesh, if it refers to one,
    /// and hands its geometry to the backend.
    fn submit(&mut self, draw_command: &DrawCommand, view_projection: Mat4) -> (r: Result<
        (),
        RendererError,
    >)
        ensures
            final(self).meshes() == old(self).meshes(),
            final(self).queue() == old(self).queue(),
            old(self).trace().is_prefix_of(final(self).trace()),
            command_run(
                command_requests(draw_command@, old(self).meshes(), mat4_cols(view_projection)),
                final(self).trace().skip(old(self).trace().len() as int),
                r,
            ),
    {
        match draw_command {
            DrawCommand::Mesh { mesh_id, transform, .. } => {
                match self.mesh_storage.get_mesh(*mesh_id) {
                    Some(mesh) => {
                        let backend_draw_command = self.create_backend_draw_command_from_mesh(
                            mesh,
                            draw_command,
                        );
                        Self::submit_geometry(
                            &mut self.backend,
                            &mesh.vertices,
                            &mesh.indices,
                            draw_command.instance_data(),
                            *transform,
                            view_projection,
                            backend_draw_command,
                        )
                    },
                    None => {
                        assert(self.trace().skip(old(self).trace().len() as int) =~= seq![]);
                        Err(RendererError::InvalidMeshId)
                    },
                }
            },
            DrawCommand::Primitive { vertices, indices, primitive_type, transform, .. } => {
                let backend_draw_command = self.create_backend_draw_command_from_primitive(
                    vertices.as_slice(),
                    indices,
                    primitive_type,
                    draw_command,
                );
                Self::submit_geometry(
                    &mut self.backend,
                    vertices,
                    indices,
                    draw_command.instance_data(),
                    *transform,
                    view_projection,
                    backend_draw_command,
                )
            },
        }
    }

    /// Renders one frame. The view-projection matrix is computed once, as
    /// `projection * view`. The queue is emptied, and its commands are
    /// submitted in the order in which they were queued, one backend draw
    /// call each. The first failure, of a request or of a mesh lookup, ends
    /// the frame with that error; what was submitted before stays
    /// submitted.
    pub fn render(&mut self, projection: Mat4, view: Mat4) -> (r: Result<(), RendererError>)
        ensures
            final(self).queue() == Seq::<DrawCommandView>::empty(),
            final(self).meshes() == old(self).meshes(),
            old(self).trace().is_prefix_of(final(self).trace()),
            frame_run(
                old(self).queue(),
                old(self).meshes(),
                mat4_cols(projection),
                mat4_cols(view),
                final(self).trace().skip(old(self).trace().len() as int),
                r,
            ),
    {
        let view_projection = mat4_mul(projection, view);
        let draw_commands = self.render_queue.drain();
        let ghost commands = old(self).queue();
        let ghost meshes = old(self).meshes();
        let ghost start = old(self).trace();
        let ghost vp = mat4_cols(view_projection);
        let ghost planned = frame_requests(commands, meshes, vp);
        let mut i: usize = 0;
        assert(commands.skip(0) =~= commands);
        assert(self.trace().skip(start.len() as int) =~= seq![]);
        assert(requests_of(seq![]) + planned =~= planned);
        while i < draw_commands.len()
            invariant
                i <= draw_commands.len(),
                command_views(draw_commands@) == commands,
                self.queue() == Seq::<DrawCommandView>::empty(),
                self.meshes() == meshes,
                meshes == old(self).meshes(),
                commands == old(self).queue(),
                start == old(self).trace(),
                vp == mat4_cols(view_projection),
                canonical(vp) == product_cols(
                    canonical(mat4_cols(projection)),
                    canonical(mat4_cols(view)),
                ),
                planned == frame_requests(commands, meshes, vp),
                start.is_prefix_of(self.trace()),
                all_ok(self.trace().skip(start.len() as int)),
                requests_of(self.trace().skip(start.len() as int)) + frame_requests(
                    commands.skip(i as int),
                    meshes,
                    vp,
                ) == planned,
                forall|j: int| 0 <= j < i ==> resolvable(#[trigger] commands[j], meshes),
            decreases draw_commands.len() - i,
        {
            let ghost before = self.trace();
            let ghost done = before.skip(start.len() as int);
            let r = self.submit(&draw_commands[i], view_projection);
            proof {
                let rest = commands.skip(i as int);
                assert(rest[0] == commands[i as int]);
                assert(rest.skip(1) =~= commands.skip(i + 1));
                let events = self.trace().skip(before.len() as int);
                let now = self.trace().skip(start.len() as int);
                assert(now =~= done + events);
                assert(requests_of(now) =~= requests_of(done) + requests_of(events));
                match command_requests(commands[i as int], meshes, vp) {
                    Ok(requests) => {
                        assert(resolvable(commands[i as int], meshes));
                        assert(requests_of(events) == requests.take(events.len() as int));
                        assert(planned =~= requests_of(done) + requests + frame_requests(
                            commands.skip(i + 1),
                            meshes,
                            vp,
                        ));
                        assert(planned.take(now.len() as int) =~= requests_of(done)
                            + requests.take(events.len() as int));
                        if r is Ok {
                            assert(requests.take(requests.len() as int) =~= requests);
                        }
                    },
                    Err(e) => {
                        assert(!resolvable(commands[i as int], meshes));
                        assert(now =~= done);
                        assert(planned =~= requests_of(done));
                        assert(planned.take(now.len() as int) =~= planned);
                    },
                }
            }
            if let Err(e) = r {
                proof {
                    let now = self.trace().skip(start.len() as int);
                    assert(fail_fast(planned, frame_result(commands, meshes), now, r));
                }
                return Err(e);
            }
            i += 1;
        }
        proof {
            let now = self.trace().skip(start.len() as int);
            assert(commands.skip(i as int) =~= seq![]);
            assert(planned =~= requests_of(now));
            assert(planned.take(now.len() as int) =~= planned);
            assert(now.len() > 0 ==> now.last().outcome is Ok);
            assert(frame_result(commands, meshes) == Ok::<(), RendererError>(()));
            assert(fail_fast(planned, frame_result(commands, meshes), now, Ok(())));
        }
        Ok(())
    }

    /// Stores a mesh in the cache and returns its handle.
    pub fn add_mesh(&mut self, mesh_builder: MeshBuilder) -> (index: usize)
        ensures
            index == old(self).meshes().len(),
            final(self).meshes() == old(self).meshes().push(MeshView::of_shape(mesh_builder@)),
            final(self).queue() == old(self).queue(),
            final(self).trace() == old(self).trace(),
            final(self).backend_state() == old(self).backend_state(),
    {
        self.mesh_storage.add_mesh(mesh_builder)
    }

    /// Queues a draw command for the next frame.
    pub fn draw_immediate(&mut self, draw_command: DrawCommand)
        ensures
            final(self).queue() == old(self).queue().push(draw_command@),
            final(self).meshes() == old(self).meshes(),
            final(self).trace() == old(self).trace(),
            final(self).backend_state() == old(self).backend_state(),
    {
        self.render_queue.add_draw_command(draw_command);
    }

    /// Starts a triangle of one color.
    pub fn create_triangle(&mut self, v1: Vec3, v2: Vec3, v3: Vec3, color: Color) -> (t:
        TriangleBuilder)
        ensures
            *final(self) == *old(self),
            t@.len() == 3,
            t@[0].position@ == vec3_bits(v1),
            t@[1].position@ == vec3_bits(v2),
            t@[2].position@ == vec3_bits(v3),
            forall|i: int| 0 <= i < 3 ==> (#[trigger] t@[i]).color@ == color.components(),
    {
        TriangleBuilder::new(v1, v2, v3, color)
    }

    /// Starts a shape of triangles from positions and colors, one vertex
    /// for each pair, in order.
    pub fn create_shape(&mut self, vertices: Vec<(Vec3, Color)>) -> (s: ShapeData)
        ensures
            *final(self) == *old(self),
            s@ == ShapeDataView::plain(s@.vertices, PrimitiveType::Triangle),
            s@.vertices.len() == vertices@.len(),
            forall|i: int|
                0 <= i < vertices@.len() ==> (#[trigger] s@.vertices[i]).position@ == vec3_bits(
                    vertices@[i].0,
                ) && s@.vertices[i].color@ == vertices@[i].1.components(),
    {
        let mut converted: Vec<Vertex> = Vec::new();
        let mut i: usize = 0;
        while i < vertices.len()
            invariant
                i <= vertices.len(),
                converted@.len() == i,
                forall|j: int|
                    0 <= j < i ==> (#[trigger] converted@[j]).position@ == vec3_bits(
                        vertices@[j].0,
                    ) && converted@[j].color@ == vertices@[j].1.components(),
            decreases vertices.len() - i,
        {
            let (position, color) = vertices[i];
            converted.push(vec3_color_to_vertex(position, color));
            i += 1;
        }
        ShapeData::new(converted, PrimitiveType::Triangle)
    }

    /// The backend draw command for a piece of inline geometry. Its kind
    /// follows from whether there are indices and whether the draw command
    /// carries instances; the counts are those of the arrays.
    pub fn create_backend_draw_command_from_primitive(
        &self,
        vertices: &[Vertex],
        indices: &Option<Vec<u32>>,
        primitive_type: &PrimitiveType,
        draw_command: &DrawCommand,
    ) -> (c: BackendDrawCommand)
        ensures
            c == backend_command(
                *primitive_type,
                vertices@.len(),
                optional_len(optional_indices(*indices)),
                optional_len(draw_command@.instance_data()),
            ),
    {
        if let Some(instance_data) = draw_command.instance_data() {
            if let Some(indices) = indices {
                BackendDrawCommand::IndexedInstanced {
                    primitive_type: *primitive_type,
                    index_count: indices.len() as u64,
                    index_type: IndexType::UInt32,
                    index_buffer_offset: 0,
                    instance_count: instance_data.len() as u64,
                }
            } else {
                BackendDrawCommand::Instanced {
                    primitive_type: *primitive_type,
                    vertex_start: 0,
                    vertex_count: vertices.len() as u64,
                    instance_count: instance_data.len() as u64,
                }
            }
        } else if let Some(indices) = indices {
            BackendDrawCommand::Indexed {
                primitive_type: *primitive_type,
                index_count: indices.len() as u64,
                index_type: IndexType::UInt32,
                index_buffer_offset: 0,
            }
        } else {
            BackendDrawCommand::Basic {
                primitive_type: *primitive_type,
                vertex_start: 0,
                vertex_count: vertices.len() as u64,
            }
        }
    }

    /// The backend draw command for a cached mesh.
    pub fn create_backend_draw_command_from_mesh(
        &self,
        mesh: &Mesh,
        draw_command: &DrawCommand,
    ) -> (c: BackendDrawCommand)
        ensures
            c == backend_command(
                mesh@.primitive_type,
                mesh@.vertices.len(),
                optional_len(mesh@.indices),
                optional_len(draw_command@.instance_data()),
            ),
    {
        if let Some(instance_data) = draw_command.instance_data() {
            if let Some(indices) = &mesh.indices {
                BackendDrawCommand::IndexedInstanced {
                    primitive_type: mesh.primitive_type,
                    index_count: indices.len() as u64,
                    index_type: IndexType::UInt32,
                    index_buffer_offset: 0,
                    instance_count: instance_data.len() as u64,
                }
            } else {
                BackendDrawCommand::Instanced {
                    primitive_type: mesh.primitive_type,
                    vertex_start: 0,
                    vertex_count: mesh.vertices.len() as u64,
                    instance_count: instance_data.len() as u64,
                }
            }
        } else if let Some(indices) = &mesh.indices {
            BackendDrawCommand::Indexed {
                primitive_type: mesh.primitive_type,
                index_count: indices.len() as u64,
                index_type: IndexType::UInt32,
                index_buffer_offset: 0,
            }
        } else {
            BackendDrawCommand::Basic {
                primitive_type: mesh.primitive_type,
                vertex_start: 0,
                vertex_count: mesh.vertices.len() as u64,
            }
        }
    }

    /// The backend draw command for a draw command, or `InvalidMeshId`
    /// where the command refers to a mesh that is not in the cache.
    pub fn create_backend_draw_command(&self, draw_command: &DrawCommand) -> (r: Result<
        BackendDrawCommand,
        RendererError,
    >)
        ensures
            r == planned_draw(draw_command@, self.meshes()),
    {
        match draw_command {
            DrawCommand::Mesh { mesh_id, .. } => {
                if let Some(mesh) = self.mesh_storage.get_mesh(*mesh_id) {
                    Ok(self.create_backend_draw_command_from_mesh(mesh, draw_command))
                } else {
                    Err(RendererError::InvalidMeshId)
                }
            },
            DrawCommand::Primitive { vertices, indices, primitive_type, .. } => Ok(
                self.create_backend_draw_command_from_primitive(
                    vertices.as_slice(),
                    indices,
                    primitive_type,
                    draw_command,
                ),
            ),
        }
    }
}

/// The backend draw command that a draw command leads to, or
/// `InvalidMeshId` where it refers to a mesh that is not in the cache.
pub open spec fn planned_draw(command: DrawCommandView, meshes: Seq<MeshView>) -> Result<
    BackendDrawCommand,
    RendererError,
> {
    match command {
        DrawCommandView::Mesh { mesh_id, instance_data, .. } => {
            if mesh_id < meshes.len() {
                let mesh = meshes[mesh_id as int];
                Ok(
                    backend_command(
                        mesh.primitive_type,
                        mesh.vertices.len(),
                        optional_len(mesh.indices),
                        optional_len(instance_data),
                    ),
                )
            } else {
                Err(RendererError::InvalidMeshId)
            }
        },
        DrawCommandView::Primitive { vertices, indices, primitive_type, instance_data, .. } => Ok(
            backend_command(
                primitive_type,
                vertices.len(),
                optional_len(indices),
                optional_len(instance_data),
            ),
        ),
    }
}

/// The kind of a backend draw command follows from whether there are
/// indices and whether there are instances, whatever the counts: neither
/// gives `Basic`, indices alone `Indexed`, instances alone `Instanced`,
/// both `IndexedInstanced`.
pub proof fn lemma_classification(
    primitive_type: PrimitiveType,
    vertex_count: nat,
    index_count: Option<nat>,
    instance_count: Option<nat>,
)
    ensures
        backend_command(primitive_type, vertex_count, index_count, instance_count) is Basic <==> (
        index_count is None && instance_count is None),
        backend_command(primitive_type, vertex_count, index_count, instance_count) is Indexed
            <==> (index_count is Some && instance_count is None),
        backend_command(primitive_type, vertex_count, index_count, instance_count) is Instanced
            <==> (index_count is None && instance_count is Some),
        backend_command(primitive_type, vertex_count, index_count, instance_count)
            is IndexedInstanced <==> (index_count is Some && instance_count is Some),
{
}

} // verus!
