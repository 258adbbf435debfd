//! Draw commands and the render queue.
//!
//! A draw command is one unit of renderable work: a reference to a cached
//! mesh or inline geometry, a model transform and optional per-instance
//! data. The render queue holds the commands of one frame in the order in
//! which they were added.

use vstd::prelude::*;
use glam::Mat4;
use crate::common::{Color, PrimitiveType, Vertex};
use crate::linear::{canonical, identity_cols, mat4_cols, mat4_identity};

verus! {

/// Instance-specific data for instanced rendering.
#[derive(Clone, Copy, PartialEq, Debug)]
pub struct InstanceData {
    pub model_matrix: Mat4,
    pub color: Color,
}

/// What an `InstanceData` record holds.
pub struct InstanceDataView {
    pub model_matrix: Seq<u32>,
    pub color: Color,
}

impl View for InstanceData {
    type V = InstanceDataView;

    open spec fn view(&self) -> InstanceDataView {
        InstanceDataView { model_matrix: mat4_cols(self.model_matrix), color: self.color }
    }
}

/// The records of an instance array, in order.
pub open spec fn instance_views(instances: Seq<InstanceData>) -> Seq<InstanceDataView> {
    instances.map_values(|d: InstanceData| d@)
}

/// The records of an optional instance array.
pub open spec fn optional_instance_views(instances: Option<Vec<InstanceData>>) -> Option<
    Seq<InstanceDataView>,
> {
    match instances {
        Some(v) => Some(instance_views(v@)),
        None => None,
    }
}

/// The contents of an optional index array.
pub open spec fn optional_indices(indices: Option<Vec<u32>>) -> Option<Seq<u32>> {
    match indices {
        Some(v) => Some(v@),
        None => None,
    }
}

impl InstanceData {
    /// Creates a new `InstanceData`.
    pub fn new(model_matrix: Mat4, color: Color) -> (d: Self)
        ensures
            d == (InstanceData { model_matrix, color }),
    {
        Self { model_matrix, color }
    }
}

/// A draw command for the renderer.
pub enum DrawCommand {
    Mesh { mesh_id: usize, instance_data: Option<Vec<InstanceData>>, transform: Mat4 },
    Primitive {
        vertices: Vec<Vertex>,
        indices: Option<Vec<u32>>,
        primitive_type: PrimitiveType,
        instance_data: Option<Vec<InstanceData>>,
        transform: Mat4,
    },
}

/// What a draw command holds.
pub enum DrawCommandView {
    Mesh { mesh_id: usize, instance_data: Option<Seq<InstanceDataView>>, transform: Seq<u32> },
    Primitive {
        vertices: Seq<Vertex>,
        indices: Option<Seq<u32>>,
        primitive_type: PrimitiveType,
        instance_data: Option<Seq<InstanceDataView>>,
        transform: Seq<u32>,
    },
}

impl DrawCommandView {
    /// The instance array of the command, if it has one.
    pub open spec fn instance_data(self) -> Option<Seq<InstanceDataView>> {
        match self {
            DrawCommandView::Mesh { instance_data, .. } => instance_data,
            DrawCommandView::Primitive { instance_data, .. } => instance_data,
        }
    }

    /// The model transform of the command.
    pub open spec fn transform(self) -> Seq<u32> {
        match self {
            DrawCommandView::Mesh { transform, .. } => transform,
            DrawCommandView::Primitive { transform, .. } => transform,
        }
    }

    /// The same command with the given instance array.
    pub open spec fn with_instances(self, instances: Seq<InstanceDataView>) -> DrawCommandView {
        match self {
            DrawCommandView::Mesh { mesh_id, instance_data, transform } => DrawCommandView::Mesh {
                mesh_id,
                instance_data: Some(instances),
                transform,
            },
            DrawCommandView::Primitive {
                vertices,
                indices,
                primitive_type,
                instance_data,
                transform,
            } => DrawCommandView::Primitive {
                vertices,
                indices,
                primitive_type,
                instance_data: Some(instances),
                transform,
            },
        }
    }

    /// The same command with the components of its model transform made
    /// canonical: every pattern of "not a number" in them is the same one.
    pub open spec fn with_canonical_transform(self) -> DrawCommandView {
        self.with_transform(canonical(self.transform()))
    }

    /// The same command with the given model transform.
    pub open spec fn with_transform(self, cols: Seq<u32>) -> DrawCommandView {
        match self {
            DrawCommandView::Mesh { mesh_id, instance_data, transform } => DrawCommandView::Mesh {
                mesh_id,
                instance_data,
                transform: cols,
            },
            DrawCommandView::Primitive {
                vertices,
                indices,
                primitive_type,
                instance_data,
                transform,
            } => DrawCommandView::Primitive {
                vertices,
                indices,
                primitive_type,
                instance_data,
                transform: cols,
            },
        }
    }
}

impl View for DrawCommand {
    type V = DrawCommandView;

    open spec fn view(&self) -> DrawCommandView {
        match *self {
            DrawCommand::Mesh { mesh_id, instance_data, transform } => DrawCommandView::Mesh {
                mesh_id,
                instance_data: optional_instance_views(instance_data),
                transform: mat4_cols(transform),
            },
            DrawCommand::Primitive {
                vertices,
                indices,
                primitive_type,
                instance_data,
                transform,
            } => DrawCommandView::Primitive {
                vertices: vertices@,
                indices: optional_indices(indices),
                primitive_type,
                instance_data: optional_instance_views(instance_data),
                transform: mat4_cols(transform),
            },
        }
    }
}

/// A copy of an optional index array.
pub(crate) fn clone_indices(indices: &Option<Vec<u32>>) -> (r: Option<Vec<u32>>)
    ensures
        optional_indices(r) == optional_indices(*indices),
{
    match indices {
        Some(v) => Some(v.clone()),
        None => None,
    }
}

/// A copy of an optional instance array.
pub(crate) fn clone_instances(instances: &Option<Vec<InstanceData>>) -> (r: Option<Vec<InstanceData>>)
    ensures
        optional_instance_views(r) == optional_instance_views(*instances),
{
    match instances {
        Some(v) => Some(v.clone()),
        None => None,
    }
}

impl Clone for DrawCommand {
    fn clone(&self) -> (c: Self)
        ensures
            c@ == self@,
    {
        match self {
            DrawCommand::Mesh { mesh_id, instance_data, transform } => DrawCommand::Mesh {
                mesh_id: *mesh_id,
                instance_data: clone_instances(instance_data),
                transform: *transform,
            },
            DrawCommand::Primitive {
                vertices,
                indices,
                primitive_type,
                instance_data,
                transform,
            } => DrawCommand::Primitive {
                vertices: vertices.clone(),
                indices: clone_indices(indices),
                primitive_type: *primitive_type,
                instance_data: clone_instances(instance_data),
                transform: *transform,
            },
        }
    }
}

impl DrawCommand {
    /// Returns a reference to the instance data if present.
    pub fn instance_data(&self) -> (r: Option<&Vec<InstanceData>>)
        ensures
            r is Some <==> self@.instance_data() is Some,
            r matches Some(v) ==> self@.instance_data() == Some(instance_views(v@)),
    {
        match self {
            DrawCommand::Mesh { instance_data, .. } => instance_data.as_ref(),
            DrawCommand::Primitive { instance_data, .. } => instance_data.as_ref(),
        }
    }
}

/// A builder for creating draw commands.
pub struct DrawCommandBuilder {
    command: DrawCommand,
}

impl View for DrawCommandBuilder {
    type V = DrawCommandView;

    /// The command that `build` will return.
    closed spec fn view(&self) -> DrawCommandView {
        self.command@
    }
}

impl DrawCommandBuilder {
    /// Creates a builder for a command that draws a cached mesh, without
    /// instances and with the identity transform.
    pub fn new_mesh(mesh_id: usize) -> (b: Self)
        ensures
            b@ == (DrawCommandView::Mesh {
                mesh_id,
                instance_data: None,
                transform: identity_cols(),
            }),
    {
        Self {
            command: DrawCommand::Mesh { mesh_id, instance_data: None, transform: mat4_identity() },
        }
    }

    /// Creates a builder for a command that draws inline geometry, without
    /// instances and with the identity transform.
    pub fn new_primitive(
        vertices: Vec<Vertex>,
        indices: Option<Vec<u32>>,
        primitive_type: PrimitiveType,
    ) -> (b: Self)
        ensures
            b@ == (DrawCommandView::Primitive {
                vertices: vertices@,
                indices: optional_indices(indices),
                primitive_type,
                instance_data: None,
                transform: identity_cols(),
            }),
    {
        Self {
            command: DrawCommand::Primitive {
                vertices,
                indices,
                primitive_type,
                instance_data: None,
                transform: mat4_identity(),
            },
        }
    }

    /// Sets the instance data of the draw command.
    pub fn with_instances(self, instance_data: Vec<InstanceData>) -> (b: Self)
        ensures
            b@ == self@.with_instances(instance_views(instance_data@)),
    {
        match self.command {
            DrawCommand::Mesh { mesh_id, instance_data: _, transform } => Self {
                command: DrawCommand::Mesh {
                    mesh_id,
                    instance_data: Some(instance_data),
                    transform,
                },
            },
            DrawCommand::Primitive {
                vertices,
                indices,
                primitive_type,
                instance_data: _,
                transform,
            } => Self {
                command: DrawCommand::Primitive {
                    vertices,
                    indices,
                    primitive_type,
                    instance_data: Some(instance_data),
                    transform,
                },
            },
        }
    }

    /// Sets the transformation matrix of the draw command.
    pub fn with_transform(self, transform: Mat4) -> (b: Self)
        ensures
            b@ == self@.with_transform(mat4_cols(transform)),
    {
        match self.command {
            DrawCommand::Mesh { mesh_id, instance_data, transform: _ } => Self {
                command: DrawCommand::Mesh { mesh_id, instance_data, transform },
            },
            DrawCommand::Primitive {
                vertices,
                indices,
                primitive_type,
                instance_data,
                transform: _,
            } => Self {
                command: DrawCommand::Primitive {
                    vertices,
                    indices,
                    primitive_type,
                    instance_data,
                    transform,
                },
            },
        }
    }

    /// Builds the draw command.
    pub fn build(self) -> (c: DrawCommand)
        ensures
            c@ == self@,
    {
        self.command
    }
}

/// The commands of a sequence, in order.
pub open spec fn command_views(commands: Seq<DrawCommand>) -> Seq<DrawCommandView> {
    commands.map_values(|c: DrawCommand| c@)
}

/// The commands of a sequence, each with the components of its model
/// transform made canonical.
pub open spec fn canonical_transforms(commands: Seq<DrawCommandView>) -> Seq<DrawCommandView> {
    commands.map_values(|c: DrawCommandView| c.with_canonical_transform())
}

/// `after` is `before` with commands added at its end, and the added
/// commands are `added` but for which pattern of "not a number" stands in
/// their model transforms.
pub open spec fn extended_by(
    before: Seq<DrawCommandView>,
    after: Seq<DrawCommandView>,
    added: Seq<DrawCommandView>,
) -> bool {
    &&& after.len() == before.len() + added.len()
    &&& after.take(before.len() as int) == before
    &&& canonical_transforms(after.skip(before.len() as int)) == added
}

/// A queue is itself, extended by nothing.
pub proof fn lemma_extended_by_nothing(queue: Seq<DrawCommandView>)
    ensures
        extended_by(queue, queue, Seq::empty()),
{
    assert(queue.take(queue.len() as int) =~= queue);
    assert(canonical_transforms(queue.skip(queue.len() as int)) =~= Seq::empty());
}

/// Adding one more command extends the queue by one more.
pub proof fn lemma_extended_by_one_more(
    before: Seq<DrawCommandView>,
    after: Seq<DrawCommandView>,
    added: Seq<DrawCommandView>,
    command: DrawCommandView,
)
    requires
        extended_by(before, after, added),
    ensures
        extended_by(before, after.push(command), added.push(command.with_canonical_transform())),
{
    let longer = after.push(command);
    assert(longer.take(before.len() as int) =~= after.take(before.len() as int));
    assert(canonical_transforms(longer.skip(before.len() as int)) =~= canonical_transforms(
        after.skip(before.len() as int),
    ).push(command.with_canonical_transform()));
}

/// Extending a queue twice extends it by both additions, in turn.
pub proof fn lemma_extended_by_both(
    before: Seq<DrawCommandView>,
    between: Seq<DrawCommandView>,
    after: Seq<DrawCommandView>,
    first: Seq<DrawCommandView>,
    second: Seq<DrawCommandView>,
)
    requires
        extended_by(before, between, first),
        extended_by(between, after, second),
    ensures
        extended_by(before, after, first + second),
{
    assert(after.take(before.len() as int) =~= between.take(before.len() as int)) by {
        assert forall|i: int| 0 <= i < before.len() implies after[i] == between[i] by {
            assert(after.take(between.len() as int)[i] == between[i]);
        }
    }
    let tail = after.skip(before.len() as int);
    assert(canonical_transforms(tail) =~= first + second) by {
        assert forall|i: int| 0 <= i < tail.len() implies canonical_transforms(tail)[i] == (first
            + second)[i] by {
            if i < first.len() {
                assert(after.take(between.len() as int)[before.len() + i] == between[before.len()
                    + i]);
                assert(canonical_transforms(between.skip(before.len() as int))[i] == first[i]);
            } else {
                assert(canonical_transforms(after.skip(between.len() as int))[i - first.len()]
                    == second[i - first.len()]);
            }
        }
    }
}

/// A queue of draw commands for rendering, in the order in which they were
/// added.
pub struct RenderQueue {
    pub draw_commands: Vec<DrawCommand>,
}

impl View for RenderQueue {
    type V = Seq<DrawCommandView>;

    open spec fn view(&self) -> Seq<DrawCommandView> {
        command_views(self.draw_commands@)
    }
}

impl Default for RenderQueue {
    fn default() -> (q: Self)
        ensures
            q@ == Seq::<DrawCommandView>::empty(),
    {
        let q = RenderQueue { draw_commands: Vec::new() };
        assert(q@ =~= Seq::<DrawCommandView>::empty());
        q
    }
}

impl RenderQueue {
    /// Creates a new, empty queue.
    pub fn new() -> (q: Self)
        ensures
            q@ == Seq::<DrawCommandView>::empty(),
    {
        let q = RenderQueue { draw_commands: Vec::new() };
        assert(q@ =~= Seq::<DrawCommandView>::empty());
        q
    }

    /// Adds a draw command at the end of the queue.
    pub fn add_draw_command(&mut self, command: DrawCommand)
        ensures
            final(self)@ == old(self)@.push(command@),
    {
        self.draw_commands.push(command);
        assert(self@ =~= old(self)@.push(command@));
    }

    /// Returns all draw commands in the queue, in order.
    pub fn get_draw_commands(&self) -> (commands: &[DrawCommand])
        ensures
            command_views(commands@) == self@,
    {
        self.draw_commands.as_slice()
    }

    /// Empties the queue and returns what it held, in order.
    pub fn drain(&mut self) -> (commands: Vec<DrawCommand>)
        ensures
            command_views(commands@) == old(self)@,
            final(self)@ == Seq::<DrawCommandView>::empty(),
    {
        let mut commands: Vec<DrawCommand> = Vec::new();
        core::mem::swap(&mut self.draw_commands, &mut commands);
        assert(self@ =~= Seq::<DrawCommandView>::empty());
        commands
    }
}

/// What a queue holds after the commands `added` were added to it one by
/// one, in order.
pub open spec fn after_adding(queue: Seq<DrawCommandView>, added: Seq<DrawCommandView>) -> Seq<
    DrawCommandView,
>
    decreases added.len(),
{
    if added.len() == 0 {
        queue
    } else {
        after_adding(queue.push(added[0]), added.skip(1))
    }
}

/// The queue is first in, first out: after any number of commands were
/// added, it holds what it held before, followed by the added commands in
/// the order in which they were added. Draining a queue that was empty
/// before therefore gives exactly the added commands, in that order.
pub proof fn lemma_queue_is_fifo(queue: Seq<DrawCommandView>, added: Seq<DrawCommandView>)
    ensures
        after_adding(queue, added) == queue + added,
        queue.len() == 0 ==> after_adding(queue, added) == added,
    decreases added.len(),
{
    if added.len() == 0 {
        assert(queue + added =~= queue);
    } else {
        lemma_queue_is_fifo(queue.push(added[0]), added.skip(1));
        assert(queue.push(added[0]) + added.skip(1) =~= queue + added);
    }
    if queue.len() == 0 {
        assert(queue + added =~= added);
    }
}

} // verus!
