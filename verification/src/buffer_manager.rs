//! The buffer manager: fixed-capacity stores for vertices, indices and
//! instances, a single-slot uniform store and the size of the depth
//! attachment.
//!
//! Every store is allocated once, at its full capacity. An update copies the
//! given records to the front of the store and remembers how many there
//! were; data that does not fit is refused and nothing is written.

use vstd::prelude::*;
use crate::common::{Color, RendererError, Uniforms, UniformsView, Vertex};
use crate::linear::{identity_cols, mat4_identity};
use crate::render_queue::{instance_views, InstanceData, InstanceDataView};

verus! {

/// The capacity of the vertex store.
pub const MAX_VERTICES: usize = 65_536;

/// The capacity of the index store: three indices for each vertex.
pub const MAX_INDICES: usize = 196_608;

/// The capacity of the instance store.
pub const MAX_INSTANCES: usize = 4_096;

/// Fixed-capacity stores for vertex, index, uniform and instance data.
pub struct BufferManager {
    vertex_buffer: Vec<Vertex>,
    index_buffer: Vec<u32>,
    instance_buffer: Vec<InstanceData>,
    uniform_buffer: Option<Uniforms>,
    depth_texture: Option<(u64, u64)>,
    vertex_count: usize,
    index_count: usize,
    instance_count: usize,
}

/// What a buffer manager holds.
pub struct BufferManagerView {
    /// The vertex store, all of it
    pub vertex_buffer: Seq<Vertex>,
    /// The index store, all of it
    pub index_buffer: Seq<u32>,
    /// The instance store, all of it
    pub instance_buffer: Seq<InstanceDataView>,
    /// The uniform record, once one was written
    pub uniform_buffer: Option<UniformsView>,
    /// Width and height of the depth texture, once one was asked for
    pub depth_texture: Option<(u64, u64)>,
    /// How many vertices the last vertex update wrote
    pub vertex_count: nat,
    /// How many indices the last index update wrote
    pub index_count: nat,
    /// How many instances the last instance update wrote
    pub instance_count: nat,
}

impl BufferManagerView {
    /// Nothing was written yet: the counts are zero, there is no uniform
    /// record and no depth texture, and every record of the stores is
    /// blank: a vertex and an index of zeros, an instance with the identity
    /// matrix and a color of zeros.
    pub open spec fn is_blank(self) -> bool {
        &&& self.vertex_count == 0
        &&& self.index_count == 0
        &&& self.instance_count == 0
        &&& self.uniform_buffer is None
        &&& self.depth_texture is None
        &&& forall|i: int|
            0 <= i < self.vertex_buffer.len() ==> (#[trigger] self.vertex_buffer[i]).position@
                == seq![0u32, 0u32, 0u32] && self.vertex_buffer[i].color@ == seq![
                0u32,
                0u32,
                0u32,
                0u32,
            ]
        &&& forall|i: int| 0 <= i < self.index_buffer.len() ==> #[trigger] self.index_buffer[i] == 0
        &&& forall|i: int|
            0 <= i < self.instance_buffer.len() ==> #[trigger] self.instance_buffer[i] == (
            InstanceDataView {
                model_matrix: identity_cols(),
                color: (Color { r: 0, g: 0, b: 0, a: 0 }),
            })
    }
}

/// A store after `data` was copied to its front: `data`, then what the
/// store held behind it.
pub open spec fn overwritten<T>(store: Seq<T>, data: Seq<T>) -> Seq<T> {
    data + store.skip(data.len() as int)
}

impl View for BufferManager {
    type V = BufferManagerView;

    closed spec fn view(&self) -> BufferManagerView {
        BufferManagerView {
            vertex_buffer: self.vertex_buffer@,
            index_buffer: self.index_buffer@,
            instance_buffer: instance_views(self.instance_buffer@),
            uniform_buffer: match self.uniform_buffer {
                Some(u) => Some(u@),
                None => None,
            },
            depth_texture: self.depth_texture,
            vertex_count: self.vertex_count as nat,
            index_count: self.index_count as nat,
            instance_count: self.instance_count as nat,
        }
    }
}

impl BufferManager {
    /// Every store has its full capacity, and no count exceeds it.
    pub open spec fn wf(&self) -> bool {
        &&& self@.vertex_buffer.len() == MAX_VERTICES
        &&& self@.index_buffer.len() == MAX_INDICES
        &&& self@.instance_buffer.len() == MAX_INSTANCES
        &&& self@.vertex_count <= MAX_VERTICES
        &&& self@.index_count <= MAX_INDICES
        &&& self@.instance_count <= MAX_INSTANCES
    }

    /// Creates a new `BufferManager` with its stores allocated and blank:
    /// nothing was written yet, there is no uniform record and no depth
    /// texture.
    pub fn new() -> (r: Result<Self, RendererError>)
        ensures
            r matches Ok(m) && m.wf() && m@.is_blank(),
    {
        let blank_vertex = Vertex { position: [0, 0, 0], color: [0, 0, 0, 0] };
        let blank_instance = InstanceData {
            model_matrix: mat4_identity(),
            color: Color::new(0, 0, 0, 0),
        };
        Ok(
            BufferManager {
                vertex_buffer: Self::create_buffer(blank_vertex, MAX_VERTICES),
                index_buffer: Self::create_buffer(0u32, MAX_INDICES),
                instance_buffer: Self::create_buffer(blank_instance, MAX_INSTANCES),
                uniform_buffer: None,
                depth_texture: None,
                vertex_count: 0,
                index_count: 0,
                instance_count: 0,
            },
        )
    }

    /// Allocates a store of `count` records.
    fn create_buffer<T: Copy>(blank: T, count: usize) -> (buffer: Vec<T>)
        ensures
            buffer@.len() == count,
            forall|i: int| 0 <= i < count ==> #[trigger] buffer@[i] == blank,
    {
        let mut buffer: Vec<T> = Vec::with_capacity(count);
        let mut i: usize = 0;
        while i < count
            invariant
                i <= count,
                buffer@.len() == i,
                forall|j: int| 0 <= j < i ==> #[trigger] buffer@[j] == blank,
            decreases count - i,
        {
            buffer.push(blank);
            i += 1;
        }
        buffer
    }

    /// Copies `data` to the front of a store of `max_count` records and
    /// returns how many records were written. Data that does not fit is
    /// refused and the store stays as it is.
    fn update_buffer<T: Copy>(buffer: &mut Vec<T>, data: &[T], max_count: usize) -> (r: Result<
        usize,
        RendererError,
    >)
        requires
            old(buffer)@.len() == max_count,
        ensures
            final(buffer)@.len() == max_count,
            data@.len() > max_count ==> r == Err::<usize, RendererError>(
                RendererError::BufferOverflow,
            ) && final(buffer)@ == old(buffer)@,
            data@.len() <= max_count ==> r == Ok::<usize, RendererError>(data@.len() as usize)
                && final(buffer)@ == overwritten(old(buffer)@, data@),
    {
        if data.len() > max_count {
            return Err(RendererError::BufferOverflow);
        }
        let mut i: usize = 0;
        while i < data.len()
            invariant
                i <= data@.len() <= max_count,
                buffer@.len() == max_count,
                old(buffer)@.len() == max_count,
                buffer@ == overwritten(old(buffer)@, data@.take(i as int)),
            decreases data.len() - i,
        {
            let ghost before = buffer@;
            buffer[i] = data[i];
            proof {
                let target = overwritten(old(buffer)@, data@.take(i + 1));
                assert(buffer@ == before.update(i as int, data@[i as int]));
                assert(target.len() == max_count);
                assert forall|j: int| 0 <= j < max_count implies buffer@[j] == target[j] by {
                    if j < i {
                        assert(before[j] == data@.take(i as int)[j]);
                    } else if j > i {
                        assert(before[j] == old(buffer)@.skip(i as int)[j - i]);
                        assert(target[j] == old(buffer)@.skip(i + 1)[j - i - 1]);
                    }
                }
                assert(buffer@ =~= target);
            }
            i += 1;
        }
        proof {
            assert(data@.take(i as int) =~= data@);
        }
        Ok(data.len())
    }

    /// Updates the vertex store with new vertex data.
    pub fn update_vertex_buffer(&mut self, vertices: &[Vertex]) -> (r: Result<(), RendererError>)
        requires
            old(self).wf(),
        ensures
            final(self).wf(),
            vertices@.len() > MAX_VERTICES ==> r == Err::<(), RendererError>(
                RendererError::BufferOverflow,
            ) && final(self)@ == old(self)@,
            vertices@.len() <= MAX_VERTICES ==> r == Ok::<(), RendererError>(()) && final(self)@ == (
            BufferManagerView {
                vertex_buffer: overwritten(old(self)@.vertex_buffer, vertices@),
                vertex_count: vertices@.len(),
                ..old(self)@
            }),
    {
        match Self::update_buffer(&mut self.vertex_buffer, vertices, MAX_VERTICES) {
            Ok(count) => {
                self.vertex_count = count;
                Ok(())
            },
            Err(e) => Err(e),
        }
    }

    /// Updates the index store with new index data.
    pub fn update_index_buffer(&mut self, indices: &[u32]) -> (r: Result<(), RendererError>)
        requires
            old(self).wf(),
        ensures
            final(self).wf(),
            indices@.len() > MAX_INDICES ==> r == Err::<(), RendererError>(
                RendererError::BufferOverflow,
            ) && final(self)@ == old(self)@,
            indices@.len() <= MAX_INDICES ==> r == Ok::<(), RendererError>(()) && final(self)@ == (
            BufferManagerView {
                index_buffer: overwritten(old(self)@.index_buffer, indices@),
                index_count: indices@.len(),
                ..old(self)@
            }),
    {
        match Self::update_buffer(&mut self.index_buffer, indices, MAX_INDICES) {
            Ok(count) => {
                self.index_count = count;
                Ok(())
            },
            Err(e) => Err(e),
        }
    }

    /// Updates the instance store with new instance data.
    pub fn update_instance_buffer(&mut self, instances: &[InstanceData]) -> (r: Result<
        (),
        RendererError,
    >)
        requires
            old(self).wf(),
        ensures
            final(self).wf(),
            instances@.len() > MAX_INSTANCES ==> r == Err::<(), RendererError>(
                RendererError::BufferOverflow,
            ) && final(self)@ == old(self)@,
            instances@.len() <= MAX_INSTANCES ==> r == Ok::<(), RendererError>(()) && final(self)@
                == (BufferManagerView {
                instance_buffer: overwritten(
                    old(self)@.instance_buffer,
                    instance_views(instances@),
                ),
                instance_count: instances@.len(),
                ..old(self)@
            }),
    {
        let ghost before = self.instance_buffer@;
        match Self::update_buffer(&mut self.instance_buffer, instances, MAX_INSTANCES) {
            Ok(count) => {
                self.instance_count = count;
                proof {
                    assert(instance_views(overwritten(before, instances@)) =~= overwritten(
                        instance_views(before),
                        instance_views(instances@),
                    ));
                }
                Ok(())
            },
            Err(e) => Err(e),
        }
    }

    /// Writes the uniform record. The one slot is overwritten as a whole.
    pub fn update_uniform_buffer(&mut self, uniforms: &Uniforms) -> (r: Result<(), RendererError>)
        requires
            old(self).wf(),
        ensures
            final(self).wf(),
            r == Ok::<(), RendererError>(()),
            final(self)@ == (BufferManagerView { uniform_buffer: Some(uniforms@), ..old(self)@ }),
    {
        self.uniform_buffer = Some(*uniforms);
        Ok(())
    }

    /// Sets the size of the depth texture, which calls for a new texture of
    /// that size.
    pub fn update_depth_texture(&mut self, width: u64, height: u64)
        requires
            old(self).wf(),
        ensures
            final(self).wf(),
            final(self)@ == (BufferManagerView {
                depth_texture: Some((width, height)),
                ..old(self)@
            }),
    {
        self.depth_texture = Some((width, height));
    }

    /// Makes sure that the depth texture has the given size. Returns
    /// whether a new texture is called for: not if the size is the one that
    /// was asked for last.
    pub fn ensure_depth_texture(&mut self, width: u64, height: u64) -> (update_needed: bool)
        requires
            old(self).wf(),
        ensures
            final(self).wf(),
            update_needed == (old(self)@.depth_texture != Some((width, height))),
            final(self)@ == (BufferManagerView {
                depth_texture: Some((width, height)),
                ..old(self)@
            }),
    {
        let update_needed = match self.depth_texture {
            Some((w, h)) => w != width || h != height,
            None => true,
        };
        if update_needed {
            self.update_depth_texture(width, height);
        }
        update_needed
    }

    /// How many vertices the last vertex update wrote.
    pub fn get_vertex_count(&self) -> (n: usize)
        ensures
            n == self@.vertex_count,
    {
        self.vertex_count
    }

    /// How many indices the last index update wrote.
    pub fn get_index_count(&self) -> (n: usize)
        ensures
            n == self@.index_count,
    {
        self.index_count
    }

    /// How many instances the last instance update wrote.
    pub fn get_instance_count(&self) -> (n: usize)
        ensures
            n == self@.instance_count,
    {
        self.instance_count
    }

    /// The vertex store, all of it.
    pub fn vertex_buffer(&self) -> (store: &[Vertex])
        ensures
            store@ == self@.vertex_buffer,
    {
        self.vertex_buffer.as_slice()
    }

    /// The index store, all of it.
    pub fn index_buffer(&self) -> (store: &[u32])
        ensures
            store@ == self@.index_buffer,
    {
        self.index_buffer.as_slice()
    }

    /// The instance store, all of it.
    pub fn instance_buffer(&self) -> (store: &[InstanceData])
        ensures
            instance_views(store@) == self@.instance_buffer,
    {
        self.instance_buffer.as_slice()
    }

    /// The uniform record, once one was written.
    pub fn uniform_buffer(&self) -> (uniforms: Option<Uniforms>)
        ensures
            uniforms is Some <==> self@.uniform_buffer is Some,
            uniforms matches Some(u) ==> self@.uniform_buffer == Some(u@),
    {
        self.uniform_buffer
    }

    /// Width and height of the depth texture, once one was asked for.
    pub fn depth_texture(&self) -> (size: Option<(u64, u64)>)
        ensures
            size == self@.depth_texture,
    {
        self.depth_texture
    }
}

} // verus!
