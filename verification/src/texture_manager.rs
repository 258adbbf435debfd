//! The texture table: textures are kept in the order in which they were
//! created and are referred to by IDs that count from one.

use vstd::prelude::*;
use crate::common::{RendererError, TextureId};

verus! {

/// A table of textures of a backend. `T` is the backend's texture type.
pub struct TextureManager<T> {
    textures: Vec<Option<T>>,
}

impl<T> View for TextureManager<T> {
    type V = Seq<Option<T>>;

    /// The slots of the table; the texture with ID `n` is in slot `n - 1`.
    closed spec fn view(&self) -> Seq<Option<T>> {
        self.textures@
    }
}

impl<T> TextureManager<T> {
    /// Creates an empty table.
    pub fn new() -> (m: Self)
        ensures
            m@ == Seq::<Option<T>>::empty(),
    {
        TextureManager { textures: Vec::new() }
    }

    /// The texture that `id` names, if there is one.
    pub open spec fn lookup(&self, id: TextureId) -> Option<T> {
        if 1 <= id.0 <= self@.len() {
            self@[id.0 - 1]
        } else {
            None
        }
    }

    /// Adds a texture to the table and returns its ID: one more than the
    /// number of textures before.
    pub fn create_texture(&mut self, texture: T) -> (id: TextureId)
        requires
            old(self)@.len() < u32::MAX,
        ensures
            id.0 == old(self)@.len() + 1,
            final(self)@ == old(self)@.push(Some(texture)),
    {
        let id = TextureId(self.textures.len() as u32 + 1);
        self.textures.push(Some(texture));
        id
    }

    /// The texture that `id` names, or `InvalidTextureId` if it names
    /// none.
    pub fn texture(&self, id: TextureId) -> (r: Result<&T, RendererError>)
        ensures
            match self.lookup(id) {
                Some(t) => r == Ok::<&T, RendererError>(&t),
                None => r == Err::<&T, RendererError>(RendererError::InvalidTextureId),
            },
    {
        if id.0 == 0 || id.0 as usize > self.textures.len() {
            return Err(RendererError::InvalidTextureId);
        }
        match &self.textures[id.0 as usize - 1] {
            Some(texture) => Ok(texture),
            None => Err(RendererError::InvalidTextureId),
        }
    }
}

} // verus!
