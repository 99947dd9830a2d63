//! The resource registry: the pools of meshes and textures, and the handles
//! under which they are found.

use vstd::prelude::*;
use crate::batch::DrawCall;
use crate::buffers::{mesh_verdict, Mesh, MeshError, Vertex};
use crate::texture::{valid_pixels, Texture, TextureError};

verus! {

/// The pools of meshes and textures. A handle is the position of a resource
/// in its pool; resources are added and never removed or changed.
#[derive(Debug)]
pub struct Registry {
    meshes: Vec<Mesh>,
    textures: Vec<Texture>,
}

impl Registry {
    /// The meshes, by handle.
    pub closed spec fn meshes(&self) -> Seq<Mesh> {
        self.meshes@
    }

    /// The textures, by handle.
    pub closed spec fn textures(&self) -> Seq<Texture> {
        self.textures@
    }

    /// Every texture of the registry is valid.
    pub open spec fn wf(&self) -> bool {
        forall|i: int| 0 <= i < self.textures().len() ==> (#[trigger] self.textures()[i]).wf()
    }

    /// Both handles of the request are registered.
    pub open spec fn knows(&self, d: DrawCall) -> bool {
        d.mesh_id < self.meshes().len() && d.texture_id < self.textures().len()
    }

    /// The registry holds all that `earlier` held, under the same handles.
    pub open spec fn extends(&self, earlier: Registry) -> bool {
        &&& earlier.meshes().len() <= self.meshes().len()
        &&& self.meshes().take(earlier.meshes().len() as int) == earlier.meshes()
        &&& earlier.textures().len() <= self.textures().len()
        &&& self.textures().take(earlier.textures().len() as int) == earlier.textures()
    }

    /// A registry without resources.
    pub fn new() -> (registry: Registry)
        ensures
            registry.meshes().len() == 0,
            registry.textures().len() == 0,
            registry.wf(),
    {
        Registry { meshes: Vec::new(), textures: Vec::new() }
    }

    /// Checks a mesh and takes it into the pool.
    ///
    /// Well-formed data is always accepted and gets the next handle; data
    /// that `Mesh::new` refuses leaves the registry as it was.
    pub fn register_mesh(&mut self, vertices: &[Vertex], indices: &[u16]) -> (result: Result<
        usize,
        MeshError,
    >)
        ensures
            match result {
                Ok(handle) => {
                    &&& mesh_verdict(vertices@, indices@) is Ok
                    &&& handle == old(self).meshes().len()
                    &&& final(self).meshes().len() == handle + 1
                    &&& final(self).meshes()[handle as int].holds(vertices@, indices@)
                    &&& final(self).extends(*old(self))
                    &&& final(self).textures() == old(self).textures()
                },
                Err(e) => {
                    &&& mesh_verdict(vertices@, indices@) == Err::<(), MeshError>(e)
                    &&& *final(self) == *old(self)
                },
            },
    {
        match Mesh::new(vertices, indices) {
            Ok(mesh) => {
                self.meshes.push(mesh);
                assert(self.meshes@.take(old(self).meshes@.len() as int) =~= old(self).meshes@);
                assert(self.textures@.take(self.textures@.len() as int) =~= self.textures@);
                Ok(self.meshes.len() - 1)
            },
            Err(e) => Err(e),
        }
    }

    /// Takes a decoded image into the pool.
    ///
    /// A valid pixel buffer is always accepted and gets the next handle; any
    /// other is refused and leaves the registry as it was.
    pub fn register_texture(&mut self, pixels: Vec<u8>, width: u32, height: u32) -> (result:
        Result<usize, TextureError>)
        requires
            old(self).wf(),
        ensures
            final(self).wf(),
            result is Ok <==> valid_pixels(pixels@, width, height),
            match result {
                Ok(handle) => {
                    &&& handle == old(self).textures().len()
                    &&& final(self).textures().len() == handle + 1
                    &&& final(self).textures()[handle as int].pixel_image() == pixels@
                    &&& final(self).textures()[handle as int].spec_width() == width
                    &&& final(self).textures()[handle as int].spec_height() == height
                    &&& final(self).extends(*old(self))
                    &&& final(self).meshes() == old(self).meshes()
                },
                Err(e) => e == TextureError::DecodeFailed && *final(self) == *old(self),
            },
    {
        match Texture::from_pixels(pixels, width, height) {
            Ok(texture) => Ok(self.push_texture(texture)),
            Err(e) => Err(e),
        }
    }

    /// Decodes an image file held in memory and takes it into the pool.
    ///
    /// Whether the bytes decode is the decoder's word; a refusal leaves the
    /// registry as it was.
    pub fn register_image(&mut self, bytes: &[u8]) -> (result: Result<usize, TextureError>)
        requires
            old(self).wf(),
        ensures
            final(self).wf(),
            match result {
                Ok(handle) => {
                    &&& handle == old(self).textures().len()
                    &&& final(self).textures().len() == handle + 1
                    &&& final(self).extends(*old(self))
                    &&& final(self).meshes() == old(self).meshes()
                },
                Err(e) => e == TextureError::DecodeFailed && *final(self) == *old(self),
            },
    {
        match Texture::new(bytes) {
            Ok(texture) => Ok(self.push_texture(texture)),
            Err(e) => Err(e),
        }
    }

    fn push_texture(&mut self, texture: Texture) -> (handle: usize)
        requires
            old(self).wf(),
            texture.wf(),
        ensures
            final(self).wf(),
            handle == old(self).textures().len(),
            final(self).textures() == old(self).textures().push(texture),
            final(self).extends(*old(self)),
            final(self).meshes() == old(self).meshes(),
    {
        self.textures.push(texture);
        assert forall|i: int| 0 <= i < self.textures@.len() implies (
        #[trigger] self.textures@[i]).wf() by {
            if i < old(self).textures@.len() {
                assert(old(self).textures()[i].wf());
            }
        }
        assert(self.textures@.take(old(self).textures@.len() as int) =~= old(self).textures@);
        assert(self.meshes@.take(self.meshes@.len() as int) =~= self.meshes@);
        self.textures.len() - 1
    }

    /// The number of meshes, which is the next mesh handle.
    pub fn mesh_count(&self) -> (n: usize)
        ensures
            n == self.meshes().len(),
    {
        self.meshes.len()
    }

    /// The number of textures, which is the next texture handle.
    pub fn texture_count(&self) -> (n: usize)
        ensures
            n == self.textures().len(),
    {
        self.textures.len()
    }

    /// The mesh under a registered handle.
    pub(crate) fn mesh_at(&self, handle: usize) -> (mesh: &Mesh)
        requires
            handle < self.meshes().len(),
        ensures
            *mesh == self.meshes()[handle as int],
    {
        &self.meshes[handle]
    }

    /// The mesh under a handle, if there is one.
    pub fn mesh(&self, handle: usize) -> (found: Option<&Mesh>)
        ensures
            found == if handle < self.meshes().len() {
                Some(&self.meshes()[handle as int])
            } else {
                None
            },
    {
        if handle < self.meshes.len() {
            Some(&self.meshes[handle])
        } else {
            None
        }
    }

    /// The texture under a handle, if there is one.
    pub fn texture(&self, handle: usize) -> (found: Option<&Texture>)
        ensures
            found == if handle < self.textures().len() {
                Some(&self.textures()[handle as int])
            } else {
                None
            },
    {
        if handle < self.textures.len() {
            Some(&self.textures[handle])
        } else {
            None
        }
    }
}

/// A registry extends itself.
pub proof fn lemma_extends_itself(registry: Registry)
    ensures
        registry.extends(registry),
{
    assert(registry.meshes().take(registry.meshes().len() as int) =~= registry.meshes());
    assert(registry.textures().take(registry.textures().len() as int) =~= registry.textures());
}

/// Extension carries over: what extends an extension of a registry extends
/// that registry.
pub proof fn lemma_extends_transitive(a: Registry, b: Registry, c: Registry)
    requires
        b.extends(a),
        c.extends(b),
    ensures
        c.extends(a),
{
    assert(c.meshes().take(a.meshes().len() as int) =~= b.meshes().take(
        a.meshes().len() as int,
    )) by {
        assert forall|i: int| 0 <= i < a.meshes().len() implies c.meshes().take(
            a.meshes().len() as int,
        )[i] == b.meshes().take(a.meshes().len() as int)[i] by {
            assert(c.meshes().take(b.meshes().len() as int)[i] == b.meshes()[i]);
        }
    }
    assert(c.textures().take(a.textures().len() as int) =~= b.textures().take(
        a.textures().len() as int,
    )) by {
        assert forall|i: int| 0 <= i < a.textures().len() implies c.textures().take(
            a.textures().len() as int,
        )[i] == b.textures().take(a.textures().len() as int)[i] by {
            assert(c.textures().take(b.textures().len() as int)[i] == b.textures()[i]);
        }
    }
}

} // verus!
