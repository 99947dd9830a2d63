//! Vertex data, its layout in buffers, and meshes.

use vstd::prelude::*;
use crate::bytes::{halves_to_bytes, is_half_image, is_word_image, words_to_bytes};
use crate::pass::{
    mesh_commands, BindSource, IndexFormat, RenderCommand, VertexSource, TEXTURE_GROUP,
    VERTEX_SLOT,
};

verus! {

/// A position in model space: three binary32 bit patterns.
#[derive(Clone, Copy, Debug, PartialEq, Eq)]
pub struct Position(pub [u32; 3]);

/// A texture coordinate: two binary32 bit patterns.
#[derive(Clone, Copy, Debug, PartialEq, Eq)]
pub struct UV(pub [u32; 2]);

/// One vertex of a mesh, as it lies in a vertex buffer.
#[derive(Clone, Copy, Debug, PartialEq, Eq)]
pub struct Vertex {
    pub position: Position,
    pub tex_coords: UV,
}

/// A 4x4 matrix as it lies in an instance buffer: four columns of four
/// binary32 bit patterns each.
#[derive(Clone, Copy, Debug, PartialEq, Eq)]
pub struct InstanceRaw {
    pub model: [[u32; 4]; 4],
}

/// The type of one vertex attribute.
#[derive(Clone, Copy, Debug, PartialEq, Eq)]
pub enum VertexFormat {
    Float32x2,
    Float32x3,
    Float32x4,
}

/// Whether a buffer advances per vertex or per instance.
#[derive(Clone, Copy, Debug, PartialEq, Eq)]
pub enum VertexStepMode {
    Vertex,
    Instance,
}

/// One attribute of a vertex buffer: where it starts within an element, the
/// shader input it feeds, and its type.
#[derive(Clone, Copy, Debug, PartialEq, Eq)]
pub struct VertexAttribute {
    pub offset: u64,
    pub shader_location: u32,
    pub format: VertexFormat,
}

/// How the elements of a vertex buffer are laid out.
#[derive(Debug, PartialEq, Eq)]
pub struct VertexBufferLayout {
    pub array_stride: u64,
    pub step_mode: VertexStepMode,
    pub attributes: Vec<VertexAttribute>,
}

/// Why a mesh was refused.
#[derive(Clone, Copy, Debug, PartialEq, Eq)]
pub enum MeshError {
    /// The vertex list is empty.
    NoVertices,
    /// There are more indices than one draw call can address.
    TooManyIndices,
    /// An index refers to a vertex that does not exist.
    InvalidIndex,
}

/// Vertex and index data ready for upload, with the number of indices.
#[derive(Debug)]
pub struct Mesh {
    vertex_bytes: Vec<u8>,
    index_bytes: Vec<u8>,
    len: u32,
}

impl VertexFormat {
    /// Size of an attribute of this type in bytes.
    pub open spec fn spec_size(self) -> int {
        match self {
            VertexFormat::Float32x2 => 8,
            VertexFormat::Float32x3 => 12,
            VertexFormat::Float32x4 => 16,
        }
    }

    /// Size of an attribute of this type in bytes.
    pub fn size(self) -> (n: u64)
        ensures
            n == self.spec_size(),
    {
        match self {
            VertexFormat::Float32x2 => 8,
            VertexFormat::Float32x3 => 12,
            VertexFormat::Float32x4 => 16,
        }
    }
}

impl VertexAttribute {
    /// The first byte after the attribute.
    pub open spec fn end(self) -> int {
        self.offset + self.format.spec_size()
    }
}

impl VertexBufferLayout {
    /// Every attribute lies within one element, no two of them overlap, and
    /// no shader location is fed twice.
    pub open spec fn wf(self) -> bool {
        &&& forall|i: int|
            0 <= i < self.attributes@.len() ==> (#[trigger] self.attributes@[i]).end()
                <= self.array_stride
        &&& forall|i: int, j: int|
            0 <= i < j < self.attributes@.len() ==> {
                &&& (#[trigger] self.attributes@[i]).end() <= (
                #[trigger] self.attributes@[j]).offset
                &&& self.attributes@[i].shader_location != self.attributes@[j].shader_location
            }
    }

    /// The layout feeds shader location `location`.
    pub open spec fn feeds(self, location: u32) -> bool {
        exists|i: int|
            0 <= i < self.attributes@.len() && (#[trigger] self.attributes@[i]).shader_location
                == location
    }
}

impl Vertex {
    /// Number of 32-bit words of one vertex.
    pub open spec fn spec_words() -> int {
        5
    }

    /// Word `k` of the vertex: the position, then the texture coordinate.
    pub open spec fn word(self, k: int) -> u32 {
        if k < 3 {
            self.position.0@[k]
        } else {
            self.tex_coords.0@[k - 3]
        }
    }

    /// `layout` is the layout of a buffer of vertices: the position at
    /// location 0 and the texture coordinate at location 1, five words in
    /// all, one element for each vertex.
    pub open spec fn is_desc(layout: VertexBufferLayout) -> bool {
        &&& layout.array_stride == 4 * Vertex::spec_words()
        &&& layout.step_mode == VertexStepMode::Vertex
        &&& layout.attributes@ == seq![
            (VertexAttribute { offset: 0, shader_location: 0, format: VertexFormat::Float32x3 }),
            (VertexAttribute { offset: 12, shader_location: 1, format: VertexFormat::Float32x2 }),
        ]
    }

    /// The layout of a buffer of vertices.
    pub fn desc() -> (layout: VertexBufferLayout)
        ensures
            Vertex::is_desc(layout),
            layout.wf(),
    {
        let mut attributes: Vec<VertexAttribute> = Vec::new();
        attributes.push(
            VertexAttribute { offset: 0, shader_location: 0, format: VertexFormat::Float32x3 },
        );
        attributes.push(
            VertexAttribute { offset: 12, shader_location: 1, format: VertexFormat::Float32x2 },
        );
        assert(attributes@ =~= seq![
            (VertexAttribute { offset: 0, shader_location: 0, format: VertexFormat::Float32x3 }),
            (VertexAttribute { offset: 12, shader_location: 1, format: VertexFormat::Float32x2 }),
        ]);
        VertexBufferLayout { array_stride: 20, step_mode: VertexStepMode::Vertex, attributes }
    }
}

impl InstanceRaw {
    /// Number of 32-bit words of one instance.
    pub open spec fn spec_words() -> int {
        16
    }

    /// Word `k` of the matrix, column after column.
    pub open spec fn word(self, k: int) -> u32 {
        self.model@[k / 4]@[k % 4]
    }

    /// `layout` is the layout of a buffer of instances: the four columns of
    /// the matrix at locations 5 to 8, sixteen words in all, one element for
    /// each instance.
    pub open spec fn is_desc(layout: VertexBufferLayout) -> bool {
        &&& layout.array_stride == 4 * InstanceRaw::spec_words()
        &&& layout.step_mode == VertexStepMode::Instance
        &&& layout.attributes@.len() == 4
        &&& forall|c: int|
            0 <= c < 4 ==> #[trigger] layout.attributes@[c] == (VertexAttribute {
                offset: (16 * c) as u64,
                shader_location: (5 + c) as u32,
                format: VertexFormat::Float32x4,
            })
    }

    /// The layout of a buffer of instances.
    pub fn desc() -> (layout: VertexBufferLayout)
        ensures
            InstanceRaw::is_desc(layout),
            layout.wf(),
    {
        let mut attributes: Vec<VertexAttribute> = Vec::new();
        let mut c: u32 = 0;
        while c < 4
            invariant
                c <= 4,
                attributes@.len() == c,
                forall|k: int|
                    0 <= k < c ==> #[trigger] attributes@[k] == (VertexAttribute {
                        offset: (16 * k) as u64,
                        shader_location: (5 + k) as u32,
                        format: VertexFormat::Float32x4,
                    }),
            decreases 4 - c,
        {
            attributes.push(
                VertexAttribute {
                    offset: 16 * (c as u64),
                    shader_location: 5 + c,
                    format: VertexFormat::Float32x4,
                },
            );
            c += 1;
        }
        VertexBufferLayout { array_stride: 64, step_mode: VertexStepMode::Instance, attributes }
    }
}

/// The words of a list of vertices, vertex after vertex.
pub open spec fn vertex_words(vertices: Seq<Vertex>) -> Seq<u32> {
    Seq::new(5 * vertices.len(), |i: int| vertices[i / 5].word(i % 5))
}

/// The words of a list of instances, matrix after matrix.
pub open spec fn instance_words(instances: Seq<InstanceRaw>) -> Seq<u32> {
    Seq::new(16 * instances.len(), |i: int| instances[i / 16].word(i % 16))
}

/// Every index refers to one of `count` vertices.
pub open spec fn indices_in_range(indices: Seq<u16>, count: int) -> bool {
    forall|i: int| 0 <= i < indices.len() ==> (#[trigger] indices[i]) < count
}

/// The outcome that `Mesh::new` owes on given input.
pub open spec fn mesh_verdict(vertices: Seq<Vertex>, indices: Seq<u16>) -> Result<(), MeshError> {
    if vertices.len() == 0 {
        Err(MeshError::NoVertices)
    } else if indices.len() > u32::MAX {
        Err(MeshError::TooManyIndices)
    } else if !indices_in_range(indices, vertices.len() as int) {
        Err(MeshError::InvalidIndex)
    } else {
        Ok(())
    }
}

/// Lays out a list of vertices as words.
pub fn flatten_vertices(vertices: &[Vertex]) -> (words: Vec<u32>)
    ensures
        words@ == vertex_words(vertices@),
{
    let mut words: Vec<u32> = Vec::new();
    let mut i: usize = 0;
    while i < vertices.len()
        invariant
            i <= vertices.len(),
            words@ == vertex_words(vertices@.take(i as int)),
        decreases vertices.len() - i,
    {
        let v = vertices[i];
        words.push(v.position.0[0]);
        words.push(v.position.0[1]);
        words.push(v.position.0[2]);
        words.push(v.tex_coords.0[0]);
        words.push(v.tex_coords.0[1]);
        i += 1;
        assert(words@ =~= vertex_words(vertices@.take(i as int)));
    }
    assert(vertices@.take(vertices@.len() as int) =~= vertices@);
    words
}

/// Lays out a list of instances as words.
pub fn flatten_instances(instances: &[InstanceRaw]) -> (words: Vec<u32>)
    ensures
        words@ == instance_words(instances@),
{
    let mut words: Vec<u32> = Vec::new();
    let mut i: usize = 0;
    while i < instances.len()
        invariant
            i <= instances.len(),
            words@ == instance_words(instances@.take(i as int)),
        decreases instances.len() - i,
    {
        let m = instances[i];
        let mut k: usize = 0;
        while k < 16
            invariant
                k <= 16,
                i < instances.len(),
                m == instances@[i as int],
                words@.len() == 16 * i + k,
                forall|j: int| 0 <= j < 16 * i ==> words@[j] == instances@[j / 16].word(j % 16),
                forall|j: int| 0 <= j < k ==> words@[16 * i + j] == m.word(j),
            decreases 16 - k,
        {
            words.push(m.model[k / 4][k % 4]);
            k += 1;
        }
        i += 1;
        assert(words@ =~= instance_words(instances@.take(i as int)));
    }
    assert(instances@.take(instances@.len() as int) =~= instances@);
    words
}

/// Tells whether every index refers to one of `count` vertices.
pub fn check_indices(indices: &[u16], count: usize) -> (ok: bool)
    ensures
        ok == indices_in_range(indices@, count as int),
{
    let mut i: usize = 0;
    while i < indices.len()
        invariant
            i <= indices.len(),
            indices_in_range(indices@.take(i as int), count as int),
        decreases indices.len() - i,
    {
        if indices[i] as usize >= count {
            return false;
        }
        i += 1;
        assert forall|j: int| 0 <= j < i implies (#[trigger] indices@.take(i as int)[j])
            < count by {
            if j < i - 1 {
                assert(indices@.take(i - 1)[j] == indices@[j]);
            }
        }
    }
    assert(indices@.take(indices@.len() as int) =~= indices@);
    true
}

impl Mesh {
    /// The bytes of the vertex buffer.
    pub closed spec fn vertex_image(&self) -> Seq<u8> {
        self.vertex_bytes@
    }

    /// The bytes of the index buffer.
    pub closed spec fn index_image(&self) -> Seq<u8> {
        self.index_bytes@
    }

    /// The number of indices.
    pub closed spec fn spec_len(&self) -> u32 {
        self.len
    }

    /// The mesh holds exactly this vertex and index data.
    pub open spec fn holds(&self, vertices: Seq<Vertex>, indices: Seq<u16>) -> bool {
        &&& is_word_image(self.vertex_image(), vertex_words(vertices))
        &&& is_half_image(self.index_image(), indices)
        &&& self.spec_len() == indices.len()
    }

    /// Checks vertex and index data and lays them out for upload.
    ///
    /// The data is accepted when there is at least one vertex, every index
    /// refers to an existing vertex, and the indices can be counted in 32
    /// bits; otherwise the first of these that fails is reported.
    pub fn new(vertices: &[Vertex], indices: &[u16]) -> (result: Result<Mesh, MeshError>)
        ensures
            match result {
                Ok(mesh) => mesh_verdict(vertices@, indices@) is Ok && mesh.holds(
                    vertices@,
                    indices@,
                ),
                Err(e) => mesh_verdict(vertices@, indices@) == Err::<(), MeshError>(e),
            },
    {
        if vertices.len() == 0 {
            return Err(MeshError::NoVertices);
        }
        if indices.len() > u32::MAX as usize {
            return Err(MeshError::TooManyIndices);
        }
        if !check_indices(indices, vertices.len()) {
            return Err(MeshError::InvalidIndex);
        }
        let words = flatten_vertices(vertices);
        let vertex_bytes = words_to_bytes(words.as_slice());
        let index_bytes = halves_to_bytes(indices);
        Ok(Mesh { vertex_bytes, index_bytes, len: indices.len() as u32 })
    }

    /// Appends the commands that draw this mesh, registered under `mesh_id`,
    /// with the texture `texture_id`, once for each of `instances` instances.
    pub fn draw(
        &self,
        mesh_id: usize,
        texture_id: usize,
        instances: u32,
        commands: &mut Vec<RenderCommand>,
    )
        ensures
            final(commands)@ == old(commands)@ + mesh_commands(
                mesh_id,
                texture_id,
                self.spec_len(),
                instances,
            ),
    {
        commands.push(
            RenderCommand::SetBindGroup {
                index: TEXTURE_GROUP,
                group: BindSource::Texture(texture_id),
            },
        );
        commands.push(
            RenderCommand::SetVertexBuffer {
                slot: VERTEX_SLOT,
                buffer: VertexSource::Mesh(mesh_id),
            },
        );
        commands.push(RenderCommand::SetIndexBuffer { mesh: mesh_id, format: IndexFormat::Uint16 });
        commands.push(
            RenderCommand::DrawIndexed {
                index_start: 0,
                index_end: self.len,
                base_vertex: 0,
                instance_start: 0,
                instance_end: instances,
            },
        );
    }

    /// The bytes of the vertex buffer.
    pub fn vertex_bytes(&self) -> (bytes: &[u8])
        ensures
            bytes@ == self.vertex_image(),
    {
        self.vertex_bytes.as_slice()
    }

    /// The bytes of the index buffer.
    pub fn index_bytes(&self) -> (bytes: &[u8])
        ensures
            bytes@ == self.index_image(),
    {
        self.index_bytes.as_slice()
    }

    /// The number of indices.
    #[verifier::when_used_as_spec(spec_len)]
    pub fn len(&self) -> (n: u32)
        ensures
            n == self.spec_len(),
    {
        self.len
    }
}

/// The bit pattern of the binary32 number 0.5.
pub const HALF_BITS: u32 = 0x3F00_0000;

/// The bit pattern of the binary32 number -0.5.
pub const MINUS_HALF_BITS: u32 = 0xBF00_0000;

/// The bit pattern of the binary32 number 1.0.
pub const UNIT_BITS: u32 = 0x3F80_0000;

/// The corner of the unit square at `(x, y, 0)` with texture coordinate
/// `(u, v)`.
pub open spec fn corner(x: u32, y: u32, u: u32, v: u32) -> Vertex {
    Vertex { position: Position([x, y, 0u32]), tex_coords: UV([u, v]) }
}

/// The four corners of the unit square in the plane `z = 0`: top left, top
/// right, bottom left, bottom right, with texture coordinates that start at
/// the top left corner.
pub open spec fn quad() -> Seq<Vertex> {
    seq![
        corner(MINUS_HALF_BITS, HALF_BITS, 0, 0),
        corner(HALF_BITS, HALF_BITS, UNIT_BITS, 0),
        corner(MINUS_HALF_BITS, MINUS_HALF_BITS, 0, UNIT_BITS),
        corner(HALF_BITS, MINUS_HALF_BITS, UNIT_BITS, UNIT_BITS),
    ]
}

/// The four corners of the unit square.
pub fn quad_vertices() -> (vertices: Vec<Vertex>)
    ensures
        vertices@ == quad(),
{
    let mut vertices: Vec<Vertex> = Vec::new();
    vertices.push(
        Vertex { position: Position([MINUS_HALF_BITS, HALF_BITS, 0]), tex_coords: UV([0, 0]) },
    );
    vertices.push(
        Vertex { position: Position([HALF_BITS, HALF_BITS, 0]), tex_coords: UV([UNIT_BITS, 0]) },
    );
    vertices.push(
        Vertex {
            position: Position([MINUS_HALF_BITS, MINUS_HALF_BITS, 0]),
            tex_coords: UV([0, UNIT_BITS]),
        },
    );
    vertices.push(
        Vertex {
            position: Position([HALF_BITS, MINUS_HALF_BITS, 0]),
            tex_coords: UV([UNIT_BITS, UNIT_BITS]),
        },
    );
    assert(vertices@ =~= quad());
    vertices
}

/// The two triangles of the unit square.
pub fn quad_indices() -> (indices: Vec<u16>)
    ensures
        indices@ == seq![0u16, 1, 2, 1, 2, 3],
{
    let mut indices: Vec<u16> = Vec::new();
    indices.push(0);
    indices.push(1);
    indices.push(2);
    indices.push(1);
    indices.push(2);
    indices.push(3);
    assert(indices@ =~= seq![0u16, 1, 2, 1, 2, 3]);
    indices
}

} // verus!
