//! Descriptors: what a device is told when buffers, textures, samplers, bind
//! groups and the render pipeline are created.

use vstd::prelude::*;
use crate::buffers::{InstanceRaw, Mesh, Vertex, VertexBufferLayout};
use crate::context::Context;
use crate::matrix::MatrixUniform;
use crate::pass::{INSTANCE_SLOT, TEXTURE_GROUP, TRANSFORM_GROUP, VERTEX_SLOT};
use crate::texture::{DepthTexture, Extent3d, Texture, TextureFormat};

verus! {

/// The shader stage that sees a binding.
#[derive(Clone, Copy, Debug, PartialEq, Eq)]
pub enum ShaderStage {
    Vertex,
    Fragment,
}

/// What a binding of a bind group layout takes.
#[derive(Clone, Copy, Debug, PartialEq, Eq)]
pub enum BindingType {
    /// A uniform buffer without dynamic offset.
    UniformBuffer,
    /// A two-dimensional texture of filterable floats.
    Texture,
    /// A filtering sampler.
    Sampler,
}

/// One binding of a bind group layout.
#[derive(Clone, Copy, Debug, PartialEq, Eq)]
pub struct BindGroupLayoutEntry {
    pub binding: u32,
    pub visibility: ShaderStage,
    pub ty: BindingType,
}

/// What is bound to a binding of a bind group.
#[derive(Clone, Copy, Debug, PartialEq, Eq)]
pub enum BindingResource {
    /// The whole buffer of the owner.
    Buffer,
    /// The default view of the owner's texture.
    TextureView,
    /// The owner's sampler.
    Sampler,
}

/// One binding of a bind group.
#[derive(Clone, Copy, Debug, PartialEq, Eq)]
pub struct BindGroupEntry {
    pub binding: u32,
    pub resource: BindingResource,
}

/// What a sampler does beyond the edge of a texture.
#[derive(Clone, Copy, Debug, PartialEq, Eq)]
pub enum AddressMode {
    ClampToEdge,
    Repeat,
    MirrorRepeat,
}

/// How a sampler picks between texels.
#[derive(Clone, Copy, Debug, PartialEq, Eq)]
pub enum FilterMode {
    Nearest,
    Linear,
}

/// A comparison of depths.
#[derive(Clone, Copy, Debug, PartialEq, Eq)]
pub enum CompareFunction {
    Less,
    LessEqual,
}

/// The range of levels of detail of a sampler, in quarters of a level.
#[derive(Clone, Copy, Debug, PartialEq, Eq)]
pub struct LodClamp {
    pub min_quarters: u32,
    pub max_quarters: u32,
}

/// How a texture is sampled.
#[derive(Clone, Copy, Debug, PartialEq, Eq)]
pub struct SamplerDescriptor {
    pub address_mode_u: AddressMode,
    pub address_mode_v: AddressMode,
    pub address_mode_w: AddressMode,
    pub mag_filter: FilterMode,
    pub min_filter: FilterMode,
    pub mipmap_filter: FilterMode,
    /// The comparison of a comparison sampler.
    pub compare: Option<CompareFunction>,
    /// The range of levels of detail, where it is not the device's default.
    pub lod_clamp: Option<LodClamp>,
}

/// What a buffer is used for.
#[derive(Clone, Copy, Debug, PartialEq, Eq)]
pub enum BufferUsage {
    Vertex,
    Index,
    /// A uniform buffer that is written to after its creation.
    UniformCopyDst,
}

/// A buffer to create with its contents.
#[derive(Clone, Copy, Debug, PartialEq, Eq)]
pub struct BufferInit<'a> {
    pub usage: BufferUsage,
    pub contents: &'a [u8],
}

/// What a texture is used for.
#[derive(Clone, Copy, Debug, PartialEq, Eq)]
pub enum TextureUsage {
    /// Sampled in shaders, and written to after its creation.
    BindingCopyDst,
    /// Rendered to, and sampled in shaders.
    AttachmentBinding,
}

/// A two-dimensional texture to create.
#[derive(Clone, Copy, Debug, PartialEq, Eq)]
pub struct TextureDescriptor {
    pub size: Extent3d,
    pub mip_level_count: u32,
    pub sample_count: u32,
    pub format: TextureFormat,
    pub usage: TextureUsage,
}

/// How vertices are assembled to primitives.
#[derive(Clone, Copy, Debug, PartialEq, Eq)]
pub enum PrimitiveTopology {
    TriangleList,
}

/// The winding of the front of a triangle.
#[derive(Clone, Copy, Debug, PartialEq, Eq)]
pub enum FrontFace {
    Ccw,
    Cw,
}

/// A side of a triangle.
#[derive(Clone, Copy, Debug, PartialEq, Eq)]
pub enum Face {
    Front,
    Back,
}

/// How a fragment is combined with what the target holds.
#[derive(Clone, Copy, Debug, PartialEq, Eq)]
pub enum BlendState {
    Replace,
}

/// The render pipeline to create.
#[derive(Debug)]
pub struct RenderPipelineDescriptor {
    pub vertex_entry: &'static str,
    pub fragment_entry: &'static str,
    /// The layouts of the vertex buffers, by slot.
    pub buffers: Vec<VertexBufferLayout>,
    /// The layouts of the bind groups, by slot.
    pub bind_group_layouts: Vec<Vec<BindGroupLayoutEntry>>,
    pub topology: PrimitiveTopology,
    pub front_face: FrontFace,
    pub cull_mode: Option<Face>,
    pub blend: BlendState,
    pub depth_format: TextureFormat,
    pub depth_write_enabled: bool,
    pub depth_compare: CompareFunction,
    pub sample_count: u32,
}

/// The resource is of the kind that the binding takes.
pub open spec fn resource_fits(resource: BindingResource, ty: BindingType) -> bool {
    match ty {
        BindingType::UniformBuffer => resource == BindingResource::Buffer,
        BindingType::Texture => resource == BindingResource::TextureView,
        BindingType::Sampler => resource == BindingResource::Sampler,
    }
}

/// The bind group fills every binding of the layout, in order, with a
/// resource of the right kind.
pub open spec fn entries_fit(
    entries: Seq<BindGroupEntry>,
    layout: Seq<BindGroupLayoutEntry>,
) -> bool {
    &&& entries.len() == layout.len()
    &&& forall|i: int|
        0 <= i < entries.len() ==> (#[trigger] entries[i]).binding == layout[i].binding
            && resource_fits(entries[i].resource, layout[i].ty)
}

/// The layout of the bind group of a texture: the texture at binding 0 and
/// its sampler at binding 1, both for the fragment stage.
pub open spec fn texture_layout() -> Seq<BindGroupLayoutEntry> {
    seq![
        (BindGroupLayoutEntry {
            binding: 0,
            visibility: ShaderStage::Fragment,
            ty: BindingType::Texture,
        }),
        (BindGroupLayoutEntry {
            binding: 1,
            visibility: ShaderStage::Fragment,
            ty: BindingType::Sampler,
        }),
    ]
}

/// The layout of the bind group of the transform uniform: the buffer at
/// binding 0, for the vertex stage.
pub open spec fn uniform_layout() -> Seq<BindGroupLayoutEntry> {
    seq![
        (BindGroupLayoutEntry {
            binding: 0,
            visibility: ShaderStage::Vertex,
            ty: BindingType::UniformBuffer,
        }),
    ]
}

/// No shader location is fed by both layouts.
pub open spec fn locations_apart(a: VertexBufferLayout, b: VertexBufferLayout) -> bool {
    forall|i: int, j: int|
        0 <= i < a.attributes@.len() && 0 <= j < b.attributes@.len() ==> (
        #[trigger] a.attributes@[i]).shader_location != (
        #[trigger] b.attributes@[j]).shader_location
}

impl RenderPipelineDescriptor {
    /// The pipeline fits the commands of a frame: the vertex buffer slots
    /// hold the layouts of vertices and of instances, which are valid and
    /// feed different shader locations, and the bind group slots hold the
    /// layouts of a texture and of the transform uniform.
    pub open spec fn fits_frame(&self) -> bool {
        &&& self.buffers@.len() == 2
        &&& Vertex::is_desc(self.buffers@[VERTEX_SLOT as int])
        &&& InstanceRaw::is_desc(self.buffers@[INSTANCE_SLOT as int])
        &&& self.buffers@[0].wf()
        &&& self.buffers@[1].wf()
        &&& locations_apart(self.buffers@[0], self.buffers@[1])
        &&& self.bind_group_layouts@.len() == 2
        &&& self.bind_group_layouts@[TEXTURE_GROUP as int]@ == texture_layout()
        &&& self.bind_group_layouts@[TRANSFORM_GROUP as int]@ == uniform_layout()
    }
}

impl Texture {
    /// The texture to create for the pixels.
    pub fn descriptor(&self) -> (d: TextureDescriptor)
        ensures
            d == (TextureDescriptor {
                size: Extent3d::flat(self.spec_width(), self.spec_height()),
                mip_level_count: 1,
                sample_count: 1,
                format: TextureFormat::Rgba8UnormSrgb,
                usage: TextureUsage::BindingCopyDst,
            }),
    {
        TextureDescriptor {
            size: self.extent(),
            mip_level_count: 1,
            sample_count: 1,
            format: self.format(),
            usage: TextureUsage::BindingCopyDst,
        }
    }

    /// The sampler of a texture: clamped at the edges, linear when
    /// magnified, nearest otherwise.
    pub fn sampler() -> (s: SamplerDescriptor)
        ensures
            s == (SamplerDescriptor {
                address_mode_u: AddressMode::ClampToEdge,
                address_mode_v: AddressMode::ClampToEdge,
                address_mode_w: AddressMode::ClampToEdge,
                mag_filter: FilterMode::Linear,
                min_filter: FilterMode::Nearest,
                mipmap_filter: FilterMode::Nearest,
                compare: None,
                lod_clamp: None,
            }),
    {
        let edge = AddressMode::ClampToEdge;
        SamplerDescriptor {
            address_mode_u: edge,
            address_mode_v: edge,
            address_mode_w: edge,
            mag_filter: FilterMode::Linear,
            min_filter: FilterMode::Nearest,
            mipmap_filter: FilterMode::Nearest,
            compare: None,
            lod_clamp: None,
        }
    }

    /// The layout of the bind group of a texture.
    pub fn create_bind_group_layout() -> (layout: Vec<BindGroupLayoutEntry>)
        ensures
            layout@ == texture_layout(),
    {
        let fragment = ShaderStage::Fragment;
        let first_entry = BindGroupLayoutEntry {
            binding: 0,
            visibility: fragment,
            ty: BindingType::Texture,
        };
        let second_entry = BindGroupLayoutEntry {
            binding: 1,
            visibility: fragment,
            ty: BindingType::Sampler,
        };
        let mut layout: Vec<BindGroupLayoutEntry> = Vec::new();
        layout.push(first_entry);
        layout.push(second_entry);
        assert(layout@ =~= texture_layout());
        layout
    }

    /// The bind group of a texture: its view and its sampler, as its layout
    /// asks for them.
    pub fn create_bind_group() -> (entries: Vec<BindGroupEntry>)
        ensures
            entries@ == seq![
                (BindGroupEntry { binding: 0, resource: BindingResource::TextureView }),
                (BindGroupEntry { binding: 1, resource: BindingResource::Sampler }),
            ],
            entries_fit(entries@, texture_layout()),
    {
        let mut entries: Vec<BindGroupEntry> = Vec::new();
        entries.push(BindGroupEntry { binding: 0, resource: BindingResource::TextureView });
        entries.push(BindGroupEntry { binding: 1, resource: BindingResource::Sampler });
        assert(entries@ =~= seq![
            (BindGroupEntry { binding: 0, resource: BindingResource::TextureView }),
            (BindGroupEntry { binding: 1, resource: BindingResource::Sampler }),
        ]);
        entries
    }
}

impl DepthTexture {
    /// The texture to create for the depth buffer.
    pub fn descriptor(&self) -> (d: TextureDescriptor)
        ensures
            d == (TextureDescriptor {
                size: Extent3d::flat(self.spec_width(), self.spec_height()),
                mip_level_count: 1,
                sample_count: 1,
                format: TextureFormat::Depth32Float,
                usage: TextureUsage::AttachmentBinding,
            }),
    {
        TextureDescriptor {
            size: self.extent(),
            mip_level_count: 1,
            sample_count: 1,
            format: DepthTexture::depth_format(),
            usage: TextureUsage::AttachmentBinding,
        }
    }

    /// The sampler of a depth buffer: clamped at the edges, linear, nearer or
    /// equal compares as true, over the levels of detail from 0 to 100.
    pub fn sampler() -> (s: SamplerDescriptor)
        ensures
            s == (SamplerDescriptor {
                address_mode_u: AddressMode::ClampToEdge,
                address_mode_v: AddressMode::ClampToEdge,
                address_mode_w: AddressMode::ClampToEdge,
                mag_filter: FilterMode::Linear,
                min_filter: FilterMode::Linear,
                mipmap_filter: FilterMode::Nearest,
                compare: Some(CompareFunction::LessEqual),
                lod_clamp: Some(LodClamp { min_quarters: 0, max_quarters: 400 }),
            }),
    {
        let clamp = AddressMode::ClampToEdge;
        SamplerDescriptor {
            address_mode_u: clamp,
            address_mode_v: clamp,
            address_mode_w: clamp,
            mag_filter: FilterMode::Linear,
            min_filter: FilterMode::Linear,
            mipmap_filter: FilterMode::Nearest,
            compare: Some(CompareFunction::LessEqual),
            lod_clamp: Some(LodClamp { min_quarters: 0, max_quarters: 400 }),
        }
    }
}

impl Mesh {
    /// The vertex buffer to create for the mesh.
    pub fn create_vertex_buffer(&self) -> (init: BufferInit<'_>)
        ensures
            init.usage == BufferUsage::Vertex,
            init.contents@ == self.vertex_image(),
    {
        BufferInit { usage: BufferUsage::Vertex, contents: self.vertex_bytes() }
    }

    /// The index buffer to create for the mesh.
    pub fn create_index_buffer(&self) -> (init: BufferInit<'_>)
        ensures
            init.usage == BufferUsage::Index,
            init.contents@ == self.index_image(),
    {
        BufferInit { usage: BufferUsage::Index, contents: self.index_bytes() }
    }
}

impl MatrixUniform {
    /// The uniform buffer to create: the bytes of the matrix, open to later
    /// writes.
    pub fn create_buffer(&self) -> (init: BufferInit<'_>)
        ensures
            init.usage == BufferUsage::UniformCopyDst,
            init.contents@ == self.image(),
    {
        BufferInit { usage: BufferUsage::UniformCopyDst, contents: self.bytes() }
    }

    /// The layout of the bind group of the transform uniform.
    pub fn bind_group_layout() -> (layout: Vec<BindGroupLayoutEntry>)
        ensures
            layout@ == uniform_layout(),
    {
        let mut layout: Vec<BindGroupLayoutEntry> = Vec::new();
        layout.push(
            BindGroupLayoutEntry {
                binding: 0,
                visibility: ShaderStage::Vertex,
                ty: BindingType::UniformBuffer,
            },
        );
        assert(layout@ =~= uniform_layout());
        layout
    }

    /// The bind group of the transform uniform: its whole buffer, as its
    /// layout asks for it.
    pub fn create_bind_group() -> (entries: Vec<BindGroupEntry>)
        ensures
            entries@ == seq![(BindGroupEntry { binding: 0, resource: BindingResource::Buffer })],
            entries_fit(entries@, uniform_layout()),
    {
        let mut entries: Vec<BindGroupEntry> = Vec::new();
        entries.push(BindGroupEntry { binding: 0, resource: BindingResource::Buffer });
        assert(entries@ =~= seq![
            (BindGroupEntry { binding: 0, resource: BindingResource::Buffer }),
        ]);
        entries
    }
}

impl Context {
    /// The render pipeline of every frame: the shader entry points, vertices
    /// in slot 0 and instances in slot 1, the texture in bind group 0 and the
    /// transform in bind group 1, filled triangles seen from both sides, and
    /// a depth test that lets the nearer fragment win.
    pub fn create_render_pipeline() -> (d: RenderPipelineDescriptor)
        ensures
            d.fits_frame(),
            d.vertex_entry@ == "vs_main"@,
            d.fragment_entry@ == "fs_main"@,
            d.topology == PrimitiveTopology::TriangleList,
            d.front_face == FrontFace::Ccw,
            d.cull_mode == None::<Face>,
            d.blend == BlendState::Replace,
            d.depth_format == DepthTexture::spec_depth_format(),
            d.depth_write_enabled,
            d.depth_compare == CompareFunction::Less,
            d.sample_count == 1,
    {
        let mut buffers: Vec<VertexBufferLayout> = Vec::new();
        buffers.push(Vertex::desc());
        buffers.push(InstanceRaw::desc());
        let mut bind_group_layouts: Vec<Vec<BindGroupLayoutEntry>> = Vec::new();
        bind_group_layouts.push(Texture::create_bind_group_layout());
        bind_group_layouts.push(MatrixUniform::bind_group_layout());
        RenderPipelineDescriptor {
            vertex_entry: "vs_main",
            fragment_entry: "fs_main",
            buffers,
            bind_group_layouts,
            topology: PrimitiveTopology::TriangleList,
            front_face: FrontFace::Ccw,
            cull_mode: None,
            blend: BlendState::Replace,
            depth_format: DepthTexture::depth_format(),
            depth_write_enabled: true,
            depth_compare: CompareFunction::Less,
            sample_count: 1,
        }
    }
}

} // verus!
