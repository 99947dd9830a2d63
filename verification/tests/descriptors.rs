use render_front::buffers::{quad_indices, quad_vertices, InstanceRaw, Mesh, Vertex};
use render_front::context::Context;
use render_front::matrix::MatrixUniform;
use render_front::pipeline::{
    AddressMode, BindGroupEntry, BindGroupLayoutEntry, BindingResource, BindingType, BlendState,
    BufferUsage, CompareFunction, FilterMode, FrontFace, LodClamp, PrimitiveTopology,
    SamplerDescriptor, ShaderStage, TextureDescriptor, TextureUsage,
};
use render_front::texture::{DepthTexture, Extent3d, Texture, TextureFormat};

#[test]
fn texture_bind_group_has_a_view_and_a_sampler() {
    assert_eq!(
        Texture::create_bind_group_layout(),
        vec![
            BindGroupLayoutEntry {
                binding: 0,
                visibility: ShaderStage::Fragment,
                ty: BindingType::Texture
            },
            BindGroupLayoutEntry {
                binding: 1,
                visibility: ShaderStage::Fragment,
                ty: BindingType::Sampler
            },
        ]
    );
    assert_eq!(
        Texture::create_bind_group(),
        vec![
            BindGroupEntry { binding: 0, resource: BindingResource::TextureView },
            BindGroupEntry { binding: 1, resource: BindingResource::Sampler },
        ]
    );
}

#[test]
fn uniform_bind_group_has_one_buffer() {
    assert_eq!(
        MatrixUniform::bind_group_layout(),
        vec![BindGroupLayoutEntry {
            binding: 0,
            visibility: ShaderStage::Vertex,
            ty: BindingType::UniformBuffer
        }]
    );
    assert_eq!(
        MatrixUniform::create_bind_group(),
        vec![BindGroupEntry { binding: 0, resource: BindingResource::Buffer }]
    );
}

#[test]
fn samplers_clamp_at_the_edge() {
    assert_eq!(
        Texture::sampler(),
        SamplerDescriptor {
            address_mode_u: AddressMode::ClampToEdge,
            address_mode_v: AddressMode::ClampToEdge,
            address_mode_w: AddressMode::ClampToEdge,
            mag_filter: FilterMode::Linear,
            min_filter: FilterMode::Nearest,
            mipmap_filter: FilterMode::Nearest,
            compare: None,
            lod_clamp: None,
        }
    );
    assert_eq!(
        DepthTexture::sampler(),
        SamplerDescriptor {
            address_mode_u: AddressMode::ClampToEdge,
            address_mode_v: AddressMode::ClampToEdge,
            address_mode_w: AddressMode::ClampToEdge,
            mag_filter: FilterMode::Linear,
            min_filter: FilterMode::Linear,
            mipmap_filter: FilterMode::Nearest,
            compare: Some(CompareFunction::LessEqual),
            lod_clamp: Some(LodClamp { min_quarters: 0, max_quarters: 400 }),
        }
    );
}

#[test]
fn texture_descriptors_follow_the_size() {
    let texture = Texture::from_pixels(vec![0; 4 * 6], 3, 2).unwrap();
    assert_eq!(
        texture.descriptor(),
        TextureDescriptor {
            size: Extent3d { width: 3, height: 2, depth_or_array_layers: 1 },
            mip_level_count: 1,
            sample_count: 1,
            format: TextureFormat::Rgba8UnormSrgb,
            usage: TextureUsage::BindingCopyDst,
        }
    );
    assert_eq!(
        DepthTexture::new(640, 480).descriptor(),
        TextureDescriptor {
            size: Extent3d { width: 640, height: 480, depth_or_array_layers: 1 },
            mip_level_count: 1,
            sample_count: 1,
            format: TextureFormat::Depth32Float,
            usage: TextureUsage::AttachmentBinding,
        }
    );
}

#[test]
fn buffers_are_created_with_their_bytes() {
    let mesh = Mesh::new(&quad_vertices(), &quad_indices()).unwrap();
    let vertex = mesh.create_vertex_buffer();
    assert_eq!(vertex.usage, BufferUsage::Vertex);
    assert_eq!(vertex.contents, mesh.vertex_bytes());
    let index = mesh.create_index_buffer();
    assert_eq!(index.usage, BufferUsage::Index);
    assert_eq!(index.contents, mesh.index_bytes());
    let uniform = MatrixUniform::new();
    let buffer = uniform.create_buffer();
    assert_eq!(buffer.usage, BufferUsage::UniformCopyDst);
    assert_eq!(buffer.contents.len(), 64);
    assert_eq!(buffer.contents, uniform.bytes());
}

#[test]
fn pipeline_takes_vertices_then_instances() {
    let pipeline = Context::create_render_pipeline();
    assert_eq!(pipeline.vertex_entry, "vs_main");
    assert_eq!(pipeline.fragment_entry, "fs_main");
    assert_eq!(pipeline.buffers, vec![Vertex::desc(), InstanceRaw::desc()]);
    assert_eq!(
        pipeline.bind_group_layouts,
        vec![Texture::create_bind_group_layout(), MatrixUniform::bind_group_layout()]
    );
    assert_eq!(pipeline.topology, PrimitiveTopology::TriangleList);
    assert_eq!(pipeline.front_face, FrontFace::Ccw);
    assert_eq!(pipeline.cull_mode, None);
    assert_eq!(pipeline.blend, BlendState::Replace);
    assert_eq!(pipeline.depth_format, TextureFormat::Depth32Float);
    assert!(pipeline.depth_write_enabled);
    assert_eq!(pipeline.depth_compare, CompareFunction::Less);
    assert_eq!(pipeline.sample_count, 1);
    let mut locations: Vec<u32> = pipeline
        .buffers
        .iter()
        .flat_map(|b| b.attributes.iter().map(|a| a.shader_location))
        .collect();
    locations.sort();
    assert_eq!(locations, vec![0, 1, 5, 6, 7, 8]);
}
