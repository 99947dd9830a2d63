//! The commands of a frame, as values.
//!
//! The library decides what a frame does; whoever owns the device performs
//! the commands one after the other.

use vstd::prelude::*;

verus! {

/// What a bind group is taken from.
#[derive(Clone, Copy, Debug, PartialEq, Eq)]
pub enum BindSource {
    /// The bind group of the texture with this handle.
    Texture(usize),
    /// The bind group of the frame's transform uniform.
    Transform,
}

/// What a vertex buffer is taken from.
#[derive(Clone, Copy, Debug, PartialEq, Eq)]
pub enum VertexSource {
    /// The vertex buffer of the mesh with this handle.
    Mesh(usize),
    /// The instance buffer of the draw call at this position of the frame.
    Instances(usize),
}

/// The type of the indices of an index buffer.
#[derive(Clone, Copy, Debug, PartialEq, Eq)]
pub enum IndexFormat {
    Uint16,
}

/// The color that a pass starts from.
#[derive(Clone, Copy, Debug, PartialEq, Eq)]
pub enum ClearColor {
    Black,
}

/// The depth that a pass starts from.
#[derive(Clone, Copy, Debug, PartialEq, Eq)]
pub enum ClearDepth {
    /// The far plane: depth 1.
    Far,
}

/// One step of a frame.
#[derive(Clone, Copy, Debug, PartialEq, Eq)]
pub enum RenderCommand {
    /// Write the transform uniform's contents to its buffer.
    WriteTransform,
    /// Open the render pass on the acquired target and the depth buffer.
    BeginRenderPass { color: ClearColor, depth: ClearDepth },
    /// Set the render pipeline.
    SetPipeline,
    /// Bind a bind group to a slot.
    SetBindGroup { index: u32, group: BindSource },
    /// Bind a vertex buffer to a slot.
    SetVertexBuffer { slot: u32, buffer: VertexSource },
    /// Bind the index buffer of a mesh.
    SetIndexBuffer { mesh: usize, format: IndexFormat },
    /// Draw a range of indices once for each instance of a range.
    DrawIndexed {
        index_start: u32,
        index_end: u32,
        base_vertex: i32,
        instance_start: u32,
        instance_end: u32,
    },
    /// Close the render pass.
    EndRenderPass,
    /// Hand the recorded commands to the queue.
    Submit,
    /// Show the target.
    Present,
}

/// The bind group slot of textures.
pub const TEXTURE_GROUP: u32 = 0;

/// The bind group slot of the transform uniform.
pub const TRANSFORM_GROUP: u32 = 1;

/// The vertex buffer slot of mesh vertices.
pub const VERTEX_SLOT: u32 = 0;

/// The vertex buffer slot of instances.
pub const INSTANCE_SLOT: u32 = 1;

/// The commands by which a mesh is drawn with a texture: bind the texture,
/// the vertices and the indices, then draw all indices once for each
/// instance.
pub open spec fn mesh_commands(mesh: usize, texture: usize, len: u32, instances: u32) -> Seq<
    RenderCommand,
> {
    seq![
        (RenderCommand::SetBindGroup { index: TEXTURE_GROUP, group: BindSource::Texture(texture) }),
        (RenderCommand::SetVertexBuffer { slot: VERTEX_SLOT, buffer: VertexSource::Mesh(mesh) }),
        (RenderCommand::SetIndexBuffer { mesh, format: IndexFormat::Uint16 }),
        (RenderCommand::DrawIndexed {
            index_start: 0,
            index_end: len,
            base_vertex: 0,
            instance_start: 0,
            instance_end: instances,
        }),
    ]
}

/// The commands of the draw call at position `at` of a frame: bind its
/// instances and the transform, then draw the mesh.
pub open spec fn draw_commands(
    at: usize,
    mesh: usize,
    texture: usize,
    len: u32,
    instances: u32,
) -> Seq<RenderCommand> {
    seq![
        (RenderCommand::SetVertexBuffer {
            slot: INSTANCE_SLOT,
            buffer: VertexSource::Instances(at),
        }),
        (RenderCommand::SetBindGroup { index: TRANSFORM_GROUP, group: BindSource::Transform }),
    ] + mesh_commands(mesh, texture, len, instances)
}

/// The commands with which every frame starts.
pub open spec fn frame_head() -> Seq<RenderCommand> {
    seq![
        RenderCommand::WriteTransform,
        (RenderCommand::BeginRenderPass { color: ClearColor::Black, depth: ClearDepth::Far }),
        RenderCommand::SetPipeline,
    ]
}

/// The commands with which every frame ends.
pub open spec fn frame_tail() -> Seq<RenderCommand> {
    seq![RenderCommand::EndRenderPass, RenderCommand::Submit, RenderCommand::Present]
}

impl RenderCommand {
    /// The command is a draw call.
    pub open spec fn is_draw(self) -> bool {
        self is DrawIndexed
    }
}

} // verus!
