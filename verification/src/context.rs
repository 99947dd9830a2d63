//! The per-frame collector of draw requests, and the context that drives a
//! frame from collection to presentation.

use vstd::prelude::*;
use crate::batch::{
    batch, distinct_keys, first_keys, lemma_request_added, requests_with, transforms_of, with_key,
    DrawCall,
};
use crate::buffers::{mesh_verdict, InstanceRaw, MeshError, Vertex};
use crate::frame::{
    body_commands, draw_count, frame_commands, is_upload_of, lemma_frame_shape,
    lemma_upload_known, upload_groups, DrawBatch,
};
use crate::matrix::{identity_matrix, MatrixUniform};
use crate::pass::{
    frame_head, BindSource, ClearColor, ClearDepth, RenderCommand, VertexSource, INSTANCE_SLOT,
    TRANSFORM_GROUP,
};
use crate::registry::{lemma_extends_itself, Registry};
use crate::scene::GameLogic;
use crate::texture::{valid_pixels, DepthTexture};

verus! {

/// Why a draw request was refused.
#[derive(Clone, Copy, Debug, PartialEq, Eq)]
pub enum DrawError {
    /// No mesh is registered under the handle.
    InvalidMesh,
    /// No texture is registered under the handle.
    InvalidTexture,
    /// The frame already holds as many requests as a draw call can count.
    FrameFull,
}

/// The collector of one frame: scene logic registers resources and submits
/// draw requests here, and nothing is drawn before the frame is batched.
#[derive(Debug)]
pub struct Renderer {
    registry: Registry,
    pending: Vec<DrawCall>,
}

/// Where a context stands in its life.
#[derive(Clone, Copy, Debug, PartialEq, Eq)]
pub enum FrameState {
    /// There is no surface of a usable size yet.
    Uninitialized,
    /// The surface is configured and no frame is under way.
    Configured,
    /// A target is acquired and the frame is being recorded.
    Rendering,
}

/// Why the platform gave no target to draw on.
#[derive(Clone, Copy, Debug, PartialEq, Eq)]
pub enum SurfaceError {
    Timeout,
    Outdated,
    Lost,
    OutOfMemory,
}

/// Why a frame was not begun or not recorded.
#[derive(Clone, Copy, Debug, PartialEq, Eq)]
pub enum FrameError {
    /// The context is not in the state that the step needs.
    NotReady,
    /// No target can be had at the moment.
    SurfaceUnavailable,
    /// The surface is lost and has to be configured again.
    SurfaceLost,
    /// The surface no longer fits the window and has to be configured again.
    SurfaceOutdated,
    /// The device is out of memory.
    OutOfMemory,
}

/// What to do about a frame that failed.
#[derive(Clone, Copy, Debug, PartialEq, Eq)]
pub enum Recovery {
    /// Drop this frame and try the next one.
    SkipFrame,
    /// Configure the surface again, then try the next frame.
    Reconfigure,
    /// Give up.
    Abort,
}

/// The target of a frame under way.
#[derive(Clone, Copy, Debug, PartialEq, Eq)]
pub struct FrameTarget {
    pub width: u32,
    pub height: u32,
}

/// The device side of the renderer, without the device: the registry, the
/// size of the surface, and the draw calls of the current frame.
#[derive(Debug)]
pub struct Context {
    state: FrameState,
    width: u32,
    height: u32,
    registry: Registry,
    requests: Vec<DrawCall>,
    draw_calls: Vec<DrawBatch>,
    depth_texture: DepthTexture,
    uniform: MatrixUniform,
}

/// The outcome that `Renderer::draw` owes for a request, given the registry
/// and the number of requests already pending.
pub open spec fn draw_verdict(registry: Registry, pending: nat, d: DrawCall) -> Result<
    (),
    DrawError,
> {
    if d.mesh_id >= registry.meshes().len() {
        Err(DrawError::InvalidMesh)
    } else if d.texture_id >= registry.textures().len() {
        Err(DrawError::InvalidTexture)
    } else if pending >= u32::MAX {
        Err(DrawError::FrameFull)
    } else {
        Ok(())
    }
}

impl Renderer {
    /// The registry that the collector works on.
    pub closed spec fn registry(&self) -> Registry {
        self.registry
    }

    /// The requests submitted so far, in submission order.
    pub closed spec fn pending(&self) -> Seq<DrawCall> {
        self.pending@
    }

    /// The number of meshes registered.
    pub open spec fn mesh_total(&self) -> nat {
        self.registry().meshes().len()
    }

    /// The number of textures registered.
    pub open spec fn texture_total(&self) -> nat {
        self.registry().textures().len()
    }

    /// The registry is valid, and every pending request refers to
    /// registered resources and can be counted in 32 bits.
    pub open spec fn wf(&self) -> bool {
        &&& self.registry().wf()
        &&& self.pending().len() <= u32::MAX
        &&& forall|i: int|
            0 <= i < self.pending().len() ==> self.registry().knows(#[trigger] self.pending()[i])
    }

    /// A collector on `registry` with no request pending.
    pub fn new(registry: Registry) -> (renderer: Renderer)
        requires
            registry.wf(),
        ensures
            renderer.wf(),
            renderer.registry() == registry,
            renderer.pending().len() == 0,
    {
        Renderer { registry, pending: Vec::new() }
    }

    /// Ends the collection: the registry and the requests of the frame.
    pub fn finish(self) -> (parts: (Registry, Vec<DrawCall>))
        ensures
            parts.0 == self.registry(),
            parts.1@ == self.pending(),
    {
        (self.registry, self.pending)
    }

    /// Decodes an image file held in memory and registers it as a texture.
    /// Gives the handle, or nothing if the image is refused.
    pub fn add_texture(&mut self, bytes: &[u8]) -> (handle: Option<usize>)
        requires
            old(self).wf(),
        ensures
            final(self).wf(),
            final(self).pending() == old(self).pending(),
            final(self).registry().extends(old(self).registry()),
            final(self).registry().meshes() == old(self).registry().meshes(),
            match handle {
                Some(h) => h == old(self).texture_total() && final(self).texture_total() == h + 1,
                None => final(self).registry() == old(self).registry(),
            },
    {
        match self.registry.register_image(bytes) {
            Ok(handle) => Some(handle),
            Err(_) => {
                proof {
                    lemma_extends_itself(self.registry);
                }
                None
            },
        }
    }

    /// Registers a decoded image as a texture. Gives the handle if the pixels
    /// are a valid buffer, and nothing else.
    pub fn add_pixels(&mut self, pixels: Vec<u8>, width: u32, height: u32) -> (handle: Option<
        usize,
    >)
        requires
            old(self).wf(),
        ensures
            final(self).wf(),
            final(self).pending() == old(self).pending(),
            final(self).registry().extends(old(self).registry()),
            final(self).registry().meshes() == old(self).registry().meshes(),
            handle is Some <==> valid_pixels(pixels@, width, height),
            match handle {
                Some(h) => {
                    &&& h == old(self).texture_total()
                    &&& final(self).texture_total() == h + 1
                    &&& final(self).registry().textures()[h as int].pixel_image() == pixels@
                    &&& final(self).registry().textures()[h as int].spec_width() == width
                    &&& final(self).registry().textures()[h as int].spec_height() == height
                },
                None => final(self).registry() == old(self).registry(),
            },
    {
        match self.registry.register_texture(pixels, width, height) {
            Ok(handle) => Some(handle),
            Err(_) => {
                proof {
                    lemma_extends_itself(self.registry);
                }
                None
            },
        }
    }

    /// Registers a mesh. Gives the handle, or the reason for which the data
    /// is refused.
    pub fn add_mesh(&mut self, vertices: &[Vertex], indices: &[u16]) -> (result: Result<
        usize,
        MeshError,
    >)
        requires
            old(self).wf(),
        ensures
            final(self).wf(),
            final(self).pending() == old(self).pending(),
            final(self).registry().extends(old(self).registry()),
            final(self).registry().textures() == old(self).registry().textures(),
            match result {
                Ok(handle) => {
                    &&& mesh_verdict(vertices@, indices@) is Ok
                    &&& handle == old(self).registry().meshes().len()
                    &&& final(self).registry().meshes().len() == handle + 1
                    &&& final(self).registry().meshes()[handle as int].holds(vertices@, indices@)
                },
                Err(e) => {
                    &&& mesh_verdict(vertices@, indices@) == Err::<(), MeshError>(e)
                    &&& final(self).registry() == old(self).registry()
                },
            },
    {
        let result = self.registry.register_mesh(vertices, indices);
        proof {
            if result is Err {
                lemma_extends_itself(self.registry);
            }
        }
        result
    }

    /// Submits a draw request for this frame.
    ///
    /// A request whose handles are registered is appended to the pending
    /// ones, unless the frame is full. Any other is refused, and the frame
    /// stays as it was. An accepted request adds its pair to the pairs of
    /// the frame and its transform to the end of the list of its pair, and
    /// the transforms counted over all pairs grow by one.
    pub fn draw(&mut self, draw_call: DrawCall) -> (result: Result<(), DrawError>)
        requires
            old(self).wf(),
        ensures
            final(self).wf(),
            final(self).registry() == old(self).registry(),
            result == draw_verdict(old(self).registry(), old(self).pending().len(), draw_call),
            final(self).pending() == if result is Ok {
                old(self).pending().push(draw_call)
            } else {
                old(self).pending()
            },
            result is Ok ==> distinct_keys(final(self).pending()) == distinct_keys(
                old(self).pending(),
            ).insert(draw_call.key()),
            result is Ok ==> transforms_of(final(self).pending(), draw_call.key()) == transforms_of(
                old(self).pending(),
                draw_call.key(),
            ).push(draw_call.matrix),
            result is Ok ==> requests_with(first_keys(final(self).pending()), final(self).pending())
                == requests_with(first_keys(old(self).pending()), old(self).pending()) + 1,
    {
        if draw_call.mesh_id >= self.registry.mesh_count() {
            return Err(DrawError::InvalidMesh);
        }
        if draw_call.texture_id >= self.registry.texture_count() {
            return Err(DrawError::InvalidTexture);
        }
        if self.pending.len() >= u32::MAX as usize {
            return Err(DrawError::FrameFull);
        }
        self.pending.push(draw_call);
        proof {
            lemma_request_added(old(self).pending(), draw_call);
        }
        Ok(())
    }

    /// The number of requests pending.
    pub fn pending_count(&self) -> (n: usize)
        ensures
            n == self.pending().len(),
    {
        self.pending.len()
    }

    /// The number of meshes registered.
    pub fn mesh_count(&self) -> (n: usize)
        ensures
            n == self.registry().meshes().len(),
    {
        self.registry.mesh_count()
    }

    /// The number of textures registered.
    pub fn texture_count(&self) -> (n: usize)
        ensures
            n == self.registry().textures().len(),
    {
        self.registry.texture_count()
    }
}

impl FrameError {
    /// What to do about the failure: a target that cannot be had now costs
    /// one frame, a surface that is lost or outdated is configured again, and
    /// a device without memory ends the program.
    pub open spec fn spec_recovery(self) -> Recovery {
        match self {
            FrameError::NotReady => Recovery::SkipFrame,
            FrameError::SurfaceUnavailable => Recovery::SkipFrame,
            FrameError::SurfaceLost => Recovery::Reconfigure,
            FrameError::SurfaceOutdated => Recovery::Reconfigure,
            FrameError::OutOfMemory => Recovery::Abort,
        }
    }

    /// What to do about the failure.
    #[verifier::when_used_as_spec(spec_recovery)]
    pub fn recovery(self) -> (r: Recovery)
        ensures
            r == self.spec_recovery(),
    {
        match self {
            FrameError::NotReady => Recovery::SkipFrame,
            FrameError::SurfaceUnavailable => Recovery::SkipFrame,
            FrameError::SurfaceLost => Recovery::Reconfigure,
            FrameError::SurfaceOutdated => Recovery::Reconfigure,
            FrameError::OutOfMemory => Recovery::Abort,
        }
    }
}

impl SurfaceError {
    /// The frame error that stands for this surface error.
    pub open spec fn spec_frame_error(self) -> FrameError {
        match self {
            SurfaceError::Timeout => FrameError::SurfaceUnavailable,
            SurfaceError::Outdated => FrameError::SurfaceOutdated,
            SurfaceError::Lost => FrameError::SurfaceLost,
            SurfaceError::OutOfMemory => FrameError::OutOfMemory,
        }
    }

    /// The frame error that stands for this surface error.
    #[verifier::when_used_as_spec(spec_frame_error)]
    pub fn frame_error(self) -> (e: FrameError)
        ensures
            e == self.spec_frame_error(),
    {
        match self {
            SurfaceError::Timeout => FrameError::SurfaceUnavailable,
            SurfaceError::Outdated => FrameError::SurfaceOutdated,
            SurfaceError::Lost => FrameError::SurfaceLost,
            SurfaceError::OutOfMemory => FrameError::OutOfMemory,
        }
    }
}

impl Context {
    /// Where the context stands.
    pub closed spec fn spec_state(&self) -> FrameState {
        self.state
    }

    /// The configured width of the surface.
    pub closed spec fn spec_width(&self) -> u32 {
        self.width
    }

    /// The configured height of the surface.
    pub closed spec fn spec_height(&self) -> u32 {
        self.height
    }

    /// The registry.
    pub closed spec fn spec_registry(&self) -> Registry {
        self.registry
    }

    /// The requests of the frame that was collected last.
    pub closed spec fn spec_requests(&self) -> Seq<DrawCall> {
        self.requests@
    }

    /// The draw calls of the frame that was collected last.
    pub closed spec fn spec_draw_calls(&self) -> Seq<DrawBatch> {
        self.draw_calls@
    }

    /// The depth buffer.
    pub closed spec fn spec_depth_texture(&self) -> DepthTexture {
        self.depth_texture
    }

    /// The transform uniform.
    pub closed spec fn spec_uniform(&self) -> MatrixUniform {
        self.uniform
    }

    /// What holds of every context between calls: a configured surface has a
    /// size, the depth buffer has the size of the surface, the draw calls are
    /// those of the requests, and every request refers to registered
    /// resources.
    pub open spec fn wf(&self) -> bool {
        &&& self.spec_registry().wf()
        &&& self.spec_uniform().wf()
        &&& self.spec_state() != FrameState::Uninitialized ==> self.spec_width() > 0
            && self.spec_height() > 0
        &&& self.spec_depth_texture().spec_width() == self.spec_width()
        &&& self.spec_depth_texture().spec_height() == self.spec_height()
        &&& self.spec_requests().len() <= u32::MAX
        &&& forall|i: int|
            0 <= i < self.spec_requests().len() ==> self.spec_registry().knows(
                #[trigger] self.spec_requests()[i],
            )
        &&& is_upload_of(self.spec_draw_calls(), self.spec_requests())
    }

    /// The context as `resize` leaves it.
    pub closed spec fn after_resize(self, new_width: u32, new_height: u32) -> Context {
        if new_width > 0 && new_height > 0 {
            Context {
                state: FrameState::Configured,
                width: new_width,
                height: new_height,
                depth_texture: DepthTexture { width: new_width, height: new_height },
                ..self
            }
        } else {
            self
        }
    }

    /// A context for a surface of the given size, with an empty registry and
    /// no draw calls. It is configured if the size is not degenerate.
    pub fn new(width: u32, height: u32) -> (context: Context)
        ensures
            context.wf(),
            context.spec_state() == if width > 0 && height > 0 {
                FrameState::Configured
            } else {
                FrameState::Uninitialized
            },
            context.spec_width() == width,
            context.spec_height() == height,
            context.spec_registry().meshes().len() == 0,
            context.spec_registry().textures().len() == 0,
            context.spec_requests().len() == 0,
            context.spec_draw_calls().len() == 0,
            context.spec_uniform().spec_matrix() == identity_matrix(),
    {
        let state = if width > 0 && height > 0 {
            FrameState::Configured
        } else {
            FrameState::Uninitialized
        };
        Context {
            state,
            width,
            height,
            registry: Registry::new(),
            requests: Vec::new(),
            draw_calls: Vec::new(),
            depth_texture: DepthTexture::new(width, height),
            uniform: MatrixUniform::new(),
        }
    }

    /// Takes over a new size of the window.
    ///
    /// A size with a zero dimension changes nothing. Any other becomes the
    /// configured size, the depth buffer is rebuilt for it, and the context
    /// is configured, whatever it was before. The answer tells whether the
    /// surface has to be configured again.
    pub fn resize(&mut self, new_width: u32, new_height: u32) -> (changed: bool)
        requires
            old(self).wf(),
        ensures
            final(self).wf(),
            *final(self) == old(self).after_resize(new_width, new_height),
            changed == (new_width > 0 && new_height > 0),
            !changed ==> *final(self) == *old(self),
            changed ==> final(self).spec_width() == new_width && final(self).spec_height()
                == new_height && final(self).spec_state() == FrameState::Configured,
            changed ==> final(self).spec_depth_texture() == (DepthTexture {
                width: new_width,
                height: new_height,
            }),
            final(self).spec_registry() == old(self).spec_registry(),
            final(self).spec_requests() == old(self).spec_requests(),
            final(self).spec_draw_calls() == old(self).spec_draw_calls(),
            final(self).spec_uniform() == old(self).spec_uniform(),
    {
        if new_width > 0 && new_height > 0 {
            self.width = new_width;
            self.height = new_height;
            self.depth_texture = DepthTexture::new(new_width, new_height);
            self.state = FrameState::Configured;
            true
        } else {
            false
        }
    }

    /// Lets the scene register its resources. Requests that it submits are
    /// dropped: nothing is drawn before the first frame.
    pub fn init<G: GameLogic>(&mut self, game_logic: &mut G)
        requires
            old(self).wf(),
        ensures
            final(self).wf(),
            final(self).spec_registry().extends(old(self).spec_registry()),
            final(self).spec_state() == old(self).spec_state(),
            final(self).spec_width() == old(self).spec_width(),
            final(self).spec_height() == old(self).spec_height(),
            final(self).spec_requests() == old(self).spec_requests(),
            final(self).spec_draw_calls() == old(self).spec_draw_calls(),
            final(self).spec_uniform() == old(self).spec_uniform(),
            final(self).spec_depth_texture() == old(self).spec_depth_texture(),
    {
        let mut registry = Registry::new();
        core::mem::swap(&mut self.registry, &mut registry);
        let mut renderer = Renderer::new(registry);
        game_logic.init(&mut renderer);
        let (registry, _) = renderer.finish();
        self.registry = registry;
    }

    /// Collects the frame: lets the scene submit its draw requests, groups
    /// them, and lays out one draw call for each group.
    ///
    /// Afterwards the requests are those that the scene submitted and the
    /// collector accepted, and the draw calls are their batching: one for
    /// each `(texture, mesh)` pair among them.
    pub fn render<G: GameLogic>(&mut self, game_logic: &mut G)
        requires
            old(self).wf(),
        ensures
            final(self).wf(),
            final(self).spec_registry().extends(old(self).spec_registry()),
            final(self).spec_state() == old(self).spec_state(),
            final(self).spec_width() == old(self).spec_width(),
            final(self).spec_height() == old(self).spec_height(),
            final(self).spec_draw_calls().len() == distinct_keys(final(self).spec_requests()).len(),
            final(self).spec_uniform() == old(self).spec_uniform(),
            final(self).spec_depth_texture() == old(self).spec_depth_texture(),
    {
        let mut registry = Registry::new();
        core::mem::swap(&mut self.registry, &mut registry);
        let mut renderer = Renderer::new(registry);
        game_logic.render(&mut renderer);
        let (registry, pending) = renderer.finish();
        self.registry = registry;
        self.batch_requests(pending);
    }

    /// Makes `requests` the requests of the frame: groups them and lays out
    /// one draw call for each `(texture, mesh)` pair among them, in order of
    /// first occurrence, with the transforms of the pair in submission
    /// order. What was collected before is dropped.
    pub fn batch_requests(&mut self, requests: Vec<DrawCall>)
        requires
            old(self).wf(),
            requests@.len() <= u32::MAX,
            forall|i: int|
                0 <= i < requests@.len() ==> old(self).spec_registry().knows(
                    #[trigger] requests@[i],
                ),
        ensures
            final(self).wf(),
            final(self).spec_registry() == old(self).spec_registry(),
            final(self).spec_state() == old(self).spec_state(),
            final(self).spec_width() == old(self).spec_width(),
            final(self).spec_height() == old(self).spec_height(),
            final(self).spec_requests() == requests@,
            is_upload_of(final(self).spec_draw_calls(), requests@),
            final(self).spec_draw_calls().len() == distinct_keys(requests@).len(),
            final(self).spec_uniform() == old(self).spec_uniform(),
            final(self).spec_depth_texture() == old(self).spec_depth_texture(),
    {
        let groups = batch(&requests);
        proof {
            assert forall|i: int| 0 <= i < groups@.len() implies (
            #[trigger] groups@[i]).matrices@.len() <= u32::MAX by {
                requests@.lemma_filter_len(with_key(groups@[i].key()));
            }
        }
        self.draw_calls = upload_groups(&groups);
        self.requests = requests;
    }

    /// Begins a frame with the outcome of acquiring a target.
    ///
    /// With a target, a configured context goes on to rendering and says how
    /// large the target is. Without one, the surface error is handed on and
    /// the context stays as it is. A context that is not configured, or has a
    /// frame under way, is not ready.
    pub fn begin_frame(&mut self, acquired: Result<(), SurfaceError>) -> (result: Result<
        FrameTarget,
        FrameError,
    >)
        requires
            old(self).wf(),
        ensures
            final(self).wf(),
            result == if old(self).spec_state() != FrameState::Configured {
                Err::<FrameTarget, FrameError>(FrameError::NotReady)
            } else {
                match acquired {
                    Ok(_) => Ok(
                        FrameTarget {
                            width: old(self).spec_width(),
                            height: old(self).spec_height(),
                        },
                    ),
                    Err(e) => Err(e.spec_frame_error()),
                }
            },
            final(self).spec_state() == if result is Ok {
                FrameState::Rendering
            } else {
                old(self).spec_state()
            },
            final(self).spec_registry() == old(self).spec_registry(),
            final(self).spec_width() == old(self).spec_width(),
            final(self).spec_height() == old(self).spec_height(),
            final(self).spec_requests() == old(self).spec_requests(),
            final(self).spec_draw_calls() == old(self).spec_draw_calls(),
            final(self).spec_uniform() == old(self).spec_uniform(),
            final(self).spec_depth_texture() == old(self).spec_depth_texture(),
    {
        match self.state {
            FrameState::Configured => {},
            _ => {
                return Err(FrameError::NotReady);
            },
        }
        match acquired {
            Ok(_) => {
                self.state = FrameState::Rendering;
                Ok(FrameTarget { width: self.width, height: self.height })
            },
            Err(e) => Err(e.frame_error()),
        }
    }

    /// Records the frame under way with `transform` as the transform of the
    /// frame.
    ///
    /// The commands write the transform first, clear the target and the depth
    /// buffer, draw every draw call of the frame once, in order, and end by
    /// submitting and presenting. A context without a frame under way is not
    /// ready and stays as it is.
    pub fn record_frame(&mut self, transform: InstanceRaw) -> (result: Result<
        Vec<RenderCommand>,
        FrameError,
    >)
        requires
            old(self).wf(),
        ensures
            final(self).wf(),
            match result {
                Ok(commands) => {
                    &&& old(self).spec_state() == FrameState::Rendering
                    &&& commands@ == frame_commands(
                        old(self).spec_draw_calls(),
                        old(self).spec_registry().meshes(),
                    )
                    &&& draw_count(commands@) == old(self).spec_draw_calls().len()
                    &&& final(self).spec_uniform().spec_matrix() == transform
                },
                Err(e) => e == FrameError::NotReady && old(self).spec_state()
                    != FrameState::Rendering && *final(self) == *old(self),
            },
            final(self).spec_state() == old(self).spec_state(),
            final(self).spec_registry() == old(self).spec_registry(),
            final(self).spec_width() == old(self).spec_width(),
            final(self).spec_height() == old(self).spec_height(),
            final(self).spec_requests() == old(self).spec_requests(),
            final(self).spec_draw_calls() == old(self).spec_draw_calls(),
            final(self).spec_depth_texture() == old(self).spec_depth_texture(),
    {
        match self.state {
            FrameState::Rendering => {},
            _ => {
                return Err(FrameError::NotReady);
            },
        }
        self.uniform.update(transform);
        let mut commands: Vec<RenderCommand> = Vec::new();
        commands.push(RenderCommand::WriteTransform);
        commands.push(
            RenderCommand::BeginRenderPass { color: ClearColor::Black, depth: ClearDepth::Far },
        );
        commands.push(RenderCommand::SetPipeline);
        assert(commands@ =~= frame_head());
        let mut i: usize = 0;
        while i < self.draw_calls.len()
            invariant
                i <= self.draw_calls@.len(),
                self.wf(),
                commands@ == frame_head() + body_commands(
                    self.spec_draw_calls(),
                    self.spec_registry().meshes(),
                    i as nat,
                ),
            decreases self.draw_calls.len() - i,
        {
            let mesh_id = self.draw_calls[i].mesh_id;
            let texture_id = self.draw_calls[i].texture_id;
            let count = self.draw_calls[i].count;
            proof {
                lemma_upload_known(self.spec_draw_calls(), self.spec_requests(), i as int);
                let k = choose|k: int|
                    0 <= k < self.spec_requests().len() && self.spec_requests()[k].key()
                        == self.spec_draw_calls()[i as int].key();
                assert(self.spec_registry().knows(self.spec_requests()[k]));
            }
            commands.push(
                RenderCommand::SetVertexBuffer {
                    slot: INSTANCE_SLOT,
                    buffer: VertexSource::Instances(i),
                },
            );
            commands.push(
                RenderCommand::SetBindGroup {
                    index: TRANSFORM_GROUP,
                    group: BindSource::Transform,
                },
            );
            self.registry.mesh_at(mesh_id).draw(mesh_id, texture_id, count, &mut commands);
            i += 1;
            assert(commands@ =~= frame_head() + body_commands(
                self.spec_draw_calls(),
                self.spec_registry().meshes(),
                i as nat,
            ));
        }
        commands.push(RenderCommand::EndRenderPass);
        commands.push(RenderCommand::Submit);
        commands.push(RenderCommand::Present);
        proof {
            assert(commands@ =~= frame_commands(
                self.spec_draw_calls(),
                self.spec_registry().meshes(),
            ));
            lemma_frame_shape(self.spec_draw_calls(), self.spec_registry().meshes());
        }
        Ok(commands)
    }

    /// Ends the frame under way, after its commands were performed. Tells
    /// whether there was one.
    pub fn end_frame(&mut self) -> (ended: bool)
        requires
            old(self).wf(),
        ensures
            final(self).wf(),
            ended == (old(self).spec_state() == FrameState::Rendering),
            final(self).spec_state() == if ended {
                FrameState::Configured
            } else {
                old(self).spec_state()
            },
            !ended ==> *final(self) == *old(self),
            final(self).spec_registry() == old(self).spec_registry(),
            final(self).spec_width() == old(self).spec_width(),
            final(self).spec_height() == old(self).spec_height(),
            final(self).spec_requests() == old(self).spec_requests(),
            final(self).spec_draw_calls() == old(self).spec_draw_calls(),
            final(self).spec_uniform() == old(self).spec_uniform(),
            final(self).spec_depth_texture() == old(self).spec_depth_texture(),
    {
        match self.state {
            FrameState::Rendering => {
                self.state = FrameState::Configured;
                true
            },
            _ => false,
        }
    }

    /// Where the context stands.
    #[verifier::when_used_as_spec(spec_state)]
    pub fn state(&self) -> (s: FrameState)
        ensures
            s == self.spec_state(),
    {
        self.state
    }

    /// The configured width of the surface.
    #[verifier::when_used_as_spec(spec_width)]
    pub fn width(&self) -> (w: u32)
        ensures
            w == self.spec_width(),
    {
        self.width
    }

    /// The configured height of the surface.
    #[verifier::when_used_as_spec(spec_height)]
    pub fn height(&self) -> (h: u32)
        ensures
            h == self.spec_height(),
    {
        self.height
    }

    /// The registry.
    pub fn registry(&self) -> (r: &Registry)
        ensures
            *r == self.spec_registry(),
    {
        &self.registry
    }

    /// The requests of the frame that was collected last.
    pub fn requests(&self) -> (r: &[DrawCall])
        ensures
            r@ == self.spec_requests(),
    {
        self.requests.as_slice()
    }

    /// The draw calls of the frame that was collected last.
    pub fn draw_calls(&self) -> (d: &[DrawBatch])
        ensures
            d@ == self.spec_draw_calls(),
    {
        self.draw_calls.as_slice()
    }

    /// The depth buffer.
    pub fn depth_texture(&self) -> (d: DepthTexture)
        ensures
            d == self.spec_depth_texture(),
    {
        self.depth_texture
    }

    /// The transform uniform.
    pub fn uniform(&self) -> (u: &MatrixUniform)
        ensures
            *u == self.spec_uniform(),
    {
        &self.uniform
    }
}

/// To resize with a zero dimension changes nothing.
pub proof fn lemma_resize_degenerate(context: Context, width: u32, height: u32)
    requires
        width == 0 || height == 0,
    ensures
        context.after_resize(width, height) == context,
{
}

/// To resize to a size without a zero makes that size the configured one,
/// with a depth buffer of that size, and configures the context; the
/// registry, the requests, the draw calls and the transform are kept.
pub proof fn lemma_resize_extent(context: Context, width: u32, height: u32)
    requires
        width > 0,
        height > 0,
    ensures
        context.after_resize(width, height).spec_width() == width,
        context.after_resize(width, height).spec_height() == height,
        context.after_resize(width, height).spec_depth_texture() == (DepthTexture {
            width,
            height,
        }),
        context.after_resize(width, height).spec_state() == FrameState::Configured,
        context.after_resize(width, height).spec_registry() == context.spec_registry(),
        context.after_resize(width, height).spec_requests() == context.spec_requests(),
        context.after_resize(width, height).spec_draw_calls() == context.spec_draw_calls(),
        context.after_resize(width, height).spec_uniform() == context.spec_uniform(),
{
}

/// To resize twice to the same size is to resize once.
pub proof fn lemma_resize_idempotent(context: Context, width: u32, height: u32)
    ensures
        context.after_resize(width, height).after_resize(width, height) == context.after_resize(
            width,
            height,
        ),
{
}

} // verus!
