//! The frame loop as a function from events to actions.
//!
//! The window system reports events; the loop decides, and whoever owns the
//! window and the device performs the action that comes back.

use vstd::prelude::*;
use crate::batch::distinct_keys;
use crate::context::{Context, FrameError, FrameState, Recovery};
use crate::matrix::identity_matrix;
use crate::scene::{GameLogic, Key};
use crate::texture::DepthTexture;

verus! {

/// What the window system reports, as far as the loop reacts to it.
#[derive(Clone, Copy, Debug, PartialEq, Eq)]
pub enum Event {
    /// The window wants its contents drawn.
    RedrawRequested,
    /// The window has a new size.
    Resized { width: u32, height: u32 },
    /// The user asked to close the window.
    CloseRequested,
    /// A key went down.
    KeyPressed(Key),
    /// All pending events are handled.
    AboutToWait,
    /// Anything else, and any event of another window.
    Other,
}

/// What the owner of the window and the device has to do next.
#[derive(Clone, Copy, Debug, PartialEq, Eq)]
pub enum Action {
    /// Nothing.
    Nothing,
    /// Perform the frame that was collected.
    Draw,
    /// Configure the surface and rebuild the depth buffer for the size that
    /// the context holds.
    Reconfigure,
    /// Ask the window for a redraw.
    RequestRedraw,
    /// Leave the event loop.
    Exit,
}

/// The frame loop: a scene, the context it draws into, and the keys pressed
/// since the last frame.
pub struct App<'a, G: GameLogic> {
    game_logic: &'a mut G,
    context: Context,
    inputs: Vec<Key>,
}

impl<'a, G: GameLogic> App<'a, G> {
    /// The context.
    pub closed spec fn spec_context(&self) -> Context {
        self.context
    }

    /// The keys pressed since the last frame, oldest first.
    pub closed spec fn spec_inputs(&self) -> Seq<Key> {
        self.inputs@
    }

    /// The context is valid.
    pub open spec fn wf(&self) -> bool {
        self.spec_context().wf()
    }

    /// A loop for a window of the given size. The scene registers its
    /// resources at once.
    pub fn new(width: u32, height: u32, game_logic: &'a mut G) -> (app: App<'a, G>)
        ensures
            app.wf(),
            app.spec_inputs().len() == 0,
            app.spec_context().spec_width() == width,
            app.spec_context().spec_height() == height,
            app.spec_context().spec_state() == if width > 0 && height > 0 {
                FrameState::Configured
            } else {
                FrameState::Uninitialized
            },
            app.spec_context().spec_requests().len() == 0,
            app.spec_context().spec_draw_calls().len() == 0,
            app.spec_context().spec_uniform().spec_matrix() == identity_matrix(),
    {
        let mut context = Context::new(width, height);
        context.init(game_logic);
        App { game_logic, context, inputs: Vec::new() }
    }

    /// Takes one event and says what to do about it.
    pub fn main_loop(&mut self, event: Event) -> (action: Action)
        requires
            old(self).wf(),
        ensures
            final(self).wf(),
            reaction(*old(self), event, *final(self), action),
    {
        self.handle_event(event)
    }

    fn handle_event(&mut self, event: Event) -> (action: Action)
        requires
            old(self).wf(),
        ensures
            final(self).wf(),
            reaction(*old(self), event, *final(self), action),
    {
        match event {
            Event::RedrawRequested => {
                let mut inputs: Vec<Key> = Vec::new();
                core::mem::swap(&mut self.inputs, &mut inputs);
                self.game_logic.input(inputs);
                self.context.render(self.game_logic);
                Action::Draw
            },
            Event::AboutToWait => Action::RequestRedraw,
            _ => self.handle_window_event(event),
        }
    }

    fn handle_window_event(&mut self, event: Event) -> (action: Action)
        requires
            old(self).wf(),
            event != Event::RedrawRequested,
            event != Event::AboutToWait,
        ensures
            final(self).wf(),
            reaction(*old(self), event, *final(self), action),
    {
        match event {
            Event::Resized { width, height } => {
                if self.context.resize(width, height) {
                    Action::Reconfigure
                } else {
                    Action::Nothing
                }
            },
            Event::CloseRequested => Action::Exit,
            Event::KeyPressed(key) => {
                self.inputs.push(key);
                Action::Nothing
            },
            _ => Action::Nothing,
        }
    }

    /// Says what to do about a frame that failed, and brings the context to
    /// where the next frame can begin.
    pub fn frame_failed(&mut self, error: FrameError) -> (action: Action)
        requires
            old(self).wf(),
        ensures
            final(self).wf(),
            action == match error.spec_recovery() {
                Recovery::SkipFrame => Action::Nothing,
                Recovery::Reconfigure => Action::Reconfigure,
                Recovery::Abort => Action::Exit,
            },
            final(self).spec_inputs() == old(self).spec_inputs(),
            final(self).spec_context().spec_state() == if old(self).spec_context().spec_state()
                == FrameState::Rendering {
                FrameState::Configured
            } else {
                old(self).spec_context().spec_state()
            },
            final(self).spec_context().spec_width() == old(self).spec_context().spec_width(),
            final(self).spec_context().spec_height() == old(self).spec_context().spec_height(),
            final(self).spec_context().spec_registry() == old(self).spec_context().spec_registry(),
            final(self).spec_context().spec_requests() == old(self).spec_context().spec_requests(),
            final(self).spec_context().spec_draw_calls()
                == old(self).spec_context().spec_draw_calls(),
            final(self).spec_context().spec_uniform() == old(self).spec_context().spec_uniform(),
            final(self).spec_context().spec_depth_texture()
                == old(self).spec_context().spec_depth_texture(),
    {
        let _ = self.context.end_frame();
        match error.recovery() {
            Recovery::SkipFrame => Action::Nothing,
            Recovery::Reconfigure => Action::Reconfigure,
            Recovery::Abort => Action::Exit,
        }
    }

    /// The context.
    pub fn context(&self) -> (context: &Context)
        ensures
            *context == self.spec_context(),
    {
        &self.context
    }

    /// The context, for the steps of a frame.
    pub fn context_mut(&mut self) -> (context: &mut Context)
        ensures
            *context == old(self).spec_context(),
            final(self).spec_context() == *final(context),
            final(self).spec_inputs() == old(self).spec_inputs(),
    {
        &mut self.context
    }

    /// The number of keys pressed since the last frame.
    pub fn pending_inputs(&self) -> (n: usize)
        ensures
            n == self.spec_inputs().len(),
    {
        self.inputs.len()
    }
}

/// How the loop reacts to an event: the state it is left in and the action
/// it asks for.
pub open spec fn reaction<G: GameLogic>(
    before: App<G>,
    event: Event,
    after: App<G>,
    action: Action,
) -> bool {
    match event {
        Event::RedrawRequested => {
            &&& action == Action::Draw
            &&& after.spec_inputs().len() == 0
            &&& after.spec_context().spec_registry().extends(before.spec_context().spec_registry())
            &&& after.spec_context().spec_state() == before.spec_context().spec_state()
            &&& after.spec_context().spec_width() == before.spec_context().spec_width()
            &&& after.spec_context().spec_height() == before.spec_context().spec_height()
            &&& after.spec_context().spec_draw_calls().len() == distinct_keys(
                after.spec_context().spec_requests(),
            ).len()
            &&& after.spec_context().spec_uniform() == before.spec_context().spec_uniform()
            &&& after.spec_context().spec_depth_texture()
                == before.spec_context().spec_depth_texture()
        },
        Event::Resized { width, height } => {
            &&& action == if width > 0 && height > 0 {
                Action::Reconfigure
            } else {
                Action::Nothing
            }
            &&& after.spec_context() == before.spec_context().after_resize(width, height)
            &&& width > 0 && height > 0 ==> {
                &&& after.spec_context().spec_width() == width
                &&& after.spec_context().spec_height() == height
                &&& after.spec_context().spec_depth_texture() == (DepthTexture { width, height })
                &&& after.spec_context().spec_state() == FrameState::Configured
            }
            &&& width == 0 || height == 0 ==> after.spec_context() == before.spec_context()
            &&& after.spec_context().spec_registry() == before.spec_context().spec_registry()
            &&& after.spec_context().spec_requests() == before.spec_context().spec_requests()
            &&& after.spec_context().spec_draw_calls() == before.spec_context().spec_draw_calls()
            &&& after.spec_context().spec_uniform() == before.spec_context().spec_uniform()
            &&& after.spec_inputs() == before.spec_inputs()
        },
        Event::CloseRequested => {
            &&& action == Action::Exit
            &&& after.spec_context() == before.spec_context()
            &&& after.spec_inputs() == before.spec_inputs()
        },
        Event::KeyPressed(key) => {
            &&& action == Action::Nothing
            &&& after.spec_context() == before.spec_context()
            &&& after.spec_inputs() == before.spec_inputs().push(key)
        },
        Event::AboutToWait => {
            &&& action == Action::RequestRedraw
            &&& after.spec_context() == before.spec_context()
            &&& after.spec_inputs() == before.spec_inputs()
        },
        Event::Other => {
            &&& action == Action::Nothing
            &&& after.spec_context() == before.spec_context()
            &&& after.spec_inputs() == before.spec_inputs()
        },
    }
}

} // verus!
