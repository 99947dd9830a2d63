use render_front::batch::DrawCall;
use render_front::buffers::{quad_indices, quad_vertices, InstanceRaw};
use render_front::context::{FrameError, FrameState, Renderer};
use render_front::events::{Action, App, Event};
use render_front::scene::{GameLogic, Key, TestLogic};

/// A scene that remembers the keys it was given and draws one square for
/// each of them.
struct Recorder {
    keys: Vec<Key>,
    batches: Vec<usize>,
    frames: usize,
}

impl Recorder {
    fn new() -> Recorder {
        Recorder { keys: Vec::new(), batches: Vec::new(), frames: 0 }
    }
}

impl GameLogic for Recorder {
    fn render(&mut self, renderer: &mut Renderer) {
        self.frames += 1;
        for _ in &self.keys {
            let request = DrawCall { mesh_id: 0, texture_id: 0, matrix: InstanceRaw::identity() };
            renderer.draw(request).unwrap();
        }
    }

    fn init(&mut self, renderer: &mut Renderer) {
        renderer.add_mesh(&quad_vertices(), &quad_indices()).unwrap();
        let file = {
            let image = image::RgbaImage::from_raw(1, 1, vec![1, 2, 3, 4]).unwrap();
            let mut file = Vec::new();
            image::DynamicImage::ImageRgba8(image)
                .write_to(&mut std::io::Cursor::new(&mut file), image::ImageOutputFormat::Png)
                .unwrap();
            file
        };
        renderer.add_texture(&file).unwrap();
    }

    fn input(&mut self, inputs: Vec<Key>) {
        self.batches.push(inputs.len());
        self.keys.extend(inputs);
    }
}

#[test]
fn new_loop_lets_the_scene_register() {
    let mut scene = Recorder::new();
    let app = App::new(640, 480, &mut scene);
    assert_eq!(app.context().state(), FrameState::Configured);
    assert_eq!(app.context().registry().mesh_count(), 1);
    assert_eq!(app.context().registry().texture_count(), 1);
    assert_eq!(app.pending_inputs(), 0);
}

#[test]
fn close_request_leaves_the_loop() {
    let mut scene = Recorder::new();
    let mut app = App::new(640, 480, &mut scene);
    assert_eq!(app.main_loop(Event::CloseRequested), Action::Exit);
}

#[test]
fn idle_loop_asks_for_a_redraw() {
    let mut scene = Recorder::new();
    let mut app = App::new(640, 480, &mut scene);
    assert_eq!(app.main_loop(Event::AboutToWait), Action::RequestRedraw);
    assert_eq!(app.main_loop(Event::Other), Action::Nothing);
}

#[test]
fn resize_event_reconfigures_unless_degenerate() {
    let mut scene = Recorder::new();
    let mut app = App::new(640, 480, &mut scene);
    assert_eq!(app.main_loop(Event::Resized { width: 100, height: 200 }), Action::Reconfigure);
    assert_eq!((app.context().width(), app.context().height()), (100, 200));
    assert_eq!(app.main_loop(Event::Resized { width: 0, height: 200 }), Action::Nothing);
    assert_eq!(app.main_loop(Event::Resized { width: 100, height: 0 }), Action::Nothing);
    assert_eq!((app.context().width(), app.context().height()), (100, 200));
}

#[test]
fn keys_are_kept_until_the_next_frame() {
    let mut scene = Recorder::new();
    {
        let mut app = App::new(640, 480, &mut scene);
        assert_eq!(app.main_loop(Event::KeyPressed(Key::KeyA)), Action::Nothing);
        assert_eq!(app.main_loop(Event::KeyPressed(Key::Other)), Action::Nothing);
        assert_eq!(app.main_loop(Event::KeyPressed(Key::KeyD)), Action::Nothing);
        assert_eq!(app.pending_inputs(), 3);
        assert_eq!(app.main_loop(Event::RedrawRequested), Action::Draw);
        assert_eq!(app.pending_inputs(), 0);
        assert_eq!(app.context().requests().len(), 3);
        assert_eq!(app.context().draw_calls().len(), 1);
        assert_eq!(app.context().draw_calls()[0].count, 3);
        assert_eq!(app.main_loop(Event::RedrawRequested), Action::Draw);
        assert_eq!(app.main_loop(Event::KeyPressed(Key::KeyD)), Action::Nothing);
        assert_eq!(app.main_loop(Event::RedrawRequested), Action::Draw);
        assert_eq!(app.context().draw_calls()[0].count, 4);
    }
    assert_eq!(scene.keys, vec![Key::KeyA, Key::Other, Key::KeyD, Key::KeyD]);
    assert_eq!(scene.batches, vec![3, 0, 1]);
    assert_eq!(scene.frames, 3);
}

#[test]
fn frame_steps_go_through_the_context() {
    let mut scene = Recorder::new();
    let mut app = App::new(640, 480, &mut scene);
    assert_eq!(app.main_loop(Event::RedrawRequested), Action::Draw);
    assert!(app.context_mut().begin_frame(Ok(())).is_ok());
    assert_eq!(app.context().state(), FrameState::Rendering);
    let commands = app.context_mut().record_frame(InstanceRaw::identity()).unwrap();
    assert_eq!(commands.len(), 6);
    assert!(app.context_mut().end_frame());
    assert_eq!(app.context().state(), FrameState::Configured);
}

#[test]
fn failed_frames_are_skipped_reconfigured_or_fatal() {
    let mut scene = Recorder::new();
    let mut app = App::new(640, 480, &mut scene);
    assert_eq!(app.frame_failed(FrameError::SurfaceUnavailable), Action::Nothing);
    assert_eq!(app.frame_failed(FrameError::NotReady), Action::Nothing);
    assert_eq!(app.frame_failed(FrameError::SurfaceLost), Action::Reconfigure);
    assert_eq!(app.frame_failed(FrameError::SurfaceOutdated), Action::Reconfigure);
    assert_eq!(app.frame_failed(FrameError::OutOfMemory), Action::Exit);
    assert_eq!(app.context().state(), FrameState::Configured);
    app.context_mut().begin_frame(Ok(())).unwrap();
    assert_eq!(app.frame_failed(FrameError::SurfaceLost), Action::Reconfigure);
    assert_eq!(app.context().state(), FrameState::Configured);
}

#[test]
fn sample_scene_runs_in_the_loop() {
    let mut scene = TestLogic::new();
    scene.add_image(vec![0; 3]);
    let mut app = App::new(640, 480, &mut scene);
    app.main_loop(Event::KeyPressed(Key::KeyD));
    assert_eq!(app.main_loop(Event::RedrawRequested), Action::Draw);
    assert!(app.context().draw_calls().is_empty());
}
