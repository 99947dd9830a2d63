use render_front::buffers::InstanceRaw;
use render_front::context::{Context, Renderer};
use render_front::matrix::{
    quarters_bits, round_to_24_bits, rounded_quarters_bits, MatrixUniform, Rounded,
};
use render_front::registry::Registry;
use render_front::scene::{cell_place, GameLogic, Key, TestLogic};

fn texel_file(value: u8) -> Vec<u8> {
    let image = image::RgbaImage::from_raw(1, 1, vec![value, value, value, 255]).unwrap();
    let mut file = Vec::new();
    image::DynamicImage::ImageRgba8(image)
        .write_to(&mut std::io::Cursor::new(&mut file), image::ImageOutputFormat::Png)
        .unwrap();
    file
}

fn translation(x: f32, y: f32, z: f32) -> InstanceRaw {
    let one = 1.0f32.to_bits();
    InstanceRaw {
        model: [
            [one, 0, 0, 0],
            [0, one, 0, 0],
            [0, 0, one, 0],
            [x.to_bits(), y.to_bits(), z.to_bits(), one],
        ],
    }
}

fn scene_with_textures(count: u8) -> (TestLogic, Renderer) {
    let mut scene = TestLogic::new();
    for n in 0..count {
        scene.add_image(texel_file(n));
    }
    let mut renderer = Renderer::new(Registry::new());
    scene.init(&mut renderer);
    (scene, renderer)
}

#[test]
fn new_scene_is_a_single_cell_without_textures() {
    let scene = TestLogic::new();
    assert_eq!(scene.size(), 0);
    assert_eq!(scene.mesh(), 0);
    assert!(scene.textures().is_empty());
}

#[test]
fn keys_shrink_and_grow_the_cube() {
    let mut scene = TestLogic::new();
    scene.input(vec![Key::KeyD, Key::KeyD, Key::Other, Key::KeyD]);
    assert_eq!(scene.size(), 3);
    scene.input(vec![Key::KeyA]);
    assert_eq!(scene.size(), 2);
    scene.input(Vec::new());
    assert_eq!(scene.size(), 2);
    scene.input(vec![Key::KeyA, Key::KeyA, Key::KeyA, Key::KeyA]);
    assert_eq!(scene.size(), -2);
    scene.input(vec![Key::Other, Key::Other]);
    assert_eq!(scene.size(), -2);
}

#[test]
fn size_counts_every_key_however_many() {
    let mut scene = TestLogic::new();
    scene.input(vec![Key::KeyD; (1 << 21) + 1]);
    assert_eq!(scene.size(), (1 << 21) + 1);
    scene.input(vec![Key::KeyD; 3_000_000]);
    assert_eq!(scene.size(), (1 << 21) + 3_000_001);
    scene.input(vec![Key::KeyA; 9_000_000]);
    assert_eq!(scene.size(), (1 << 21) + 3_000_001 - 9_000_000);
}

#[test]
fn size_is_the_balance_of_d_and_a_in_any_order() {
    let mut one = TestLogic::new();
    one.input(vec![Key::KeyD, Key::KeyA, Key::KeyW, Key::KeyD, Key::KeyD, Key::Space, Key::KeyA]);
    let mut other = TestLogic::new();
    other.input(vec![Key::KeyA, Key::KeyA, Key::KeyD, Key::KeyD, Key::KeyD]);
    assert_eq!(one.size(), 1);
    assert_eq!(other.size(), 1);
}

#[test]
fn far_cells_are_placed_as_binary32_rounds() {
    let (scene, _) = scene_with_textures(2);
    let distance = 1.25f32;
    for far in [3_355_443, 3_355_444, 4_000_000, 16_777_217, 33_554_433, i32::MAX, i32::MIN] {
        let request = scene.placement(far, 1 - far / 2, 7).unwrap();
        assert_eq!(
            request.matrix,
            translation(distance * far as f32, distance * (1 - far / 2) as f32, distance * 7.0)
        );
    }
    let request = scene.placement(3_355_443, 0, 0).unwrap();
    assert_eq!(f32::from_bits(request.matrix.model[3][0]), 4_194_303.75);
    let request = scene.placement(4_000_000, 0, 0).unwrap();
    assert_eq!(f32::from_bits(request.matrix.model[3][0]), 5_000_000.0);
}

#[test]
fn place_of_a_cell_is_the_rounded_product() {
    let distance = 1.25f32;
    let expected = |c: i32| (distance * c as f32).to_bits();
    for c in -70_000i32..=70_000 {
        assert_eq!(cell_place(c), expected(c));
    }
    let mut power: i64 = 1;
    while power <= 1 << 31 {
        for c in [power - 1, power, power + 1, 3 * power / 2, 3 * power / 2 + 1] {
            if c <= i32::MAX as i64 {
                assert_eq!(cell_place(c as i32), expected(c as i32));
            }
            assert_eq!(cell_place(-c as i32), expected(-c as i32));
        }
        power *= 2;
    }
    let mut state: u32 = 0x1234_5678;
    for _ in 0..400_000 {
        state = state.wrapping_mul(1_664_525).wrapping_add(1_013_904_223);
        let c = state as i32;
        assert_eq!(cell_place(c), expected(c));
        let near_tie = (c >> 6) << 6 | 0x20;
        assert_eq!(cell_place(near_tie), expected(near_tie));
    }
}

#[test]
fn rounding_keeps_24_bits_and_prefers_even() {
    let value = |v: u64| {
        let r = round_to_24_bits(v);
        assert!(r.significand < 1 << 24);
        r.significand << r.scale
    };
    assert_eq!(value(0), 0);
    assert_eq!(value(1), 1);
    assert_eq!(value((1 << 24) - 1), (1 << 24) - 1);
    assert_eq!(value(1 << 24), 1 << 24);
    assert_eq!(value((1 << 24) + 1), 1 << 24);
    assert_eq!(value((1 << 24) + 2), (1 << 24) + 2);
    assert_eq!(value((1 << 24) + 3), (1 << 24) + 4);
    assert_eq!(value((1 << 25) - 1), 1 << 25);
    assert_eq!(value((1 << 25) + 2), 1 << 25);
    assert_eq!(value((1 << 25) + 3), (1 << 25) + 4);
    assert_eq!(value((1 << 25) + 6), (1 << 25) + 8);
    for v in [1u64 << 30, (1 << 31) + 12_345, (1 << 39) + 987_654_321, 5 << 32] {
        assert_eq!(value(v), (v as f32) as u64);
    }
}

#[test]
fn rounded_numbers_are_encoded_exactly() {
    let cases = [
        (1u64, 0u32, 0.25f32),
        (5, 0, 1.25),
        (1, 2, 1.0),
        (3, 10, 768.0),
        (0x80_0000, 11, 4_294_967_296.0),
    ];
    for (significand, scale, value) in cases {
        let quarters = Rounded { significand, scale };
        assert_eq!(rounded_quarters_bits(false, quarters), value.to_bits());
        assert_eq!(rounded_quarters_bits(true, quarters), (-value).to_bits());
    }
}

#[test]
fn texture_is_picked_by_the_sum_in_32_bits() {
    let (scene, _) = scene_with_textures(3);
    for (x, y, z) in [(i32::MAX, 1, 0), (i32::MAX, i32::MAX, i32::MAX), (i32::MIN, -1, -5)] {
        let sum = x.wrapping_add(y).wrapping_add(z);
        let request = scene.placement(x, y, z).unwrap();
        assert_eq!(request.texture_id, (sum as usize) % 3);
    }
}

#[test]
fn init_registers_the_square_and_the_images() {
    let (scene, renderer) = scene_with_textures(2);
    assert_eq!(scene.mesh(), 0);
    assert_eq!(scene.textures(), &[0, 1]);
    assert_eq!(renderer.mesh_count(), 1);
    assert_eq!(renderer.texture_count(), 2);
    assert_eq!(renderer.pending_count(), 0);
}

#[test]
fn init_takes_the_next_free_handles() {
    let mut registry = Registry::new();
    registry.register_mesh(&render_front::buffers::quad_vertices(), &[0, 1, 2]).unwrap();
    registry.register_texture(vec![0; 4], 1, 1).unwrap();
    let mut renderer = Renderer::new(registry);
    let mut scene = TestLogic::new();
    scene.add_image(texel_file(1));
    scene.init(&mut renderer);
    assert_eq!(scene.mesh(), 1);
    assert_eq!(scene.textures(), &[1]);
}

#[test]
fn init_skips_images_that_do_not_decode() {
    let mut scene = TestLogic::new();
    scene.add_image(vec![1, 2, 3]);
    scene.add_image(texel_file(5));
    scene.add_image(Vec::new());
    let mut renderer = Renderer::new(Registry::new());
    scene.init(&mut renderer);
    assert_eq!(scene.textures(), &[0]);
    assert_eq!(renderer.texture_count(), 1);
}

#[test]
fn scene_without_textures_draws_nothing() {
    let (mut scene, mut renderer) = scene_with_textures(0);
    assert_eq!(scene.placement(0, 0, 0), None);
    scene.render(&mut renderer);
    assert_eq!(renderer.pending_count(), 0);
}

#[test]
fn placement_moves_by_five_quarters_a_cell() {
    let (scene, _) = scene_with_textures(2);
    let request = scene.placement(1, -2, 3).unwrap();
    assert_eq!(request.mesh_id, 0);
    assert_eq!(request.matrix, translation(1.25, -2.5, 3.75));
    let origin = scene.placement(0, 0, 0).unwrap();
    assert_eq!(origin.matrix, InstanceRaw::identity());
    assert_eq!(origin.texture_id, 0);
    for x in -40i32..=40 {
        let request = scene.placement(x, -x, 7 * x).unwrap();
        let distance = 1.25f32;
        assert_eq!(
            request.matrix,
            translation(distance * x as f32, distance * -x as f32, distance * (7 * x) as f32)
        );
    }
}

#[test]
fn placement_picks_the_texture_by_the_sum_of_the_cell() {
    let (scene, _) = scene_with_textures(2);
    assert_eq!(scene.placement(1, 0, 0).unwrap().texture_id, 1);
    assert_eq!(scene.placement(1, 1, 0).unwrap().texture_id, 0);
    assert_eq!(scene.placement(1, 1, 1).unwrap().texture_id, 1);
    assert_eq!(scene.placement(-1, 0, 0).unwrap().texture_id, 1);
    assert_eq!(scene.placement(-1, -1, 0).unwrap().texture_id, 0);
    assert_eq!(scene.placement(-1, 1, 0).unwrap().texture_id, 0);
    let (three, _) = scene_with_textures(3);
    for sum in -9i32..=9 {
        let expected = (sum as usize) % 3;
        assert_eq!(three.placement(sum, 0, 0).unwrap().texture_id, expected);
        assert_eq!(three.placement(0, sum, 0).unwrap().texture_id, expected);
    }
    assert_eq!(three.placement(-1, 0, 0).unwrap().texture_id, (usize::MAX) % 3);
}

#[test]
fn render_submits_one_request_for_every_cell() {
    let (mut scene, mut renderer) = scene_with_textures(2);
    scene.render(&mut renderer);
    assert_eq!(renderer.pending_count(), 1);
    scene.input(vec![Key::KeyD]);
    let (registry, _) = renderer.finish();
    let mut renderer = Renderer::new(registry);
    scene.render(&mut renderer);
    assert_eq!(renderer.pending_count(), 27);
    let (_, pending) = renderer.finish();
    assert_eq!(pending[0], scene.placement(-1, -1, -1).unwrap());
    assert_eq!(pending[1], scene.placement(-1, -1, 0).unwrap());
    assert_eq!(pending[3], scene.placement(-1, 0, -1).unwrap());
    assert_eq!(pending[9], scene.placement(0, -1, -1).unwrap());
    assert_eq!(pending[13], scene.placement(0, 0, 0).unwrap());
    assert_eq!(pending[26], scene.placement(1, 1, 1).unwrap());
}

#[test]
fn negative_size_draws_nothing() {
    let (mut scene, mut renderer) = scene_with_textures(2);
    scene.input(vec![Key::KeyA]);
    assert_eq!(scene.size(), -1);
    scene.render(&mut renderer);
    assert_eq!(renderer.pending_count(), 0);
}

#[test]
fn scene_frame_has_one_draw_call_for_each_texture() {
    let mut scene = TestLogic::new();
    scene.add_image(texel_file(1));
    scene.add_image(texel_file(2));
    scene.input(vec![Key::KeyD, Key::KeyD]);
    let mut context = Context::new(800, 600);
    context.init(&mut scene);
    context.render(&mut scene);
    assert_eq!(context.requests().len(), 125);
    assert_eq!(context.draw_calls().len(), 2);
    let counts: Vec<u32> = context.draw_calls().iter().map(|c| c.count).collect();
    assert_eq!(counts.iter().sum::<u32>(), 125);
    assert_eq!(counts, vec![63, 62]);
}

#[test]
fn quarters_are_exact_binary32() {
    assert_eq!(quarters_bits(0), 0);
    assert_eq!(quarters_bits(4), 1.0f32.to_bits());
    assert_eq!(quarters_bits(-4), (-1.0f32).to_bits());
    assert_eq!(quarters_bits(1), 0.25f32.to_bits());
    assert_eq!(quarters_bits(5), 1.25f32.to_bits());
    assert_eq!(quarters_bits(400), 100.0f32.to_bits());
    assert_eq!(quarters_bits(0xFF_FFFF), (16777215.0f32 / 4.0).to_bits());
    assert_eq!(quarters_bits(-0xFF_FFFF), (-16777215.0f32 / 4.0).to_bits());
    for n in -5000i32..=5000 {
        assert_eq!(quarters_bits(n), (n as f32 / 4.0).to_bits());
    }
    let mut n: i32 = 1;
    while n < 0x100_0000 {
        assert_eq!(quarters_bits(n), (n as f32 / 4.0).to_bits());
        assert_eq!(quarters_bits(n - 1), ((n - 1) as f32 / 4.0).to_bits());
        assert_eq!(quarters_bits(-n), (-n as f32 / 4.0).to_bits());
        n *= 2;
    }
}

#[test]
fn translation_is_the_identity_with_a_last_column() {
    assert_eq!(InstanceRaw::translation(0, 0, 0), InstanceRaw::identity());
    assert_eq!(InstanceRaw::translation(5, -10, 2), translation(1.25, -2.5, 0.5));
}

#[test]
fn identity_has_ones_on_the_diagonal() {
    let m = InstanceRaw::identity();
    for c in 0..4 {
        for r in 0..4 {
            let expected = if c == r { 1.0f32 } else { 0.0f32 };
            assert_eq!(f32::from_bits(m.model[c][r]), expected);
        }
    }
}

#[test]
fn uniform_holds_the_bytes_of_its_matrix() {
    let mut uniform = MatrixUniform::new();
    assert_eq!(uniform.matrix(), InstanceRaw::identity());
    let mut identity_bytes = Vec::new();
    for c in 0..4 {
        for r in 0..4 {
            let v = if c == r { 1.0f32 } else { 0.0f32 };
            identity_bytes.extend_from_slice(&v.to_ne_bytes());
        }
    }
    assert_eq!(uniform.bytes(), identity_bytes.as_slice());
    let m = translation(1.5, 2.5, -3.5);
    uniform.update(m);
    assert_eq!(uniform.matrix(), m);
    assert_eq!(uniform.bytes().len(), 64);
    assert_eq!(&uniform.bytes()[48..52], &1.5f32.to_ne_bytes());
    assert_eq!(&uniform.bytes()[52..56], &2.5f32.to_ne_bytes());
    assert_eq!(&uniform.bytes()[56..60], &(-3.5f32).to_ne_bytes());
    assert_eq!(&uniform.bytes()[60..64], &1.0f32.to_ne_bytes());
}
