//! The scene side: what game logic has to offer, and a sample scene.

use vstd::prelude::*;
use vstd::arithmetic::div_mod::lemma_fundamental_div_mod_converse;
use vstd::arithmetic::power2::{
    lemma2_to64, lemma_pow2_pos, lemma_pow2_strictly_increases, lemma_pow2_unfold, pow2,
};
use crate::batch::DrawCall;
use crate::buffers::{
    indices_in_range, mesh_verdict, quad, quad_indices, quad_vertices, InstanceRaw,
};
use crate::context::Renderer;
use crate::registry::{lemma_extends_itself, lemma_extends_transitive, Registry};
use crate::matrix::{
    identity_matrix, is_quarters, lemma_rounded_short, magnitude, round_to_24_bits, rounded,
    rounded_quarters_bits, ONE_BITS, QUARTERS_LIMIT,
};

verus! {

/// A key of the keyboard, by its place on the board.
#[derive(Clone, Copy, Debug, PartialEq, Eq)]
pub enum Key {
    KeyA,
    KeyB,
    KeyC,
    KeyD,
    KeyE,
    KeyF,
    KeyG,
    KeyH,
    KeyI,
    KeyJ,
    KeyK,
    KeyL,
    KeyM,
    KeyN,
    KeyO,
    KeyP,
    KeyQ,
    KeyR,
    KeyS,
    KeyT,
    KeyU,
    KeyV,
    KeyW,
    KeyX,
    KeyY,
    KeyZ,
    Digit0,
    Digit1,
    Digit2,
    Digit3,
    Digit4,
    Digit5,
    Digit6,
    Digit7,
    Digit8,
    Digit9,
    ArrowUp,
    ArrowDown,
    ArrowLeft,
    ArrowRight,
    Space,
    Enter,
    Escape,
    Tab,
    Backspace,
    /// Any other key.
    Other,
}

/// What a scene offers to the frame loop.
///
/// A scene sees a frame only through the collector. Whatever it does there,
/// it leaves the collector valid and takes nothing out of the registry.
pub trait GameLogic {
    /// Submits the draw requests of one frame.
    fn render(&mut self, renderer: &mut Renderer)
        requires
            old(renderer).wf(),
        ensures
            final(renderer).wf(),
            final(renderer).registry().extends(old(renderer).registry()),
    ;

    /// Registers the meshes and textures of the scene, once.
    fn init(&mut self, renderer: &mut Renderer)
        requires
            old(renderer).wf(),
        ensures
            final(renderer).wf(),
            final(renderer).registry().extends(old(renderer).registry()),
    ;

    /// Takes the keys pressed since the last frame.
    fn input(&mut self, inputs: Vec<Key>);
}

/// The distance between neighbours of the sample scene, in quarters.
pub const SPACING: i32 = 5;

/// A sample scene: a cube of textured squares, `2 * size + 1` along each
/// axis, that the keys A and D shrink and grow.
#[derive(Debug)]
pub struct TestLogic {
    images: Vec<Vec<u8>>,
    textures: Vec<usize>,
    mesh: usize,
    size: i32,
}

/// The position in a list of `len` textures that the sum of the three
/// coordinates of a cell selects: the sum as an unsigned machine word, modulo
/// `len`.
pub open spec fn texture_slot(sum: int, len: int) -> int {
    if sum >= 0 {
        sum % len
    } else {
        (usize::MAX + 1 + sum) % len
    }
}

/// The size after one key: A takes one off, D adds one, in 32-bit
/// arithmetic, which goes round from one end of its range to the other;
/// other keys change nothing.
pub open spec fn size_after_key(size: int, key: Key) -> int {
    match key {
        Key::KeyA => if size == i32::MIN {
            i32::MAX as int
        } else {
            size - 1
        },
        Key::KeyD => if size == i32::MAX {
            i32::MIN as int
        } else {
            size + 1
        },
        _ => size,
    }
}

/// The size after a sequence of keys, taken in order.
pub open spec fn size_after(size: int, keys: Seq<Key>) -> int
    decreases keys.len(),
{
    if keys.len() == 0 {
        size
    } else {
        size_after_key(size_after(size, keys.drop_last()), keys.last())
    }
}

/// The number of times that `key` stands in `keys`.
pub open spec fn presses(keys: Seq<Key>, key: Key) -> nat
    decreases keys.len(),
{
    if keys.len() == 0 {
        0
    } else {
        presses(keys.drop_last(), key) + if keys.last() == key {
            1nat
        } else {
            0nat
        }
    }
}

/// The keys keep the size within 32 bits: neither all the D together nor all
/// the A together take it beyond an end.
pub open spec fn stays_in_range(size: int, keys: Seq<Key>) -> bool {
    i32::MIN <= size - presses(keys, Key::KeyA) && size + presses(keys, Key::KeyD) <= i32::MAX
}

/// While the keys keep the size within 32 bits, the size after them is the
/// size before, plus one for each D, minus one for each A, in whatever order
/// they come.
pub proof fn lemma_size_after(size: int, keys: Seq<Key>)
    requires
        stays_in_range(size, keys),
    ensures
        size_after(size, keys) == size + presses(keys, Key::KeyD) - presses(keys, Key::KeyA),
    decreases keys.len(),
{
    if keys.len() > 0 {
        lemma_size_after(size, keys.drop_last());
    }
}

/// The number of cells along an edge of the cube of half edge `size`.
pub open spec fn edge(size: int) -> int {
    2 * size + 1
}

/// The number of cells of the cube of half edge `size`.
pub open spec fn volume(size: int) -> int {
    if size < 0 {
        0
    } else {
        edge(size) * edge(size) * edge(size)
    }
}

/// The cell that is drawn as number `n` of the cube of half edge `size`:
/// the planes go by `x`, the rows of a plane by `y`, the cells of a row by
/// `z`, each from `-size` to `size`.
pub open spec fn cell(size: int, n: int) -> (int, int, int) {
    (
        n / (edge(size) * edge(size)) - size,
        n / edge(size) % edge(size) - size,
        n % edge(size) - size,
    )
}

/// The number under which the cell `(x, y, z)` is drawn.
pub open spec fn cell_number(size: int, x: int, y: int, z: int) -> int {
    (x + size) * (edge(size) * edge(size)) + (y + size) * edge(size) + (z + size)
}

/// Numbering the cells and finding the cell of a number undo each other,
/// and the numbers of the cells are those below the volume.
pub proof fn lemma_cell(size: int, x: int, y: int, z: int)
    requires
        -size <= x <= size,
        -size <= y <= size,
        -size <= z <= size,
    ensures
        0 <= cell_number(size, x, y, z) < volume(size),
        cell(size, cell_number(size, x, y, z)) == (x, y, z),
{
    let w = edge(size);
    let a = x + size;
    let b = y + size;
    let c = z + size;
    let n = cell_number(size, x, y, z);
    assert(n == (a * w + b) * w + c) by (nonlinear_arith)
        requires
            n == a * (w * w) + b * w + c,
    ;
    lemma_fundamental_div_mod_converse(n, w, a * w + b, c);
    lemma_fundamental_div_mod_converse(a * w + b, w, a, b);
    assert(0 <= b * w + c < w * w) by (nonlinear_arith)
        requires
            0 <= b < w,
            0 <= c < w,
    ;
    lemma_fundamental_div_mod_converse(n, w * w, a, b * w + c);
    assert(0 <= n < w * w * w) by (nonlinear_arith)
        requires
            n == a * (w * w) + (b * w + c),
            0 <= a < w,
            0 <= b * w + c < w * w,
    ;
}

/// `after` lists what `before` lists, and then `count` handles from `first`
/// on.
pub open spec fn lists_more(before: Seq<usize>, after: Seq<usize>, first: int, count: int) -> bool {
    &&& after.len() == before.len() + count
    &&& forall|i: int| 0 <= i < before.len() ==> #[trigger] after[i] == before[i]
    &&& forall|k: int| 0 <= k < count ==> #[trigger] after[before.len() + k] == first + k
}

/// The sum of three 32-bit numbers as 32-bit arithmetic gives it: beyond
/// either end of the range it goes round to the other.
pub open spec fn wrapped(sum: int) -> int {
    if sum > i32::MAX {
        sum - 0x1_0000_0000
    } else if sum < i32::MIN {
        sum + 0x1_0000_0000
    } else {
        sum
    }
}

/// The place of a coordinate in quarters: the coordinate as a binary32
/// number, times the spacing, as binary32 arithmetic rounds both.
pub open spec fn place_quarters(c: int) -> int {
    let place = rounded((SPACING * rounded(magnitude(c) as nat)) as nat);
    if c < 0 {
        -(place as int)
    } else {
        place as int
    }
}

/// `m` is the translation to the cell `(x, y, z)`: the identity with the
/// places of the three coordinates in its last column.
pub open spec fn is_cell_translation(m: InstanceRaw, x: int, y: int, z: int) -> bool {
    &&& m.model@[0] == identity_matrix().model@[0]
    &&& m.model@[1] == identity_matrix().model@[1]
    &&& m.model@[2] == identity_matrix().model@[2]
    &&& is_quarters(m.model@[3]@[0], place_quarters(x))
    &&& is_quarters(m.model@[3]@[1], place_quarters(y))
    &&& is_quarters(m.model@[3]@[2], place_quarters(z))
    &&& m.model@[3]@[3] == ONE_BITS
}

/// Where binary32 holds every quarter, nothing is rounded: the place of a
/// coordinate is the spacing for each cell.
pub proof fn lemma_place_exact(c: int)
    requires
        -QUARTERS_LIMIT < SPACING * c < QUARTERS_LIMIT,
    ensures
        place_quarters(c) == SPACING * c,
{
    lemma_rounded_short(magnitude(c) as nat);
    lemma_rounded_short((SPACING * magnitude(c)) as nat);
}

/// The binary32 bit pattern of the place of a coordinate.
pub fn cell_place(c: i32) -> (bits: u32)
    ensures
        is_quarters(bits, place_quarters(c as int)),
{
    if c == 0 {
        proof {
            lemma_rounded_short(0);
        }
        return 0;
    }
    let distance: u64 = if c < 0 {
        (-(c as i64)) as u64
    } else {
        c as u64
    };
    let first = round_to_24_bits(distance);
    let mut held: u64 = first.significand;
    let mut i: u32 = 0;
    proof {
        lemma2_to64();
    }
    while i < first.scale
        invariant
            i <= first.scale <= 17,
            first.significand < 0x100_0000,
            held == first.significand * pow2(i as nat),
            first.value() <= 2 * distance,
            first.significand > 0,
            0 < distance <= 0x8000_0000,
        decreases first.scale - i,
    {
        proof {
            lemma_pow2_unfold((i + 1) as nat);
            lemma_pow2_pos(i as nat);
            if i + 1 < first.scale {
                lemma_pow2_strictly_increases((i + 1) as nat, first.scale as nat);
            }
            assert(first.significand * pow2((i + 1) as nat) <= first.significand * pow2(
                first.scale as nat,
            )) by (nonlinear_arith)
                requires
                    pow2((i + 1) as nat) <= pow2(first.scale as nat),
                    first.significand >= 0,
            ;
            assert(2 * held == first.significand * pow2((i + 1) as nat)) by (nonlinear_arith)
                requires
                    held == first.significand * pow2(i as nat),
                    pow2((i + 1) as nat) == 2 * pow2(i as nat),
            ;
        }
        held = held * 2;
        i = i + 1;
    }
    proof {
        lemma_pow2_pos(first.scale as nat);
        assert(held == first.value());
        assert(held > 0) by (nonlinear_arith)
            requires
                held == first.significand * pow2(first.scale as nat),
                first.significand > 0,
                pow2(first.scale as nat) > 0,
        ;
    }
    let spacing: u64 = SPACING as u64;
    let second = round_to_24_bits(spacing * held);
    rounded_quarters_bits(c < 0, second)
}

fn slot(sum: i32, len: usize) -> (at: usize)
    requires
        len > 0,
    ensures
        at == texture_slot(sum as int, len as int),
        at < len,
{
    if sum >= 0 {
        (sum as usize) % len
    } else {
        let back: usize = (-(sum + 1)) as usize;
        (usize::MAX - back) % len
    }
}

impl TestLogic {
    /// Half the edge of the cube, in cells.
    pub closed spec fn spec_size(&self) -> i32 {
        self.size
    }

    /// The handle of the square.
    pub closed spec fn spec_mesh(&self) -> usize {
        self.mesh
    }

    /// The handles of the textures.
    pub closed spec fn spec_textures(&self) -> Seq<usize> {
        self.textures@
    }

    /// The image files that `init` registers as textures.
    pub closed spec fn spec_images(&self) -> Seq<Vec<u8>> {
        self.images@
    }

    /// `d` is the request for the cell `(x, y, z)`: the square, with the
    /// texture that the sum of the coordinates selects, moved to the place of
    /// the cell.
    pub open spec fn places(&self, d: DrawCall, x: int, y: int, z: int) -> bool {
        &&& self.spec_textures().len() > 0
        &&& d.mesh_id == self.spec_mesh()
        &&& d.texture_id == self.spec_textures()[texture_slot(
            wrapped(x + y + z),
            self.spec_textures().len() as int,
        )]
        &&& is_cell_translation(d.matrix, x, y, z)
    }

    /// `d` is the request for some cell of the cube.
    pub open spec fn draws_cell(&self, d: DrawCall) -> bool {
        exists|x: int, y: int, z: int|
            #![trigger self.places(d, x, y, z)]
            {
                &&& -self.spec_size() <= x <= self.spec_size()
                &&& -self.spec_size() <= y <= self.spec_size()
                &&& -self.spec_size() <= z <= self.spec_size()
                &&& self.places(d, x, y, z)
            }
    }

    /// The square and every texture of the scene are registered.
    pub open spec fn fits(&self, registry: Registry) -> bool {
        &&& self.spec_mesh() < registry.meshes().len()
        &&& forall|i: int|
            0 <= i < self.spec_textures().len() ==> (#[trigger] self.spec_textures()[i])
                < registry.textures().len()
    }

    /// The cube can be drawn whole: the scene has a texture, its handles are
    /// registered, and the frame has room for every cell.
    pub open spec fn can_draw_cube(&self, renderer: Renderer) -> bool {
        &&& self.spec_textures().len() > 0
        &&& self.fits(renderer.registry())
        &&& renderer.pending().len() + volume(self.spec_size() as int) <= u32::MAX
    }

    /// `after` is `before` and then the request for every cell of the cube,
    /// in the order of the cells.
    pub open spec fn draws_cube(&self, before: Seq<DrawCall>, after: Seq<DrawCall>) -> bool {
        &&& after.len() == before.len() + volume(self.spec_size() as int)
        &&& forall|n: int|
            0 <= n < volume(self.spec_size() as int) ==> self.places(
                #[trigger] after[before.len() + n],
                cell(self.spec_size() as int, n).0,
                cell(self.spec_size() as int, n).1,
                cell(self.spec_size() as int, n).2,
            )
    }

    /// A scene of a single cell, without images.
    pub fn new() -> (scene: Self)
        ensures
            scene.spec_size() == 0,
            scene.spec_mesh() == 0,
            scene.spec_textures().len() == 0,
            scene.spec_images().len() == 0,
    {
        Self {
            images: Vec::new(),
            textures: Vec::with_capacity(2),
            mesh: 0,
            size: 0,
        }
    }

    /// Adds the contents of an image file to those that `init` registers.
    pub fn add_image(&mut self, file: Vec<u8>)
        ensures
            final(self).spec_images() == old(self).spec_images().push(file),
            final(self).spec_size() == old(self).spec_size(),
            final(self).spec_mesh() == old(self).spec_mesh(),
            final(self).spec_textures() == old(self).spec_textures(),
    {
        self.images.push(file);
    }

    /// Half the edge of the cube, in cells.
    #[verifier::when_used_as_spec(spec_size)]
    pub fn size(&self) -> (size: i32)
        ensures
            size == self.spec_size(),
    {
        self.size
    }

    /// The handle of the square.
    #[verifier::when_used_as_spec(spec_mesh)]
    pub fn mesh(&self) -> (mesh: usize)
        ensures
            mesh == self.spec_mesh(),
    {
        self.mesh
    }

    /// The handles of the textures.
    pub fn textures(&self) -> (textures: &[usize])
        ensures
            textures@ == self.spec_textures(),
    {
        self.textures.as_slice()
    }

    /// The draw request for the cell `(x, y, z)`: the square, with the
    /// texture that the sum of the coordinates selects, moved to the place of
    /// the cell. There is none while the scene has no texture.
    pub fn placement(&self, x: i32, y: i32, z: i32) -> (request: Option<DrawCall>)
        ensures
            request is Some <==> self.spec_textures().len() > 0,
            request matches Some(d) ==> self.places(d, x as int, y as int, z as int),
    {
        if self.textures.len() == 0 {
            return None;
        }
        let sum: i64 = x as i64 + y as i64 + z as i64;
        let sum: i64 = if sum > i32::MAX as i64 {
            sum - 0x1_0000_0000
        } else if sum < i32::MIN as i64 {
            sum + 0x1_0000_0000
        } else {
            sum
        };
        let at = slot(sum as i32, self.textures.len());
        Some(
            DrawCall {
                mesh_id: self.mesh,
                texture_id: self.textures[at],
                matrix: InstanceRaw {
                    model: [
                        [ONE_BITS, 0, 0, 0],
                        [0, ONE_BITS, 0, 0],
                        [0, 0, ONE_BITS, 0],
                        [cell_place(x), cell_place(y), cell_place(z), ONE_BITS],
                    ],
                },
            },
        )
    }
}

impl GameLogic for TestLogic {
    /// Registers the square, and every image that decodes as a texture.
    ///
    /// The square gets the next mesh handle and holds the data of the unit
    /// square. The textures that were registered get the next texture
    /// handles, in the order of their images, and the scene adds them to its
    /// list.
    fn init(&mut self, renderer: &mut Renderer)
        ensures
            final(self).spec_mesh() == old(renderer).mesh_total(),
            final(renderer).mesh_total() == old(renderer).mesh_total() + 1,
            final(renderer).registry().meshes()[final(self).spec_mesh() as int].holds(
                quad(),
                seq![0u16, 1, 2, 1, 2, 3],
            ),
            final(renderer).pending() == old(renderer).pending(),
            final(self).spec_size() == old(self).spec_size(),
            final(self).spec_images() == old(self).spec_images(),
            final(renderer).texture_total() <= old(renderer).texture_total()
                + old(self).spec_images().len(),
            lists_more(
                old(self).spec_textures(),
                final(self).spec_textures(),
                old(renderer).texture_total() as int,
                final(renderer).texture_total() - old(renderer).texture_total(),
            ),
    {
        let vertices = quad_vertices();
        let indices = quad_indices();
        assert(mesh_verdict(vertices@, indices@) is Ok) by {
            assert(indices_in_range(indices@, 4));
        }
        match renderer.add_mesh(vertices.as_slice(), indices.as_slice()) {
            Ok(handle) => {
                self.mesh = handle;
            },
            Err(_) => {},
        }
        let ghost with_mesh = renderer.registry();
        let ghost first = old(renderer).texture_total();
        proof {
            lemma_extends_itself(with_mesh);
        }
        let mut i: usize = 0;
        while i < self.images.len()
            invariant
                i <= self.images@.len(),
                renderer.wf(),
                renderer.registry().extends(with_mesh),
                renderer.registry().meshes() == with_mesh.meshes(),
                renderer.pending() == old(renderer).pending(),
                self.mesh == old(renderer).registry().meshes().len(),
                self.size == old(self).size,
                self.images@ == old(self).images@,
                with_mesh.textures().len() == first,
                first <= renderer.texture_total() <= first + i,
                lists_more(
                    old(self).textures@,
                    self.textures@,
                    first as int,
                    renderer.texture_total() - first,
                ),
            decreases self.images.len() - i,
        {
            let ghost before = renderer.registry();
            match renderer.add_texture(self.images[i].as_slice()) {
                Some(handle) => {
                    self.textures.push(handle);
                },
                None => {},
            }
            proof {
                lemma_extends_transitive(with_mesh, before, renderer.registry());
            }
            i += 1;
        }
        proof {
            lemma_extends_transitive(old(renderer).registry(), with_mesh, renderer.registry());
        }
    }

    /// Submits one request for every cell of the cube, plane after plane.
    ///
    /// The requests are appended to those pending, and each of them is the
    /// request for a cell of the cube. While the scene has no texture, or
    /// its size is negative, there is none. A request that the collector
    /// refuses is dropped. Where the square and the textures are registered
    /// and the frame has room for the whole cube, every cell gets its
    /// request, in the order of the cells.
    fn render(&mut self, renderer: &mut Renderer)
        ensures
            final(renderer).registry() == old(renderer).registry(),
            *final(self) == *old(self),
            old(renderer).pending().len() <= final(renderer).pending().len(),
            final(renderer).pending().take(old(renderer).pending().len() as int)
                == old(renderer).pending(),
            forall|k: int|
                old(renderer).pending().len() <= k < final(renderer).pending().len()
                    ==> old(self).draws_cell(#[trigger] final(renderer).pending()[k]),
            old(self).spec_textures().len() == 0 || old(self).spec_size() < 0
                ==> final(renderer).pending() == old(renderer).pending(),
            old(self).can_draw_cube(*old(renderer)) ==> old(self).draws_cube(
                old(renderer).pending(),
                final(renderer).pending(),
            ),
    {
        proof {
            lemma_extends_itself(renderer.registry());
        }
        let ghost start = renderer.pending();
        assert(renderer.pending().take(start.len() as int) =~= start);
        if self.size < 0 {
            return;
        }
        let size: i64 = self.size as i64;
        let ghost s = size as int;
        let ghost w = edge(s);
        let ghost exact = self.can_draw_cube(*renderer);
        let ghost mut done: int = 0;
        assert((-s + s) * (w * w) == 0) by (nonlinear_arith);
        let mut x: i64 = -size;
        while x <= size
            invariant
                0 <= size <= i32::MAX,
                s == size,
                s == self.spec_size(),
                w == edge(s),
                -size <= x <= size + 1,
                renderer.wf(),
                renderer.registry() == old(renderer).registry(),
                *self == *old(self),
                exact == (self.spec_textures().len() > 0 && self.fits(renderer.registry())
                    && start.len() + volume(s) <= u32::MAX),
                start.len() <= renderer.pending().len(),
                renderer.pending().take(start.len() as int) == start,
                forall|k: int|
                    start.len() <= k < renderer.pending().len() ==> self.draws_cell(
                        #[trigger] renderer.pending()[k],
                    ),
                self.spec_textures().len() == 0 ==> renderer.pending() == start,
                done == (x + s) * (w * w),
                exact ==> renderer.pending().len() == start.len() + done,
                exact ==> forall|n: int|
                    0 <= n < done ==> self.places(
                        #[trigger] renderer.pending()[start.len() + n],
                        cell(s, n).0,
                        cell(s, n).1,
                        cell(s, n).2,
                    ),
            decreases size + 1 - x,
        {
            assert((-s + s) * w == 0) by (nonlinear_arith);
            let mut y: i64 = -size;
            while y <= size
                invariant
                    0 <= size <= i32::MAX,
                    s == size,
                    s == self.spec_size(),
                    w == edge(s),
                    -size <= x <= size,
                    -size <= y <= size + 1,
                    renderer.wf(),
                    renderer.registry() == old(renderer).registry(),
                    *self == *old(self),
                    exact == (self.spec_textures().len() > 0 && self.fits(renderer.registry())
                        && start.len() + volume(s) <= u32::MAX),
                    start.len() <= renderer.pending().len(),
                    renderer.pending().take(start.len() as int) == start,
                    forall|k: int|
                        start.len() <= k < renderer.pending().len() ==> self.draws_cell(
                            #[trigger] renderer.pending()[k],
                        ),
                    self.spec_textures().len() == 0 ==> renderer.pending() == start,
                    done == (x + s) * (w * w) + (y + s) * w,
                    exact ==> renderer.pending().len() == start.len() + done,
                    exact ==> forall|n: int|
                        0 <= n < done ==> self.places(
                            #[trigger] renderer.pending()[start.len() + n],
                            cell(s, n).0,
                            cell(s, n).1,
                            cell(s, n).2,
                        ),
                decreases size + 1 - y,
            {
                let mut z: i64 = -size;
                while z <= size
                    invariant
                        0 <= size <= i32::MAX,
                        s == size,
                        s == self.spec_size(),
                        w == edge(s),
                        -size <= x <= size,
                        -size <= y <= size,
                        -size <= z <= size + 1,
                        renderer.wf(),
                        renderer.registry() == old(renderer).registry(),
                        *self == *old(self),
                        exact == (self.spec_textures().len() > 0 && self.fits(renderer.registry())
                            && start.len() + volume(s) <= u32::MAX),
                        start.len() <= renderer.pending().len(),
                        renderer.pending().take(start.len() as int) == start,
                        forall|k: int|
                            start.len() <= k < renderer.pending().len() ==> self.draws_cell(
                                #[trigger] renderer.pending()[k],
                            ),
                        self.spec_textures().len() == 0 ==> renderer.pending() == start,
                        done == (x + s) * (w * w) + (y + s) * w + (z + s),
                        exact ==> renderer.pending().len() == start.len() + done,
                        exact ==> forall|n: int|
                            0 <= n < done ==> self.places(
                                #[trigger] renderer.pending()[start.len() + n],
                                cell(s, n).0,
                                cell(s, n).1,
                                cell(s, n).2,
                            ),
                    decreases size + 1 - z,
                {
                    let ghost before = renderer.pending();
                    proof {
                        lemma_cell(s, x as int, y as int, z as int);
                    }
                    match self.placement(x as i32, y as i32, z as i32) {
                        Some(request) => {
                            let _ = renderer.draw(request);
                            proof {
                                assert(self.places(request, x as int, y as int, z as int));
                                assert(self.draws_cell(request));
                            }
                        },
                        None => {},
                    }
                    proof {
                        assert(renderer.pending().take(start.len() as int) =~= before.take(
                            start.len() as int,
                        ));
                        assert forall|k: int|
                            start.len() <= k < renderer.pending().len() implies self.draws_cell(
                            #[trigger] renderer.pending()[k],
                        ) by {
                            if k < before.len() {
                                assert(renderer.pending()[k] == before[k]);
                            }
                        }
                        if exact {
                            assert forall|n: int| 0 <= n < done + 1 implies self.places(
                                #[trigger] renderer.pending()[start.len() + n],
                                cell(s, n).0,
                                cell(s, n).1,
                                cell(s, n).2,
                            ) by {
                                if n < done {
                                    assert(renderer.pending()[start.len() + n] == before[start.len()
                                        + n]);
                                }
                            }
                        }
                        done = done + 1;
                    }
                    z += 1;
                }
                proof {
                    assert((y + s) * w + (size + 1 + s) == (y + 1 + s) * w) by (nonlinear_arith)
                        requires
                            w == 2 * s + 1,
                            s == size,
                    ;
                }
                y += 1;
            }
            proof {
                assert((x + s) * (w * w) + (size + 1 + s) * w == (x + 1 + s) * (w * w))
                    by (nonlinear_arith)
                    requires
                        w == 2 * s + 1,
                        s == size,
                ;
            }
            x += 1;
        }
        proof {
            assert((size + 1 + s) * (w * w) == w * w * w) by (nonlinear_arith)
                requires
                    w == 2 * s + 1,
                    s == size,
            ;
        }
    }

    /// Applies the keys in order: A shrinks the cube by one, D grows it by
    /// one, other keys do nothing.
    ///
    /// While the size stays within 32 bits it is the old size, plus the
    /// number of D, minus the number of A. Beyond either end it goes round to
    /// the other, as 32-bit arithmetic does.
    fn input(&mut self, inputs: Vec<Key>)
        ensures
            final(self).spec_size() == size_after(old(self).spec_size() as int, inputs@),
            stays_in_range(old(self).spec_size() as int, inputs@) ==> final(self).spec_size()
                == old(self).spec_size() + presses(inputs@, Key::KeyD) - presses(
                inputs@,
                Key::KeyA,
            ),
            final(self).spec_mesh() == old(self).spec_mesh(),
            final(self).spec_textures() == old(self).spec_textures(),
            final(self).spec_images() == old(self).spec_images(),
    {
        let mut size = self.size;
        let mut i: usize = 0;
        while i < inputs.len()
            invariant
                i <= inputs@.len(),
                size == size_after(old(self).size as int, inputs@.take(i as int)),
                *self == *old(self),
            decreases inputs.len() - i,
        {
            proof {
                assert(inputs@.take(i + 1).drop_last() =~= inputs@.take(i as int));
            }
            match inputs[i] {
                Key::KeyA => {
                    size = if size == i32::MIN {
                        i32::MAX
                    } else {
                        size - 1
                    };
                },
                Key::KeyD => {
                    size = if size == i32::MAX {
                        i32::MIN
                    } else {
                        size + 1
                    };
                },
                _ => {},
            }
            i += 1;
        }
        proof {
            assert(inputs@.take(inputs@.len() as int) =~= inputs@);
            if stays_in_range(old(self).size as int, inputs@) {
                lemma_size_after(old(self).size as int, inputs@);
            }
        }
        self.size = size;
    }
}

} // verus!
