//! The transform uniform: one 4x4 matrix that the vertex stage reads.

use vstd::prelude::*;
use vstd::arithmetic::div_mod::lemma_fundamental_div_mod_converse;
use vstd::arithmetic::power2::{
    lemma2_to64, lemma_pow2_adds, lemma_pow2_pos, lemma_pow2_strictly_increases,
    lemma_pow2_unfold, pow2,
};
use crate::buffers::{flatten_instances, instance_words, InstanceRaw};
use crate::bytes::{is_word_image, words_to_bytes};

verus! {

/// The bit pattern of the binary32 number 1.0.
pub const ONE_BITS: u32 = 0x3F80_0000;

/// The transform uniform: its matrix, and the bytes that its buffer holds.
#[derive(Debug)]
pub struct MatrixUniform {
    matrix: InstanceRaw,
    bytes: Vec<u8>,
}

/// The identity matrix: ones on the diagonal, zeros elsewhere.
pub open spec fn identity_matrix() -> InstanceRaw {
    InstanceRaw {
        model: [
            [ONE_BITS, 0u32, 0u32, 0u32],
            [0u32, ONE_BITS, 0u32, 0u32],
            [0u32, 0u32, ONE_BITS, 0u32],
            [0u32, 0u32, 0u32, ONE_BITS],
        ],
    }
}

/// The bytes of a uniform buffer that holds `matrix`.
pub open spec fn is_uniform_image(bytes: Seq<u8>, matrix: InstanceRaw) -> bool {
    is_word_image(bytes, instance_words(seq![matrix]))
}

/// The distance of `n` from zero.
pub open spec fn magnitude(n: int) -> int {
    if n < 0 {
        -n
    } else {
        n
    }
}

/// `bits` is the binary32 pattern of the number `n / 4`: zero for zero, and
/// else the sign of `n`, a biased exponent `e`, and a fraction `f` with
/// `(2^23 + f) * 2^(e - 150) == |n| / 4`.
pub open spec fn is_quarters(bits: u32, n: int) -> bool {
    if n == 0 {
        bits == 0
    } else {
        let sign = bits as int / 0x8000_0000;
        let exponent = bits as int / 0x80_0000 % 0x100;
        let fraction = bits as int % 0x80_0000;
        &&& (sign == 1) == (n < 0)
        &&& 1 <= exponent <= 254
        &&& if exponent <= 148 {
            0x80_0000 + fraction == magnitude(n) * pow2((148 - exponent) as nat)
        } else {
            (0x80_0000 + fraction) * pow2((exponent - 148) as nat) == magnitude(n)
        }
    }
}

/// The number of bits by which `v` is longer than the 24 bits that a
/// binary32 number holds.
pub open spec fn excess(v: nat) -> nat
    decreases v,
{
    if v < 0x100_0000 {
        0
    } else {
        1 + excess(v / 2)
    }
}

/// `v` rounded to a multiple of `2^k`: to the nearest one, and of two equally
/// near to the even multiple.
pub open spec fn round_at(v: nat, k: nat) -> nat {
    let q = v / pow2(k);
    let r = v % pow2(k);
    if 2 * r > pow2(k) || (2 * r == pow2(k) && q % 2 == 1) {
        (q + 1) * pow2(k)
    } else {
        q * pow2(k)
    }
}

/// `v` as binary32 arithmetic rounds it: to the nearest number of at most 24
/// significant bits, and of two equally near to the one with an even last
/// bit.
pub open spec fn rounded(v: nat) -> nat {
    round_at(v, excess(v))
}

/// The translation by `(x / 4, y / 4, z / 4)`: the identity with the
/// translation in its last column.
pub open spec fn is_translation(m: InstanceRaw, x: int, y: int, z: int) -> bool {
    &&& m.model@[0] == identity_matrix().model@[0]
    &&& m.model@[1] == identity_matrix().model@[1]
    &&& m.model@[2] == identity_matrix().model@[2]
    &&& is_quarters(m.model@[3]@[0], x)
    &&& is_quarters(m.model@[3]@[1], y)
    &&& is_quarters(m.model@[3]@[2], z)
    &&& m.model@[3]@[3] == ONE_BITS
}

/// The largest number of quarters, in either direction, that
/// [`quarters_bits`] takes: beyond it binary32 has no room for every
/// quarter.
pub const QUARTERS_LIMIT: i32 = 0x100_0000;

/// The binary32 bit pattern of `n / 4`, which is exact for the numbers
/// within the limit.
pub fn quarters_bits(n: i32) -> (bits: u32)
    requires
        -QUARTERS_LIMIT < n < QUARTERS_LIMIT,
    ensures
        is_quarters(bits, n as int),
{
    if n == 0 {
        return 0;
    }
    let negative = n < 0;
    let mut scaled: u32 = if negative {
        (-n) as u32
    } else {
        n as u32
    };
    let mut exponent: u32 = 148;
    proof {
        lemma2_to64();
        assert(scaled == magnitude(n as int) * pow2(0)) by (nonlinear_arith)
            requires
                scaled == magnitude(n as int),
                pow2(0) == 1,
        ;
    }
    while scaled < 0x80_0000
        invariant
            0 < scaled < 0x100_0000,
            exponent <= 148,
            scaled == magnitude(n as int) * pow2((148 - exponent) as nat),
            magnitude(n as int) >= 1,
        decreases exponent,
    {
        proof {
            let k = (148 - exponent) as nat;
            lemma2_to64();
            lemma_pow2_pos(k);
            assert(pow2(k) <= scaled) by (nonlinear_arith)
                requires
                    scaled == magnitude(n as int) * pow2(k),
                    magnitude(n as int) >= 1,
                    pow2(k) > 0,
            ;
            assert(k < 23) by {
                if k > 23 {
                    lemma_pow2_strictly_increases(23, k);
                }
            }
            lemma_pow2_unfold(k + 1);
            assert(2 * scaled == magnitude(n as int) * pow2(k + 1)) by (nonlinear_arith)
                requires
                    scaled == magnitude(n as int) * pow2(k),
                    pow2(k + 1) == 2 * pow2(k),
            ;
        }
        scaled = scaled * 2;
        exponent = exponent - 1;
    }
    proof {
        let k = (148 - exponent) as nat;
        lemma2_to64();
        lemma_pow2_pos(k);
        assert(pow2(k) <= scaled) by (nonlinear_arith)
            requires
                scaled == magnitude(n as int) * pow2(k),
                magnitude(n as int) >= 1,
                pow2(k) > 0,
        ;
        assert(k < 24) by {
            if k > 24 {
                lemma_pow2_strictly_increases(24, k);
            }
        }
    }
    let sign_bit: u32 = if negative {
        0x8000_0000
    } else {
        0
    };
    sign_bit + exponent * 0x80_0000 + (scaled - 0x80_0000)
}

/// A number of at most 24 bits is not rounded.
pub proof fn lemma_rounded_short(v: nat)
    requires
        v < 0x100_0000,
    ensures
        rounded(v) == v,
{
    lemma2_to64();
}

/// A number of at most 24 significant bits: `significand * 2^scale`.
#[derive(Clone, Copy, Debug, PartialEq, Eq)]
pub struct Rounded {
    pub significand: u64,
    pub scale: u32,
}

impl Rounded {
    /// The number itself.
    pub open spec fn value(self) -> nat {
        (self.significand * pow2(self.scale as nat)) as nat
    }
}

/// Rounds `v` as binary32 arithmetic does.
pub fn round_to_24_bits(v: u64) -> (r: Rounded)
    requires
        v < 0x100_0000_0000,
    ensures
        r.value() == rounded(v as nat),
        r.significand < 0x100_0000,
        r.scale <= 17,
        v > 0 ==> r.significand > 0,
        r.value() <= 2 * v,
{
    let mut q: u64 = v;
    let mut k: u32 = 0;
    let mut p: u64 = 1;
    let ghost mut rem: int = 0;
    proof {
        lemma2_to64();
    }
    while q >= 0x100_0000
        invariant
            v < 0x100_0000_0000,
            p == pow2(k as nat),
            p >= 1,
            k <= 16,
            v == q * p + rem,
            0 <= rem < p,
            k > 0 ==> q >= 0x80_0000,
            excess(v as nat) == k + excess(q as nat),
        decreases q,
    {
        proof {
            lemma2_to64();
            assert(p * 0x100_0000 <= q * p) by (nonlinear_arith)
                requires
                    q >= 0x100_0000,
                    p >= 1,
            ;
            assert(k < 16) by {
                if k == 16 {
                    assert(p == 0x1_0000);
                }
            }
            lemma_pow2_unfold((k + 1) as nat);
            let bit = (q % 2) as int;
            assert(v == (q / 2) * (2 * p) + (rem + bit * p)) by (nonlinear_arith)
                requires
                    v == q * p + rem,
                    q == 2 * (q / 2) + bit,
            ;
            assert(0 <= rem + bit * p < 2 * p) by (nonlinear_arith)
                requires
                    0 <= rem < p,
                    0 <= bit <= 1,
            ;
            rem = rem + bit * p;
        }
        q = q / 2;
        k = k + 1;
        p = p * 2;
    }
    proof {
        lemma_fundamental_div_mod_converse(v as int, p as int, q as int, rem);
        assert(q * p <= v) by (nonlinear_arith)
            requires
                v == q * p + rem,
                0 <= rem,
        ;
    }
    let r = v - q * p;
    let up = 2 * r > p || (2 * r == p && q % 2 == 1);
    let mut m = if up {
        q + 1
    } else {
        q
    };
    proof {
        assert(m * p == rounded(v as nat)) by {
            assert(r == v as nat % pow2(k as nat));
            assert(q == v as nat / pow2(k as nat));
        }
        assert(m * p <= 2 * v) by (nonlinear_arith)
            requires
                m <= q + 1,
                v == q * p + rem,
                0 <= rem,
                up ==> 2 * r >= p,
                r == rem,
                !up ==> m == q,
                p >= 1,
                k == 0 ==> rem == 0,
                q >= 0,
        ;
        assert(v > 0 ==> m > 0) by {
            if k == 0 {
                assert(v == q * 1 + rem);
            }
        }
    }
    if m == 0x100_0000 {
        proof {
            lemma_pow2_unfold((k + 1) as nat);
            assert(0x80_0000 * (2 * p) == 0x100_0000 * p) by (nonlinear_arith);
        }
        m = 0x80_0000;
        k = k + 1;
    }
    Rounded { significand: m, scale: k }
}

/// The binary32 bit pattern of a number of quarters that binary32 can hold,
/// with the sign asked for.
pub fn rounded_quarters_bits(negative: bool, quarters: Rounded) -> (bits: u32)
    requires
        0 < quarters.significand < 0x100_0000,
        quarters.scale <= 40,
    ensures
        is_quarters(
            bits,
            if negative {
                -(quarters.value() as int)
            } else {
                quarters.value() as int
            },
        ),
{
    let mut scaled: u32 = quarters.significand as u32;
    let mut exponent: u32 = 148 + quarters.scale;
    let ghost m = quarters.significand as int;
    let ghost k = quarters.scale as nat;
    proof {
        lemma2_to64();
        assert(scaled == m * pow2(0)) by (nonlinear_arith)
            requires
                scaled == m,
                pow2(0) == 1,
        ;
    }
    while scaled < 0x80_0000
        invariant
            0 < scaled < 0x100_0000,
            m >= 1,
            k == quarters.scale,
            k <= 40,
            exponent <= 148 + k,
            scaled == m * pow2((148 + k - exponent) as nat),
        decreases exponent,
    {
        proof {
            let j = (148 + k - exponent) as nat;
            lemma2_to64();
            lemma_pow2_pos(j);
            assert(pow2(j) <= scaled) by (nonlinear_arith)
                requires
                    scaled == m * pow2(j),
                    m >= 1,
                    pow2(j) > 0,
            ;
            assert(j < 23) by {
                if j > 23 {
                    lemma_pow2_strictly_increases(23, j);
                }
            }
            lemma_pow2_unfold(j + 1);
            assert(2 * scaled == m * pow2(j + 1)) by (nonlinear_arith)
                requires
                    scaled == m * pow2(j),
                    pow2(j + 1) == 2 * pow2(j),
            ;
        }
        scaled = scaled * 2;
        exponent = exponent - 1;
    }
    proof {
        let j = (148 + k - exponent) as nat;
        lemma2_to64();
        lemma_pow2_pos(j);
        lemma_pow2_pos(k);
        assert(pow2(j) <= scaled) by (nonlinear_arith)
            requires
                scaled == m * pow2(j),
                m >= 1,
                pow2(j) > 0,
        ;
        assert(j < 24) by {
            if j > 24 {
                lemma_pow2_strictly_increases(24, j);
            }
        }
        let value = m * pow2(k);
        assert(value > 0) by (nonlinear_arith)
            requires
                value == m * pow2(k),
                m >= 1,
                pow2(k) > 0,
        ;
        if exponent <= 148 {
            lemma_pow2_adds(k, (j - k) as nat);
            assert(scaled == value * pow2((148 - exponent) as nat)) by (nonlinear_arith)
                requires
                    scaled == m * pow2(j),
                    pow2(j) == pow2(k) * pow2((j - k) as nat),
                    value == m * pow2(k),
                    148 - exponent == j - k,
            ;
        } else {
            lemma_pow2_adds(j, (k - j) as nat);
            assert(scaled * pow2((exponent - 148) as nat) == value) by (nonlinear_arith)
                requires
                    scaled == m * pow2(j),
                    pow2(k) == pow2(j) * pow2((k - j) as nat),
                    value == m * pow2(k),
                    exponent - 148 == k - j,
            ;
        }
    }
    let sign_bit: u32 = if negative {
        0x8000_0000
    } else {
        0
    };
    sign_bit + exponent * 0x80_0000 + (scaled - 0x80_0000)
}

impl InstanceRaw {
    /// The translation by `(x / 4, y / 4, z / 4)`.
    pub fn translation(x: i32, y: i32, z: i32) -> (m: InstanceRaw)
        requires
            -QUARTERS_LIMIT < x < QUARTERS_LIMIT,
            -QUARTERS_LIMIT < y < QUARTERS_LIMIT,
            -QUARTERS_LIMIT < z < QUARTERS_LIMIT,
        ensures
            is_translation(m, x as int, y as int, z as int),
    {
        InstanceRaw {
            model: [
                [ONE_BITS, 0, 0, 0],
                [0, ONE_BITS, 0, 0],
                [0, 0, ONE_BITS, 0],
                [quarters_bits(x), quarters_bits(y), quarters_bits(z), ONE_BITS],
            ],
        }
    }

    /// The identity matrix.
    pub fn identity() -> (m: InstanceRaw)
        ensures
            m == identity_matrix(),
            forall|c: int, r: int|
                0 <= c < 4 && 0 <= r < 4 ==> #[trigger] m.model@[c]@[r] == if c == r {
                    ONE_BITS
                } else {
                    0u32
                },
    {
        InstanceRaw {
            model: [
                [ONE_BITS, 0, 0, 0],
                [0, ONE_BITS, 0, 0],
                [0, 0, ONE_BITS, 0],
                [0, 0, 0, ONE_BITS],
            ],
        }
    }
}

/// The bytes that hold `matrix` in memory.
fn matrix_bytes(matrix: InstanceRaw) -> (bytes: Vec<u8>)
    ensures
        is_uniform_image(bytes@, matrix),
        bytes@.len() == MatrixUniform::spec_size(),
{
    let mut one: Vec<InstanceRaw> = Vec::new();
    one.push(matrix);
    assert(one@ =~= seq![matrix]);
    let words = flatten_instances(one.as_slice());
    words_to_bytes(words.as_slice())
}

impl MatrixUniform {
    /// Size of the uniform buffer in bytes.
    pub open spec fn spec_size() -> int {
        64
    }

    /// The matrix.
    pub closed spec fn spec_matrix(&self) -> InstanceRaw {
        self.matrix
    }

    /// The bytes of the uniform buffer.
    pub closed spec fn image(&self) -> Seq<u8> {
        self.bytes@
    }

    /// The bytes are those of the matrix.
    pub open spec fn wf(&self) -> bool {
        &&& is_uniform_image(self.image(), self.spec_matrix())
        &&& self.image().len() == MatrixUniform::spec_size()
    }

    /// A uniform that holds the identity.
    pub fn new() -> (uniform: MatrixUniform)
        ensures
            uniform.wf(),
            uniform.spec_matrix() == identity_matrix(),
    {
        let matrix = InstanceRaw::identity();
        MatrixUniform { matrix, bytes: matrix_bytes(matrix) }
    }

    /// Replaces the matrix, and with it the bytes to write at offset 0 of
    /// the uniform buffer.
    pub fn update(&mut self, matrix: InstanceRaw)
        ensures
            final(self).wf(),
            final(self).spec_matrix() == matrix,
    {
        self.matrix = matrix;
        self.bytes = matrix_bytes(matrix);
    }

    /// The matrix.
    #[verifier::when_used_as_spec(spec_matrix)]
    pub fn matrix(&self) -> (m: InstanceRaw)
        ensures
            m == self.spec_matrix(),
    {
        self.matrix
    }

    /// The bytes of the uniform buffer.
    pub fn bytes(&self) -> (bytes: &[u8])
        ensures
            bytes@ == self.image(),
    {
        self.bytes.as_slice()
    }
}

} // verus!
