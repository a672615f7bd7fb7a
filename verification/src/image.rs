use vstd::prelude::*;

verus! {

/// The four bytes of a pixel word, most significant first.
pub open spec fn word_bytes(w: u32) -> Seq<u8> {
    seq![(w >> 24u32) as u8, ((w >> 16u32) & 0xffu32) as u8, ((w >> 8u32) & 0xffu32) as u8, (w & 0xffu32) as u8]
}

/// The word whose bytes, most significant first, are `b[0..4]`.
pub open spec fn word_from_bytes(b: Seq<u8>) -> u32 {
    ((b[0] as u32) << 24u32) | ((b[1] as u32) << 16u32) | ((b[2] as u32) << 8u32) | (b[3] as u32)
}

/// The bytes of the pixel words `s`, word by word.
pub open spec fn image_bytes(s: Seq<u32>) -> Seq<u8>
    decreases s.len(),
{
    if s.len() == 0 {
        Seq::empty()
    } else {
        image_bytes(s.drop_last()) + word_bytes(s.last())
    }
}

/// Turns the shader's pixel words into texture bytes: each word gives its
/// four bytes, most significant first.
pub fn vec32_to_imagedata(v: &Vec<u32>) -> (r: Vec<u8>)
    ensures
        r@ == image_bytes(v@),
{
    let mut resultado: Vec<u8> = Vec::new();
    let mut i: usize = 0;
    while i < v.len()
        invariant
            i <= v.len(),
            resultado@ == image_bytes(v@.take(i as int)),
        decreases v.len() - i,
    {
        let val = v[i];
        let uper_half = (val >> 16u32) as u16;
        let lower_half = (val & 0xFFFFu32) as u16;
        let b0 = (uper_half >> 8u16) as u8;
        let b1 = (uper_half & 0xFFu16) as u8;
        let b2 = (lower_half >> 8u16) as u8;
        let b3 = (lower_half & 0xFFu16) as u8;
        assert(b0 == (val >> 24u32) as u8 && b1 == ((val >> 16u32) & 0xffu32) as u8 && b2 == ((val
            >> 8u32) & 0xffu32) as u8 && b3 == (val & 0xffu32) as u8) by (bit_vector)
            requires
                uper_half == (val >> 16u32) as u16,
                lower_half == (val & 0xFFFFu32) as u16,
                b0 == (uper_half >> 8u16) as u8,
                b1 == (uper_half & 0xFFu16) as u8,
                b2 == (lower_half >> 8u16) as u8,
                b3 == (lower_half & 0xFFu16) as u8,
        ;
        resultado.push(b0);
        resultado.push(b1);
        resultado.push(b2);
        resultado.push(b3);
        proof {
            assert(v@.take(i + 1).drop_last() =~= v@.take(i as int));
            assert(resultado@ =~= image_bytes(v@.take(i + 1)));
        }
        i = i + 1;
    }
    proof {
        assert(v@.take(v.len() as int) =~= v@);
    }
    resultado
}

/// A pixel word's bytes give the word back.
pub proof fn law_word_bytes_roundtrip(w: u32)
    ensures
        word_from_bytes(word_bytes(w)) == w,
        word_bytes(w).len() == 4,
{
    let b = word_bytes(w);
    assert(b[0] == (w >> 24u32) as u8);
    assert(b[1] == ((w >> 16u32) & 0xffu32) as u8);
    assert(b[2] == ((w >> 8u32) & 0xffu32) as u8);
    assert(b[3] == (w & 0xffu32) as u8);
    assert((((w >> 24u32) as u8) as u32) << 24u32 | ((((w >> 16u32) & 0xffu32) as u8) as u32) << 16u32
        | ((((w >> 8u32) & 0xffu32) as u8) as u32) << 8u32 | (((w & 0xffu32) as u8) as u32) == w)
        by (bit_vector);
}

/// A pixel word's bytes are its base-256 digits, most significant first.
pub proof fn lemma_word_bytes_values(w: u32)
    ensures
        word_bytes(w)[0] as int == w / 0x100_0000,
        word_bytes(w)[1] as int == (w / 0x1_0000) % 256,
        word_bytes(w)[2] as int == (w / 256) % 256,
        word_bytes(w)[3] as int == w % 256,
{
    assert(((w >> 24u32) as u8) as u32 == w / 0x100_0000u32) by (bit_vector);
    assert((((w >> 16u32) & 0xffu32) as u8) as u32 == (w / 0x1_0000u32) % 256u32) by (bit_vector);
    assert((((w >> 8u32) & 0xffu32) as u8) as u32 == (w / 256u32) % 256u32) by (bit_vector);
    assert(((w & 0xffu32) as u8) as u32 == w % 256u32) by (bit_vector);
}

/// The texture bytes hold four bytes per pixel word, and bytes `4 i` to
/// `4 i + 3` are the bytes of word `i`, so reading them back gives the word.
pub proof fn law_image_bytes_layout(s: Seq<u32>)
    ensures
        image_bytes(s).len() == 4 * s.len(),
        forall|i: int, k: int|
            0 <= i < s.len() && 0 <= k < 4 ==> #[trigger] image_bytes(s)[4 * i + k] == word_bytes(
                s[i],
            )[k],
        forall|i: int|
            0 <= i < s.len() ==> word_from_bytes(#[trigger] image_bytes(s).subrange(4 * i, 4 * i + 4))
                == s[i],
        forall|i: int|
            0 <= i < s.len() ==> {
                &&& image_bytes(s)[4 * i] as int == (#[trigger] s[i]) / 0x100_0000
                &&& image_bytes(s)[4 * i + 1] as int == (s[i] / 0x1_0000) % 256
                &&& image_bytes(s)[4 * i + 2] as int == (s[i] / 256) % 256
                &&& image_bytes(s)[4 * i + 3] as int == s[i] % 256
            },
    decreases s.len(),
{
    if s.len() > 0 {
        let pre = s.drop_last();
        law_image_bytes_layout(pre);
        assert forall|i: int, k: int|
            0 <= i < s.len() && 0 <= k < 4 implies #[trigger] image_bytes(s)[4 * i + k] == word_bytes(
            s[i],
        )[k] by {
            if i < s.len() - 1 {
                assert(pre[i] == s[i]);
                assert(image_bytes(pre)[4 * i + k] == word_bytes(pre[i])[k]);
            }
        }
        assert forall|i: int|
            0 <= i < s.len() implies {
                &&& image_bytes(s)[4 * i] as int == (#[trigger] s[i]) / 0x100_0000
                &&& image_bytes(s)[4 * i + 1] as int == (s[i] / 0x1_0000) % 256
                &&& image_bytes(s)[4 * i + 2] as int == (s[i] / 256) % 256
                &&& image_bytes(s)[4 * i + 3] as int == s[i] % 256
            } by {
            lemma_word_bytes_values(s[i]);
            assert(image_bytes(s)[4 * i + 0] == word_bytes(s[i])[0]);
        }
        assert forall|i: int|
            0 <= i < s.len() implies word_from_bytes(
            #[trigger] image_bytes(s).subrange(4 * i, 4 * i + 4),
        ) == s[i] by {
            law_word_bytes_roundtrip(s[i]);
            assert(image_bytes(s).subrange(4 * i, 4 * i + 4) =~= word_bytes(s[i])) by {
                assert(image_bytes(s)[4 * i + 0] == word_bytes(s[i])[0]);
                assert(image_bytes(s)[4 * i + 1] == word_bytes(s[i])[1]);
                assert(image_bytes(s)[4 * i + 2] == word_bytes(s[i])[2]);
                assert(image_bytes(s)[4 * i + 3] == word_bytes(s[i])[3]);
            }
        }
    }
}

} // verus!

verus! {

/// The test pattern: a solid red square on plane `z == 50`, for
/// `10 < y < 120` and `10 < x < 120`; empty elsewhere.
pub open spec fn test_pattern_value(z: int, y: int, x: int) -> u32 {
    if z == 50 && 10 < y < 120 && 10 < x < 120 {
        0xff0000ffu32
    } else {
        0u32
    }
}

/// The test pattern's value at position `i` of a grid whose planes are
/// `w1` rows of `w2` cells.
pub open spec fn grid_value_at(i: int, w1: int, w2: int) -> u32 {
    test_pattern_value(i / (w1 * w2), (i / w2) % w1, i % w2)
}

/// Position `(z * w1 + y) * w2 + x` of such a grid is cell `(z, y, x)`.
pub proof fn lemma_grid_position(z: int, y: int, x: int, w1: int, w2: int)
    requires
        0 <= z,
        0 <= y < w1,
        0 <= x < w2,
    ensures
        ((z * w1 + y) * w2 + x) / (w1 * w2) == z,
        (((z * w1 + y) * w2 + x) / w2) % w1 == y,
        ((z * w1 + y) * w2 + x) % w2 == x,
{
    let n = (z * w1 + y) * w2 + x;
    assert(0 <= z * w1) by (nonlinear_arith)
        requires 0 <= z, 0 < w1;
    vstd::arithmetic::div_mod::lemma_fundamental_div_mod_converse(n, w2, z * w1 + y, x);
    vstd::arithmetic::div_mod::lemma_fundamental_div_mod_converse(z * w1 + y, w1, z, y);
    assert(0 <= n) by (nonlinear_arith)
        requires 0 <= z * w1 + y, 0 < w2, 0 <= x, n == (z * w1 + y) * w2 + x;
    vstd::arithmetic::div_mod::lemma_div_denominator(n, w2, w1);
    vstd::arithmetic::mul::lemma_mul_is_commutative(w2, w1);
}

/// Builds a test brick grid of `world.0` planes of `world.1` rows of
/// `world.2` cells, plane by plane and row by row, holding the test
/// pattern.
pub fn test_brickgrid(world: (u32, u32, u32)) -> (r: Vec<u32>)
    ensures
        r@.len() == world.0 * world.1 * world.2,
        forall|i: int| 0 <= i < r@.len() ==> #[trigger] r@[i] == grid_value_at(i, world.1 as int, world.2 as int),
{
    let ghost w1 = world.1 as int;
    let ghost w2 = world.2 as int;
    let mut grid: Vec<u32> = Vec::new();
    let mut z: u32 = 0;
    assert((0 * w1) * w2 == 0) by (nonlinear_arith);
    while z < world.0
        invariant
            z <= world.0,
            w1 == world.1,
            w2 == world.2,
            grid@.len() == (z * w1) * w2,
            forall|i: int| 0 <= i < grid@.len() ==> #[trigger] grid@[i] == grid_value_at(i, w1, w2),
        decreases world.0 - z,
    {
        let mut y: u32 = 0;
        while y < world.1
            invariant
                z < world.0,
                y <= world.1,
                w1 == world.1,
                w2 == world.2,
                grid@.len() == (z * w1 + y) * w2,
                forall|i: int| 0 <= i < grid@.len() ==> #[trigger] grid@[i] == grid_value_at(i, w1, w2),
            decreases world.1 - y,
        {
            let mut x: u32 = 0;
            while x < world.2
                invariant
                    z < world.0,
                    y < world.1,
                    x <= world.2,
                    w1 == world.1,
                    w2 == world.2,
                    grid@.len() == (z * w1 + y) * w2 + x,
                    forall|i: int| 0 <= i < grid@.len() ==> #[trigger] grid@[i] == grid_value_at(i, w1, w2),
                decreases world.2 - x,
            {
                proof {
                    lemma_grid_position(z as int, y as int, x as int, w1, w2);
                }
                if z == 50 && 10 < y && y < 120 && 10 < x && x < 120 {
                    grid.push(0xff0000ffu32);
                } else {
                    grid.push(0u32);
                }
                x = x + 1;
            }
            assert((z * w1 + y) * w2 + w2 == (z * w1 + (y + 1)) * w2) by (nonlinear_arith);
            y = y + 1;
        }
        assert((z * w1 + w1) * w2 == ((z + 1) * w1) * w2) by (nonlinear_arith);
        z = z + 1;
    }
    grid
}

/// Cell `(z, y, x)` of the test grid is at position `(z * w1 + y) * w2 + x`
/// and holds the test pattern's value there.
pub proof fn law_test_grid_cell(world: (u32, u32, u32), grid: Seq<u32>, z: int, y: int, x: int)
    requires
        grid.len() == world.0 * world.1 * world.2,
        forall|i: int| 0 <= i < grid.len() ==> #[trigger] grid[i] == grid_value_at(i, world.1 as int, world.2 as int),
        0 <= z < world.0,
        0 <= y < world.1,
        0 <= x < world.2,
    ensures
        0 <= (z * world.1 + y) * world.2 + x < grid.len(),
        grid[(z * world.1 + y) * world.2 + x] == test_pattern_value(z, y, x),
{
    let w0 = world.0 as int;
    let w1 = world.1 as int;
    let w2 = world.2 as int;
    lemma_grid_position(z, y, x, w1, w2);
    assert(0 <= (z * w1 + y) * w2 + x < w0 * w1 * w2) by (nonlinear_arith)
        requires 0 <= z < w0, 0 <= y < w1, 0 <= x < w2;
}

} // verus!
