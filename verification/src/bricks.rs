use vstd::prelude::*;

verus! {

/// Number of `u32` words that hold the voxels of one brick.
pub const BRICK_WORDS: usize = 16;

/// Number of voxels in one brick (8 x 8 x 8), one bit each.
pub const BRICK_VOXELS: usize = 512;

/// Whether bit `pos` of `w` is set, counting from the most significant bit
/// (`pos == 0` is bit 31): the `Msb0` order in which a brick's voxels are
/// stored in its words.
pub open spec fn msb0_bit(w: u32, pos: u32) -> bool {
    (w >> ((31 - pos) as u32)) & 1u32 == 1u32
}

/// Setting bit `q` (in `Msb0` order) of a word sets that bit and leaves the
/// others; clearing it clears that bit and leaves the others.
pub proof fn lemma_msb0_set_clear(w: u32, q: u32, p: u32)
    requires
        q < 32,
        p < 32,
    ensures
        msb0_bit(w | (1u32 << ((31 - q) as u32)), p) == (p == q || msb0_bit(w, p)),
        msb0_bit(w & !(1u32 << ((31 - q) as u32)), p) == (p != q && msb0_bit(w, p)),
        msb0_bit(w, p) == ((w & (1u32 << ((31 - p) as u32))) != 0u32),
{
    assert(
        ((w | (1u32 << ((31 - q) as u32))) >> ((31 - p) as u32)) & 1u32 == 1u32
        <==> (p == q || (w >> ((31 - p) as u32)) & 1u32 == 1u32)
    ) by (bit_vector)
        requires q < 32, p < 32;
    assert(
        ((w & !(1u32 << ((31 - q) as u32))) >> ((31 - p) as u32)) & 1u32 == 1u32
        <==> (p != q && (w >> ((31 - p) as u32)) & 1u32 == 1u32)
    ) by (bit_vector)
        requires q < 32, p < 32;
    assert(
        ((w >> ((31 - p) as u32)) & 1u32 == 1u32)
        <==> ((w & (1u32 << ((31 - p) as u32))) != 0u32)
    ) by (bit_vector)
        requires p < 32;
}

/// Bit `p` in `Msb0` order is the bit that the mask `0x8000_0000 >> p` picks.
pub proof fn lemma_msb0_mask(w: u32, p: u32)
    requires
        p < 32,
    ensures
        msb0_bit(w, p) == ((w & (0x8000_0000u32 >> p)) != 0u32),
{
    assert(((w >> ((31 - p) as u32)) & 1u32 == 1u32) == ((w & (0x8000_0000u32 >> p)) != 0u32))
        by (bit_vector)
        requires p < 32;
}

/// No bit of the zero word is set, and every bit of the all-ones word is.
pub proof fn lemma_msb0_zero_full(p: u32)
    requires
        p < 32,
    ensures
        !msb0_bit(0u32, p),
        msb0_bit(0xFFFF_FFFFu32, p),
{
    assert(!((0u32 >> ((31 - p) as u32)) & 1u32 == 1u32)) by (bit_vector)
        requires p < 32;
    assert((0xFFFF_FFFFu32 >> ((31 - p) as u32)) & 1u32 == 1u32) by (bit_vector)
        requires p < 32;
}

/// The voxel occupancy of an 8 x 8 x 8 brick, one bit per voxel, kept in
/// sixteen `u32` words in `Msb0` order: voxel `i` is bit `i % 32` of word
/// `i / 32`, counted from the most significant bit.
#[derive(Clone, Copy, Debug)]
pub struct BrickMap {
    pub datos: [u32; 16],
}

impl BrickMap {
    /// Whether voxel `i` (`0 <= i < 512`) is solid.
    pub open spec fn voxel(self, i: int) -> bool {
        msb0_bit(self.datos[i / 32], (i % 32) as u32)
    }

    /// A brick in which every voxel is solid.
    pub open spec fn is_full(self) -> bool {
        forall|i: int| 0 <= i < 512 ==> #[trigger] self.voxel(i)
    }

    /// A brick in which no voxel is solid.
    pub open spec fn is_empty(self) -> bool {
        forall|i: int| 0 <= i < 512 ==> !#[trigger] self.voxel(i)
    }

    /// Reads voxel `idx`.
    pub fn get(&self, idx: usize) -> (r: bool)
        requires
            idx < BRICK_VOXELS,
        ensures
            r == self@[idx as int],
            r == ((self.datos[(idx / 32) as int] & (0x8000_0000u32 >> ((idx % 32) as u32))) != 0u32),
    {
        proof {
            lemma_msb0_mask((self.datos[(idx / 32) as int]), (idx % 32) as u32);
        }
        let w = self.datos[idx / 32];
        let q = (idx % 32) as u32;
        proof {
            lemma_msb0_set_clear(w, q, q);
        }
        (w & (1u32 << (31 - q))) != 0
    }

    /// Writes voxel `idx`; every other voxel keeps its value.
    pub fn set(&mut self, idx: usize, value: bool)
        requires
            idx < BRICK_VOXELS,
        ensures
            final(self)@ == old(self)@.update(idx as int, value),
    {
        let wi = idx / 32;
        let q = (idx % 32) as u32;
        let w = self.datos[wi];
        let mask: u32 = 1u32 << (31 - q);
        let nw = if value { w | mask } else { w & !mask };
        self.datos[wi] = nw;
        proof {
            let ghost o = *old(self);
            assert forall|j: int| 0 <= j < 512 implies #[trigger] self.voxel(j) == (if j == idx {
                value
            } else {
                o.voxel(j)
            }) by {
                lemma_msb0_set_clear(w, q, (j % 32) as u32);
                if j / 32 != wi as int {
                    assert(self.datos[j / 32] == o.datos[j / 32]);
                }
            }
            assert(self@ =~= o@.update(idx as int, value));
        }
    }
}

/// Read after write: after voxel `i` is written, reading it gives the value
/// written, and reading any other voxel gives what it held before.
pub proof fn law_brick_read_after_write(b: BrickMap, i: int, j: int, v: bool)
    requires
        0 <= i < 512,
        0 <= j < 512,
    ensures
        b@.update(i, v)[i] == v,
        j != i ==> b@.update(i, v)[j] == b@[j],
        b@.update(i, v).len() == 512,
{
}

impl View for BrickMap {
    type V = Seq<bool>;

    /// The 512 voxels of the brick, in index order.
    open spec fn view(&self) -> Seq<bool> {
        Seq::new(512, |i: int| self.voxel(i))
    }
}

impl Default for BrickMap {
    /// The empty brick: every word zero.
    fn default() -> (r: Self)
        ensures
            r.datos@ == Seq::new(16, |i: int| 0u32),
            r.is_empty(),
            r@ == Seq::new(512, |i: int| false),
    {
        let r = BrickMap { datos: [0u32; 16] };
        proof {
            assert forall|i: int| 0 <= i < 512 implies !#[trigger] r.voxel(i) by {
                lemma_msb0_zero_full((i % 32) as u32);
            }
            assert(r.datos@ =~= Seq::new(16, |i: int| 0u32));
            assert(r@ =~= Seq::new(512, |i: int| false));
        }
        r
    }
}

} // verus!

verus! {

/// The shader-side form of a brick: the same sixteen words, laid out for a
/// GPU storage buffer.
#[derive(Clone, Copy, Debug)]
pub struct Brickmap {
    pub datos: [u32; 16],
}

impl Default for Brickmap {
    /// The empty shader brick: every word zero.
    fn default() -> (r: Self)
        ensures
            r.datos@ == Seq::new(16, |i: int| 0u32),
    {
        let r = Brickmap { datos: [0u32; 16] };
        assert(r.datos@ =~= Seq::new(16, |i: int| 0u32));
        r
    }
}

impl Brickmap {
    /// Converts a brick to the form the shader reads: the words are copied
    /// unchanged, so the shader sees the same `Msb0` voxel layout.
    pub fn cpu_to_gpu(aux: BrickMap) -> (r: Brickmap)
        ensures
            r.datos == aux.datos,
    {
        Brickmap { datos: aux.datos }
    }
}

} // verus!
