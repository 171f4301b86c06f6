//! Where glyphs lie in the atlas texture: shelf packing.

use vstd::prelude::*;

#[allow(unused_imports)]
use vstd::arithmetic::power2::pow2;

pub mod laws;

verus! {

/// Width and height of the atlas, in pixels.
pub const ATLAS_SIZE: u32 = 2048;

/// Space between two glyphs.
pub const PAD: u32 = 1;

/// The shelves filled so far: where the next glyph goes, and how high the
/// current shelf is.
#[derive(Clone, Copy, PartialEq, Eq, Debug, Structural)]
pub struct ShelfPacker {
    pub x: u32,
    pub y: u32,
    pub height: u32,
}

/// Where a glyph was put.
#[derive(Clone, Copy, PartialEq, Eq, Debug, Structural)]
pub struct Placement {
    pub x: u32,
    pub y: u32,
    /// Whether the atlas was full and starts anew; every glyph placed before
    /// is gone.
    pub restarted: bool,
}

pub open spec fn max_u32(a: u32, b: u32) -> u32 {
    if a >= b {
        a
    } else {
        b
    }
}

impl ShelfPacker {
    pub open spec fn wf(self) -> bool {
        &&& self.x <= ATLAS_SIZE + PAD
        &&& self.y <= ATLAS_SIZE
        &&& self.height <= ATLAS_SIZE
    }

    /// An empty atlas.
    pub open spec fn fresh() -> ShelfPacker {
        ShelfPacker { x: 0, y: 0, height: 0 }
    }

    /// The shelf that a glyph of width `w` goes on: the current one, or a new
    /// one below it.
    pub open spec fn shelf_for(self, w: u32) -> (int, int, int) {
        if self.x + w + PAD > ATLAS_SIZE {
            (0, self.y + self.height + PAD, 0)
        } else {
            (self.x as int, self.y as int, self.height as int)
        }
    }

    /// Where a glyph of `w` by `h` goes.
    pub open spec fn placement(self, w: u32, h: u32) -> Placement {
        let (x, y, _) = self.shelf_for(w);
        if y + h + PAD > ATLAS_SIZE {
            Placement { x: 0, y: 0, restarted: true }
        } else {
            Placement { x: x as u32, y: y as u32, restarted: false }
        }
    }

    /// The shelves with a glyph of `w` by `h` on them.
    pub open spec fn placed(self, w: u32, h: u32) -> ShelfPacker {
        let (x, y, height) = self.shelf_for(w);
        if y + h + PAD > ATLAS_SIZE {
            ShelfPacker { x: (w + PAD) as u32, y: 0, height: h }
        } else {
            ShelfPacker {
                x: (x + w + PAD) as u32,
                y: y as u32,
                height: max_u32(height as u32, h),
            }
        }
    }

    pub fn new() -> (p: ShelfPacker)
        ensures
            p == ShelfPacker::fresh(),
            p.wf(),
    {
        ShelfPacker { x: 0, y: 0, height: 0 }
    }

    /// Finds a place for a glyph of `w` by `h` pixels; starts over at the
    /// origin if the atlas is full (rare in practice: 2048^2 holds thousands
    /// of glyphs).
    pub fn place(&mut self, w: u32, h: u32) -> (at: Placement)
        requires
            old(self).wf(),
            w <= ATLAS_SIZE,
            h <= ATLAS_SIZE,
        ensures
            at == old(self).placement(w, h),
            *final(self) == old(self).placed(w, h),
            final(self).wf(),
    {
        if self.x + w + PAD > ATLAS_SIZE {
            self.x = 0;
            self.y = self.y + self.height + PAD;
            self.height = 0;
        }
        let mut restarted = false;
        if self.y + h + PAD > ATLAS_SIZE {
            self.x = 0;
            self.y = 0;
            self.height = 0;
            restarted = true;
        }
        let at = Placement { x: self.x, y: self.y, restarted };
        self.x = self.x + w + PAD;
        if h > self.height {
            self.height = h;
        }
        at
    }
}

/// How many instances a buffer of `capacity` must hold for `needed` of them:
/// it stays, or grows to the next power of two.
pub fn grown_capacity(capacity: usize, needed: usize) -> (n: usize)
    requires
        needed <= usize::MAX / 2,
    ensures
        needed <= capacity ==> n == capacity,
        needed > capacity ==> needed <= n < 2 * needed && exists|k: nat| n == #[trigger] pow2(k),
{
    if needed <= capacity {
        return capacity;
    }
    let mut n: usize = 1;
    let ghost mut k: nat = 0;
    proof {
        vstd::arithmetic::power2::lemma2_to64();
    }
    while n < needed
        invariant
            needed <= usize::MAX / 2,
            n == pow2(k),
            needed >= 1,
            1 <= n < 2 * needed,
        decreases 2 * needed - n,
    {
        proof {
            vstd::arithmetic::power2::lemma_pow2_unfold(k + 1);
            k = k + 1;
        }
        n = n * 2;
    }
    n
}

} // verus!
