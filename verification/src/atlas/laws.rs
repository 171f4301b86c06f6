//! What holds of the glyphs in the atlas.

use vstd::prelude::*;

#[allow(unused_imports)]
use super::{Placement, ShelfPacker, ATLAS_SIZE, PAD};

verus! {

/// A glyph in the atlas.
pub struct Rect {
    pub x: int,
    pub y: int,
    pub w: int,
    pub h: int,
}

impl Rect {
    /// Whether the two have a pixel in common.
    pub open spec fn overlaps(self, o: Rect) -> bool {
        &&& self.x < o.x + o.w
        &&& o.x < self.x + self.w
        &&& self.y < o.y + o.h
        &&& o.y < self.y + self.h
    }
}

/// The rectangle of a glyph of `w` by `h` put at `at`.
pub open spec fn rect_at(at: Placement, w: u32, h: u32) -> Rect {
    Rect { x: at.x as int, y: at.y as int, w: w as int, h: h as int }
}

impl ShelfPacker {
    /// Whether the rectangle lies in what is filled: above the current shelf,
    /// or on it and left of the next place.
    pub open spec fn holds(self, r: Rect) -> bool {
        ||| r.y + r.h + PAD <= self.y
        ||| r.y == self.y && r.x + r.w + PAD <= self.x && r.h <= self.height
    }
}

/// Every glyph that is no larger than the atlas is put inside it.
pub proof fn law_inside(p: ShelfPacker, w: u32, h: u32)
    requires
        p.wf(),
        w <= ATLAS_SIZE,
        h <= ATLAS_SIZE,
    ensures
        p.placement(w, h).x + w <= ATLAS_SIZE,
        p.placement(w, h).y + h <= ATLAS_SIZE,
        p.placed(w, h).wf(),
        p.placed(w, h).holds(rect_at(p.placement(w, h), w, h)),
{
}

/// As long as the atlas does not start over, what it holds stays where it is,
/// and no new glyph touches it.
pub proof fn law_no_overlap(p: ShelfPacker, r: Rect, w: u32, h: u32)
    requires
        p.wf(),
        w <= ATLAS_SIZE,
        h <= ATLAS_SIZE,
        p.holds(r),
        0 <= r.w,
        0 <= r.h,
        !p.placement(w, h).restarted,
    ensures
        p.placed(w, h).holds(r),
        !r.overlaps(rect_at(p.placement(w, h), w, h)),
{
}

/// Glyphs are put side by side on a shelf, a pixel apart, as long as there is
/// room; then on a new shelf, a pixel below the highest glyph of the last one.
/// The atlas starts over only where there is no room for that either. It is
/// 2048 pixels wide and high.
pub proof fn law_room_is_used(p: ShelfPacker, w: u32, h: u32)
    requires
        p.wf(),
        w < 2048,
        h < 2048,
    ensures
        p.x + w + 1 <= 2048 && p.y + h + 1 <= 2048 ==> {
            &&& p.placement(w, h) == (Placement { x: p.x, y: p.y, restarted: false })
            &&& p.placed(w, h).x == p.x + w + 1
            &&& p.placed(w, h).y == p.y
            &&& p.placed(w, h).height == (if h > p.height {
                h
            } else {
                p.height
            })
        },
        p.x + w + 1 > 2048 && p.y + p.height + 1 + h + 1 <= 2048 ==> {
            &&& p.placement(w, h) == (Placement {
                x: 0,
                y: (p.y + p.height + 1) as u32,
                restarted: false,
            })
            &&& p.placed(w, h) == (ShelfPacker {
                x: (w + 1) as u32,
                y: (p.y + p.height + 1) as u32,
                height: h,
            })
        },
        p.placement(w, h).restarted <==> (if p.x + w + 1 > 2048 {
            p.y + p.height + 1 + h + 1 > 2048
        } else {
            p.y + h + 1 > 2048
        }),
        p.placement(w, h).restarted ==> p.placed(w, h) == ShelfPacker::fresh().placed(w, h)
            && p.placement(w, h).x == 0 && p.placement(w, h).y == 0,
{
}

} // verus!
