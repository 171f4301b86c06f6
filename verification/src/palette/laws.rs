//! What holds of the colors shown.

use vstd::prelude::*;

#[allow(unused_imports)]
use super::{cube_level, PaletteState};
#[allow(unused_imports)]
use crate::cell::{flags, Color};
#[allow(unused_imports)]
use crate::config::{ConfigState, Rgb};

verus! {

/// The first sixteen colors, and those of text, screen and cursor, are the
/// configured ones.
pub proof fn law_configured_colors(cfg: ConfigState, i: int)
    requires
        cfg.wf(),
        0 <= i < 16,
    ensures
        PaletteState::of(cfg).colors[i] == cfg.palette[i],
        PaletteState::of(cfg).fg == cfg.fg,
        PaletteState::of(cfg).bg == cfg.bg,
        PaletteState::of(cfg).cursor == cfg.cursor,
{
}

/// The steps of the color cube.
pub open spec fn cube_steps() -> Seq<u8> {
    seq![0, 95, 135, 175, 215, 255]
}

/// Then come the colors of a cube of six steps a side: blue counts fastest, red
/// slowest.
pub proof fn law_color_cube(cfg: ConfigState, r: int, g: int, b: int)
    requires
        0 <= r < 6,
        0 <= g < 6,
        0 <= b < 6,
    ensures
        PaletteState::of(cfg).colors[16 + 36 * r + 6 * g + b] == (Rgb {
            r: cube_steps()[r],
            g: cube_steps()[g],
            b: cube_steps()[b],
        }),
{
    let n = 36 * r + 6 * g + b;
    assert(n / 36 == r && (n / 6) % 6 == g && n % 6 == b) by (nonlinear_arith)
        requires
            n == 36 * r + 6 * g + b,
            0 <= r < 6,
            0 <= g < 6,
            0 <= b < 6,
    ;
    assert(cube_level(r) == cube_steps()[r]);
    assert(cube_level(g) == cube_steps()[g]);
    assert(cube_level(b) == cube_steps()[b]);
}

/// The last twenty-four are grays, from almost black to almost white in steps
/// of ten.
pub proof fn law_grays(cfg: ConfigState, i: int)
    requires
        0 <= i < 24,
    ensures
        ({
            let c = PaletteState::of(cfg).colors[232 + i];
            c.r == 8 + 10 * i && c.g == c.r && c.b == c.r
        }),
{
}

/// A glyph has the color that its cell names: the text color where it names
/// none, the color of an index, or the very color. Only bold changes that, for
/// the first eight, to the eight bright ones; only the dim attribute dims.
pub proof fn law_glyph_colors(p: PaletteState, cell_flags: u16, i: u8, r: u8, g: u8, b: u8)
    ensures
        p.fg_of(Color::Default, cell_flags).color == p.fg,
        p.fg_of(Color::Rgb(r, g, b), cell_flags).color == (Rgb { r, g, b }),
        cell_flags & flags::BOLD == 0 || i >= 8 ==> p.fg_of(Color::Indexed(i), cell_flags).color
            == p.colors[i as int],
        cell_flags & flags::BOLD != 0 && i < 8 ==> p.fg_of(Color::Indexed(i), cell_flags).color
            == p.colors[i + 8],
        p.fg_of(Color::Indexed(i), cell_flags).dim <==> cell_flags & flags::DIM != 0,
        p.fg_of(Color::Default, cell_flags).dim <==> cell_flags & flags::DIM != 0,
        p.fg_of(Color::Rgb(r, g, b), cell_flags).dim <==> cell_flags & flags::DIM != 0,
{
}

/// A background has the color that its cell names, bold or not.
pub proof fn law_backgrounds(p: PaletteState, i: u8, r: u8, g: u8, b: u8)
    ensures
        p.bg_of(Color::Default) == p.bg,
        p.bg_of(Color::Indexed(i)) == p.colors[i as int],
        p.bg_of(Color::Rgb(r, g, b)) == (Rgb { r, g, b }),
{
}

} // verus!
