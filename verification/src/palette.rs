//! Color resolution: terminal `Color` -> the sRGB color that it shows.

use vstd::prelude::*;

use crate::cell::{flags, Color};
use crate::config::{Config, Rgb};
#[allow(unused_imports)]
use crate::config::ConfigState;

pub mod laws;

verus! {

/// A level of the color cube.
pub open spec fn cube_level(v: int) -> u8 {
    if v == 0 {
        0
    } else {
        (55 + v * 40) as u8
    }
}

/// The color with the index `i`: one of the palette, of the 6x6x6 color cube
/// (16..232) or of the grayscale ramp (232..256).
pub open spec fn indexed_color(palette: Seq<Rgb>, i: int) -> Rgb {
    if i < 16 {
        palette[i]
    } else if i < 232 {
        Rgb {
            r: cube_level((i - 16) / 36),
            g: cube_level(((i - 16) / 6) % 6),
            b: cube_level((i - 16) % 6),
        }
    } else {
        let v = (8 + (i - 232) * 10) as u8;
        Rgb { r: v, g: v, b: v }
    }
}

/// All 256 indexed colors.
pub open spec fn color_table(palette: Seq<Rgb>) -> Seq<Rgb> {
    Seq::new(256, |i: int| indexed_color(palette, i))
}

pub struct Palette {
    pub fg: Rgb,
    pub bg: Rgb,
    pub cursor: Rgb,
    pub colors: Vec<Rgb>,
}

/// A palette as a mathematical value.
#[verifier::ext_equal]
pub struct PaletteState {
    pub fg: Rgb,
    pub bg: Rgb,
    pub cursor: Rgb,
    pub colors: Seq<Rgb>,
}

impl View for Palette {
    type V = PaletteState;

    open spec fn view(&self) -> PaletteState {
        PaletteState { fg: self.fg, bg: self.bg, cursor: self.cursor, colors: self.colors@ }
    }
}

/// A color that is shown, at full strength or dimmed.
#[derive(Clone, Copy, PartialEq, Eq, Debug, Structural)]
pub struct Shade {
    pub color: Rgb,
    pub dim: bool,
}

impl PaletteState {
    pub open spec fn wf(self) -> bool {
        self.colors.len() == 256
    }

    /// The palette of a config.
    pub open spec fn of(cfg: ConfigState) -> PaletteState {
        PaletteState {
            fg: cfg.fg,
            bg: cfg.bg,
            cursor: cfg.cursor,
            colors: color_table(cfg.palette),
        }
    }

    /// The color of a glyph. Bold + base ANSI color brightens, the classic
    /// behavior.
    pub open spec fn fg_of(self, color: Color, cell_flags: u16) -> Shade {
        Shade {
            color: match color {
                Color::Default => self.fg,
                Color::Indexed(i) => if cell_flags & flags::BOLD != 0 && i < 8 {
                    self.colors[i + 8]
                } else {
                    self.colors[i as int]
                },
                Color::Rgb(r, g, b) => Rgb { r, g, b },
            },
            dim: cell_flags & flags::DIM != 0,
        }
    }

    /// The color of a background.
    pub open spec fn bg_of(self, color: Color) -> Rgb {
        match color {
            Color::Default => self.bg,
            Color::Indexed(i) => self.colors[i as int],
            Color::Rgb(r, g, b) => Rgb { r, g, b },
        }
    }
}

fn level(v: usize) -> (l: u8)
    requires
        v < 6,
    ensures
        l == cube_level(v as int),
{
    if v == 0 {
        0
    } else {
        (55 + v * 40) as u8
    }
}

/// A color of the cube or of the ramp.
fn computed_color(i: usize) -> (c: Rgb)
    requires
        16 <= i < 256,
    ensures
        forall|p: Seq<Rgb>| c == #[trigger] indexed_color(p, i as int),
{
    if i < 232 {
        let n = i - 16;
        Rgb { r: level(n / 36), g: level((n / 6) % 6), b: level(n % 6) }
    } else {
        let v = (8 + (i - 232) * 10) as u8;
        Rgb { r: v, g: v, b: v }
    }
}

impl Palette {
    pub fn new(cfg: &Config) -> (p: Palette)
        requires
            cfg@.wf(),
        ensures
            p@ == PaletteState::of(cfg@),
            p@.wf(),
    {
        let mut colors: Vec<Rgb> = Vec::new();
        for i in 0..256usize
            invariant
                cfg@.wf(),
                colors@.len() == i,
                forall|k: int|
                    0 <= k < i ==> #[trigger] colors@[k] == indexed_color(cfg@.palette, k),
        {
            if i < 16 {
                colors.push(cfg.palette[i]);
            } else {
                colors.push(computed_color(i));
            }
        }
        assert(colors@ =~= color_table(cfg@.palette));
        Palette { fg: cfg.fg, bg: cfg.bg, cursor: cfg.cursor, colors }
    }

    pub fn resolve_fg(&self, cell_fg: Color, cell_flags: u16) -> (s: Shade)
        requires
            self@.wf(),
        ensures
            s == self@.fg_of(cell_fg, cell_flags),
    {
        let bold = cell_flags & flags::BOLD != 0;
        let color = match cell_fg {
            Color::Default => self.fg,
            Color::Indexed(i) => if bold && i < 8 {
                self.colors[i as usize + 8]
            } else {
                self.colors[i as usize]
            },
            Color::Rgb(r, g, b) => Rgb { r, g, b },
        };
        Shade { color, dim: cell_flags & flags::DIM != 0 }
    }

    pub fn resolve_bg(&self, cell_bg: Color) -> (c: Rgb)
        requires
            self@.wf(),
        ensures
            c == self@.bg_of(cell_bg),
    {
        match cell_bg {
            Color::Default => self.bg,
            Color::Indexed(i) => self.colors[i as usize],
            Color::Rgb(r, g, b) => Rgb { r, g, b },
        }
    }
}

} // verus!
