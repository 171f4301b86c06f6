//! Minimalist config: `~/.config/mimi/config`, `key = value` lines,
//! `#` comments. No config file is required — the defaults are the product.

use vstd::prelude::*;
use vstd::slice::slice_subrange;

#[allow(unused_imports)]
use crate::blocks::text_of;
#[allow(unused_imports)]
use crate::stdx::white_space;
#[allow(unused_imports)]
use crate::term::view::texts;
use crate::text::{
    chars_of, hex_digit, hex_pair, parse_usize, split_first, string_of, strip_prefix, text_eq,
    trimmed, trimmed_end,
};
#[allow(unused_imports)]
use crate::text::{
    after, before, hex_value, lemma_find, read_hex_pair, read_unsigned, trim, trim_end,
};

pub mod laws;
pub mod settings_laws;

verus! {

/// An sRGB color.
#[derive(Clone, Copy, PartialEq, Eq, Debug, Structural)]
pub struct Rgb {
    pub r: u8,
    pub g: u8,
    pub b: u8,
}

/// How many colors the configurable palette has.
pub const PALETTE_SIZE: usize = 16;

/// How many lines of scrollback there are where the config does not say.
pub const DEFAULT_SCROLLBACK: usize = 10000;

pub struct Config {
    /// What was given as the font size, in order. The last one that is a
    /// number counts.
    pub font_size: Vec<String>,
    pub font_path: Option<String>,
    pub shell: Option<String>,
    pub scrollback: usize,
    /// What was given as the padding, in order. The last one that is a number
    /// counts.
    pub padding: Vec<String>,
    /// Whether agents on the control socket may inject input (`run`,
    /// `send_text`). Read-only methods are always available.
    pub allow_agent_exec: bool,
    pub fg: Rgb,
    pub bg: Rgb,
    pub cursor: Rgb,
    pub palette: Vec<Rgb>,
}

/// A config as a mathematical value.
#[verifier::ext_equal]
pub struct ConfigState {
    pub font_size: Seq<Seq<char>>,
    pub font_path: Option<Seq<char>>,
    pub shell: Option<Seq<char>>,
    pub scrollback: int,
    pub padding: Seq<Seq<char>>,
    pub allow_agent_exec: bool,
    pub fg: Rgb,
    pub bg: Rgb,
    pub cursor: Rgb,
    pub palette: Seq<Rgb>,
}

impl View for Config {
    type V = ConfigState;

    open spec fn view(&self) -> ConfigState {
        ConfigState {
            font_size: texts(self.font_size@),
            font_path: text_of(self.font_path),
            shell: text_of(self.shell),
            scrollback: self.scrollback as int,
            padding: texts(self.padding@),
            allow_agent_exec: self.allow_agent_exec,
            fg: self.fg,
            bg: self.bg,
            cursor: self.cursor,
            palette: self.palette@,
        }
    }
}

/// A restrained dark palette tuned for legibility on the default background.
pub open spec fn default_colors() -> Seq<Rgb> {
    seq![
        Rgb { r: 0x1c, g: 0x21, b: 0x28 },  // black
        Rgb { r: 0xe8, g: 0x6c, b: 0x75 },  // red
        Rgb { r: 0x8f, g: 0xc8, b: 0x7f },  // green
        Rgb { r: 0xe5, g: 0xc0, b: 0x7b },  // yellow
        Rgb { r: 0x6c, g: 0xb2, b: 0xf0 },  // blue
        Rgb { r: 0xc7, g: 0x92, b: 0xea },  // magenta
        Rgb { r: 0x66, g: 0xc7, b: 0xc4 },  // cyan
        Rgb { r: 0xd6, g: 0xdb, b: 0xe1 },  // white
        Rgb { r: 0x49, g: 0x52, b: 0x5e },  // bright black
        Rgb { r: 0xf2, g: 0x87, b: 0x79 },  // bright red
        Rgb { r: 0xa5, g: 0xd6, b: 0x96 },  // bright green
        Rgb { r: 0xf0, g: 0xd1, b: 0x97 },  // bright yellow
        Rgb { r: 0x8a, g: 0xc4, b: 0xf2 },  // bright blue
        Rgb { r: 0xd8, g: 0xaa, b: 0xf2 },  // bright magenta
        Rgb { r: 0x85, g: 0xd5, b: 0xd2 },  // bright cyan
        Rgb { r: 0xf0, g: 0xf2, b: 0xf5 },  // bright white
    ]
}

/// The default palette.
pub fn default_palette() -> (colors: Vec<Rgb>)
    ensures
        colors@ == default_colors(),
{
    let colors = vec![
        Rgb { r: 0x1c, g: 0x21, b: 0x28 },
        Rgb { r: 0xe8, g: 0x6c, b: 0x75 },
        Rgb { r: 0x8f, g: 0xc8, b: 0x7f },
        Rgb { r: 0xe5, g: 0xc0, b: 0x7b },
        Rgb { r: 0x6c, g: 0xb2, b: 0xf0 },
        Rgb { r: 0xc7, g: 0x92, b: 0xea },
        Rgb { r: 0x66, g: 0xc7, b: 0xc4 },
        Rgb { r: 0xd6, g: 0xdb, b: 0xe1 },
        Rgb { r: 0x49, g: 0x52, b: 0x5e },
        Rgb { r: 0xf2, g: 0x87, b: 0x79 },
        Rgb { r: 0xa5, g: 0xd6, b: 0x96 },
        Rgb { r: 0xf0, g: 0xd1, b: 0x97 },
        Rgb { r: 0x8a, g: 0xc4, b: 0xf2 },
        Rgb { r: 0xd8, g: 0xaa, b: 0xf2 },
        Rgb { r: 0x85, g: 0xd5, b: 0xd2 },
        Rgb { r: 0xf0, g: 0xf2, b: 0xf5 },
    ];
    assert(colors@ =~= default_colors());
    colors
}

/// `s` without the number signs at its start.
pub open spec fn without_hashes(s: Seq<char>) -> Seq<char>
    decreases s.len(),
{
    if s.len() > 0 && s[0] == '#' {
        without_hashes(s.drop_first())
    } else {
        s
    }
}

/// The value of two hexadecimal digits.
pub open spec fn two_digits(hi: char, lo: char) -> Option<u8> {
    match (hex_value(hi), hex_value(lo)) {
        (Some(h), Some(l)) => Some((h * 16 + l) as u8),
        _ => None,
    }
}

/// The color that `s` writes: six hexadecimal digits, behind an optional `#`.
/// A plus sign may stand for the first digit.
pub open spec fn read_color(s: Seq<char>) -> Option<Rgb> {
    let t = without_hashes(trim(s));
    if t.len() == 6 {
        match (read_hex_pair(t[0], t[1]), two_digits(t[2], t[3]), two_digits(t[4], t[5])) {
            (Some(r), Some(g), Some(b)) => Some(Rgb { r, g, b }),
            _ => None,
        }
    } else {
        None
    }
}

fn skip_hashes<'a>(cs: &'a [char]) -> (r: &'a [char])
    ensures
        r@ == without_hashes(cs@),
{
    let mut n: usize = 0;
    assert(cs@.skip(0) =~= cs@);
    while n < cs.len() && cs[n] == '#'
        invariant
            n <= cs.len(),
            without_hashes(cs@) == without_hashes(cs@.skip(n as int)),
        decreases cs.len() - n,
    {
        assert(cs@.skip(n as int).drop_first() =~= cs@.skip(n + 1));
        n += 1;
    }
    slice_subrange(cs, n, cs.len())
}

fn digit_pair(hi: char, lo: char) -> (r: Option<u8>)
    ensures
        r == two_digits(hi, lo),
{
    match (hex_digit(hi), hex_digit(lo)) {
        (Some(h), Some(l)) => Some(h * 16 + l),
        _ => None,
    }
}

/// Reads a color.
pub fn parse_hex(v: &[char]) -> (r: Option<Rgb>)
    ensures
        r == read_color(v@),
{
    let t = skip_hashes(trimmed(v));
    if t.len() != 6 {
        return None;
    }
    match (hex_pair(t[0], t[1]), digit_pair(t[2], t[3]), digit_pair(t[4], t[5])) {
        (Some(r), Some(g), Some(b)) => Some(Rgb { r, g, b }),
        _ => None,
    }
}

/// How many characters of `s` stand before a comment: a `#` behind white
/// space. A `#` at the start is no comment, colors are written so.
pub open spec fn comment_start(s: Seq<char>, i: int) -> int
    decreases s.len() - i,
{
    if i >= s.len() {
        s.len() as int
    } else if i > 0 && s[i] == '#' && white_space(s[i - 1]) {
        i
    } else {
        comment_start(s, i + 1)
    }
}

/// `s` without the comment at its end.
pub open spec fn without_comment(s: Seq<char>) -> Seq<char> {
    trim_end(s.take(comment_start(s, 0)))
}

fn drop_comment<'a>(cs: &'a [char]) -> (r: &'a [char])
    ensures
        r@ == without_comment(cs@),
{
    let mut i: usize = 0;
    while i < cs.len() && !(i > 0 && cs[i] == '#' && cs[i - 1].is_whitespace())
        invariant
            i <= cs.len(),
            comment_start(cs@, 0) == comment_start(cs@, i as int),
        decreases cs.len() - i,
    {
        i += 1;
    }
    trimmed_end(slice_subrange(cs, 0, i))
}

impl ConfigState {
    /// What holds where no config says otherwise.
    pub open spec fn defaults() -> ConfigState {
        ConfigState {
            font_size: Seq::empty(),
            font_path: None,
            shell: None,
            scrollback: DEFAULT_SCROLLBACK as int,
            padding: Seq::empty(),
            allow_agent_exec: true,
            fg: Rgb { r: 0xd6, g: 0xdb, b: 0xe1 },
            bg: Rgb { r: 0x0e, g: 0x11, b: 0x16 },
            cursor: Rgb { r: 0xff, g: 0xb4, b: 0x54 },
            palette: default_colors(),
        }
    }

    pub open spec fn wf(self) -> bool {
        self.palette.len() == PALETTE_SIZE
    }

    /// The config with `key` set to `value`. A value that cannot be read
    /// changes nothing, nor does an unknown key.
    pub open spec fn with(self, key: Seq<char>, value: Seq<char>) -> ConfigState {
        if key == "font_size"@ {
            ConfigState { font_size: self.font_size.push(value), ..self }
        } else if key == "font"@ {
            ConfigState { font_path: Some(value), ..self }
        } else if key == "shell"@ {
            ConfigState { shell: Some(value), ..self }
        } else if key == "scrollback"@ {
            match read_unsigned(value, usize::MAX as nat) {
                Some(v) => ConfigState { scrollback: v as int, ..self },
                None => self,
            }
        } else if key == "padding"@ {
            ConfigState { padding: self.padding.push(value), ..self }
        } else if key == "allow_agent_exec"@ {
            ConfigState { allow_agent_exec: value != "false"@, ..self }
        } else if key == "fg"@ {
            match read_color(value) {
                Some(c) => ConfigState { fg: c, ..self },
                None => self,
            }
        } else if key == "bg"@ {
            match read_color(value) {
                Some(c) => ConfigState { bg: c, ..self },
                None => self,
            }
        } else if key == "cursor"@ {
            match read_color(value) {
                Some(c) => ConfigState { cursor: c, ..self },
                None => self,
            }
        } else if "palette"@.is_prefix_of(key) {
            match (
                read_unsigned(key.skip("palette"@.len() as int), usize::MAX as nat),
                read_color(value),
            ) {
                (Some(i), Some(c)) => if i < PALETTE_SIZE {
                    ConfigState { palette: self.palette.update(i as int, c), ..self }
                } else {
                    self
                },
                _ => self,
            }
        } else {
            self
        }
    }

    /// The config after a line: `key = value`, a comment, or nothing.
    pub open spec fn with_line(self, line: Seq<char>) -> ConfigState {
        let t = trim(line);
        if t.len() == 0 || t[0] == '#' {
            self
        } else {
            match after(t, '=') {
                Some(value) => self.with(trim(before(t, '=')), without_comment(trim(value))),
                None => self,
            }
        }
    }

    /// The config after all the lines of `text`.
    pub open spec fn with_text(self, text: Seq<char>) -> ConfigState
        decreases text.len(),
    {
        proof {
            lemma_find(text, '\n');
        }
        let next = self.with_line(before(text, '\n'));
        match after(text, '\n') {
            Some(rest) => next.with_text(rest),
            None => next,
        }
    }
}

impl Default for Config {
    fn default() -> (c: Self)
        ensures
            c@ == ConfigState::defaults(),
    {
        let c = Config {
            font_size: Vec::new(),
            font_path: None,
            shell: None,
            scrollback: DEFAULT_SCROLLBACK,
            padding: Vec::new(),
            allow_agent_exec: true,
            fg: Rgb { r: 0xd6, g: 0xdb, b: 0xe1 },
            bg: Rgb { r: 0x0e, g: 0x11, b: 0x16 },
            cursor: Rgb { r: 0xff, g: 0xb4, b: 0x54 },
            palette: default_palette(),
        };
        assert(texts(c.font_size@) =~= Seq::empty());
        assert(texts(c.padding@) =~= Seq::empty());
        c
    }
}

/// Adds a text behind the others.
fn push_text(list: &mut Vec<String>, cs: &[char])
    ensures
        texts(final(list)@) == texts(old(list)@).push(cs@),
{
    let ghost held = list@;
    list.push(string_of(cs));
    assert(texts(list@) =~= texts(held).push(cs@));
}

impl Config {
    /// The config that the file's text gives; what it does not say is as the
    /// defaults have it.
    pub fn parse(text: &str) -> (c: Config)
        ensures
            c@ == ConfigState::defaults().with_text(text@),
            c@.wf(),
    {
        let mut cfg = Config::default();
        let cs = chars_of(text);
        let mut rest = cs.as_slice();
        loop
            invariant_except_break
                cfg@.wf(),
                cfg@.with_text(rest@) == ConfigState::defaults().with_text(text@),
            ensures
                cfg@ == ConfigState::defaults().with_text(text@),
                cfg@.wf(),
            decreases rest@.len(),
        {
            let (line, tail) = split_first(rest, '\n');
            proof {
                lemma_find(rest@, '\n');
            }
            cfg.apply_line(line);
            match tail {
                Some(r) => {
                    rest = r;
                },
                None => {
                    break;
                },
            }
        }
        cfg
    }

    fn apply_line(&mut self, line: &[char])
        requires
            old(self)@.wf(),
        ensures
            final(self)@ == old(self)@.with_line(line@),
            final(self)@.wf(),
    {
        let t = trimmed(line);
        if t.len() == 0 || t[0] == '#' {
            return;
        }
        let (key, value) = split_first(t, '=');
        if let Some(v) = value {
            self.set(trimmed(key), drop_comment(trimmed(v)));
        }
    }

    fn set(&mut self, key: &[char], value: &[char])
        requires
            old(self)@.wf(),
        ensures
            final(self)@ == old(self)@.with(key@, value@),
            final(self)@.wf(),
    {
        if text_eq(key, "font_size") {
            push_text(&mut self.font_size, value);
        } else if text_eq(key, "font") {
            self.font_path = Some(string_of(value));
        } else if text_eq(key, "shell") {
            self.shell = Some(string_of(value));
        } else if text_eq(key, "scrollback") {
            if let Some(v) = parse_usize(value) {
                self.scrollback = v;
            }
        } else if text_eq(key, "padding") {
            push_text(&mut self.padding, value);
        } else if text_eq(key, "allow_agent_exec") {
            self.allow_agent_exec = !text_eq(value, "false");
        } else if text_eq(key, "fg") {
            if let Some(c) = parse_hex(value) {
                self.fg = c;
            }
        } else if text_eq(key, "bg") {
            if let Some(c) = parse_hex(value) {
                self.bg = c;
            }
        } else if text_eq(key, "cursor") {
            if let Some(c) = parse_hex(value) {
                self.cursor = c;
            }
        } else if let Some(digits) = strip_prefix(key, "palette") {
            self.set_palette(digits, value);
        }
    }

    fn set_palette(&mut self, digits: &[char], value: &[char])
        requires
            old(self)@.wf(),
        ensures
            final(self)@ == (match (
                read_unsigned(digits@, usize::MAX as nat),
                read_color(value@),
            ) {
                (Some(i), Some(c)) => if i < PALETTE_SIZE {
                    ConfigState { palette: old(self)@.palette.update(i as int, c), ..old(self)@ }
                } else {
                    old(self)@
                },
                _ => old(self)@,
            }),
            final(self)@.wf(),
    {
        if let Some(i) = parse_usize(digits) {
            if let Some(c) = parse_hex(value) {
                if i < PALETTE_SIZE {
                    self.palette.set(i, c);
                }
            }
        }
    }
}

} // verus!
