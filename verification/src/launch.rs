//! What the command line of `mimi` asks for.

use vstd::prelude::*;

#[allow(unused_imports)]
use crate::term::view::texts;
use crate::text::{append_text, chars_of, text_eq};

pub mod laws;

verus! {

/// What the program is to do.
pub enum Mode {
    /// Talk to a running window.
    Ctl,
    Version,
    Help,
    /// There is no such flag.
    UnknownFlag(String),
    /// Open a window.
    Window,
}

/// What the program is to do, as a mathematical value.
pub enum ModeState {
    Ctl,
    Version,
    Help,
    UnknownFlag(Seq<char>),
    Window,
}

impl View for Mode {
    type V = ModeState;

    open spec fn view(&self) -> ModeState {
        match self {
            Mode::Ctl => ModeState::Ctl,
            Mode::Version => ModeState::Version,
            Mode::Help => ModeState::Help,
            Mode::UnknownFlag(s) => ModeState::UnknownFlag(s@),
            Mode::Window => ModeState::Window,
        }
    }
}

/// What the arguments ask for. A first argument that is neither known nor a
/// flag is passed over.
pub open spec fn mode_of(args: Seq<Seq<char>>) -> ModeState {
    if args.len() == 0 {
        ModeState::Window
    } else {
        let first = args[0];
        if first == "ctl"@ {
            ModeState::Ctl
        } else if first == "--version"@ || first == "-V"@ {
            ModeState::Version
        } else if first == "--help"@ || first == "-h"@ {
            ModeState::Help
        } else if first.len() > 0 && first[0] == '-' {
            ModeState::UnknownFlag(first)
        } else {
            ModeState::Window
        }
    }
}

/// Decides what the program is to do.
pub fn mode(args: &[String]) -> (m: Mode)
    ensures
        m@ == mode_of(texts(args@)),
{
    if args.len() == 0 {
        return Mode::Window;
    }
    assert(texts(args@)[0] == args@[0]@);
    let first = chars_of(args[0].as_str());
    let cs = first.as_slice();
    if text_eq(cs, "ctl") {
        Mode::Ctl
    } else if text_eq(cs, "--version") || text_eq(cs, "-V") {
        Mode::Version
    } else if text_eq(cs, "--help") || text_eq(cs, "-h") {
        Mode::Help
    } else if cs.len() > 0 && cs[0] == '-' {
        Mode::UnknownFlag(args[0].clone())
    } else {
        Mode::Window
    }
}

// ---- Fonts ------------------------------------------------------------------

/// Monospace font candidates, macOS system fonts first, then those of Linux.
pub open spec fn font_locations() -> Seq<Seq<char>> {
    seq![
        "/System/Library/Fonts/SFNSMono.ttf"@,
        "/System/Library/Fonts/Menlo.ttc"@,
        "/System/Library/Fonts/Monaco.ttf"@,
        "/Library/Fonts/SF-Mono-Regular.otf"@,
        "/usr/share/fonts/truetype/dejavu/DejaVuSansMono.ttf"@,
        "/usr/share/fonts/truetype/liberation/LiberationMono-Regular.ttf"@,
        "/usr/share/fonts/TTF/DejaVuSansMono.ttf"@,
    ]
}

fn push_path(paths: &mut Vec<String>, path: &str)
    ensures
        texts(final(paths)@) == texts(old(paths)@).push(path@),
{
    let ghost held = paths@;
    paths.push(path.to_owned());
    assert(texts(paths@) =~= texts(held).push(path@));
}

/// The fonts to try, in their order: the configured one first.
pub fn font_candidates(explicit: Option<&str>) -> (paths: Vec<String>)
    ensures
        texts(paths@) == (match explicit {
            Some(p) => seq![p@] + font_locations(),
            None => font_locations(),
        }),
{
    let mut paths: Vec<String> = Vec::new();
    if let Some(p) = explicit {
        push_path(&mut paths, p);
    }
    push_path(&mut paths, "/System/Library/Fonts/SFNSMono.ttf");
    push_path(&mut paths, "/System/Library/Fonts/Menlo.ttc");
    push_path(&mut paths, "/System/Library/Fonts/Monaco.ttf");
    push_path(&mut paths, "/Library/Fonts/SF-Mono-Regular.otf");
    push_path(&mut paths, "/usr/share/fonts/truetype/dejavu/DejaVuSansMono.ttf");
    push_path(&mut paths, "/usr/share/fonts/truetype/liberation/LiberationMono-Regular.ttf");
    push_path(&mut paths, "/usr/share/fonts/TTF/DejaVuSansMono.ttf");
    assert(texts(paths@) =~= match explicit {
        Some(p) => seq![p@] + font_locations(),
        None => font_locations(),
    });
    paths
}

/// Why a font was passed over: `path (why)`.
pub fn tried_font(path: &str, why: &str) -> (s: String)
    ensures
        s@ == path@ + seq![' ', '('] + why@ + seq![')'],
{
    let mut s = path.to_owned();
    s.push(' ');
    s.push('(');
    let cs = chars_of(why);
    append_text(&mut s, cs.as_slice());
    s.push(')');
    assert(s@ =~= path@ + seq![' ', '('] + why@ + seq![')']);
    s
}

/// The texts, each on a line of its own.
pub open spec fn listed(lines: Seq<Seq<char>>) -> Seq<char>
    decreases lines.len(),
{
    if lines.len() == 0 {
        Seq::empty()
    } else if lines.len() == 1 {
        lines[0]
    } else {
        listed(lines.drop_last()) + "\n  "@ + lines.last()
    }
}

pub open spec fn no_font_head() -> Seq<char> {
    "no usable monospace font found; set `font = /path/to/font.ttf` in ~/.config/mimi/config. Tried:\n  "@
}

/// What the user is told when no font could be used.
pub fn no_font_message(tried: &[String]) -> (s: String)
    ensures
        s@ == no_font_head() + listed(texts(tried@)),
{
    let ghost all = texts(tried@);
    let mut s =
        "no usable monospace font found; set `font = /path/to/font.ttf` in ~/.config/mimi/config. Tried:\n  ".to_owned();
    let sep = chars_of("\n  ");
    assert(all.take(0) =~= Seq::empty());
    assert(s@ =~= no_font_head() + listed(all.take(0)));
    for i in 0..tried.len()
        invariant
            all == texts(tried@),
            sep@ == "\n  "@,
            s@ == no_font_head() + listed(all.take(i as int)),
    {
        let ghost upto = all.take(i + 1);
        assert(upto.drop_last() =~= all.take(i as int));
        assert(upto.last() == tried@[i as int]@);
        if i > 0 {
            append_text(&mut s, sep.as_slice());
        }
        let cs = chars_of(tried[i].as_str());
        append_text(&mut s, cs.as_slice());
        if i == 0 {
            assert(s@ =~= no_font_head() + listed(upto));
        } else {
            assert(s@ =~= no_font_head() + (listed(upto.drop_last()) + "\n  "@ + upto.last()));
        }
    }
    assert(all.take(tried@.len() as int) =~= all);
    s
}

/// What the user is told when fish is missing.
pub fn fish_notice(path: &str) -> (s: String)
    ensures
        s@ == "mimi: fish not found, falling back to "@ + path@
            + ". Install fish (`brew install fish`) for the full experience."@,
{
    let mut s = "mimi: fish not found, falling back to ".to_owned();
    let p = chars_of(path);
    append_text(&mut s, p.as_slice());
    let tail = chars_of(". Install fish (`brew install fish`) for the full experience.");
    append_text(&mut s, tail.as_slice());
    s
}

} // verus!
