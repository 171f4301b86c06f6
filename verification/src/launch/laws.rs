//! What holds of the command line and of the fonts.

use vstd::prelude::*;

#[allow(unused_imports)]
use super::{font_locations, listed, mode_of, ModeState};

verus! {

/// Without arguments a window opens. `ctl` talks to one, `--version` and `-V`
/// tell the version, `--help` and `-h` the usage, whatever follows. Another flag
/// is refused by its name; another word is passed over.
pub proof fn law_modes(first: Seq<char>, rest: Seq<Seq<char>>)
    ensures
        mode_of(Seq::empty()) == ModeState::Window,
        mode_of(seq!["ctl"@] + rest) == ModeState::Ctl,
        mode_of(seq!["--version"@] + rest) == ModeState::Version,
        mode_of(seq!["-V"@] + rest) == ModeState::Version,
        mode_of(seq!["--help"@] + rest) == ModeState::Help,
        mode_of(seq!["-h"@] + rest) == ModeState::Help,
        first.len() > 0 && first[0] == '-' && first != "--version"@ && first != "-V"@ && first
            != "--help"@ && first != "-h"@ ==> mode_of(seq![first] + rest)
            == ModeState::UnknownFlag(first),
        (first.len() == 0 || first[0] != '-') && first != "ctl"@ ==> mode_of(seq![first] + rest)
            == ModeState::Window,
{
    reveal_strlit("ctl");
    reveal_strlit("--version");
    reveal_strlit("-V");
    reveal_strlit("--help");
    reveal_strlit("-h");
    assert("ctl"@.len() == 3 && "--version"@.len() == 9 && "-V"@.len() == 2 && "--help"@.len() == 6
        && "-h"@.len() == 2);
    assert("-V"@[1] == 'V' && "-h"@[1] == 'h');
    assert("ctl"@[0] == 'c' && "--version"@[0] == '-' && "-V"@[0] == '-' && "--help"@[0] == '-'
        && "-h"@[0] == '-');
}

/// The fonts of macOS are tried before those of Linux, each in its order.
pub proof fn law_fonts()
    ensures
        font_locations().len() == 7,
        font_locations()[0] == "/System/Library/Fonts/SFNSMono.ttf"@,
        font_locations()[1] == "/System/Library/Fonts/Menlo.ttc"@,
        font_locations()[2] == "/System/Library/Fonts/Monaco.ttf"@,
        font_locations()[3] == "/Library/Fonts/SF-Mono-Regular.otf"@,
        font_locations()[4] == "/usr/share/fonts/truetype/dejavu/DejaVuSansMono.ttf"@,
        font_locations()[5] == "/usr/share/fonts/truetype/liberation/LiberationMono-Regular.ttf"@,
        font_locations()[6] == "/usr/share/fonts/TTF/DejaVuSansMono.ttf"@,
{
}

/// What was tried is listed one below the other, indented.
pub proof fn law_listing(lines: Seq<Seq<char>>, line: Seq<char>)
    ensures
        listed(seq![line]) == line,
        lines.len() > 0 ==> listed(lines.push(line)) == listed(lines) + seq!['\n', ' ', ' '] + line,
{
    reveal_strlit("\n  ");
    assert("\n  "@ =~= seq!['\n', ' ', ' ']);
    assert(lines.push(line).drop_last() =~= lines);
}

} // verus!
