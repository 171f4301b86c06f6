//! What holds of printing: where a character lands, what it looks like there,
//! and that nothing else on the screen changes.

use vstd::prelude::*;

use super::laws::Output;
use super::model::TermState;
#[allow(unused_imports)]
use super::model::line_drawing;
use crate::cell::Cell;
#[allow(unused_imports)]
use crate::cell::flags;
#[allow(unused_imports)]
use crate::grid::{lemma_line_fits, line_chars, line_text};
#[allow(unused_imports)]
use crate::text::trim_end;
#[allow(unused_imports)]
use crate::width::columns_of;

verus! {

/// A character of one column lands in the cell of the cursor, with the colors
/// and attributes of the pen. No other cell changes. The cursor goes one column
/// on; in the last column it stays, and a wrap falls due.
pub proof fn law_char_lands_at_the_cursor(s: TermState, ch: char, x: int, y: int)
    requires
        s.wf(),
        columns_of(s.mapped(ch)) == 1,
        !s.pending_wrap || !s.motion.autowrap,
        !s.motion.insert,
        0 <= x < s.cols(),
        0 <= y < s.rows(),
    ensures
        ({
            let t = s.printed(ch);
            &&& t.grid.at(x, y) == (if x == s.x && y == s.y {
                Cell { ch: s.mapped(ch), fg: s.pen.fg, bg: s.pen.bg, flags: s.pen.flags }
            } else {
                s.grid.at(x, y)
            })
            &&& t == (TermState {
                grid: t.grid,
                blocks: t.blocks,
                x: if s.x < s.cols() - 1 {
                    s.x + 1
                } else {
                    s.x
                },
                pending_wrap: s.pending_wrap || s.x == s.cols() - 1,
                ..s
            })
        }),
{
    lemma_line_fits(s.grid.lines, s.cols(), s.y);
}

/// A character of two columns takes the cell of the cursor and the one right of
/// it, where they are on the line; the second cell is marked as its spacer.
pub proof fn law_wide_char_lands_at_the_cursor(s: TermState, ch: char, x: int, y: int)
    requires
        s.wf(),
        columns_of(s.mapped(ch)) == 2,
        !s.pending_wrap,
        !s.motion.insert,
        s.x + 1 < s.cols(),
        0 <= x < s.cols(),
        0 <= y < s.rows(),
    ensures
        ({
            let t = s.printed(ch);
            &&& t.grid.at(x, y) == (if x == s.x && y == s.y {
                Cell { ch: s.mapped(ch), flags: s.pen.flags | flags::WIDE, ..s.pen }
            } else if x == s.x + 1 && y == s.y {
                Cell { ch: ' ', flags: s.pen.flags | flags::WIDE_SPACER, ..s.pen }
            } else {
                s.grid.at(x, y)
            })
            &&& t.y == s.y
            &&& t.x == (if s.x + 2 < s.cols() {
                s.x + 2
            } else {
                s.cols() - 1
            })
            &&& t.pending_wrap <==> s.x + 2 == s.cols()
        }),
{
    lemma_line_fits(s.grid.lines, s.cols(), s.y);
}

/// Where a wrap is due, a character is printed as after a carriage return and
/// an index: in the first column of the next row. So is a wide one that does
/// not fit on the line. Only the output is captured all the same.
pub proof fn law_due_wrap(s: TermState, ch: char)
    requires
        s.wf(),
        s.motion.autowrap,
        columns_of(s.mapped(ch)) == 1 && s.pending_wrap || columns_of(s.mapped(ch)) == 2 && (
        s.pending_wrap || s.x == s.cols() - 1),
    ensures
        s.printed(ch) == s.controlled(0x0d).escaped(Seq::empty(), 0x44).printed(ch),
        s.controlled(0x0d).escaped(Seq::empty(), 0x44).x == 0,
        !s.controlled(0x0d).escaped(Seq::empty(), 0x44).pending_wrap,
{
    let c = s.mapped(ch);
    let next = s.controlled(0x0d).escaped(Seq::empty(), 0x44);
    assert(next.captured(c).wrapped() == next.captured(c));
    assert(next.captured(c) == TermState { x: 0, ..s.captured(c) }.line_fed());
}

/// Without autowrap a wide character that does not fit takes the last two
/// columns.
pub proof fn law_wide_char_without_wrap(s: TermState, ch: char)
    requires
        s.wf(),
        !s.motion.autowrap,
        s.x == s.cols() - 1,
        columns_of(s.mapped(ch)) == 2,
    ensures
        s.printed(ch).grid.at(s.cols() - 2, s.y) == (Cell {
            ch: s.mapped(ch),
            flags: s.pen.flags | flags::WIDE,
            ..s.pen
        }),
        s.printed(ch).y == s.y,
        s.printed(ch).x == s.x,
{
    lemma_line_fits(s.grid.lines, s.cols(), s.y);
}

/// In insert mode the cells from the cursor on move right before a character is
/// printed, by as many columns as it takes; the rest is as without.
pub proof fn law_insert_mode(s: TermState, ch: char, x: int)
    requires
        s.wf(),
        s.motion.insert,
        !s.pending_wrap,
        columns_of(s.mapped(ch)) == 1,
        0 <= x < s.cols(),
    ensures
        s.printed(ch).grid.at(x, s.y) == (if x < s.x {
            s.grid.at(x, s.y)
        } else if x == s.x {
            Cell { ch: s.mapped(ch), ..s.pen }
        } else {
            s.grid.at(x - 1, s.y)
        }),
{
    lemma_line_fits(s.grid.lines, s.cols(), s.y);
}

/// A character of no width prints nothing.
pub proof fn law_no_width_no_print(s: TermState, ch: char)
    requires
        columns_of(s.mapped(ch)) == 0,
    ensures
        s.printed(ch) == s,
{
}

/// A text of characters of one column that fits on the line stands there, each
/// in its place, and nothing else on the screen has changed.
pub proof fn law_text_appears(s: TermState, text: Seq<char>, out: Seq<Output>)
    requires
        s.wf(),
        !s.pending_wrap,
        !s.motion.insert,
        !s.charsets.g0_linedraw,
        !s.charsets.g1_linedraw,
        s.x + text.len() < s.cols(),
        out.len() == text.len(),
        forall|i: int|
            0 <= i < text.len() ==> #[trigger] out[i] == Output::Print(text[i]) && columns_of(
                text[i],
            ) == 1,
    ensures
        ({
            let t = s.written(out);
            &&& t == (TermState {
                grid: t.grid,
                blocks: t.blocks,
                x: s.x + text.len(),
                ..s
            })
            &&& t.cols() == s.cols() && t.rows() == s.rows()
            &&& forall|i: int, j: int|
                0 <= i < s.cols() && 0 <= j < s.rows() ==> #[trigger] t.grid.at(i, j) == (if j
                    == s.y && s.x <= i < s.x + text.len() {
                    Cell { ch: text[i - s.x], ..s.pen }
                } else {
                    s.grid.at(i, j)
                })
        }),
        s.written(out).wf(),
    decreases text.len(),
{
    if text.len() > 0 {
        let init = text.drop_last();
        assert forall|i: int| 0 <= i < init.len() implies #[trigger] out.drop_last()[i]
            == Output::Print(init[i]) && columns_of(init[i]) == 1 by {
            assert(out[i] == Output::Print(text[i]) && columns_of(text[i]) == 1);
        }
        law_text_appears(s, init, out.drop_last());
        let t = s.written(out.drop_last());
        let c = text.last();
        assert(out[text.len() - 1] == Output::Print(c) && columns_of(c) == 1);
        assert(t.mapped(c) == c);
        let u = t.printed(c);
        assert forall|i: int, j: int| 0 <= i < s.cols() && 0 <= j < s.rows() implies
            #[trigger] u.grid.at(i, j) == (if j == s.y && s.x <= i < s.x + text.len() {
            Cell { ch: text[i - s.x], ..s.pen }
        } else {
            s.grid.at(i, j)
        }) by {
            law_char_lands_at_the_cursor(t, c, i, j);
            assert(t.grid.at(i, j) == (if j == s.y && s.x <= i < s.x + init.len() {
                Cell { ch: init[i - s.x], ..s.pen }
            } else {
                s.grid.at(i, j)
            }));
        }
        law_char_lands_at_the_cursor(t, c, 0, 0);
        assert(u.wf()) by {
            t.lemma_captured_wf(c);
            reveal(crate::grid::lines_fit);
        }
    }
}

/// The text of a line is that of its cells from left to right, without the
/// spacers of wide glyphs: a cell more is its character more.
pub proof fn law_line_reads_from_left_to_right(line: Seq<Cell>, cell: Cell)
    ensures
        line_chars(Seq::empty()) == Seq::<char>::empty(),
        cell.flags & flags::WIDE_SPACER == 0 ==> line_chars(line.push(cell)) == line_chars(
            line,
        ).push(cell.ch),
        cell.flags & flags::WIDE_SPACER != 0 ==> line_chars(line.push(cell)) == line_chars(line),
{
    assert(line.push(cell).drop_last() =~= line);
}

/// Without spacers a line has a character for each of its cells; its text is
/// those, up to the last one that is not white space.
pub proof fn law_line_text(line: Seq<Cell>)
    requires
        forall|i: int| 0 <= i < line.len() ==> (#[trigger] line[i]).flags & flags::WIDE_SPACER == 0,
    ensures
        line_chars(line).len() == line.len(),
        forall|i: int| 0 <= i < line.len() ==> #[trigger] line_chars(line)[i] == line[i].ch,
        line_text(line).is_prefix_of(line_chars(line)),
        line_text(line).len() > 0 ==> !crate::stdx::white_space(line_text(line).last()),
        forall|i: int|
            line_text(line).len() <= i < line.len() ==> crate::stdx::white_space(
                (#[trigger] line[i]).ch,
            ),
{
    lemma_line_chars(line);
    lemma_trim_end(line_chars(line));
    assert forall|i: int| line_text(line).len() <= i < line.len() implies crate::stdx::white_space(
        (#[trigger] line[i]).ch,
    ) by {
        assert(line_chars(line)[i] == line[i].ch);
    }
}

proof fn lemma_line_chars(line: Seq<Cell>)
    requires
        forall|i: int| 0 <= i < line.len() ==> (#[trigger] line[i]).flags & flags::WIDE_SPACER == 0,
    ensures
        line_chars(line).len() == line.len(),
        forall|i: int| 0 <= i < line.len() ==> #[trigger] line_chars(line)[i] == line[i].ch,
    decreases line.len(),
{
    if line.len() > 0 {
        lemma_line_chars(line.drop_last());
        assert(line[line.len() - 1].flags & flags::WIDE_SPACER == 0);
    }
}

/// Trimming takes the white space off the end and nothing else.
proof fn lemma_trim_end(s: Seq<char>)
    ensures
        trim_end(s).is_prefix_of(s),
        trim_end(s).len() > 0 ==> !crate::stdx::white_space(trim_end(s).last()),
        forall|i: int| trim_end(s).len() <= i < s.len() ==> crate::stdx::white_space(
            #[trigger] s[i],
        ),
    decreases s.len(),
{
    if s.len() > 0 && crate::stdx::white_space(s.last()) {
        lemma_trim_end(s.drop_last());
        assert forall|i: int| trim_end(s).len() <= i < s.len() implies crate::stdx::white_space(
            #[trigger] s[i],
        ) by {
            if i < s.len() - 1 {
                assert(s.drop_last()[i] == s[i]);
            }
        }
    }
}

/// The characters that have another shape among the line drawing ones.
pub open spec fn drawn_characters() -> Seq<char> {
    "`0afgjklmnqtuvwxyz{|}~"@
}

/// What they are there.
pub open spec fn line_drawings() -> Seq<char> {
    "◆█▒°±┘┐┌└┼─├┤┴┬│≤≥π≠£·"@
}

/// In the line drawing set each of its characters is drawn as its shape; every
/// other one is itself.
pub proof fn law_line_drawings(ch: char, i: int)
    ensures
        drawn_characters().len() == line_drawings().len(),
        0 <= i < drawn_characters().len() ==> line_drawing(drawn_characters()[i])
            == line_drawings()[i],
        !drawn_characters().contains(ch) ==> line_drawing(ch) == ch,
{
    reveal_strlit("`0afgjklmnqtuvwxyz{|}~");
    reveal_strlit("◆█▒°±┘┐┌└┼─├┤┴┬│≤≥π≠£·");
    let from = drawn_characters();
    assert(from.len() == 22 && line_drawings().len() == 22);
    assert(from[0] == '`' && from[1] == '0' && from[2] == 'a' && from[3] == 'f' && from[4] == 'g'
        && from[5] == 'j' && from[6] == 'k' && from[7] == 'l' && from[8] == 'm' && from[9] == 'n'
        && from[10] == 'q' && from[11] == 't' && from[12] == 'u' && from[13] == 'v' && from[14]
        == 'w' && from[15] == 'x' && from[16] == 'y' && from[17] == 'z' && from[18] == '{'
        && from[19] == '|' && from[20] == '}' && from[21] == '~');
}

/// The set that characters are printed in is G0 after SI and G1 after SO; ESC (
/// and ESC ) choose for G0 and for G1, line drawing with 0, and neither touches
/// the other or which of them is used.
pub proof fn law_charsets(s: TermState, ch: char, byte: u8)
    ensures
        ({
            let plain = s.escaped(seq![0x28u8], 0x42).escaped(seq![0x29u8], 0x42);
            let g0 = s.escaped(seq![0x28u8], 0x30).escaped(seq![0x29u8], 0x42);
            let g1 = s.escaped(seq![0x28u8], 0x42).escaped(seq![0x29u8], 0x30);
            &&& plain.controlled(0x0f).mapped(ch) == ch
            &&& plain.controlled(0x0e).mapped(ch) == ch
            &&& g0.controlled(0x0f).mapped(ch) == line_drawing(ch)
            &&& g0.controlled(0x0e).mapped(ch) == ch
            &&& g1.controlled(0x0f).mapped(ch) == ch
            &&& g1.controlled(0x0e).mapped(ch) == line_drawing(ch)
        }),
        byte != 0x30 ==> s.escaped(seq![0x28u8], byte) == s.escaped(seq![0x28u8], 0x42),
        byte != 0x30 ==> s.escaped(seq![0x29u8], byte) == s.escaped(seq![0x29u8], 0x42),
        s.escaped(seq![0x28u8], byte) == (TermState {
            charsets: s.escaped(seq![0x28u8], byte).charsets,
            ..s
        }),
        s.escaped(seq![0x28u8], byte).charsets.g1_active == s.charsets.g1_active,
        s.controlled(0x0e) == (TermState { charsets: s.controlled(0x0e).charsets, ..s }),
        s.controlled(0x0f) == (TermState { charsets: s.controlled(0x0f).charsets, ..s }),
{
}

} // verus!
