//! What holds of the pen: which color and which attribute each parameter of
//! SGR sets.

use vstd::prelude::*;

use super::model::TermState;
#[allow(unused_imports)]
use super::model::{extended_color, sgr_all, sgr_one, with_color};
use crate::cell::Cell;
#[allow(unused_imports)]
use crate::cell::{flags, Color};

verus! {

/// The eight colors in their order: 30 to 37 are foregrounds, 40 to 47
/// backgrounds, 90 to 97 and 100 to 107 the bright ones of both. Each sets one
/// color, with a number of its own, and nothing else.
pub proof fn law_sgr_colors(s: TermState, i: u16)
    requires
        i < 8,
    ensures
        s.styled(seq![(30 + i) as u16]) == (TermState {
            pen: Cell { fg: Color::Indexed(i as u8), ..s.pen },
            ..s
        }),
        s.styled(seq![(40 + i) as u16]) == (TermState {
            pen: Cell { bg: Color::Indexed(i as u8), ..s.pen },
            ..s
        }),
        s.styled(seq![(90 + i) as u16]) == (TermState {
            pen: Cell { fg: Color::Indexed((8 + i) as u8), ..s.pen },
            ..s
        }),
        s.styled(seq![(100 + i) as u16]) == (TermState {
            pen: Cell { bg: Color::Indexed((8 + i) as u8), ..s.pen },
            ..s
        }),
{
    lemma_one(s.pen, (30 + i) as u16);
    lemma_one(s.pen, (40 + i) as u16);
    lemma_one(s.pen, (90 + i) as u16);
    lemma_one(s.pen, (100 + i) as u16);
}

proof fn lemma_one(pen: Cell, p: u16)
    requires
        p != 38,
        p != 48,
    ensures
        sgr_all(pen, seq![p]) == sgr_one(pen, p),
{
    reveal_with_fuel(sgr_all, 2);
    assert(seq![p].skip(1) =~= Seq::empty());
}

/// 39 and 49 give the default colors back.
pub proof fn law_sgr_default_colors(s: TermState)
    ensures
        s.styled(seq![39u16]) == (TermState { pen: Cell { fg: Color::Default, ..s.pen }, ..s }),
        s.styled(seq![49u16]) == (TermState { pen: Cell { bg: Color::Default, ..s.pen }, ..s }),
{
    lemma_one(s.pen, 39);
    lemma_one(s.pen, 49);
}

/// `38;5;n` and `48;5;n` set one of the 256 colors, `38;2;r;g;b` and
/// `48;2;r;g;b` one by its parts.
pub proof fn law_sgr_extended_colors(s: TermState, n: u8, r: u8, g: u8, b: u8)
    ensures
        s.styled(seq![38u16, 5, n as u16]) == (TermState {
            pen: Cell { fg: Color::Indexed(n), ..s.pen },
            ..s
        }),
        s.styled(seq![48u16, 5, n as u16]) == (TermState {
            pen: Cell { bg: Color::Indexed(n), ..s.pen },
            ..s
        }),
        s.styled(seq![38u16, 2, r as u16, g as u16, b as u16]) == (TermState {
            pen: Cell { fg: Color::Rgb(r, g, b), ..s.pen },
            ..s
        }),
        s.styled(seq![48u16, 2, r as u16, g as u16, b as u16]) == (TermState {
            pen: Cell { bg: Color::Rgb(r, g, b), ..s.pen },
            ..s
        }),
{
    lemma_extended(s.pen, 38, seq![5u16, n as u16]);
    lemma_extended(s.pen, 48, seq![5u16, n as u16]);
    lemma_extended(s.pen, 38, seq![2u16, r as u16, g as u16, b as u16]);
    lemma_extended(s.pen, 48, seq![2u16, r as u16, g as u16, b as u16]);
    assert(seq![38u16] + seq![5u16, n as u16] =~= seq![38u16, 5, n as u16]);
    assert(seq![48u16] + seq![5u16, n as u16] =~= seq![48u16, 5, n as u16]);
    assert(seq![38u16] + seq![2u16, r as u16, g as u16, b as u16] =~= seq![
        38u16,
        2,
        r as u16,
        g as u16,
        b as u16,
    ]);
    assert(seq![48u16] + seq![2u16, r as u16, g as u16, b as u16] =~= seq![
        48u16,
        2,
        r as u16,
        g as u16,
        b as u16,
    ]);
}

proof fn lemma_extended(pen: Cell, p: u16, rest: Seq<u16>)
    requires
        p == 38 || p == 48,
        extended_color(rest).1 == rest.len(),
    ensures
        sgr_all(pen, seq![p] + rest) == with_color(pen, p, extended_color(rest).0),
{
    let all = seq![p] + rest;
    assert(all.skip(1) =~= rest);
    assert(all.skip(1 + rest.len() as int) =~= Seq::empty());
    reveal_with_fuel(sgr_all, 2);
}

/// Whether the attribute `bit` is set.
pub open spec fn has(pen: Cell, bit: u16) -> bool {
    pen.flags & bit == bit
}

/// Whether the pens `a` and `b` differ in the attributes `bits` at most.
pub open spec fn same_but(a: Cell, b: Cell, bits: u16) -> bool {
    &&& a.ch == b.ch
    &&& a.fg == b.fg
    &&& a.bg == b.bg
    &&& a.flags & !bits == b.flags & !bits
}

/// What setting one attribute after another does to a pen.
pub open spec fn sets(s: TermState, on: u16, bit: u16) -> bool {
    has(s.styled(seq![on]).pen, bit) && same_but(s.styled(seq![on]).pen, s.pen, bit)
}

/// What clearing attributes does to a pen.
pub open spec fn clears(s: TermState, off: u16, bits: u16) -> bool {
    s.styled(seq![off]).pen.flags & bits == 0 && same_but(s.styled(seq![off]).pen, s.pen, bits)
}

/// Each attribute has a parameter that sets it, another that clears it, and
/// neither touches the others. Bold and dim are cleared together.
pub proof fn law_sgr_attributes(s: TermState)
    ensures
        sets(s, 1, flags::BOLD),
        sets(s, 2, flags::DIM),
        sets(s, 3, flags::ITALIC),
        sets(s, 4, flags::UNDERLINE),
        sets(s, 7, flags::INVERSE),
        sets(s, 8, flags::HIDDEN),
        sets(s, 9, flags::STRIKETHROUGH),
        clears(s, 22, flags::BOLD | flags::DIM),
        clears(s, 21, flags::BOLD | flags::DIM),
        clears(s, 23, flags::ITALIC),
        clears(s, 24, flags::UNDERLINE),
        clears(s, 27, flags::INVERSE),
        clears(s, 28, flags::HIDDEN),
        clears(s, 29, flags::STRIKETHROUGH),
{
    lemma_one(s.pen, 1);
    lemma_one(s.pen, 2);
    lemma_one(s.pen, 3);
    lemma_one(s.pen, 4);
    lemma_one(s.pen, 7);
    lemma_one(s.pen, 8);
    lemma_one(s.pen, 9);
    lemma_one(s.pen, 21);
    lemma_one(s.pen, 22);
    lemma_one(s.pen, 23);
    lemma_one(s.pen, 24);
    lemma_one(s.pen, 27);
    lemma_one(s.pen, 28);
    lemma_one(s.pen, 29);
    let f = s.pen.flags;
    lemma_bits(f, flags::BOLD);
    lemma_bits(f, flags::DIM);
    lemma_bits(f, flags::ITALIC);
    lemma_bits(f, flags::UNDERLINE);
    lemma_bits(f, flags::INVERSE);
    lemma_bits(f, flags::HIDDEN);
    lemma_bits(f, flags::STRIKETHROUGH);
    lemma_bits(f, flags::BOLD | flags::DIM);
}

proof fn lemma_bits(f: u16, b: u16)
    by (bit_vector)
    ensures
        (f | b) & b == b,
        (f | b) & !b == f & !b,
        (f & !b) & b == 0,
        (f & !b) & !b == f & !b,
{
}

/// No two attributes share a bit.
pub proof fn law_attributes_are_different()
    ensures
        ({
            let all = seq![
                flags::BOLD,
                flags::ITALIC,
                flags::UNDERLINE,
                flags::INVERSE,
                flags::DIM,
                flags::STRIKETHROUGH,
                flags::WIDE,
                flags::WIDE_SPACER,
                flags::HIDDEN,
            ];
            forall|i: int, j: int|
                #![trigger all[i], all[j]]
                0 <= i < j < all.len() ==> all[i] & all[j] == 0 && all[i] != 0 && all[j] != 0
        }),
{
    assert(0x1u16 & 0x2 == 0 && 0x1u16 & 0x4 == 0 && 0x1u16 & 0x8 == 0 && 0x1u16 & 0x10 == 0
        && 0x1u16 & 0x20 == 0 && 0x1u16 & 0x40 == 0 && 0x1u16 & 0x80 == 0 && 0x1u16 & 0x100 == 0
        && 0x2u16 & 0x4 == 0 && 0x2u16 & 0x8 == 0 && 0x2u16 & 0x10 == 0 && 0x2u16 & 0x20 == 0
        && 0x2u16 & 0x40 == 0 && 0x2u16 & 0x80 == 0 && 0x2u16 & 0x100 == 0) by (bit_vector);
    assert(0x4u16 & 0x8 == 0 && 0x4u16 & 0x10 == 0 && 0x4u16 & 0x20 == 0 && 0x4u16 & 0x40 == 0
        && 0x4u16 & 0x80 == 0 && 0x4u16 & 0x100 == 0 && 0x8u16 & 0x10 == 0 && 0x8u16 & 0x20 == 0
        && 0x8u16 & 0x40 == 0 && 0x8u16 & 0x80 == 0 && 0x8u16 & 0x100 == 0) by (bit_vector);
    assert(0x10u16 & 0x20 == 0 && 0x10u16 & 0x40 == 0 && 0x10u16 & 0x80 == 0 && 0x10u16 & 0x100
        == 0 && 0x20u16 & 0x40 == 0 && 0x20u16 & 0x80 == 0 && 0x20u16 & 0x100 == 0 && 0x40u16
        & 0x80 == 0 && 0x40u16 & 0x100 == 0 && 0x80u16 & 0x100 == 0) by (bit_vector);
}

/// Parameters take effect one after the other: those behind others apply to
/// what the others left. An extended color is one step.
pub proof fn law_sgr_in_order(s: TermState, first: Seq<u16>, rest: Seq<u16>)
    requires
        first.len() == 1 && first[0] != 38 && first[0] != 48 || first.len() >= 2 && (first[0] == 38
            || first[0] == 48) && (first.len() == 3 && first[1] == 5 || first.len() == 5
            && first[1] == 2),
        rest.len() > 0,
    ensures
        s.styled(first + rest) == s.styled(first).styled(rest),
{
    let all = first + rest;
    reveal_with_fuel(sgr_all, 2);
    if first.len() == 1 {
        assert(all.skip(1) =~= rest);
        assert(first.skip(1) =~= Seq::empty());
        assert(first =~= seq![first[0]]);
    } else {
        let used = first.len() - 1;
        assert(extended_color(all.skip(1)) == extended_color(first.skip(1)));
        assert(extended_color(first.skip(1)).1 == used);
        assert(all.skip(1 + used) =~= rest);
        assert(first.skip(1 + used) =~= Seq::empty());
    }
}

/// A parameter that is not known changes nothing. An extended color that is
/// none, because it is cut short or of another kind, changes nothing either, and
/// what stands behind it is lost.
pub proof fn law_sgr_unknown(s: TermState, p: u16, rest: Seq<u16>)
    ensures
        p != 0 && p != 1 && p != 2 && p != 3 && p != 4 && p != 7 && p != 8 && p != 9 && !(21 <= p
            <= 24) && !(27 <= p <= 49) && !(90 <= p <= 97) && !(100 <= p <= 107) ==> s.styled(
            seq![p],
        ) == s,
        p == 38 || p == 48 ==> {
            &&& rest.len() > 0 && rest[0] != 5 && rest[0] != 2 ==> s.styled(seq![p] + rest) == s
            &&& s.styled(seq![p]) == s
            &&& s.styled(seq![p, 5]) == s
            &&& s.styled(seq![p, 2]) == s
            &&& s.styled(seq![p, 2, 1]) == s
            &&& s.styled(seq![p, 2, 1, 1]) == s
        },
{
    if p == 38 || p == 48 {
        if rest.len() > 0 && rest[0] != 5 && rest[0] != 2 {
            lemma_extended(s.pen, p, rest);
        }
        lemma_extended(s.pen, p, Seq::empty());
        assert(seq![p] + Seq::<u16>::empty() =~= seq![p]);
        lemma_extended(s.pen, p, seq![5u16]);
        assert(seq![p] + seq![5u16] =~= seq![p, 5]);
        lemma_extended(s.pen, p, seq![2u16]);
        assert(seq![p] + seq![2u16] =~= seq![p, 2]);
        lemma_extended(s.pen, p, seq![2u16, 1]);
        assert(seq![p] + seq![2u16, 1] =~= seq![p, 2, 1]);
        lemma_extended(s.pen, p, seq![2u16, 1, 1]);
        assert(seq![p] + seq![2u16, 1, 1] =~= seq![p, 2, 1, 1]);
    } else {
        lemma_one(s.pen, p);
    }
}

} // verus!
