//! What holds of typing and pasting.

use vstd::prelude::*;
#[allow(unused_imports)]
use vstd::utf8::encode_utf8;

#[allow(unused_imports)]
use super::{
    control_byte, key_bytes, normalized, paste_bytes, paste_end, paste_start, KeyState, Mods,
};

verus! {

/// No key press reaches the shell while the command key is held.
pub proof fn law_command_key_is_the_apps(key: KeyState, mods: Mods, app_cursor: bool)
    ensures
        mods.super_key ==> key_bytes(key, mods, app_cursor) is None,
{
}

/// A character typed without Ctrl and Alt is sent as it is, Shift or not.
pub proof fn law_plain_text_is_sent(s: Seq<char>, mods: Mods, app_cursor: bool)
    requires
        !mods.super_key,
        !mods.control,
        !mods.alt,
    ensures
        key_bytes(KeyState::Character(s), mods, app_cursor) == Some(encode_utf8(s)),
{
}

/// Ctrl makes the same C0 byte of a letter, small or capital.
pub proof fn law_control_ignores_case(c: char)
    requires
        'a' <= c <= 'z',
    ensures
        control_byte(c) == control_byte((c as u32 - 0x20) as char),
        control_byte(c) matches Some(b) && 1 <= b <= 26,
{
}

/// A pasted text has no line feed in it, and the rest of it is unchanged.
pub proof fn law_paste_has_no_line_feed(s: Seq<char>)
    ensures
        forall|i: int| 0 <= i < normalized(s).len() ==> #[trigger] normalized(s)[i] != '\n',
        normalized(s).len() <= s.len(),
        (forall|i: int| 0 <= i < s.len() ==> #[trigger] s[i] != '\n') ==> normalized(s) == s,
    decreases s.len(),
{
    if s.len() > 0 {
        law_paste_has_no_line_feed(s.drop_last());
        assert(s.drop_last().push(s.last()) =~= s);
        if forall|i: int| 0 <= i < s.len() ==> #[trigger] s[i] != '\n' {
            assert forall|i: int| 0 <= i < s.drop_last().len() implies #[trigger] s.drop_last()[i]
                != '\n' by {
                assert(s[i] == s.drop_last()[i]);
            }
            assert(s[s.len() - 1] != '\n');
        }
    } else {
        assert(s =~= Seq::empty());
    }
}

/// Line ends that are normalized stay as they are.
pub proof fn law_normalizing_twice(s: Seq<char>)
    ensures
        normalized(normalized(s)) == normalized(s),
{
    law_paste_has_no_line_feed(s);
    law_paste_has_no_line_feed(normalized(s));
}

/// A bracketed paste is the plain one between its two marks.
pub proof fn law_bracketed_paste(text: Seq<char>)
    ensures
        paste_bytes(text, true) == paste_start() + paste_bytes(text, false) + paste_end(),
        paste_start().is_prefix_of(paste_bytes(text, true)),
        paste_end().is_suffix_of(paste_bytes(text, true)),
{
    let all = paste_bytes(text, true);
    assert(all.subrange(0, 6) =~= paste_start());
    assert(all.subrange(all.len() - 6, all.len() as int) =~= paste_end());
}

} // verus!
