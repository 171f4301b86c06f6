//! What holds of the config as a whole.

use vstd::prelude::*;

#[allow(unused_imports)]
use super::{comment_start, without_comment, ConfigState};
#[allow(unused_imports)]
use crate::stdx::white_space;
#[allow(unused_imports)]
use crate::text::{after, before, find, lemma_find, lemma_no_split, trim, trim_end};

verus! {

/// A config without a word in it is the defaults.
pub proof fn law_empty_config_is_defaults()
    ensures
        ConfigState::defaults().with_text(Seq::empty()) == ConfigState::defaults(),
{
    let none = Seq::<char>::empty();
    lemma_no_split(none, '\n');
    assert(trim(none) =~= none);
}

/// Blank lines, comments and lines without `=` say nothing.
pub proof fn law_comments_say_nothing(c: ConfigState, line: Seq<char>)
    requires
        ({
            let t = trim(line);
            t.len() == 0 || t[0] == '#' || find(t, '=') >= t.len()
        }),
    ensures
        c.with_line(line) == c,
{
}

proof fn lemma_comment_start(v: Seq<char>, w: char, note: Seq<char>, i: int)
    requires
        0 <= i <= v.len(),
        comment_start(v, i) == v.len(),
        white_space(w),
    ensures
        comment_start(v.push(w).push('#') + note, i) == v.len() + 1,
    decreases v.len() - i,
{
    let s = v.push(w).push('#') + note;
    if i < v.len() {
        lemma_comment_start(v, w, note, i + 1);
        assert(s[i] == v[i]);
        assert(i > 0 ==> s[i - 1] == v[i - 1]);
    } else {
        assert(s[i] == w && s[i + 1] == '#');
        assert(comment_start(s, i + 1) == i + 1);
    }
}

/// A comment behind a value, with white space between the two, leaves the
/// value as it is.
pub proof fn law_comment_behind_a_value(v: Seq<char>, w: char, note: Seq<char>)
    requires
        comment_start(v, 0) == v.len(),
        trim_end(v) == v,
        white_space(w),
    ensures
        without_comment(v.push(w).push('#') + note) == v,
{
    let s = v.push(w).push('#') + note;
    lemma_comment_start(v, w, note, 0);
    assert(s.take(v.len() as int + 1) =~= v.push(w));
    assert(v.push(w).drop_last() =~= v);
}

/// Agents may type unless the config says `false`, and nothing but
/// `allow_agent_exec` decides that.
pub proof fn law_agents_may_type(c: ConfigState, key: Seq<char>, value: Seq<char>)
    ensures
        ConfigState::defaults().allow_agent_exec,
        c.with("allow_agent_exec"@, value).allow_agent_exec == (value != "false"@),
        key != "allow_agent_exec"@ ==> c.with(key, value).allow_agent_exec == c.allow_agent_exec,
{
    reveal_strlit("allow_agent_exec");
    reveal_strlit("font_size");
    reveal_strlit("font");
    reveal_strlit("shell");
    reveal_strlit("scrollback");
    reveal_strlit("padding");
    assert("allow_agent_exec"@.len() == 16 && "font_size"@.len() == 9 && "font"@.len() == 4
        && "shell"@.len() == 5 && "scrollback"@.len() == 10 && "padding"@.len() == 7);
}

/// The palette keeps its size, whatever the config says.
pub proof fn law_palette_keeps_size(c: ConfigState, text: Seq<char>)
    requires
        c.wf(),
    ensures
        c.with_text(text).wf(),
    decreases text.len(),
{
    lemma_find(text, '\n');
    let line = before(text, '\n');
    let next = c.with_line(line);
    assert(next.wf());
    if let Some(rest) = after(text, '\n') {
        law_palette_keeps_size(next, rest);
    }
}

/// A `#` starts a comment only behind white space: at the start of a value, and
/// within a word, it belongs to the value.
pub proof fn law_number_signs_in_values(s: Seq<char>)
    requires
        forall|i: int| 0 < i < s.len() && #[trigger] s[i] == '#' ==> !white_space(s[i - 1]),
    ensures
        comment_start(s, 0) == s.len(),
        trim_end(s) == s ==> without_comment(s) == s,
{
    lemma_no_comment(s, 0);
    assert(s.take(s.len() as int) =~= s);
}

proof fn lemma_no_comment(s: Seq<char>, i: int)
    requires
        0 <= i <= s.len(),
        forall|i: int| 0 < i < s.len() && #[trigger] s[i] == '#' ==> !white_space(s[i - 1]),
    ensures
        comment_start(s, i) == s.len(),
    decreases s.len() - i,
{
    if i < s.len() {
        assert(s[i] == '#' || s[i] != '#');
        lemma_no_comment(s, i + 1);
    }
}

} // verus!
