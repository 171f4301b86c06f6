//! What holds of the choice of a shell.

use vstd::prelude::*;

#[allow(unused_imports)]
use super::{
    default_data_dirs, file_name_before, file_name_of, first_fish, fish_locations,
    lemma_part_start, login_name, non_empty, part_start, share_choice, shell_choice, shell_env, status_code, step_after, ReadOutcome, ReadStep, ShareDir,
    ShellState,
};

verus! {

/// An override beats everything; fish beats the user's shell wherever it is
/// found; there is always a shell.
pub proof fn law_fish_first(
    over: Option<Seq<char>>,
    exists: Seq<bool>,
    on_path: Option<Seq<char>>,
    user: Option<Seq<char>>,
)
    requires
        on_path matches Some(p) ==> p.len() > 0,
    ensures
        non_empty(over) matches Some(p) ==> shell_choice(over, exists, on_path, user).path() == p,
        non_empty(over) is None && (first_fish(exists, 0) is Some || on_path is Some)
            ==> shell_choice(over, exists, on_path, user) is Fish,
        non_empty(over) is None && first_fish(exists, 0) is None && on_path is None
            ==> shell_choice(over, exists, on_path, user) is Fallback,
        shell_choice(over, exists, on_path, user).path().len() > 0,
{
    reveal_strlit("/bin/sh");
    lemma_location(exists, 0);
}

/// A known location that is taken exists, and none before it does.
proof fn lemma_location(exists: Seq<bool>, i: int)
    requires
        0 <= i,
    ensures
        first_fish(exists, i) matches Some(p) ==> p.len() > 0,
        first_fish(exists, i) is None ==> forall|k: int|
            i <= k < exists.len() && k < fish_locations().len() ==> !exists[k],
    decreases exists.len() - i,
{
    reveal_strlit("/opt/homebrew/bin/fish");
    reveal_strlit("/usr/local/bin/fish");
    reveal_strlit("/opt/local/bin/fish");
    reveal_strlit("/usr/bin/fish");
    reveal_strlit("/bin/fish");
    if i < exists.len() && i < fish_locations().len() && !exists[i] {
        lemma_location(exists, i + 1);
    }
}

/// A shell is started as a login shell, whatever its path.
pub proof fn law_login_shell(path: Seq<char>)
    ensures
        login_name(path).len() >= 1,
        login_name(path)[0] == '-',
        file_name_of(path) matches Some(name) ==> login_name(path).skip(1) == name,
{
    if let Some(name) = file_name_of(path) {
        assert(login_name(path).skip(1) =~= name);
    }
}

/// The shell always gets to know the control socket.
pub proof fn law_socket_is_exported(
    version: Seq<char>,
    socket: Seq<char>,
    share: Option<Seq<char>>,
    data_dirs: Option<Seq<char>>,
)
    ensures
        shell_env(version, socket, share, data_dirs).contains(("MIMI_SOCKET"@, socket)),
{
    let env = shell_env(version, socket, share, data_dirs);
    assert(env[4] == ("MIMI_SOCKET"@, socket));
}

/// Fish is looked for where Homebrew and MacPorts put it, then in the system's
/// directories, and the first place that has it is taken.
pub proof fn law_fish_is_taken_where_it_is(exists: Seq<bool>, i: int)
    requires
        exists.len() == 5,
        0 <= i < 5,
        exists[i],
        forall|k: int| 0 <= k < i ==> !(#[trigger] exists[k]),
    ensures
        first_fish(exists, 0) == Some(
            seq![
                "/opt/homebrew/bin/fish"@,
                "/usr/local/bin/fish"@,
                "/opt/local/bin/fish"@,
                "/usr/bin/fish"@,
                "/bin/fish"@,
            ][i],
        ),
{
    lemma_first_fish(exists, i, 0);
}

proof fn lemma_first_fish(exists: Seq<bool>, i: int, from: int)
    requires
        0 <= from <= i < exists.len(),
        i < fish_locations().len(),
        exists[i],
        forall|k: int| 0 <= k < i ==> !(#[trigger] exists[k]),
    ensures
        first_fish(exists, from) == Some(fish_locations()[i]),
    decreases i - from,
{
    if from < i {
        lemma_first_fish(exists, i, from + 1);
    }
}

/// Without an override, fish in a known place is taken before fish on the
/// search path, and that before the user's shell; the last resort is `/bin/sh`.
/// An override is fish where its file is called so.
pub proof fn law_order_of_shells(
    over: Seq<char>,
    exists: Seq<bool>,
    on_path: Option<Seq<char>>,
    user: Option<Seq<char>>,
)
    ensures
        first_fish(exists, 0) matches Some(p) ==> shell_choice(None, exists, on_path, user)
            == ShellState::Fish(p),
        first_fish(exists, 0) is None ==> (on_path matches Some(p) ==> shell_choice(
            None,
            exists,
            on_path,
            user,
        ) == ShellState::Fish(p)),
        first_fish(exists, 0) is None ==> (user matches Some(p) ==> p.len() > 0
            ==> shell_choice(None, exists, None, user) == ShellState::Fallback(p)),
        first_fish(exists, 0) is None ==> shell_choice(None, exists, None, None)
            == ShellState::Fallback("/bin/sh"@),
        shell_choice(Some(Seq::empty()), exists, on_path, user) == shell_choice(
            None,
            exists,
            on_path,
            user,
        ),
        over.len() > 0 ==> (shell_choice(Some(over), exists, on_path, user) is Fish <==> (
        file_name_of(over) matches Some(name) && name == "fish"@)),
{
}

/// The name of the file at the end of a path is what stands behind the last
/// slash; a login shell is started under it, with a dash before.
pub proof fn law_file_name(dir: Seq<char>, name: Seq<char>)
    requires
        name.len() > 0,
        name != "."@,
        name != ".."@,
        forall|i: int| 0 <= i < name.len() ==> name[i] != '/',
    ensures
        file_name_of(dir.push('/') + name) == Some(name),
        file_name_of(name) == Some(name),
        login_name(dir.push('/') + name) == seq!['-'] + name,
{
    let path = dir.push('/') + name;
    let n = dir.len() as int;
    lemma_name_start(path, n + 1, path.len() as int);
    assert(path.subrange(n + 1, path.len() as int) =~= name);
    lemma_name_start(name, 0, name.len() as int);
    assert(name.subrange(0, name.len() as int) =~= name);
}

proof fn lemma_name_start(path: Seq<char>, start: int, end: int)
    requires
        0 <= start <= end <= path.len(),
        start > 0 ==> path[start - 1] == '/',
        forall|i: int| start <= i < end ==> path[i] != '/',
    ensures
        part_start(path, end) == start,
    decreases end,
{
    if start < end {
        lemma_name_start(path, start, end - 1);
    }
}

/// The shell is told what terminal it runs in, which version of it, and where
/// to reach it; and, where there is one, the directory of the shell integration
/// comes first on the search path for data, before the user's own.
pub proof fn law_environment(
    version: Seq<char>,
    socket: Seq<char>,
    share: Seq<char>,
    dirs: Seq<char>,
    data_dirs: Option<Seq<char>>,
)
    ensures
        ({
            let env = shell_env(version, socket, None, data_dirs);
            &&& env.len() == 5
            &&& env.contains(("TERM"@, "xterm-256color"@))
            &&& env.contains(("COLORTERM"@, "truecolor"@))
            &&& env.contains(("TERM_PROGRAM"@, "mimi"@))
            &&& env.contains(("TERM_PROGRAM_VERSION"@, version))
            &&& env.contains(("MIMI_SOCKET"@, socket))
            &&& shell_env(version, socket, Some(share), Some(dirs)) == env.push(
                ("XDG_DATA_DIRS"@, share.push(':') + dirs),
            )
            &&& shell_env(version, socket, Some(share), None) == env.push(
                ("XDG_DATA_DIRS"@, share.push(':') + "/usr/local/share:/usr/share"@),
            )
        }),
{
    let env = shell_env(version, socket, None, data_dirs);
    assert(env[0] == ("TERM"@, "xterm-256color"@));
    assert(env[1] == ("COLORTERM"@, "truecolor"@));
    assert(env[2] == ("TERM_PROGRAM"@, "mimi"@));
    assert(env[3] == ("TERM_PROGRAM_VERSION"@, version));
    assert(env[4] == ("MIMI_SOCKET"@, socket));
    assert(share + seq![':'] + dirs =~= share.push(':') + dirs);
    assert(share + seq![':'] + default_data_dirs() =~= share.push(':') + default_data_dirs());
}

/// The shell integration is taken from where it is, the override first, then
/// the bundle, then the prefix; it is put in the cache only where it is in none
/// of them.
pub proof fn law_shell_integration(in_override: bool, in_bundle: bool, in_prefix: bool)
    ensures
        share_choice(in_override, in_bundle, in_prefix) == ShareDir::Override <==> in_override,
        share_choice(in_override, in_bundle, in_prefix) == ShareDir::Cache <==> !in_override
            && !in_bundle && !in_prefix,
        share_choice(in_override, in_bundle, in_prefix) == ShareDir::Bundle ==> in_bundle,
        share_choice(false, true, in_prefix) == ShareDir::Bundle,
        share_choice(false, false, true) == ShareDir::Prefix,
{
}

/// What is read is handed on, all of it; the end and every error but an
/// interruption stop the reader.
pub proof fn law_reading(n: usize)
    ensures
        n > 0 ==> step_after(ReadOutcome::Bytes(n)) == ReadStep::Deliver(n),
        step_after(ReadOutcome::Bytes(0)) == ReadStep::Stop,
        step_after(ReadOutcome::Failed) == ReadStep::Stop,
        step_after(ReadOutcome::Interrupted) == ReadStep::Again,
{
}

/// A child that exited with a code, which its wait status holds in the second
/// byte, is reported with it; one that a signal ended, with -1.
pub proof fn law_exit_status(code: u8, signal: u8)
    requires
        1 <= signal <= 127,
    ensures
        status_code((code * 256) as i32) == code,
        status_code(signal as i32) == -1,
{
    let status = (code * 256) as i32;
    assert(status & 0x7f == 0 && (status >> 8) & 0xff == code) by (bit_vector)
        requires
            status == code * 256,
    ;
    let ended = signal as i32;
    assert(ended & 0x7f != 0) by (bit_vector)
        requires
            1 <= ended <= 127,
    ;
}

/// Slashes and dots at the end of a path do not change where it leads; above
/// `..` there is no name.
pub proof fn law_file_name_of_a_directory(path: Seq<char>)
    requires
        path.len() > 0,
    ensures
        file_name_of(path.push('/')) == file_name_of(path),
        file_name_of(path.push('/').push('.')) == file_name_of(path),
        file_name_of(path.push('/').push('.').push('.')) is None,
{
    reveal_strlit(".");
    reveal_strlit("..");
    let n = path.len() as int;
    let slashed = path.push('/');
    lemma_same_name(slashed, path, n);
    assert(part_start(slashed, n + 1) == n + 1);
    assert(file_name_before(slashed, n + 1) == file_name_before(slashed, n));
    let dotted = slashed.push('.');
    lemma_same_name(dotted, path, n);
    lemma_name_start(dotted, n + 1, n + 2);
    assert(dotted.subrange(n + 1, n + 2) =~= "."@);
    let up = dotted.push('.');
    lemma_name_start(up, n + 1, n + 3);
    assert(up.subrange(n + 1, n + 3) =~= ".."@);
    assert(".."@.len() == 2 && "."@.len() == 1);
}

/// The name depends only on what stands before the end.
proof fn lemma_same_name(a: Seq<char>, b: Seq<char>, end: int)
    requires
        0 <= end <= a.len(),
        end <= b.len(),
        forall|i: int| 0 <= i < end ==> a[i] == b[i],
    ensures
        file_name_before(a, end) == file_name_before(b, end),
    decreases end,
{
    if end > 0 {
        lemma_same_start(a, b, end);
        lemma_part_start(a, end);
        let start = part_start(a, end);
        assert(a.subrange(start, end) =~= b.subrange(start, end));
        if start == end {
            lemma_same_name(a, b, end - 1);
        } else if start > 0 {
            lemma_same_name(a, b, start - 1);
        }
    }
}

proof fn lemma_same_start(a: Seq<char>, b: Seq<char>, end: int)
    requires
        0 <= end <= a.len(),
        end <= b.len(),
        forall|i: int| 0 <= i < end ==> a[i] == b[i],
    ensures
        part_start(a, end) == part_start(b, end),
    decreases end,
{
    if end > 0 && a[end - 1] != '/' {
        lemma_same_start(a, b, end - 1);
    }
}

} // verus!
