//! The shell behind the PTY: which one it is, what it is started with, how it
//! ended.
//!
//! mimi is fish-first: [`find_shell`] takes fish from the usual install
//! locations and falls back to the user's `$SHELL`, so that the window can
//! tell the user that fish wasn't found.

use vstd::prelude::*;
use vstd::slice::slice_subrange;

use crate::text::{append_text, chars_of, text_eq};

pub mod laws;

verus! {

/// Where we found the shell, so the app can surface a notice when fish is
/// missing rather than silently degrading.
#[derive(Clone, Debug, PartialEq)]
pub enum ShellChoice {
    Fish(String),
    Fallback(String),
}

/// A choice of shell as a mathematical value.
pub enum ShellState {
    Fish(Seq<char>),
    Fallback(Seq<char>),
}

impl View for ShellChoice {
    type V = ShellState;

    open spec fn view(&self) -> ShellState {
        match self {
            ShellChoice::Fish(p) => ShellState::Fish(p@),
            ShellChoice::Fallback(p) => ShellState::Fallback(p@),
        }
    }
}

impl ShellState {
    pub open spec fn path(self) -> Seq<char> {
        match self {
            ShellState::Fish(p) => p,
            ShellState::Fallback(p) => p,
        }
    }

    /// The shell at `path`: fish where the file is named so.
    pub open spec fn at(path: Seq<char>) -> ShellState {
        if file_name_of(path) == Some("fish"@) {
            ShellState::Fish(path)
        } else {
            ShellState::Fallback(path)
        }
    }
}

impl ShellChoice {
    pub fn path(&self) -> (p: &str)
        ensures
            p@ == self@.path(),
    {
        match self {
            ShellChoice::Fish(p) => p.as_str(),
            ShellChoice::Fallback(p) => p.as_str(),
        }
    }

    pub fn is_fish(&self) -> (b: bool)
        ensures
            b == (self@ is Fish),
    {
        match self {
            ShellChoice::Fish(_) => true,
            ShellChoice::Fallback(_) => false,
        }
    }

    /// The shell at `path`.
    pub fn at(path: &str) -> (s: ShellChoice)
        ensures
            s@ == ShellState::at(path@),
    {
        let cs = chars_of(path);
        let is_fish = match file_name(cs.as_slice()) {
            Some(name) => text_eq(name, "fish"),
            None => false,
        };
        if is_fish {
            ShellChoice::Fish(path.to_owned())
        } else {
            ShellChoice::Fallback(path.to_owned())
        }
    }
}

/// Where the last part of `path` starts that stands before index `end`: behind
/// the last slash there.
pub open spec fn part_start(path: Seq<char>, end: int) -> int
    decreases end,
{
    if end <= 0 {
        0
    } else if path[end - 1] == '/' {
        end
    } else {
        part_start(path, end - 1)
    }
}

/// The name of the file at the end of `path[..end]`: its last part, passing
/// over empty ones and `.`; none where that is `..` or there is none.
pub open spec fn file_name_before(path: Seq<char>, end: int) -> Option<Seq<char>>
    decreases end,
{
    let start = part_start(path, end);
    let part = path.subrange(start, end);
    if end <= 0 {
        None
    } else if start == end {
        file_name_before(path, end - 1)
    } else if part == "."@ {
        if start == 0 {
            None
        } else {
            proof {
                lemma_part_start(path, end);
            }
            file_name_before(path, start - 1)
        }
    } else if part == ".."@ {
        None
    } else {
        Some(part)
    }
}

/// The name of the file that `path` leads to.
pub open spec fn file_name_of(path: Seq<char>) -> Option<Seq<char>> {
    file_name_before(path, path.len() as int)
}

/// A part starts before it ends.
pub proof fn lemma_part_start(path: Seq<char>, end: int)
    requires
        0 <= end,
    ensures
        0 <= part_start(path, end) <= end,
    decreases end,
{
    if end > 0 && path[end - 1] != '/' {
        lemma_part_start(path, end - 1);
    }
}

fn find_part_start(cs: &[char], end: usize) -> (start: usize)
    requires
        end <= cs@.len(),
    ensures
        start == part_start(cs@, end as int),
        start <= end,
{
    let mut i = end;
    while i > 0 && cs[i - 1] != '/'
        invariant
            i <= end <= cs@.len(),
            part_start(cs@, end as int) == part_start(cs@, i as int),
        decreases i,
    {
        i -= 1;
    }
    i
}

/// The name of the file that a path leads to.
pub fn file_name<'a>(cs: &'a [char]) -> (r: Option<&'a [char]>)
    ensures
        r is Some <==> file_name_of(cs@) is Some,
        r matches Some(n) ==> n@ == file_name_of(cs@)->0,
{
    let mut end = cs.len();
    while end > 0
        invariant
            end <= cs@.len(),
            file_name_of(cs@) == file_name_before(cs@, end as int),
        decreases end,
    {
        let start = find_part_start(cs, end);
        let part = slice_subrange(cs, start, end);
        if start == end {
            end = end - 1;
        } else if text_eq(part, ".") {
            if start == 0 {
                return None;
            }
            end = start - 1;
        } else if text_eq(part, "..") {
            return None;
        } else {
            return Some(part);
        }
    }
    None
}

/// Where fish is usually installed.
pub open spec fn fish_locations() -> Seq<Seq<char>> {
    seq![
        "/opt/homebrew/bin/fish"@,  // Homebrew, Apple Silicon
        "/usr/local/bin/fish"@,  // Homebrew, Intel
        "/opt/local/bin/fish"@,  // MacPorts
        "/usr/bin/fish"@,
        "/bin/fish"@,
    ]
}

/// How many locations there are.
pub const FISH_LOCATIONS: usize = 5;

/// One of the places where fish is usually installed.
pub fn fish_location(i: usize) -> (path: &'static str)
    requires
        i < FISH_LOCATIONS,
    ensures
        path@ == fish_locations()[i as int],
{
    match i {
        0 => "/opt/homebrew/bin/fish",
        1 => "/usr/local/bin/fish",
        2 => "/opt/local/bin/fish",
        3 => "/usr/bin/fish",
        _ => "/bin/fish",
    }
}

/// The first of the locations where fish exists, from `i` on.
pub open spec fn first_fish(exists: Seq<bool>, i: int) -> Option<Seq<char>>
    decreases exists.len() - i,
{
    if i >= exists.len() || i >= fish_locations().len() {
        None
    } else if exists[i] {
        Some(fish_locations()[i])
    } else {
        first_fish(exists, i + 1)
    }
}

/// A text, where it is there and not empty.
pub open spec fn non_empty(s: Option<Seq<char>>) -> Option<Seq<char>> {
    match s {
        Some(t) => if t.len() > 0 {
            Some(t)
        } else {
            None
        },
        None => None,
    }
}

/// The shell to run: the override, fish in a known location, fish on the
/// search path, the user's shell, `/bin/sh`.
pub open spec fn shell_choice(
    over: Option<Seq<char>>,
    exists: Seq<bool>,
    on_path: Option<Seq<char>>,
    user: Option<Seq<char>>,
) -> ShellState {
    match (non_empty(over), first_fish(exists, 0), on_path, non_empty(user)) {
        (Some(p), _, _, _) => ShellState::at(p),
        (None, Some(p), _, _) => ShellState::Fish(p),
        (None, None, Some(p), _) => ShellState::Fish(p),
        (None, None, None, Some(p)) => ShellState::Fallback(p),
        (None, None, None, None) => ShellState::Fallback("/bin/sh"@),
    }
}

/// The characters of an optional text.
pub open spec fn str_of(s: Option<&str>) -> Option<Seq<char>> {
    match s {
        Some(s) => Some(s@),
        None => None,
    }
}

fn known_fish(exists: &[bool]) -> (r: Option<&'static str>)
    ensures
        str_of(r) == first_fish(exists@, 0),
{
    let mut i: usize = 0;
    while i < exists.len() && i < FISH_LOCATIONS
        invariant
            i <= exists@.len(),
            first_fish(exists@, 0) == first_fish(exists@, i as int),
        decreases exists@.len() - i,
    {
        if exists[i] {
            return Some(fish_location(i));
        }
        i += 1;
    }
    None
}

/// Locate the shell to run. Order: `$MIMI_SHELL` override, fish in known
/// locations, fish on `$PATH`, then `$SHELL`, then `/bin/sh`. The embedder
/// says what the variables hold, which locations exist and where fish is on
/// the path.
pub fn find_shell(
    over: Option<&str>,
    exists: &[bool],
    on_path: Option<&str>,
    user: Option<&str>,
) -> (s: ShellChoice)
    ensures
        s@ == shell_choice(str_of(over), exists@, str_of(on_path), str_of(user)),
{
    if let Some(p) = over {
        if chars_of(p).len() > 0 {
            return ShellChoice::at(p);
        }
    }
    if let Some(p) = known_fish(exists) {
        return ShellChoice::Fish(p.to_owned());
    }
    if let Some(p) = on_path {
        return ShellChoice::Fish(p.to_owned());
    }
    if let Some(p) = user {
        if chars_of(p).len() > 0 {
            return ShellChoice::Fallback(p.to_owned());
        }
    }
    ShellChoice::Fallback("/bin/sh".to_owned())
}

// ---- What the shell is started with -----------------------------------------

/// The name that a login shell is started under: a dash and its file name.
pub open spec fn login_name(path: Seq<char>) -> Seq<char> {
    seq!['-'] + match file_name_of(path) {
        Some(name) => name,
        None => "sh"@,
    }
}

/// argv[0] starting with '-' marks a login shell.
pub fn login_argv0(path: &str) -> (s: String)
    ensures
        s@ == login_name(path@),
{
    let cs = chars_of(path);
    let mut s = String::new();
    s.push('-');
    match file_name(cs.as_slice()) {
        Some(name) => {
            append_text(&mut s, name);
        },
        None => {
            let name = chars_of("sh");
            append_text(&mut s, name.as_slice());
        },
    }
    assert(s@ =~= login_name(path@));
    s
}

/// `key=value`, as the environment holds it.
pub fn env_entry(key: &str, value: &str) -> (s: String)
    ensures
        s@ == key@ + seq!['='] + value@,
{
    let mut s = key.to_owned();
    s.push('=');
    let v = chars_of(value);
    append_text(&mut s, v.as_slice());
    assert(s@ =~= key@ + seq!['='] + value@);
    s
}

/// The names and values of environment variables.
pub open spec fn env_of(env: Seq<(String, String)>) -> Seq<(Seq<char>, Seq<char>)> {
    Seq::new(env.len(), |i: int| (env[i].0@, env[i].1@))
}

/// What the search path for shared data is where the user has none.
pub open spec fn default_data_dirs() -> Seq<char> {
    "/usr/local/share:/usr/share"@
}

/// The variables that the shell gets on top of the user's own. Where there is
/// a directory with the shell integration, it comes first in the search path.
pub open spec fn shell_env(
    version: Seq<char>,
    socket: Seq<char>,
    share: Option<Seq<char>>,
    data_dirs: Option<Seq<char>>,
) -> Seq<(Seq<char>, Seq<char>)> {
    let base = seq![
        ("TERM"@, "xterm-256color"@),
        ("COLORTERM"@, "truecolor"@),
        ("TERM_PROGRAM"@, "mimi"@),
        ("TERM_PROGRAM_VERSION"@, version),
        ("MIMI_SOCKET"@, socket),
    ];
    match share {
        Some(dir) => base.push(
            (
                "XDG_DATA_DIRS"@,
                dir + seq![':'] + match data_dirs {
                    Some(d) => d,
                    None => default_data_dirs(),
                },
            ),
        ),
        None => base,
    }
}

fn put_env(env: &mut Vec<(String, String)>, key: &str, value: &str)
    ensures
        env_of(final(env)@) == env_of(old(env)@).push((key@, value@)),
{
    let ghost held = env@;
    env.push((key.to_owned(), value.to_owned()));
    assert(env_of(env@) =~= env_of(held).push((key@, value@)));
}

/// The variables that the shell gets.
pub fn child_env(version: &str, socket: &str, share: Option<&str>, data_dirs: Option<&str>) -> (env:
    Vec<(String, String)>)
    ensures
        env_of(env@) == shell_env(version@, socket@, str_of(share), str_of(data_dirs)),
{
    let mut env: Vec<(String, String)> = Vec::new();
    put_env(&mut env, "TERM", "xterm-256color");
    put_env(&mut env, "COLORTERM", "truecolor");
    put_env(&mut env, "TERM_PROGRAM", "mimi");
    put_env(&mut env, "TERM_PROGRAM_VERSION", version);
    put_env(&mut env, "MIMI_SOCKET", socket);
    if let Some(dir) = share {
        let existing = match data_dirs {
            Some(d) => d,
            None => "/usr/local/share:/usr/share",
        };
        let mut path = dir.to_owned();
        path.push(':');
        let tail = chars_of(existing);
        append_text(&mut path, tail.as_slice());
        assert(path@ =~= dir@ + seq![':'] + existing@);
        put_env(&mut env, "XDG_DATA_DIRS", path.as_str());
    }
    assert(env_of(env@) =~= shell_env(version@, socket@, str_of(share), str_of(data_dirs)));
    env
}

/// Where the shell integration is taken from.
#[derive(Clone, Copy, PartialEq, Eq, Debug, Structural)]
pub enum ShareDir {
    /// The directory that `$MIMI_SHARE` names.
    Override,
    /// The resources of the app bundle.
    Bundle,
    /// The share directory of the install prefix.
    Prefix,
    /// The user's cache, where the script is put.
    Cache,
}

/// The first place that holds the script; the cache where none does.
pub open spec fn share_choice(in_override: bool, in_bundle: bool, in_prefix: bool) -> ShareDir {
    if in_override {
        ShareDir::Override
    } else if in_bundle {
        ShareDir::Bundle
    } else if in_prefix {
        ShareDir::Prefix
    } else {
        ShareDir::Cache
    }
}

/// Takes the first place that holds the script; the cache where none does.
pub fn share_dir(in_override: bool, in_bundle: bool, in_prefix: bool) -> (d: ShareDir)
    ensures
        d == share_choice(in_override, in_bundle, in_prefix),
{
    if in_override {
        ShareDir::Override
    } else if in_bundle {
        ShareDir::Bundle
    } else if in_prefix {
        ShareDir::Prefix
    } else {
        ShareDir::Cache
    }
}

// ---- Reading and waiting ----------------------------------------------------

/// How a read of the PTY ended.
#[derive(Clone, Copy, PartialEq, Eq, Debug, Structural)]
pub enum ReadOutcome {
    /// So many bytes came; 0 at the end.
    Bytes(usize),
    /// A signal came in between.
    Interrupted,
    /// Any other error.
    Failed,
}

/// What the reader does next.
#[derive(Clone, Copy, PartialEq, Eq, Debug, Structural)]
pub enum ReadStep {
    /// Hand on the bytes, then read again.
    Deliver(usize),
    Again,
    Stop,
}

/// What the reader does after a read that ended so.
pub open spec fn step_after(outcome: ReadOutcome) -> ReadStep {
    match outcome {
        ReadOutcome::Bytes(n) => if n == 0 {
            ReadStep::Stop
        } else {
            ReadStep::Deliver(n)
        },
        ReadOutcome::Interrupted => ReadStep::Again,
        ReadOutcome::Failed => ReadStep::Stop,
    }
}

/// Reads until the end. On Linux, reading the master fails when the child
/// exits; that is the end too.
pub fn read_step(outcome: ReadOutcome) -> (s: ReadStep)
    ensures
        s == step_after(outcome),
{
    match outcome {
        ReadOutcome::Bytes(0) => ReadStep::Stop,
        ReadOutcome::Bytes(n) => ReadStep::Deliver(n),
        ReadOutcome::Interrupted => ReadStep::Again,
        ReadOutcome::Failed => ReadStep::Stop,
    }
}

/// [`libc::WIFEXITED`]: whether a wait status says that the child exited by
/// itself, which it does where its low seven bits are 0.
#[verifier::external_body]
fn exited(status: i32) -> (b: bool)
    ensures
        b == (status & 0x7f == 0),
{
    libc::WIFEXITED(status)
}

/// [`libc::WEXITSTATUS`]: the exit status in a wait status, its second byte.
#[verifier::external_body]
fn exit_byte(status: i32) -> (code: i32)
    ensures
        code == (status >> 8) & 0xff,
{
    libc::WEXITSTATUS(status)
}

/// The exit status in a wait status; -1 where the child did not exit by itself.
pub open spec fn status_code(status: i32) -> int {
    if status & 0x7f == 0 {
        ((status >> 8) & 0xff) as int
    } else {
        -1
    }
}

/// The exit status of a child from its wait status; -1 where it did not exit
/// by itself.
pub fn exit_status(status: i32) -> (code: i32)
    ensures
        code == status_code(status),
        -1 <= code <= 255,
{
    if exited(status) {
        assert(0 <= (status >> 8) & 0xff <= 255) by (bit_vector);
        exit_byte(status)
    } else {
        -1
    }
}

} // verus!
