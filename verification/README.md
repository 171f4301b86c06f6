# mimi

A terminal emulator whose every command is a block: a VT/ANSI engine, semantic
command blocks, a control protocol for agents and the rules of a window, written
in Rust and verified with [Verus](https://github.com/verus-lang/verus).

`src/` is the library. It does no I/O. Each type has a mathematical model, each
operation is proved to do to the model what its contract says, and the laws that
span operations are public proof functions in modules named `laws`.

| Module | What it holds |
|---|---|
| `cell`, `grid` | cells and the screen |
| `term` | cursor, pen, modes, scroll region, scrollback, escape sequences |
| `parser` | the byte-at-a-time state machine; `Emulator::process` drives it |
| `blocks`, `osc` | command blocks and the reports of the shell |
| `agent`, `json`, `ctl` | the control protocol, both ends |
| `input`, `window`, `selection` | keys, wheel, mouse; the window as a state machine |
| `frame`, `palette`, `atlas` | what a frame shows and where glyphs are packed |
| `config`, `launch`, `pty` | settings, command line, shell discovery |
| `text`, `width`, `clock`, `stdx` | text, character widths, time stamps, contracts for `std` |

What is believed without proof is in `stdx`, `clock`, `width` and `pty`: the
contracts of the functions of `std`, `unicode-width` and `libc` that the library
calls.

`app/` is the program around it: the window, the GPU, the PTY, the socket and the
files. `tests/` run the library on concrete values.
