use mimi::config::{default_palette, parse_hex, Config, Rgb};
use mimi::palette::{Palette, Shade};
use mimi::{flags, Color};

fn rgb(r: u8, g: u8, b: u8) -> Rgb {
    Rgb { r, g, b }
}

fn hex(s: &str) -> Option<Rgb> {
    parse_hex(&s.chars().collect::<Vec<char>>())
}

#[test]
fn no_config_is_the_defaults() {
    let c = Config::parse("");
    assert!(c.allow_agent_exec);
    assert_eq!(c.scrollback, 10000);
    assert_eq!(c.fg, rgb(0xd6, 0xdb, 0xe1));
    assert_eq!(c.bg, rgb(0x0e, 0x11, 0x16));
    assert_eq!(c.cursor, rgb(0xff, 0xb4, 0x54));
    assert_eq!(c.palette, default_palette());
    assert!(c.font_size.is_empty() && c.padding.is_empty());
    assert!(c.font_path.is_none() && c.shell.is_none());
}

#[test]
fn documented_config() {
    let c = Config::parse(
        "\
font_size = 14
font = /path/to/a/monospace.ttf
shell = /opt/homebrew/bin/fish
scrollback = 10000
padding = 8
allow_agent_exec = true   # false = agents can read the screen but not type
fg = #d6dbe1
bg = #0e1116
cursor = #ffb454
palette0 = #1c2128         # ANSI colors 0-15
",
    );
    assert_eq!(c.font_size, vec!["14"]);
    assert_eq!(c.font_path.as_deref(), Some("/path/to/a/monospace.ttf"));
    assert_eq!(c.shell.as_deref(), Some("/opt/homebrew/bin/fish"));
    assert_eq!(c.padding, vec!["8"]);
    assert!(c.allow_agent_exec);
    assert_eq!(c.palette[0], rgb(0x1c, 0x21, 0x28));
}

#[test]
fn comments_behind_values() {
    let c = Config::parse("allow_agent_exec = false # read-only\nfg = #010203 # dark\nshell = a#b");
    assert!(!c.allow_agent_exec);
    assert_eq!(c.fg, rgb(1, 2, 3));
    assert_eq!(c.shell.as_deref(), Some("a#b"));
}

#[test]
fn odd_lines_say_nothing() {
    let c = Config::parse("# fg = #000000\n\n  \nnothing\nunknown = 3\n= 4\nscrollback = many\nfg = #12\n");
    assert_eq!(c.scrollback, 10000);
    assert_eq!(c.fg, rgb(0xd6, 0xdb, 0xe1));
}

#[test]
fn later_lines_win() {
    let c = Config::parse("scrollback=5\r\n  scrollback = +7\r\nfont_size = 1\nfont_size = x\n");
    assert_eq!(c.scrollback, 7);
    assert_eq!(c.font_size, vec!["1", "x"]);
}

#[test]
fn palette_entries() {
    let c = Config::parse("palette15 = 0a0b0c\npalette16 = #ffffff\npalettex = #ffffff\npalette3=#zz0000");
    assert_eq!(c.palette[15], rgb(10, 11, 12));
    assert_eq!(c.palette.len(), 16);
    assert_eq!(c.palette[3], default_palette()[3]);
}

#[test]
fn hex_colors() {
    assert_eq!(hex("#FFb454"), Some(rgb(255, 0xb4, 0x54)));
    assert_eq!(hex(" ##010203 "), Some(rgb(1, 2, 3)));
    assert_eq!(hex("+12345"), Some(rgb(1, 0x23, 0x45)));
    assert_eq!(hex("1+2345"), None);
    assert_eq!(hex("#12345"), None);
    assert_eq!(hex("#1234567"), None);
    assert_eq!(hex(""), None);
    assert_eq!(hex("#12345é"), None);
}

#[test]
fn color_table() {
    let p = Palette::new(&Config::parse("palette1 = #112233"));
    assert_eq!(p.colors.len(), 256);
    assert_eq!(p.resolve_bg(Color::Indexed(1)), rgb(0x11, 0x22, 0x33));
    assert_eq!(p.resolve_bg(Color::Indexed(16)), rgb(0, 0, 0));
    assert_eq!(p.resolve_bg(Color::Indexed(196)), rgb(255, 0, 0));
    assert_eq!(p.resolve_bg(Color::Indexed(110)), rgb(135, 175, 215));
    assert_eq!(p.resolve_bg(Color::Indexed(232)), rgb(8, 8, 8));
    assert_eq!(p.resolve_bg(Color::Indexed(255)), rgb(238, 238, 238));
    assert_eq!(p.resolve_bg(Color::Default), p.bg);
    assert_eq!(p.resolve_bg(Color::Rgb(1, 2, 3)), rgb(1, 2, 3));
}

#[test]
fn bold_brightens_and_dim_dims() {
    let p = Palette::new(&Config::default());
    let full = |color| Shade { color, dim: false };
    assert_eq!(p.resolve_fg(Color::Indexed(1), 0), full(default_palette()[1]));
    assert_eq!(p.resolve_fg(Color::Indexed(1), flags::BOLD), full(default_palette()[9]));
    assert_eq!(p.resolve_fg(Color::Indexed(9), flags::BOLD), full(default_palette()[9]));
    assert_eq!(p.resolve_fg(Color::Default, flags::BOLD), full(p.fg));
    let dimmed = p.resolve_fg(Color::Rgb(9, 8, 7), flags::DIM);
    assert_eq!(dimmed, Shade { color: rgb(9, 8, 7), dim: true });
}
