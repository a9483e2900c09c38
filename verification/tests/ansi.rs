use keet::ansi::{
    char_width, cut_to_width, escape_len, sanitize_display, truncate_ansi, truncate_plain, truncate_visible,
    visible_len,
};
use keet::text::chars_of;

#[test]
fn visible_len_handles_string_terminated_escapes() {
    // Kitty graphics ride an APC: ESC _ G <payload> ESC \ .
    let kitty = "\x1B_Ga=d,d=i,i=1,q=2\x1B\\";
    assert_eq!(visible_len(kitty), 0, "the whole APC is invisible");
    assert_eq!(visible_len(&format!("{kitty}{}", " ".repeat(18))), 18);
    assert_eq!(visible_len(&format!("{}{kitty}ab", " ".repeat(3))), 5);

    // OSC (iTerm2 inline images) terminates on BEL as well as ESC \ .
    assert_eq!(visible_len("\x1B]1337;File=inline=1\x07xy"), 2);
    assert_eq!(visible_len("\x1B]0;title\x1B\\xy"), 2);

    // Truncation keeps whole sequences, and never cuts one in half.
    let line = format!("{kitty}abcdef");
    let cut = truncate_ansi(&line, 3);
    assert_eq!(visible_len(&cut), 3);
    assert!(cut.starts_with(kitty), "escape must survive intact: {cut:?}");

    // An unterminated sequence counts no garbage.
    assert_eq!(visible_len("\x1B_Gnever-closed"), 0);
}

#[test]
fn visible_len_skips_sgr_and_non_sgr_escapes() {
    assert_eq!(visible_len("plain"), 5);
    assert_eq!(visible_len("\x1B[1;32mhi\x1B[0m"), 2);
    // Non-SGR CSI: ends in a letter other than 'm'.
    assert_eq!(visible_len("\x1B[2Jab"), 2);
    assert_eq!(visible_len(""), 0);
}

#[test]
fn truncate_ansi_cuts_visible_chars_and_keeps_escapes() {
    let s = "\x1B[31mabcdef\x1B[0m";
    let cut = truncate_ansi(s, 3);
    assert_eq!(visible_len(&cut), 3);
    assert!(cut.starts_with("\x1B[31m"), "leading escape preserved: {cut:?}");
    // No cut when it already fits (trailing escape intact).
    assert_eq!(truncate_ansi(s, 10), s);
}

#[test]
fn truncate_plain_adds_ellipsis_only_when_cutting() {
    assert_eq!(truncate_plain("hello", 10), "hello");
    assert_eq!(truncate_plain("hello", 4), "hel…");
    assert_eq!(truncate_plain("hello", 1), "h");
}

#[test]
fn truncate_visible_is_ansi_aware_with_ellipsis() {
    let s = "\x1B[2mabcdef\x1B[0m";
    assert_eq!(truncate_visible(s, 10), s, "no cut when it fits");
    let cut = truncate_visible(s, 4);
    assert_eq!(visible_len(&cut), 4, "3 kept chars + ellipsis");
    assert!(cut.ends_with('…'));
    assert!(cut.starts_with("\x1B[2m"));
}

#[test]
fn widths_are_display_columns_not_chars() {
    // CJK and most emoji take two terminal columns.
    assert_eq!(visible_len("日本語"), 6);
    assert_eq!(visible_len("\x1B[1m日本\x1B[0mab"), 6);
    // Combining marks add no width: e + U+0301 is one column.
    assert_eq!(visible_len("e\u{301}"), 1);
    // Control characters draw nothing.
    assert_eq!(visible_len("a\tb"), 2);
}

#[test]
fn truncation_never_exceeds_the_column_budget() {
    let title = "日本語の歌のタイトルですとても長い";
    for max in 0..30 {
        let p = truncate_plain(title, max);
        assert!(visible_len(&p) <= max, "truncate_plain({max}) drew {} cols: {p}", visible_len(&p));
        let a = truncate_ansi(&format!("\x1B[1m{title}\x1B[0m"), max);
        assert!(visible_len(&a) <= max, "truncate_ansi({max}) drew {} cols", visible_len(&a));
        let v = truncate_visible(&format!("\x1B[2m{title}"), max);
        assert!(visible_len(&v) <= max.max(1), "truncate_visible({max}) drew {} cols", visible_len(&v));
    }
    // A wide char that would straddle the edge is left out, not split.
    assert_eq!(truncate_ansi("a日本", 2), "a");
    assert_eq!(truncate_plain("日本語の歌", 5), "日本…");
    // A combining mark stays with its base character.
    assert_eq!(truncate_ansi("e\u{301}x", 1), "e\u{301}");
}

#[test]
fn truncate_visible_keeps_string_terminated_escapes_whole() {
    let kitty = "\x1B_Ga=d,d=i,i=1,q=2\x1B\\";
    let cut = truncate_visible(&format!("{kitty}abcdef"), 4);
    assert!(cut.starts_with(kitty), "APC must survive whole: {cut:?}");
    assert_eq!(visible_len(&cut), 4);
}

#[test]
fn untrusted_text_cannot_carry_control_characters() {
    assert_eq!(sanitize_display("a\x1B[6nb"), "a [6nb");
    assert_eq!(sanitize_display("line1\nline2\r"), "line1 line2 ");
    assert_eq!(sanitize_display("tab\there"), "tab here");
    assert_eq!(sanitize_display("c1\u{9b}6n"), "c1 6n", "8-bit CSI too");
    assert_eq!(sanitize_display("日本語 é"), "日本語 é", "printable text untouched");
}

#[test]
fn narrow_characters_take_one_column() {
    assert_eq!(char_width('\u{2026}'), 1);
    for n in 0x2500u32..0x25a0 {
        let c = char::from_u32(n).unwrap();
        assert_eq!(char_width(c), 1, "{c:?}");
    }
    for n in 0x20u32..0x7f {
        assert_eq!(char_width(char::from_u32(n).unwrap()), 1);
    }
    assert_eq!(char_width('\u{1b}'), 0);
    assert_eq!(char_width('\u{9b}'), 0);
    assert_eq!(char_width('語'), 2);
}

#[test]
fn no_character_takes_more_than_three_columns() {
    for n in 0u32..0x30000 {
        if let Some(c) = char::from_u32(n) {
            let w = char_width(c);
            assert!(w <= 3, "{n:x} has {w}");
            if n < 0x20 || (0x7f..0xa0).contains(&n) {
                assert_eq!(w, 0);
            }
        }
    }
}

#[test]
fn escapes_are_measured_whole() {
    assert_eq!(escape_len(&chars_of("\x1B[31mx"), 0), 5);
    assert_eq!(escape_len(&chars_of("\x1B]0;t\x07x"), 0), 6);
    assert_eq!(escape_len(&chars_of("\x1B7x"), 0), 2);
    assert_eq!(escape_len(&chars_of("ab\x1B"), 2), 1);
}

#[test]
fn a_cut_says_whether_something_was_dropped() {
    assert_eq!(cut_to_width("abc", 3), ("abc".to_string(), false));
    assert_eq!(cut_to_width("abcd", 3), ("abc".to_string(), true));
}

#[test]
fn sanitizing_again_changes_nothing() {
    let once = sanitize_display("x\u{7}\u{85}y");
    assert_eq!(once, "x  y");
    assert_eq!(sanitize_display(&once), once);
}
