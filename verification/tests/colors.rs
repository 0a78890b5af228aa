use cc_pulseline::config::ColorTheme;
use cc_pulseline::render::{
    colorize, emphasis_for_theme, strip_ansi, take_visible_chars, visible_width, AGENT_PURPLE,
    CTX_CRITICAL, MODEL_BLUE, MUTED, RESET, TOOL_BLUE,
};

#[test]
fn colorize_enabled() {
    let result = colorize("hello", MODEL_BLUE, true);
    assert_eq!(result, "\x1b[38;5;111mhello\x1b[0m");
}

#[test]
fn colorize_disabled() {
    assert_eq!(colorize("hello", MODEL_BLUE, false), "hello");
}

#[test]
fn strip_ansi_removes_escapes() {
    let colored = format!("{MODEL_BLUE}hello{RESET} {TOOL_BLUE}world{RESET}");
    assert_eq!(strip_ansi(&colored), "hello world");
}

#[test]
fn strip_ansi_passes_plain_text() {
    assert_eq!(strip_ansi("no escapes"), "no escapes");
}

#[test]
fn visible_width_ignores_ansi() {
    let colored = format!("{MUTED}M:{RESET}{MODEL_BLUE}Opus{RESET}");
    assert_eq!(visible_width(&colored), 6);
}

#[test]
fn take_visible_chars_preserves_ansi() {
    let colored = format!("{CTX_CRITICAL}hello{RESET}");
    let taken = take_visible_chars(&colored, 3);
    assert_eq!(visible_width(&taken), 3);
    assert!(taken.contains(CTX_CRITICAL));
}

#[test]
fn take_visible_chars_plain_text() {
    assert_eq!(take_visible_chars("hello world", 5), "hello");
}

#[test]
fn strip_256_color_codes() {
    let colored = format!("{AGENT_PURPLE}test{RESET}");
    assert_eq!(strip_ansi(&colored), "test");
    assert_eq!(visible_width(&colored), 4);
}

#[test]
fn emphasis_tiers_dark_theme() {
    let tier = emphasis_for_theme(ColorTheme::Dark);
    assert!(tier.primary.contains("251"));
    assert!(tier.secondary.contains("146"));
    assert!(tier.structural.contains("60"));
    assert!(tier.separator.contains("238"));
}

#[test]
fn emphasis_tiers_light_theme() {
    let tier = emphasis_for_theme(ColorTheme::Light);
    assert!(tier.primary.contains("236"));
    assert!(tier.secondary.contains("243"));
    assert!(tier.structural.contains("246"));
    assert!(tier.separator.contains("250"));
}
