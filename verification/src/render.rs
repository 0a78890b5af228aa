//! Pure rendering helpers: ANSI color wrapping and stripping, visible
//! width accounting, glyph selection, and number/duration formatting.

use vstd::prelude::*;

use crate::config::{ColorTheme, GlyphMode};
use crate::textutil::{
    char_is_ascii_alpha, chars_to_string, dec_of, is_ascii_alpha, str_chars,
};

verus! {

pub const RESET: &'static str = "\u{1b}[0m";

pub const BOLD: &'static str = "\u{1b}[1m";

pub const EMPHASIS: &'static str = "\u{1b}[38;5;254m";

pub const MUTED: &'static str = "\u{1b}[38;5;246m";

pub const SUBDUED: &'static str = "\u{1b}[38;5;238m";

pub const STRUCTURAL_DARK: &'static str = "\u{1b}[38;5;60m";

pub const STRUCTURAL_LIGHT: &'static str = "\u{1b}[38;5;246m";

pub const SEPARATOR_DARK: &'static str = "\u{1b}[38;5;238m";

pub const SEPARATOR_LIGHT: &'static str = "\u{1b}[38;5;250m";

pub const ALERT_RED: &'static str = "\u{1b}[38;5;196m";

pub const ALERT_ORANGE: &'static str = "\u{1b}[38;5;214m";

pub const ALERT_MAGENTA: &'static str = "\u{1b}[38;5;201m";

pub const ACTIVE_CYAN: &'static str = "\u{1b}[38;5;117m";

pub const ACTIVE_PURPLE: &'static str = "\u{1b}[38;5;183m";

pub const ACTIVE_TEAL: &'static str = "\u{1b}[38;5;80m";

pub const ACTIVE_AMBER: &'static str = "\u{1b}[38;5;178m";

pub const ACTIVE_CORAL: &'static str = "\u{1b}[38;5;209m";

pub const STABLE_BLUE: &'static str = "\u{1b}[38;5;111m";

pub const STABLE_GREEN: &'static str = "\u{1b}[38;5;71m";

pub const COST_BASE: &'static str = "\u{1b}[38;5;222m";

pub const COST_LOW_RATE: &'static str = "\u{1b}[38;5;186m";

pub const COST_MED_RATE: &'static str = "\u{1b}[38;5;221m";

pub const COST_HIGH_RATE: &'static str = "\u{1b}[38;5;201m";

pub const MODEL_BLUE: &'static str = "\u{1b}[38;5;111m";

pub const GIT_GREEN: &'static str = "\u{1b}[38;5;71m";

pub const GIT_MODIFIED: &'static str = "\u{1b}[38;5;214m";

pub const GIT_AHEAD: &'static str = "\u{1b}[38;5;209m";

pub const GIT_BEHIND: &'static str = "\u{1b}[38;5;209m";

pub const CTX_GOOD: &'static str = "\u{1b}[38;5;71m";

pub const CTX_WARN: &'static str = "\u{1b}[38;5;178m";

pub const CTX_CRITICAL: &'static str = "\u{1b}[38;5;196m";

pub const TOOL_BLUE: &'static str = "\u{1b}[38;5;117m";

pub const AGENT_PURPLE: &'static str = "\u{1b}[38;5;183m";

pub const TODO_TEAL: &'static str = "\u{1b}[38;5;80m";

/// The four text emphasis tiers of a theme.
pub struct EmphasisTier {
    pub primary: &'static str,
    pub secondary: &'static str,
    pub structural: &'static str,
    pub separator: &'static str,
}

/// The emphasis palette for a theme.
pub fn emphasis_for_theme(theme: ColorTheme) -> (r: EmphasisTier)
    ensures
        theme == ColorTheme::Dark ==> r.primary@ == "\u{1b}[38;5;251m"@ && r.secondary@
            == "\u{1b}[38;5;146m"@ && r.structural@ == "\u{1b}[38;5;60m"@ && r.separator@
            == "\u{1b}[38;5;238m"@,
        theme == ColorTheme::Light ==> r.primary@ == "\u{1b}[38;5;236m"@ && r.secondary@
            == "\u{1b}[38;5;243m"@ && r.structural@ == "\u{1b}[38;5;246m"@ && r.separator@
            == "\u{1b}[38;5;250m"@,
{
    match theme {
        ColorTheme::Dark => EmphasisTier {
            primary: "\u{1b}[38;5;251m",
            secondary: "\u{1b}[38;5;146m",
            structural: "\u{1b}[38;5;60m",
            separator: "\u{1b}[38;5;238m",
        },
        ColorTheme::Light => EmphasisTier {
            primary: "\u{1b}[38;5;236m",
            secondary: "\u{1b}[38;5;243m",
            structural: "\u{1b}[38;5;246m",
            separator: "\u{1b}[38;5;250m",
        },
    }
}

/// Text wrapped in a color and a reset, when color is on.
pub open spec fn spec_colorize(text: Seq<char>, color: Seq<char>, enabled: bool) -> Seq<char> {
    if enabled {
        color + text + "\u{1b}[0m"@
    } else {
        text
    }
}

/// Wraps `text` in the color escape and a reset when `enabled`.
pub fn colorize(text: &str, color: &str, enabled: bool) -> (r: String)
    ensures
        r@ == spec_colorize(text@, color@, enabled),
{
    if enabled {
        let mut out = str_chars(color);
        let mut mid = str_chars(text);
        out.append(&mut mid);
        let mut tail = str_chars(RESET);
        out.append(&mut tail);
        let r = chars_to_string(&out);
        assert(r@ =~= spec_colorize(text@, color@, enabled));
        r
    } else {
        String::from_str(text)
    }
}

// ---- ANSI stripping ----

/// The position just past the ASCII letter that terminates an escape
/// sequence scanned from `j`; the end of the text when none follows.
pub open spec fn alpha_end(s: Seq<char>, j: int) -> int
    decreases s.len() - j,
{
    if j < 0 || j >= s.len() {
        s.len() as int
    } else if is_ascii_alpha(s[j]) {
        j + 1
    } else {
        alpha_end(s, j + 1)
    }
}

proof fn lemma_alpha_end_at(s: Seq<char>, j: int, k: int)
    requires
        0 <= j <= k <= s.len(),
        forall|m: int| j <= m < k ==> !is_ascii_alpha(#[trigger] s[m]),
        k < s.len() ==> is_ascii_alpha(s[k]),
    ensures
        k < s.len() ==> alpha_end(s, j) == k + 1,
        k == s.len() ==> alpha_end(s, j) == s.len(),
    decreases k - j,
{
    if j < k {
        lemma_alpha_end_at(s, j + 1, k);
    }
}

/// The text with ANSI escape sequences removed, scanning from `i`.
pub open spec fn strip_from(s: Seq<char>, i: int) -> Seq<char>
    decreases s.len() - i,
{
    if i < 0 || i >= s.len() {
        Seq::empty()
    } else if s[i] == '\u{1b}' {
        if i + 1 < s.len() && s[i + 1] == '[' {
            let k0 = alpha_end(s, i + 2);
            let k = if k0 <= i {
                i + 1
            } else if k0 > s.len() {
                s.len() as int
            } else {
                k0
            };
            strip_from(s, k)
        } else {
            strip_from(s, i + 1)
        }
    } else {
        seq![s[i]] + strip_from(s, i + 1)
    }
}

pub open spec fn spec_strip_ansi(s: Seq<char>) -> Seq<char> {
    strip_from(s, 0)
}

fn strip_ansi_chars(v: &Vec<char>) -> (r: Vec<char>)
    ensures
        r@ =~= spec_strip_ansi(v@),
{
    let ghost t = v@;
    let n = v.len();
    let mut out: Vec<char> = Vec::new();
    let mut i: usize = 0;
    while i < n
        invariant
            i <= n,
            n == t.len(),
            v@ == t,
            spec_strip_ansi(t) =~= out@ + strip_from(t, i as int),
        decreases n - i,
    {
        let c = v[i];
        if c == '\u{1b}' {
            if i + 1 < n && v[i + 1] == '[' {
                let mut k: usize = i + 2;
                while k < n && !char_is_ascii_alpha(v[k])
                    invariant
                        i + 2 <= k <= n,
                        n == t.len(),
                        v@ == t,
                        forall|m: int| i + 2 <= m < k ==> !is_ascii_alpha(#[trigger] t[m]),
                    decreases n - k,
                {
                    k = k + 1;
                }
                proof {
                    lemma_alpha_end_at(t, i + 2, k as int);
                }
                if k < n {
                    i = k + 1;
                } else {
                    i = n;
                }
            } else {
                i = i + 1;
            }
        } else {
            out.push(c);
            assert(out@ + strip_from(t, i + 1) =~= out@.drop_last() + (seq![t[i as int]]
                + strip_from(t, i + 1)));
            i = i + 1;
        }
    }
    out
}

/// Removes ANSI escape sequences.
pub fn strip_ansi(s: &str) -> (r: String)
    ensures
        r@ == spec_strip_ansi(s@),
{
    let v = str_chars(s);
    let stripped = strip_ansi_chars(&v);
    chars_to_string(&stripped)
}

/// The number of characters shown once escape sequences are dropped.
pub fn visible_width(s: &str) -> (r: usize)
    ensures
        r == spec_strip_ansi(s@).len(),
{
    let v = str_chars(s);
    let stripped = strip_ansi_chars(&v);
    stripped.len()
}

// ---- Visible-prefix extraction ----

/// The prefix holding the first `budget` visible characters, escape
/// sequences preserved, scanning from `i`.
pub open spec fn take_vis_from(s: Seq<char>, i: int, budget: nat) -> Seq<char>
    decreases s.len() - i,
{
    if i < 0 || i >= s.len() {
        Seq::empty()
    } else if s[i] == '\u{1b}' {
        if i + 1 < s.len() && s[i + 1] == '[' {
            let k0 = alpha_end(s, i + 2);
            let k = if k0 <= i {
                i + 1
            } else if k0 > s.len() {
                s.len() as int
            } else {
                k0
            };
            s.subrange(i, k) + take_vis_from(s, k, budget)
        } else {
            seq![s[i]] + take_vis_from(s, i + 1, budget)
        }
    } else if budget == 0 {
        Seq::empty()
    } else {
        seq![s[i]] + take_vis_from(s, i + 1, (budget - 1) as nat)
    }
}

/// Takes the first `count` visible characters, preserving ANSI escape
/// sequences met before the budget runs out.
pub fn take_visible_chars(s: &str, count: usize) -> (r: String)
    ensures
        r@ == take_vis_from(s@, 0, count as nat),
{
    let v = str_chars(s);
    let ghost t = s@;
    let n = v.len();
    let mut out: Vec<char> = Vec::new();
    let mut i: usize = 0;
    let mut budget: usize = count;
    while i < n
        invariant_except_break
            i <= n,
            n == t.len(),
            v@ == t,
            take_vis_from(t, 0, count as nat) =~= out@ + take_vis_from(t, i as int, budget as nat),
        ensures
            take_vis_from(t, 0, count as nat) =~= out@,
        decreases n - i,
    {
        let ghost ostart = out@;
        let ghost b0 = budget as nat;
        let c = v[i];
        if c == '\u{1b}' {
            out.push(c);
            if i + 1 < n && v[i + 1] == '[' {
                out.push(v[i + 1]);
                assert(out@ =~= ostart + t.subrange(i as int, i + 2));
                let mut k: usize = i + 2;
                while k < n && !char_is_ascii_alpha(v[k])
                    invariant
                        i + 2 <= k <= n,
                        n == t.len(),
                        v@ == t,
                        forall|m: int| i + 2 <= m < k ==> !is_ascii_alpha(#[trigger] t[m]),
                        out@ =~= ostart + t.subrange(i as int, k as int),
                    decreases n - k,
                {
                    out.push(v[k]);
                    assert(out@ =~= ostart + t.subrange(i as int, k + 1));
                    k = k + 1;
                }
                proof {
                    lemma_alpha_end_at(t, i + 2, k as int);
                }
                if k < n {
                    out.push(v[k]);
                    assert(out@ =~= ostart + t.subrange(i as int, k + 1));
                    i = k + 1;
                } else {
                    i = n;
                }
            } else {
                assert(out@ =~= ostart + seq![t[i as int]]);
                i = i + 1;
            }
        } else {
            if budget == 0 {
                proof {
                    assert(take_vis_from(t, i as int, b0) =~= Seq::<char>::empty());
                }
                break;
            }
            out.push(c);
            assert(out@ =~= ostart + seq![t[i as int]]);
            budget = budget - 1;
            i = i + 1;
        }
    }
    let r = chars_to_string(&out);
    r
}

// ---- Glyph selection ----

/// The icon with a trailing space in icon mode; the ASCII label otherwise.
pub fn glyph(mode: GlyphMode, icon: &str, ascii: &str) -> (r: String)
    ensures
        mode == GlyphMode::Icon ==> r@ == icon@ + " "@,
        mode == GlyphMode::Ascii ==> r@ == ascii@,
{
    match mode {
        GlyphMode::Icon => {
            let mut out = str_chars(icon);
            let mut sp = str_chars(" ");
            out.append(&mut sp);
            let r = chars_to_string(&out);
            assert(r@ =~= icon@ + " "@);
            r
        },
        GlyphMode::Ascii => String::from_str(ascii),
    }
}

/// The icon, a space and the label in icon mode; the label otherwise.
pub fn glyph_label(mode: GlyphMode, icon: &str, label: &str) -> (r: String)
    ensures
        mode == GlyphMode::Icon ==> r@ == icon@ + " "@ + label@,
        mode == GlyphMode::Ascii ==> r@ == label@,
{
    match mode {
        GlyphMode::Icon => {
            let mut out = str_chars(icon);
            let mut sp = str_chars(" ");
            out.append(&mut sp);
            let mut lb = str_chars(label);
            out.append(&mut lb);
            let r = chars_to_string(&out);
            assert(r@ =~= icon@ + " "@ + label@);
            r
        },
        GlyphMode::Ascii => String::from_str(label),
    }
}

// ---- Number and duration formatting ----

/// `n` scaled against `unit`, in rounded tenths.
pub open spec fn scaled_tenths(n: nat, unit: nat) -> nat {
    (n * 10 + unit / 2) / unit
}

/// A scaled count as `<whole>.<tenth>`.
pub open spec fn one_decimal(n: nat, unit: nat) -> Seq<char> {
    dec_of(scaled_tenths(n, unit) / 10) + "."@ + dec_of(scaled_tenths(n, unit) % 10)
}

/// Counts at a thousand and above gain a scale suffix.
pub open spec fn spec_format_number(n: nat) -> Seq<char> {
    if n >= 1000000 {
        one_decimal(n, 1000000) + "M"@
    } else if n >= 1000 {
        one_decimal(n, 1000) + "k"@
    } else {
        dec_of(n)
    }
}

fn push_one_decimal(n: u64, unit: u64, out: &mut Vec<char>)
    requires
        unit == 1000 || unit == 1000000,
    ensures
        final(out)@ == old(out)@ + one_decimal(n as nat, unit as nat),
{
    let q = n / unit;
    let r = n % unit;
    let rt = (r * 10 + unit / 2) / unit;
    let ghost ni = n as int;
    let ghost ui = unit as int;
    let ghost qi = q as int;
    let ghost ri = r as int;
    let ghost rti = rt as int;
    proof {
        assert(ri < ui && ni == ui * qi + ri) by (nonlinear_arith)
            requires
                ui > 0,
                ni >= 0,
                qi == ni / ui,
                ri == ni % ui,
        ;
        assert(ri * 10 + ui / 2 < ui * 11) by (nonlinear_arith)
            requires
                ri < ui,
                ui > 0,
                ri >= 0,
        ;
        assert(rti <= 10) by (nonlinear_arith)
            requires
                rti == (ri * 10 + ui / 2) / ui,
                ri * 10 + ui / 2 < ui * 11,
                ui > 0,
                ri >= 0,
        ;
        assert((ni * 10 + ui / 2) / ui == qi * 10 + rti) by (nonlinear_arith)
            requires
                ui > 0,
                ni == ui * qi + ri,
                0 <= ri < ui,
                rti == (ri * 10 + ui / 2) / ui,
        ;
    }
    let tenths = q * 10 + rt;
    proof {
        assert(qi * 10 + rti <= (u64::MAX as int / 1000) * 10 + 10) by (nonlinear_arith)
            requires
                qi <= u64::MAX as int / 1000,
                rti <= 10,
                qi >= 0,
        ;
        assert(tenths as nat == scaled_tenths(n as nat, unit as nat));
    }
    crate::textutil::push_dec(tenths / 10, out);
    let mut dot = str_chars(".");
    out.append(&mut dot);
    crate::textutil::push_dec(tenths % 10, out);
    assert(final(out)@ =~= old(out)@ + one_decimal(n as nat, unit as nat));
}

/// Formats a count with `k`/`M` scaling above a thousand.
pub fn format_number(n: u64) -> (r: String)
    ensures
        r@ == spec_format_number(n as nat),
{
    let mut out: Vec<char> = Vec::new();
    if n >= 1000000 {
        push_one_decimal(n, 1000000, &mut out);
        let mut suf = str_chars("M");
        out.append(&mut suf);
        assert(out@ =~= spec_format_number(n as nat));
    } else if n >= 1000 {
        push_one_decimal(n, 1000, &mut out);
        let mut suf = str_chars("k");
        out.append(&mut suf);
        assert(out@ =~= spec_format_number(n as nat));
    } else {
        crate::textutil::push_dec(n, &mut out);
        assert(out@ =~= spec_format_number(n as nat));
    }
    chars_to_string(&out)
}

/// An elapsed time in minutes, largest two units shown, zero sub-units
/// omitted.
pub open spec fn spec_format_duration(minutes: nat) -> Seq<char> {
    if minutes == 0 {
        "<1m"@
    } else {
        let days = minutes / 1440;
        let hours = (minutes % 1440) / 60;
        let mins = minutes % 60;
        if days > 0 {
            if hours > 0 {
                dec_of(days) + "d "@ + dec_of(hours) + "h"@
            } else {
                dec_of(days) + "d"@
            }
        } else if hours > 0 {
            if mins > 0 {
                dec_of(hours) + "h "@ + dec_of(mins) + "m"@
            } else {
                dec_of(hours) + "h"@
            }
        } else {
            dec_of(mins) + "m"@
        }
    }
}

/// Formats an elapsed duration, dropping zero sub-units.
pub fn format_duration(minutes: u64) -> (r: String)
    ensures
        r@ == spec_format_duration(minutes as nat),
{
    if minutes == 0 {
        return String::from_str("<1m");
    }
    let days = minutes / 1440;
    let hours = (minutes % 1440) / 60;
    let mins = minutes % 60;
    let mut out: Vec<char> = Vec::new();
    if days > 0 {
        crate::textutil::push_dec(days, &mut out);
        if hours > 0 {
            let mut sep = str_chars("d ");
            out.append(&mut sep);
            crate::textutil::push_dec(hours, &mut out);
            let mut uh = str_chars("h");
            out.append(&mut uh);
        } else {
            let mut ud = str_chars("d");
            out.append(&mut ud);
        }
    } else if hours > 0 {
        crate::textutil::push_dec(hours, &mut out);
        if mins > 0 {
            let mut sep = str_chars("h ");
            out.append(&mut sep);
            crate::textutil::push_dec(mins, &mut out);
            let mut um = str_chars("m");
            out.append(&mut um);
        } else {
            let mut uh = str_chars("h");
            out.append(&mut uh);
        }
    } else {
        crate::textutil::push_dec(mins, &mut out);
        let mut um = str_chars("m");
        out.append(&mut um);
    }
    assert(out@ =~= spec_format_duration(minutes as nat));
    chars_to_string(&out)
}

/// A reset countdown in minutes: every sub-unit of the largest unit is
/// shown, zeros included.
pub open spec fn spec_format_reset_duration(minutes: nat) -> Seq<char> {
    if minutes == 0 {
        "<1m"@
    } else {
        let days = minutes / 1440;
        let hours = (minutes % 1440) / 60;
        let mins = minutes % 60;
        if days > 0 {
            dec_of(days) + "d "@ + dec_of(hours) + "h "@ + dec_of(mins) + "m"@
        } else if hours > 0 {
            dec_of(hours) + "h "@ + dec_of(mins) + "m"@
        } else {
            dec_of(mins) + "m"@
        }
    }
}

/// Formats a reset countdown with every sub-unit shown.
pub fn format_reset_duration(minutes: u64) -> (r: String)
    ensures
        r@ == spec_format_reset_duration(minutes as nat),
{
    if minutes == 0 {
        return String::from_str("<1m");
    }
    let days = minutes / 1440;
    let hours = (minutes % 1440) / 60;
    let mins = minutes % 60;
    let mut out: Vec<char> = Vec::new();
    if days > 0 {
        crate::textutil::push_dec(days, &mut out);
        let mut s1 = str_chars("d ");
        out.append(&mut s1);
        crate::textutil::push_dec(hours, &mut out);
        let mut s2 = str_chars("h ");
        out.append(&mut s2);
        crate::textutil::push_dec(mins, &mut out);
        let mut um = str_chars("m");
        out.append(&mut um);
    } else if hours > 0 {
        crate::textutil::push_dec(hours, &mut out);
        let mut s2 = str_chars("h ");
        out.append(&mut s2);
        crate::textutil::push_dec(mins, &mut out);
        let mut um = str_chars("m");
        out.append(&mut um);
    } else {
        crate::textutil::push_dec(mins, &mut out);
        let mut um = str_chars("m");
        out.append(&mut um);
    }
    assert(out@ =~= spec_format_reset_duration(minutes as nat));
    chars_to_string(&out)
}

} // verus!
