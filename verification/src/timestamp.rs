//! Fixed-format ISO-8601 timestamp parsing to Unix epoch milliseconds.

use vstd::prelude::*;

use crate::textutil::{all_digits, dec_val, is_digit, parse_dec, str_chars};

verus! {

// ---- Civil-date arithmetic ----

/// Days from 1970-01-01 to the given civil date; `None` when the month or
/// day is out of range.
pub open spec fn spec_days_from_civil(year: int, month: int, day: int) -> Option<int> {
    if !(1 <= month <= 12) || !(1 <= day <= 31) {
        Option::None
    } else {
        let y = if month <= 2 {
            year - 1
        } else {
            year
        };
        let m = if month <= 2 {
            month + 9
        } else {
            month - 3
        };
        let era = (if y >= 0 {
            y
        } else {
            y - 399
        }) / 400;
        let yoe = y - era * 400;
        let doy = (153 * m + 2) / 5 + day - 1;
        let doe = yoe * 365 + yoe / 4 - yoe / 100 + doy;
        Option::Some(era * 146097 + doe - 719468)
    }
}

/// Converts a civil date to days since the Unix epoch, shifting the year
/// so March is month zero to simplify leap-year handling.
pub fn days_from_civil(year: i64, month: u32, day: u32) -> (r: Option<i64>)
    requires
        0 <= year <= 9999,
    ensures
        match r {
            Option::Some(d) => spec_days_from_civil(year as int, month as int, day as int)
                == Option::Some(d as int),
            Option::None => spec_days_from_civil(year as int, month as int, day as int) is None,
        },
{
    if !(1 <= month && month <= 12) || !(1 <= day && day <= 31) {
        return Option::None;
    }
    let y: i64 = if month <= 2 {
        year - 1
    } else {
        year
    };
    let mu: u64 = if month <= 2 {
        (month + 9) as u64
    } else {
        (month - 3) as u64
    };
    let ghost gy: int = y as int;
    let (era, yoe): (i64, u64) = if y >= 0 {
        let yu = y as u64;
        let e = yu / 400;
        let q = yu % 400;
        proof {
            assert(yu == 400 * (yu / 400) + yu % 400) by (nonlinear_arith);
            assert(gy / 400 == yu as int / 400);
        }
        (e as i64, q)
    } else {
        proof {
            assert(gy == -1);
            assert((gy - 399) / 400 == -1);
        }
        (-1i64, (y + 400) as u64)
    };
    proof {
        assert(yoe < 400);
        assert(yoe as int == gy - (era as int) * 400) by (nonlinear_arith)
            requires
                (era as int) == (if gy >= 0 { gy } else { gy - 399 }) / 400,
                gy >= 0 ==> yoe as int == gy - (era as int) * 400,
                gy < 0 ==> gy == -1 && era as int == -1 && yoe as int == gy + 400,
        ;
    }
    let doy: u64 = (153 * mu + 2) / 5 + day as u64 - 1;
    let yoe365: u64 = yoe * 365;
    proof {
        assert(yoe * 365 <= 399 * 365) by (nonlinear_arith)
            requires
                yoe < 400,
        ;
    }
    let doe: u64 = yoe365 + yoe / 4 - yoe / 100 + doy;
    proof {
        assert(yoe / 100 <= yoe / 4) by (nonlinear_arith)
            requires
                yoe < 400,
        ;
        assert(yoe365 as int == (yoe as int) * 365);
        assert(doe as int == (yoe as int) * 365 + (yoe as int) / 4 - (yoe as int) / 100 + doy as int);
        assert(era as int * 146097 <= 24 * 146097 && era as int * 146097 >= -146097)
            by (nonlinear_arith)
            requires
                -1 <= era as int <= 24,
        ;
    }
    let days: i64 = era * 146097 + doe as i64 - 719468;
    Option::Some(days)
}

// ---- The transcript timestamp format ----

/// ASCII whitespace trimmed from both ends before parsing.
pub open spec fn is_space(c: char) -> bool {
    c == ' ' || c == '\t' || c == '\n' || c == '\r'
}

pub open spec fn trim_start_idx(s: Seq<char>) -> int
    decreases s.len(),
{
    if s.len() == 0 || !is_space(s[0]) {
        0
    } else {
        1 + trim_start_idx(s.drop_first())
    }
}

pub open spec fn trim_end_idx(s: Seq<char>) -> int
    decreases s.len(),
{
    if s.len() == 0 || !is_space(s.last()) {
        s.len() as int
    } else {
        trim_end_idx(s.drop_last())
    }
}

/// The sequence with ASCII whitespace removed from both ends.
pub open spec fn spec_trim(s: Seq<char>) -> Seq<char> {
    let a = trim_start_idx(s);
    let b = trim_end_idx(s);
    if a <= b {
        s.subrange(a, b)
    } else {
        Seq::empty()
    }
}

proof fn lemma_trim_start_le(s: Seq<char>)
    ensures
        0 <= trim_start_idx(s) <= s.len(),
        forall|j: int| 0 <= j < trim_start_idx(s) ==> is_space(#[trigger] s[j]),
        trim_start_idx(s) < s.len() ==> !is_space(s[trim_start_idx(s)]),
    decreases s.len(),
{
    if s.len() > 0 && is_space(s[0]) {
        lemma_trim_start_le(s.drop_first());
        assert forall|j: int| 0 <= j < trim_start_idx(s) implies is_space(#[trigger] s[j]) by {
            if j > 0 {
                assert(s[j] == s.drop_first()[j - 1]);
            }
        }
        if trim_start_idx(s) < s.len() {
            assert(s[trim_start_idx(s)] == s.drop_first()[trim_start_idx(s) - 1]);
        }
    }
}

proof fn lemma_trim_end_le(s: Seq<char>)
    ensures
        0 <= trim_end_idx(s) <= s.len(),
        forall|j: int| trim_end_idx(s) <= j < s.len() ==> is_space(#[trigger] s[j]),
        trim_end_idx(s) > 0 ==> !is_space(s[trim_end_idx(s) - 1]),
    decreases s.len(),
{
    if s.len() > 0 && is_space(s.last()) {
        lemma_trim_end_le(s.drop_last());
        assert forall|j: int| trim_end_idx(s) <= j < s.len() implies is_space(#[trigger] s[j]) by {
            if j < s.len() - 1 {
                assert(s[j] == s.drop_last()[j]);
            }
        }
        if trim_end_idx(s) > 0 {
            assert(s[trim_end_idx(s) - 1] == s.drop_last()[trim_end_idx(s) - 1]);
        }
    }
}

fn char_is_space(c: char) -> (r: bool)
    ensures
        r == is_space(c),
{
    c == ' ' || c == '\t' || c == '\n' || c == '\r'
}

/// Trims ASCII whitespace from both ends.
pub fn trim_chars(v: &Vec<char>) -> (r: Vec<char>)
    ensures
        r@ =~= spec_trim(v@),
{
    proof {
        lemma_trim_start_le(v@);
        lemma_trim_end_le(v@);
    }
    let mut a: usize = 0;
    while a < v.len() && char_is_space(v[a])
        invariant
            a <= v@.len(),
            forall|j: int| 0 <= j < a ==> is_space(#[trigger] v@[j]),
        decreases v@.len() - a,
    {
        a = a + 1;
    }
    proof {
        lemma_trim_idx_start_eq(v@, a as int);
    }
    let mut b: usize = v.len();
    while b > a && char_is_space(v[b - 1])
        invariant
            a <= b <= v@.len(),
            forall|j: int| b <= j < v@.len() ==> is_space(#[trigger] v@[j]),
        decreases b,
    {
        b = b - 1;
    }
    let mut out: Vec<char> = Vec::new();
    let mut i: usize = a;
    while i < b
        invariant
            a <= i <= b <= v@.len(),
            out@ =~= v@.subrange(a as int, i as int),
        decreases b - i,
    {
        out.push(v[i]);
        assert(out@ =~= v@.subrange(a as int, i + 1));
        i = i + 1;
    }
    proof {
        lemma_trim_start_le(v@);
        lemma_trim_end_le(v@);
        if b > a {
            lemma_trim_idx_end_eq(v@, a as int, b as int);
        } else {
            lemma_trim_empty(v@, a as int);
        }
    }
    out
}

proof fn lemma_trim_idx_start_eq(s: Seq<char>, a: int)
    requires
        0 <= a <= s.len(),
        forall|j: int| 0 <= j < a ==> is_space(#[trigger] s[j]),
        a < s.len() ==> !is_space(s[a]),
    ensures
        trim_start_idx(s) == a,
    decreases s.len(),
{
    if s.len() == 0 {
    } else if is_space(s[0]) {
        assert(a >= 1);
        assert forall|j: int| 0 <= j < a - 1 implies is_space(#[trigger] s.drop_first()[j]) by {
            assert(s.drop_first()[j] == s[j + 1]);
        }
        if a - 1 < s.drop_first().len() {
            assert(s.drop_first()[a - 1] == s[a]);
        }
        lemma_trim_idx_start_eq(s.drop_first(), a - 1);
    } else {
        assert(a == 0);
    }
}

proof fn lemma_trim_idx_end_eq(s: Seq<char>, a: int, b: int)
    requires
        0 <= a <= b <= s.len(),
        b > a,
        !is_space(s[b - 1]),
        forall|j: int| b <= j < s.len() ==> is_space(#[trigger] s[j]),
    ensures
        trim_end_idx(s) == b,
    decreases s.len(),
{
    if b == s.len() {
    } else {
        assert(is_space(s.last()));
        assert forall|j: int| b <= j < s.drop_last().len() implies is_space(
            #[trigger] s.drop_last()[j],
        ) by {
            assert(s.drop_last()[j] == s[j]);
        }
        assert(s.drop_last()[b - 1] == s[b - 1]);
        lemma_trim_idx_end_eq(s.drop_last(), a, b);
    }
}

proof fn lemma_trim_empty(s: Seq<char>, a: int)
    requires
        0 <= a <= s.len(),
        forall|j: int| a <= j < s.len() ==> is_space(#[trigger] s[j]),
    ensures
        trim_end_idx(s) <= a,
{
    lemma_trim_end_le(s);
    if trim_end_idx(s) > a {
        assert(is_space(s[trim_end_idx(s) - 1]));
        assert(false);
    }
}

/// Milliseconds encoded by the optional fractional-seconds field starting
/// at position 19 of `s` (after the whole seconds): one digit is tenths,
/// two are hundredths, three or more are read as milliseconds.
pub open spec fn frac_end(s: Seq<char>, i: int) -> int
    decreases s.len() - i,
{
    if i < 0 || i >= s.len() || !is_digit(s[i]) {
        i
    } else {
        frac_end(s, i + 1)
    }
}

pub open spec fn spec_frac_millis(s: Seq<char>) -> int {
    if s.len() > 19 && s[19] == '.' {
        let e = frac_end(s, 20);
        let n = e - 20;
        if n == 0 {
            0
        } else if n == 1 {
            dec_val(s.subrange(20, 21)) * 100 as int
        } else if n == 2 {
            dec_val(s.subrange(20, 22)) * 10 as int
        } else {
            dec_val(s.subrange(20, 23)) as int
        }
    } else {
        0
    }
}

/// The timestamp grammar `YYYY-MM-DD[T ]HH:MM:SS[.frac]...`, trimmed, with
/// any timezone suffix ignored (the instant is treated as already
/// normalized); dates before 1970 are not accepted.
pub open spec fn spec_parse_iso_ms(s0: Seq<char>) -> Option<u64> {
    let s = spec_trim(s0);
    if s.len() < 19 {
        Option::None
    } else if !(all_digits(s.subrange(0, 4)) && s[4] == '-' && all_digits(s.subrange(5, 7))
        && s[7] == '-' && all_digits(s.subrange(8, 10)) && (s[10] == 'T' || s[10] == ' ')
        && all_digits(s.subrange(11, 13)) && s[13] == ':' && all_digits(s.subrange(14, 16))
        && s[16] == ':' && all_digits(s.subrange(17, 19))) {
        Option::None
    } else {
        let year = dec_val(s.subrange(0, 4)) as int;
        let month = dec_val(s.subrange(5, 7)) as int;
        let day = dec_val(s.subrange(8, 10)) as int;
        let hour = dec_val(s.subrange(11, 13)) as int;
        let minute = dec_val(s.subrange(14, 16)) as int;
        let second = dec_val(s.subrange(17, 19)) as int;
        match spec_days_from_civil(year, month, day) {
            Option::None => Option::None,
            Option::Some(days) => if days < 0 {
                Option::None
            } else {
                Option::Some(
                    ((days * 86400 + hour * 3600 + minute * 60 + second) * 1000
                        + spec_frac_millis(s)) as u64,
                )
            },
        }
    }
}

fn frac_end_exec(v: &Vec<char>, start: usize) -> (r: usize)
    requires
        start <= v@.len(),
    ensures
        r == frac_end(v@, start as int),
        start <= r <= v@.len(),
{
    let mut i: usize = start;
    while i < v.len() && char_is_digit_local(v[i])
        invariant
            start <= i <= v@.len(),
            frac_end(v@, start as int) == frac_end(v@, i as int),
        decreases v@.len() - i,
    {
        i = i + 1;
    }
    i
}

fn char_is_digit_local(c: char) -> (r: bool)
    ensures
        r == is_digit(c),
{
    '0' <= c && c <= '9'
}

/// Parses a fixed-format ISO-8601 timestamp to epoch milliseconds;
/// fractional seconds are truncated to milliseconds and a timezone suffix
/// is accepted but ignored.
pub fn parse_iso_timestamp(s: &str) -> (r: Option<u64>)
    ensures
        r == spec_parse_iso_ms(s@),
{
    let raw = str_chars(s);
    let v = trim_chars(&raw);
    let ghost t = spec_trim(s@);
    assert(v@ == t);
    if v.len() < 19 {
        return Option::None;
    }
    proof {
        crate::textutil::lemma_pow10_vals();
        crate::textutil::lemma_dec_bound(t.subrange(0, 4));
        crate::textutil::lemma_dec_bound(t.subrange(5, 7));
        crate::textutil::lemma_dec_bound(t.subrange(8, 10));
        crate::textutil::lemma_dec_bound(t.subrange(11, 13));
        crate::textutil::lemma_dec_bound(t.subrange(14, 16));
        crate::textutil::lemma_dec_bound(t.subrange(17, 19));
    }
    let year = match parse_dec(v.as_slice(), 0, 4) {
        Option::Some(x) => x,
        Option::None => {
            return Option::None;
        },
    };
    if !(v[4] == '-') {
        return Option::None;
    }
    let month = match parse_dec(v.as_slice(), 5, 7) {
        Option::Some(x) => x,
        Option::None => {
            return Option::None;
        },
    };
    if !(v[7] == '-') {
        return Option::None;
    }
    let day = match parse_dec(v.as_slice(), 8, 10) {
        Option::Some(x) => x,
        Option::None => {
            return Option::None;
        },
    };
    if !(v[10] == 'T' || v[10] == ' ') {
        return Option::None;
    }
    let hour = match parse_dec(v.as_slice(), 11, 13) {
        Option::Some(x) => x,
        Option::None => {
            return Option::None;
        },
    };
    if !(v[13] == ':') {
        return Option::None;
    }
    let minute = match parse_dec(v.as_slice(), 14, 16) {
        Option::Some(x) => x,
        Option::None => {
            return Option::None;
        },
    };
    if !(v[16] == ':') {
        return Option::None;
    }
    let second = match parse_dec(v.as_slice(), 17, 19) {
        Option::Some(x) => x,
        Option::None => {
            return Option::None;
        },
    };
    proof {
        if t.len() > 19 && t[19] == '.' {
            lemma_frac_digits(t, 20, frac_end(t, 20));
        }
    }
    let millis: u64 = if v.len() > 19 && v[19] == '.' {
        let e = frac_end_exec(&v, 20);
        let n = e - 20;
        if n == 0 {
            0
        } else if n == 1 {
            proof {
                crate::textutil::lemma_dec_bound(t.subrange(20, 21));
            }
            match parse_dec(v.as_slice(), 20, 21) {
                Option::Some(x) => x * 100,
                Option::None => {
                    return Option::None;
                },
            }
        } else if n == 2 {
            proof {
                crate::textutil::lemma_dec_bound(t.subrange(20, 22));
            }
            match parse_dec(v.as_slice(), 20, 22) {
                Option::Some(x) => x * 10,
                Option::None => {
                    return Option::None;
                },
            }
        } else {
            proof {
                crate::textutil::lemma_dec_bound(t.subrange(20, 23));
            }
            match parse_dec(v.as_slice(), 20, 23) {
                Option::Some(x) => x,
                Option::None => {
                    return Option::None;
                },
            }
        }
    } else {
        0
    };
    assert(millis as int == spec_frac_millis(t));
    assert(millis <= 999);
    let days = match days_from_civil(year as i64, month as u32, day as u32) {
        Option::Some(d) => d,
        Option::None => {
            return Option::None;
        },
    };
    if days < 0 {
        return Option::None;
    }
    proof {
        lemma_days_bound(year as int, month as int, day as int, days as int);
    }
    let secs: u64 = (days as u64) * 86400 + hour * 3600 + minute * 60 + second;
    Option::Some(secs * 1000 + millis)
}

proof fn lemma_frac_digits(s: Seq<char>, i: int, e: int)
    requires
        0 <= i <= s.len(),
        e == frac_end(s, i),
    ensures
        i <= e <= s.len(),
        forall|j: int| i <= j < e ==> is_digit(#[trigger] s[j]),
    decreases s.len() - i,
{
    if i < s.len() && is_digit(s[i]) {
        lemma_frac_digits(s, i + 1, e);
    }
}

proof fn lemma_days_bound(year: int, month: int, day: int, days: int)
    requires
        0 <= year <= 9999,
        spec_days_from_civil(year, month, day) == Option::Some(days),
        days >= 0,
    ensures
        days <= 3000000,
{
    assert(1 <= month <= 12 && 1 <= day <= 31);
    let y = if month <= 2 {
        year - 1
    } else {
        year
    };
    let m = if month <= 2 {
        month + 9
    } else {
        month - 3
    };
    let era = (if y >= 0 {
        y
    } else {
        y - 399
    }) / 400;
    let yoe = y - era * 400;
    assert(era <= 24);
    assert(era * 146097 <= 24 * 146097) by (nonlinear_arith)
        requires
            era <= 24,
    ;
    let doy = (153 * m + 2) / 5 + day - 1;
    let doe = yoe * 365 + yoe / 4 - yoe / 100 + doy;
    assert(0 <= yoe <= 399) by {
        assert(era == (if y >= 0 { y } else { y - 399 }) / 400);
    }
    assert(yoe * 365 <= 399 * 365) by (nonlinear_arith)
        requires
            0 <= yoe <= 399,
    ;
}


// ---- The quota timestamp format ----

/// The sequence with every trailing 'Z' removed.
pub open spec fn strip_trailing_z(s: Seq<char>) -> Seq<char>
    decreases s.len(),
{
    if s.len() > 0 && s.last() == 'Z' {
        strip_trailing_z(s.drop_last())
    } else {
        s
    }
}

/// Drops a trailing `+HH:MM` / `-HH:MM` timezone offset.
pub open spec fn strip_tz_offset(s: Seq<char>) -> Seq<char> {
    if s.len() > 6 && (s[s.len() - 6] == '+' || s[s.len() - 6] == '-') && s[s.len() - 3] == ':' {
        s.take(s.len() - 6)
    } else {
        s
    }
}

pub open spec fn last_dot_idx(s: Seq<char>) -> int
    decreases s.len(),
{
    if s.len() == 0 {
        -1
    } else if s.last() == '.' {
        s.len() - 1
    } else {
        last_dot_idx(s.drop_last())
    }
}

pub open spec fn seq_has_char(s: Seq<char>, c: char) -> bool {
    exists|i: int| 0 <= i < s.len() && s[i] == c
}

/// Drops a fractional-seconds suffix, recognized as a final '.' whose
/// prefix still holds the date/time separator.
pub open spec fn strip_frac(s: Seq<char>) -> Seq<char> {
    let d = last_dot_idx(s);
    if d >= 0 && seq_has_char(s.take(d), 'T') {
        s.take(d)
    } else {
        s
    }
}

/// The quota API timestamp grammar: trimmed, timezone suffix and
/// fractional seconds dropped, then exactly `YYYY-MM-DDTHH:MM:SS`; whole
/// seconds only. Dates before 1970 are not accepted.
pub open spec fn spec_parse_iso_epoch_ms(s0: Seq<char>) -> Option<u64> {
    let s = strip_frac(strip_tz_offset(strip_trailing_z(spec_trim(s0))));
    if s.len() != 19 {
        Option::None
    } else if !(all_digits(s.subrange(0, 4)) && s[4] == '-' && all_digits(s.subrange(5, 7))
        && s[7] == '-' && all_digits(s.subrange(8, 10)) && (s[10] == 'T' || s[10] == ' ')
        && all_digits(s.subrange(11, 13)) && s[13] == ':' && all_digits(s.subrange(14, 16))
        && s[16] == ':' && all_digits(s.subrange(17, 19))) {
        Option::None
    } else {
        let year = dec_val(s.subrange(0, 4)) as int;
        let month = dec_val(s.subrange(5, 7)) as int;
        let day = dec_val(s.subrange(8, 10)) as int;
        let hour = dec_val(s.subrange(11, 13)) as int;
        let minute = dec_val(s.subrange(14, 16)) as int;
        let second = dec_val(s.subrange(17, 19)) as int;
        match spec_days_from_civil(year, month, day) {
            Option::None => Option::None,
            Option::Some(days) => if days < 0 {
                Option::None
            } else {
                Option::Some(((days * 86400 + hour * 3600 + minute * 60 + second) * 1000) as u64)
            },
        }
    }
}

fn strip_z_exec(v: Vec<char>) -> (r: Vec<char>)
    ensures
        r@ == strip_trailing_z(v@),
{
    let ghost orig = v@;
    let mut w = v;
    while w.len() > 0 && w[w.len() - 1] == 'Z'
        invariant
            strip_trailing_z(w@) == strip_trailing_z(orig),
        decreases w@.len(),
    {
        let ghost prev = w@;
        w.pop();
        proof {
            assert(w@ =~= prev.drop_last());
            assert(strip_trailing_z(prev) == strip_trailing_z(prev.drop_last()));
        }
    }
    w
}

fn has_char_exec(v: &Vec<char>, upto: usize, c: char) -> (r: bool)
    requires
        upto <= v@.len(),
    ensures
        r == seq_has_char(v@.take(upto as int), c),
{
    let mut i: usize = 0;
    while i < upto
        invariant
            i <= upto <= v@.len(),
            forall|j: int| 0 <= j < i ==> v@[j] != c,
        decreases upto - i,
    {
        if v[i] == c {
            assert(v@.take(upto as int)[i as int] == c);
            return true;
        }
        i = i + 1;
    }
    assert forall|j: int| 0 <= j < v@.take(upto as int).len() implies v@.take(upto as int)[j] != c by {
        assert(v@.take(upto as int)[j] == v@[j]);
    }
    false
}

fn last_dot_exec(v: &Vec<char>) -> (r: Option<usize>)
    ensures
        match r {
            Option::Some(i) => last_dot_idx(v@) == i as int && i < v@.len(),
            Option::None => last_dot_idx(v@) == -1,
        },
{
    assert(v@.take(v@.len() as int) =~= v@);
    let mut b: usize = v.len();
    while b > 0 && v[b - 1] != '.'
        invariant
            b <= v@.len(),
            last_dot_idx(v@) == last_dot_idx(v@.take(b as int)),
        decreases b,
    {
        proof {
            assert(v@.take(b as int).last() != '.');
            assert(v@.take(b as int).drop_last() =~= v@.take(b - 1));
        }
        b = b - 1;
    }
    if b == 0 {
        assert(v@.take(0) =~= Seq::<char>::empty());
        Option::None
    } else {
        proof {
            assert(v@.take(b as int).last() == '.');
        }
        Option::Some(b - 1)
    }
}

/// Parses a quota-API ISO-8601 timestamp to epoch milliseconds, accepting
/// and ignoring a timezone suffix and fractional seconds.
pub fn parse_iso_to_epoch_ms(iso: &str) -> (r: Option<u64>)
    ensures
        r == spec_parse_iso_epoch_ms(iso@),
{
    let raw = str_chars(iso);
    let trimmed = trim_chars(&raw);
    let unz = strip_z_exec(trimmed);
    let mut v = unz;
    if v.len() > 6 && (v[v.len() - 6] == '+' || v[v.len() - 6] == '-') && v[v.len() - 3] == ':' {
        let keep = v.len() - 6;
        v.truncate(keep);
        assert(v@ == strip_tz_offset(strip_trailing_z(spec_trim(iso@))));
    } else {
        assert(v@ == strip_tz_offset(strip_trailing_z(spec_trim(iso@))));
    }
    match last_dot_exec(&v) {
        Option::Some(d) => {
            if has_char_exec(&v, d, 'T') {
                v.truncate(d);
            }
        },
        Option::None => {},
    }
    assert(v@ == strip_frac(strip_tz_offset(strip_trailing_z(spec_trim(iso@)))));
    let ghost t = v@;
    if v.len() != 19 {
        return Option::None;
    }
    proof {
        crate::textutil::lemma_pow10_vals();
        crate::textutil::lemma_dec_bound(t.subrange(0, 4));
        crate::textutil::lemma_dec_bound(t.subrange(5, 7));
        crate::textutil::lemma_dec_bound(t.subrange(8, 10));
        crate::textutil::lemma_dec_bound(t.subrange(11, 13));
        crate::textutil::lemma_dec_bound(t.subrange(14, 16));
        crate::textutil::lemma_dec_bound(t.subrange(17, 19));
    }
    let year = match parse_dec(v.as_slice(), 0, 4) {
        Option::Some(x) => x,
        Option::None => {
            return Option::None;
        },
    };
    if !(v[4] == '-') {
        return Option::None;
    }
    let month = match parse_dec(v.as_slice(), 5, 7) {
        Option::Some(x) => x,
        Option::None => {
            return Option::None;
        },
    };
    if !(v[7] == '-') {
        return Option::None;
    }
    let day = match parse_dec(v.as_slice(), 8, 10) {
        Option::Some(x) => x,
        Option::None => {
            return Option::None;
        },
    };
    if !(v[10] == 'T' || v[10] == ' ') {
        return Option::None;
    }
    let hour = match parse_dec(v.as_slice(), 11, 13) {
        Option::Some(x) => x,
        Option::None => {
            return Option::None;
        },
    };
    if !(v[13] == ':') {
        return Option::None;
    }
    let minute = match parse_dec(v.as_slice(), 14, 16) {
        Option::Some(x) => x,
        Option::None => {
            return Option::None;
        },
    };
    if !(v[16] == ':') {
        return Option::None;
    }
    let second = match parse_dec(v.as_slice(), 17, 19) {
        Option::Some(x) => x,
        Option::None => {
            return Option::None;
        },
    };
    let days = match days_from_civil(year as i64, month as u32, day as u32) {
        Option::Some(d) => d,
        Option::None => {
            return Option::None;
        },
    };
    if days < 0 {
        return Option::None;
    }
    proof {
        lemma_days_bound(year as int, month as int, day as int, days as int);
    }
    let secs: u64 = (days as u64) * 86400 + hour * 3600 + minute * 60 + second;
    Option::Some(secs * 1000)
}

} // verus!
