//! Parsing of git's porcelain v2 status output into a `GitSnapshot`.

use vstd::prelude::*;

use crate::state::{first_idx, lemma_first_idx_found, lemma_first_idx_none};
use crate::reader::{is_nl, raw_lines, split_lines};
use crate::textutil::{parse_dec, parses_to_u64, dec_val, str_chars};
use crate::timestamp::spec_trim;
use crate::types::{GitSnapshot, GitV};

verus! {

/// Saturating increment, so counting never overflows.
pub open spec fn bump(c: u32) -> u32 {
    if c < u32::MAX {
        (c + 1) as u32
    } else {
        c
    }
}

fn bump_exec(c: u32) -> (r: u32)
    ensures
        r == bump(c),
{
    if c < u32::MAX {
        c + 1
    } else {
        c
    }
}

/// An ordinary-change entry (`1 XY ...`) classified by the index and
/// worktree codes, deletions first, then additions, everything else a
/// modification.
pub open spec fn spec_classify_ordinary(l: Seq<char>, g: GitV) -> GitV {
    if l.len() < 4 {
        GitV { modified_count: bump(g.modified_count), ..g }
    } else {
        let x = l[2];
        let y = l[3];
        if x == 'D' || y == 'D' {
            GitV { deleted_count: bump(g.deleted_count), ..g }
        } else if x == 'A' || y == 'A' {
            GitV { added_count: bump(g.added_count), ..g }
        } else {
            GitV { modified_count: bump(g.modified_count), ..g }
        }
    }
}

/// Classifies one ordinary-change line into the snapshot's counters.
pub fn classify_ordinary_change(line: &str, snapshot: &mut GitSnapshot)
    ensures
        final(snapshot)@ =~= spec_classify_ordinary(line@, old(snapshot)@),
{
    let ghost g0 = snapshot@;
    let v = str_chars(line);
    if v.len() < 4 {
        snapshot.modified_count = bump_exec(snapshot.modified_count);
        assert(snapshot@ =~= spec_classify_ordinary(line@, g0));
        return;
    }
    let x = v[2];
    let y = v[3];
    if x == 'D' || y == 'D' {
        snapshot.deleted_count = bump_exec(snapshot.deleted_count);
    } else if x == 'A' || y == 'A' {
        snapshot.added_count = bump_exec(snapshot.added_count);
    } else {
        snapshot.modified_count = bump_exec(snapshot.modified_count);
    }
    assert(snapshot@ =~= spec_classify_ordinary(line@, g0));
}

// ---- Whitespace-separated tokens of the branch.ab value ----

pub open spec fn is_sp(c: char) -> bool {
    c == ' '
}

pub open spec fn next_non_sp(s: Seq<char>, i: int) -> int
    decreases s.len() - i,
{
    if i < 0 || i >= s.len() {
        s.len() as int
    } else if is_sp(s[i]) {
        next_non_sp(s, i + 1)
    } else {
        i
    }
}

pub open spec fn next_sp(s: Seq<char>, i: int) -> int
    decreases s.len() - i,
{
    if i < 0 || i >= s.len() {
        s.len() as int
    } else if is_sp(s[i]) {
        i
    } else {
        next_sp(s, i + 1)
    }
}

/// Whitespace-separated tokens of the text, scanned from `i`.
pub open spec fn tokens_from(s: Seq<char>, i: int) -> Seq<Seq<char>>
    decreases s.len() - i,
{
    let a0 = next_non_sp(s, i);
    let a = if a0 < i {
        i
    } else if a0 > s.len() {
        s.len() as int
    } else {
        a0
    };
    if a >= s.len() {
        Seq::empty()
    } else {
        let b0 = next_sp(s, a + 1);
        let b = if b0 <= a {
            a + 1
        } else if b0 > s.len() {
            s.len() as int
        } else {
            b0
        };
        seq![s.subrange(a, b)] + tokens_from(s, b)
    }
}

proof fn lemma_next_non_sp_at(s: Seq<char>, i: int, a: int)
    requires
        0 <= i <= a <= s.len(),
        forall|m: int| i <= m < a ==> is_sp(#[trigger] s[m]),
        a < s.len() ==> !is_sp(s[a]),
    ensures
        next_non_sp(s, i) == a,
    decreases a - i,
{
    if i < a {
        lemma_next_non_sp_at(s, i + 1, a);
    }
}

proof fn lemma_next_sp_at(s: Seq<char>, i: int, b: int)
    requires
        0 <= i <= b <= s.len(),
        forall|m: int| i <= m < b ==> !is_sp(#[trigger] s[m]),
        b < s.len() ==> is_sp(s[b]),
    ensures
        next_sp(s, i) == b,
    decreases b - i,
{
    if i < b {
        lemma_next_sp_at(s, i + 1, b);
    }
}

/// Splits a value into whitespace-separated tokens.
fn tokens_of(s: &str) -> (r: Vec<String>)
    ensures
        r@.map_values(|l: String| l@) =~= tokens_from(s@, 0),
{
    let v = str_chars(s);
    let ghost t = s@;
    let n = v.len();
    let mut out: Vec<String> = Vec::new();
    let mut pos: usize = 0;
    loop
        invariant_except_break
            v@ == t,
            n == t.len(),
            pos <= n,
            tokens_from(t, 0) =~= out@.map_values(|l: String| l@) + tokens_from(t, pos as int),
        ensures
            tokens_from(t, 0) =~= out@.map_values(|l: String| l@),
        decreases n - pos,
    {
        let mut a: usize = pos;
        while a < n && v[a] == ' '
            invariant
                pos <= a <= n,
                v@ == t,
                n == t.len(),
                forall|m: int| pos <= m < a ==> is_sp(#[trigger] t[m]),
            decreases n - a,
        {
            a = a + 1;
        }
        proof {
            lemma_next_non_sp_at(t, pos as int, a as int);
        }
        if a >= n {
            break;
        }
        let mut b: usize = a + 1;
        while b < n && v[b] != ' '
            invariant
                a + 1 <= b <= n,
                v@ == t,
                n == t.len(),
                forall|m: int| a + 1 <= m < b ==> !is_sp(#[trigger] t[m]),
            decreases n - b,
        {
            b = b + 1;
        }
        proof {
            lemma_next_sp_at(t, a + 1, b as int);
        }
        let mut tok: Vec<char> = Vec::new();
        let mut i: usize = a;
        while i < b
            invariant
                a <= i <= b <= n,
                v@ == t,
                n == t.len(),
                tok@ =~= t.subrange(a as int, i as int),
            decreases b - i,
        {
            tok.push(v[i]);
            assert(tok@ =~= t.subrange(a as int, i + 1));
            i = i + 1;
        }
        let ghost before = out@.map_values(|l: String| l@);
        out.push(crate::textutil::chars_to_string(&tok));
        assert(out@.map_values(|l: String| l@) =~= before + seq![t.subrange(a as int, b as int)]);
        pos = b;
    }
    out
}

// ---- Per-line status handling ----

/// A token parsed as a u32 count, zero when malformed.
pub open spec fn count_token(tok: Seq<char>) -> u32 {
    if parses_to_u64(tok) && dec_val(tok) <= u32::MAX {
        dec_val(tok) as u32
    } else {
        0
    }
}

fn count_token_exec(tok: &Vec<char>) -> (r: u32)
    ensures
        r == count_token(tok@),
{
    match parse_dec(tok.as_slice(), 0, tok.len()) {
        Option::Some(x) => {
            if x <= 0xffff_ffff {
                assert(tok@.subrange(0, tok@.len() as int) =~= tok@);
                x as u32
            } else {
                assert(tok@.subrange(0, tok@.len() as int) =~= tok@);
                0
            }
        },
        Option::None => {
            assert(tok@.subrange(0, tok@.len() as int) =~= tok@);
            0
        },
    }
}

/// Applies the ahead/behind counters of a `# branch.ab` value.
pub open spec fn apply_ab_tokens(g: GitV, toks: Seq<Seq<char>>) -> GitV
    decreases toks.len(),
{
    if toks.len() == 0 {
        g
    } else {
        let tk = toks[0];
        let g1 = if tk.len() > 0 && tk[0] == '+' {
            GitV { ahead: count_token(tk.drop_first()), ..g }
        } else if tk.len() > 0 && tk[0] == '-' {
            GitV { behind: count_token(tk.drop_first()), ..g }
        } else {
            g
        };
        apply_ab_tokens(g1, toks.drop_first())
    }
}

/// One status line folded into the snapshot.
pub open spec fn spec_apply_status_line(g: GitV, l: Seq<char>) -> GitV {
    if l.len() >= 14 && l.take(14) == "# branch.head "@ {
        let value = spec_trim(l.skip(14));
        if value.len() > 0 && value != "(detached)"@ {
            GitV { branch: value, ..g }
        } else {
            g
        }
    } else if l.len() >= 12 && l.take(12) == "# branch.ab "@ {
        apply_ab_tokens(g, tokens_from(l.skip(12), 0))
    } else if l.len() >= 2 && l.take(2) == "? "@ {
        GitV { dirty: true, untracked_count: bump(g.untracked_count), ..g }
    } else if l.len() >= 2 && l.take(2) == "1 "@ {
        spec_classify_ordinary(l, GitV { dirty: true, ..g })
    } else if l.len() >= 2 && (l.take(2) == "2 "@ || l.take(2) == "u "@) {
        GitV { dirty: true, modified_count: bump(g.modified_count), ..g }
    } else {
        g
    }
}

/// All lines of the porcelain output folded in order.
pub open spec fn spec_parse_status(g: GitV, lines: Seq<Seq<char>>) -> GitV
    decreases lines.len(),
{
    if lines.len() == 0 {
        g
    } else {
        spec_parse_status(spec_apply_status_line(g, lines[0]), lines.drop_first())
    }
}

fn starts_with_str(l: &Vec<char>, prefix: &str) -> (r: bool)
    ensures
        r == (l@.len() >= prefix@.len() && l@.take(prefix@.len() as int) == prefix@),
{
    let p = str_chars(prefix);
    if p.len() > l.len() {
        return false;
    }
    let mut j: usize = 0;
    while j < p.len()
        invariant
            j <= p@.len() <= l@.len(),
            p@ == prefix@,
            forall|m: int| 0 <= m < j ==> l@[m] == p@[m],
        decreases p@.len() - j,
    {
        if l[j] != p[j] {
            assert(l@.take(p@.len() as int)[j as int] != p@[j as int]);
            return false;
        }
        j = j + 1;
    }
    assert(l@.take(p@.len() as int) =~= p@);
    true
}

fn suffix_string(l: &Vec<char>, from: usize) -> (r: Vec<char>)
    requires
        from <= l@.len(),
    ensures
        r@ =~= l@.skip(from as int),
{
    let mut out: Vec<char> = Vec::new();
    let mut i: usize = from;
    while i < l.len()
        invariant
            from <= i <= l@.len(),
            out@ =~= l@.subrange(from as int, i as int),
        decreases l@.len() - i,
    {
        out.push(l[i]);
        assert(out@ =~= l@.subrange(from as int, i + 1));
        i = i + 1;
    }
    out
}

fn apply_status_line(line: &str, snapshot: &mut GitSnapshot)
    ensures
        final(snapshot)@ =~= spec_apply_status_line(old(snapshot)@, line@),
{
    let ghost g0 = snapshot@;
    let v = str_chars(line);
    proof {
        reveal_strlit("# branch.head ");
        reveal_strlit("# branch.ab ");
        reveal_strlit("? ");
        reveal_strlit("1 ");
        reveal_strlit("2 ");
        reveal_strlit("u ");
    }
    if starts_with_str(&v, "# branch.head ") {
        let rest = suffix_string(&v, 14);
        let value = crate::timestamp::trim_chars(&rest);
        let vs = crate::textutil::chars_to_string(&value);
        if value.len() > 0 && !crate::textutil::str_eq(vs.as_str(), "(detached)") {
            snapshot.branch = vs;
        }
        assert(snapshot@ =~= spec_apply_status_line(g0, line@));
    } else if starts_with_str(&v, "# branch.ab ") {
        let rest = suffix_string(&v, 12);
        let rs = crate::textutil::chars_to_string(&rest);
        let toks = tokens_of(rs.as_str());
        let ghost tv = tokens_from(line@.skip(12), 0);
        assert(toks@.map_values(|l: String| l@) =~= tv);
        assert(tv.skip(0) =~= tv);
        let mut i: usize = 0;
        while i < toks.len()
            invariant
                i <= toks@.len(),
                tv == toks@.map_values(|l: String| l@),
                apply_ab_tokens(g0, tv) =~= apply_ab_tokens(snapshot@, tv.skip(i as int)),
            decreases toks@.len() - i,
        {
            let ghost gpre = snapshot@;
            let tk = str_chars(toks[i].as_str());
            assert(tk@ == tv.skip(i as int)[0]);
            if tk.len() > 0 && tk[0] == '+' {
                let digits = suffix_string(&tk, 1);
                assert(digits@ =~= tk@.drop_first());
                snapshot.ahead = count_token_exec(&digits);
            } else if tk.len() > 0 && tk[0] == '-' {
                let digits = suffix_string(&tk, 1);
                assert(digits@ =~= tk@.drop_first());
                snapshot.behind = count_token_exec(&digits);
            }
            proof {
                assert(tv.skip(i as int).drop_first() =~= tv.skip(i + 1));
            }
            i = i + 1;
        }
        proof {
            assert(tv.skip(tv.len() as int) =~= Seq::<Seq<char>>::empty());
        }
        assert(snapshot@ =~= spec_apply_status_line(g0, line@));
    } else if starts_with_str(&v, "? ") {
        snapshot.dirty = true;
        snapshot.untracked_count = bump_exec(snapshot.untracked_count);
        assert(snapshot@ =~= spec_apply_status_line(g0, line@));
    } else if starts_with_str(&v, "1 ") {
        snapshot.dirty = true;
        classify_ordinary_change(line, snapshot);
        assert(snapshot@ =~= spec_apply_status_line(g0, line@));
    } else if starts_with_str(&v, "2 ") || starts_with_str(&v, "u ") {
        snapshot.dirty = true;
        snapshot.modified_count = bump_exec(snapshot.modified_count);
        assert(snapshot@ =~= spec_apply_status_line(g0, line@));
    } else {
        assert(snapshot@ =~= spec_apply_status_line(g0, line@));
    }
}

/// Parses `git status --porcelain=2 --branch` output into the snapshot:
/// branch name, ahead/behind counts, and per-kind dirty-file counters.
pub fn parse_status_output(status_output: &str, snapshot: &mut GitSnapshot)
    ensures
        final(snapshot)@ =~= spec_parse_status(
            old(snapshot)@,
            split_lines(status_output@),
        ),
{
    let ghost g0 = snapshot@;
    let lines = raw_lines(status_output);
    let ghost lv = split_lines(status_output@);
    assert(lines@.map_values(|l: String| l@) =~= lv);
    assert(lv.skip(0) =~= lv);
    let mut i: usize = 0;
    while i < lines.len()
        invariant
            i <= lines@.len(),
            lv == lines@.map_values(|l: String| l@),
            spec_parse_status(g0, lv) =~= spec_parse_status(snapshot@, lv.skip(i as int)),
        decreases lines@.len() - i,
    {
        let ghost gpre = snapshot@;
        assert(lines@[i as int]@ == lv.skip(i as int)[0]);
        apply_status_line(lines[i].as_str(), snapshot);
        proof {
            assert(lv.skip(i as int).drop_first() =~= lv.skip(i + 1));
        }
        i = i + 1;
    }
    proof {
        assert(lv.skip(lv.len() as int) =~= Seq::<Seq<char>>::empty());
    }
}


/// A source of git status snapshots.
pub trait GitCollector {
    fn collect_git(&self, cwd: &str) -> GitSnapshot;
}

/// A collector that returns a preset snapshot, for tests and callers
/// without a repository.
pub struct StubGitCollector {
    pub snapshot: GitSnapshot,
}

impl GitCollector for StubGitCollector {
    fn collect_git(&self, _cwd: &str) -> (r: GitSnapshot)
        ensures
            r == self.snapshot,
    {
        self.snapshot.clone()
    }
}

} // verus!
