//! Encoding of project paths into per-project metadata directory names.

use vstd::prelude::*;

use crate::textutil::{chars_to_string, str_chars};
use crate::types::EnvSnapshot;

verus! {

/// The path with every trailing slash removed.
pub open spec fn strip_trailing_slashes(p: Seq<char>) -> Seq<char>
    decreases p.len(),
{
    if p.len() > 0 && p.last() == '/' {
        strip_trailing_slashes(p.drop_last())
    } else {
        p
    }
}

pub open spec fn dash_char(c: char) -> char {
    if c == '/' || c == '.' {
        '-'
    } else {
        c
    }
}

/// The per-project directory name: trailing slashes stripped, every slash
/// and dot replaced by a dash.
pub open spec fn spec_encode_project_path(p: Seq<char>) -> Seq<char> {
    strip_trailing_slashes(p).map_values(|c: char| dash_char(c))
}

/// Encodes a project path to the per-project metadata directory naming
/// convention.
pub fn encode_project_path(path: &str) -> (r: String)
    ensures
        r@ == spec_encode_project_path(path@),
{
    let mut v = str_chars(path);
    let ghost orig = path@;
    while v.len() > 0 && v[v.len() - 1] == '/'
        invariant
            strip_trailing_slashes(v@) == strip_trailing_slashes(orig),
        decreases v@.len(),
    {
        let ghost prev = v@;
        v.pop();
        proof {
            assert(v@ =~= prev.drop_last());
            assert(strip_trailing_slashes(prev) == strip_trailing_slashes(prev.drop_last()));
        }
    }
    let ghost stripped = v@;
    assert(stripped == strip_trailing_slashes(orig));
    let mut out: Vec<char> = Vec::new();
    let mut i: usize = 0;
    while i < v.len()
        invariant
            i <= v@.len(),
            v@ == stripped,
            out@ =~= stripped.map_values(|c: char| dash_char(c)).take(i as int),
        decreases v@.len() - i,
    {
        let c = v[i];
        if c == '/' || c == '.' {
            out.push('-');
        } else {
            out.push(c);
        }
        assert(out@ =~= stripped.map_values(|c: char| dash_char(c)).take(i + 1));
        i = i + 1;
    }
    assert(out@ =~= spec_encode_project_path(orig));
    chars_to_string(&out)
}


/// A source of environment metadata counts.
pub trait EnvCollector {
    fn collect_env(&self, cwd: &str) -> EnvSnapshot;
}

/// A collector that reports empty counts.
pub struct StubEnvCollector;

impl EnvCollector for StubEnvCollector {
    fn collect_env(&self, _cwd: &str) -> (r: EnvSnapshot)
        ensures
            r.claude_md_count == 0,
            r.rules_count == 0,
    {
        EnvSnapshot::default()
    }
}

} // verus!
