//! Subscription-plan naming for the quota display.

use vstd::prelude::*;

use crate::textutil::{contains_sub, seq_contains_sub, str_chars};

verus! {

/// The display-friendly plan name: the first of "max", "pro", "team" that
/// occurs inside the subscription type, else the subscription type itself.
pub open spec fn spec_normalize_plan(s: Seq<char>) -> Seq<char> {
    if seq_contains_sub(s, "max"@) {
        "max"@
    } else if seq_contains_sub(s, "pro"@) {
        "pro"@
    } else if seq_contains_sub(s, "team"@) {
        "team"@
    } else {
        s
    }
}

/// Normalizes a subscription type to a display-friendly plan name.
pub fn normalize_plan_type<'a>(sub_type: &'a str) -> (r: &'a str)
    ensures
        r@ == spec_normalize_plan(sub_type@),
{
    let hay = str_chars(sub_type);
    if contains_sub(&hay, &str_chars("max")) {
        "max"
    } else if contains_sub(&hay, &str_chars("pro")) {
        "pro"
    } else if contains_sub(&hay, &str_chars("team")) {
        "team"
    } else {
        sub_type
    }
}

} // verus!
