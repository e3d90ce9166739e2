use vstd::prelude::*;

use crate::pattern::{does_pattern_match_pattern_format, is_pattern_line, PatternError};
use crate::text::{same_text, trim, trimmed, views};

verus! {

/// The number of leading items of `patterns` that follow the store's grammar.
pub open spec fn valid_prefix_len(patterns: Seq<Seq<char>>) -> nat
    decreases patterns.len(),
{
    if patterns.len() == 0 {
        0
    } else if is_pattern_line(patterns[0]) {
        1 + valid_prefix_len(patterns.drop_first())
    } else {
        0
    }
}

proof fn lemma_valid_prefix(patterns: Seq<Seq<char>>, i: int)
    requires
        0 <= i <= patterns.len(),
        forall|j: int| 0 <= j < i ==> is_pattern_line(#[trigger] patterns[j]),
    ensures
        i == patterns.len() || !is_pattern_line(patterns[i]) ==> valid_prefix_len(patterns) == i,
        valid_prefix_len(patterns) >= i,
    decreases i,
{
    if i > 0 {
        let t = patterns.drop_first();
        assert forall|j: int| 0 <= j < i - 1 implies is_pattern_line(#[trigger] t[j]) by {
            assert(t[j] == patterns[j + 1]);
        }
        lemma_valid_prefix(t, i - 1);
        assert(is_pattern_line(patterns[0]));
    }
}

/// The lines that setting up a store writes for `starting_patterns`: the
/// patterns up to the first one outside the grammar, which is reported.
pub fn initialize(starting_patterns: &Vec<String>) -> (r: (Vec<String>, Option<PatternError>))
    ensures
        views(r.0@) == views(starting_patterns@).take(valid_prefix_len(views(starting_patterns@)) as int),
        valid_prefix_len(views(starting_patterns@)) == starting_patterns@.len() ==> r.1 is None,
        valid_prefix_len(views(starting_patterns@)) < starting_patterns@.len() ==> r.1 is Some
            && r.1->0 is FormatError && r.1->0->FormatError_0@ == starting_patterns@[valid_prefix_len(
            views(starting_patterns@)) as int]@,
{
    let ghost ps = views(starting_patterns@);
    let mut lines: Vec<String> = Vec::new();
    let mut i: usize = 0;
    while i < starting_patterns.len()
        invariant
            ps == views(starting_patterns@),
            i <= starting_patterns@.len(),
            forall|j: int| 0 <= j < i ==> is_pattern_line(#[trigger] ps[j]),
            views(lines@) == ps.take(i as int),
        decreases starting_patterns.len() - i,
    {
        let pattern = &starting_patterns[i];
        if !does_pattern_match_pattern_format(pattern.as_str()) {
            proof {
                lemma_valid_prefix(ps, i as int);
            }
            let copy = pattern.clone();
            return (lines, Some(PatternError::FormatError(copy)));
        }
        let ghost before = views(lines@);
        let copy = pattern.clone();
        lines.push(copy);
        assert(views(lines@) =~= before.push(ps[i as int]));
        assert(views(lines@) =~= ps.take(i + 1));
        i += 1;
    }
    proof {
        lemma_valid_prefix(ps, i as int);
    }
    assert(ps.take(i as int) =~= ps);
    (lines, None)
}

/// One answer to the set-up prompt: `None` for `x`, which ends the prompt,
/// else the trimmed pattern.
pub fn configure_input(input: &str) -> (r: Option<String>)
    ensures
        trim(input@) == "x"@ ==> r is None,
        trim(input@) != "x"@ ==> r is Some && r->0@ == trim(input@),
{
    let t = trimmed(input);
    if same_text(t.as_str(), "x") {
        None
    } else {
        Some(t)
    }
}

} // verus!
