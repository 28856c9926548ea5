//! Laws of the condition grammar, proved of its specification: whitespace
//! between tokens does not change the parse, `and` nests to the right, and
//! parentheses around the operands of `and` are transparent.
//!
//! The laws range over all terms of the grammar: weekday tokens, the two
//! `atmost` threshold forms, and parenthesized expressions of any depth.
//! At their heart is a stability property: a term, and an expression up to
//! a guarding closing parenthesis, parse the same wherever their text
//! occurs.
use vstd::prelude::*;
use crate::expressions::parser::Condition;
use crate::expressions::parser::ConditionAnd;
use crate::expressions::parser::ConditionNot;
use crate::expressions::parser::ConditionOr;
use crate::expressions::parser::is_digit_char;
use crate::expressions::parser::is_duration_unit;
use crate::expressions::parser::is_space_char;
use crate::expressions::parser::spec_atmost_prefix;
use crate::expressions::parser::spec_condition_and;
use crate::expressions::parser::spec_condition_atmost_sliding;
use crate::expressions::parser::spec_condition_atmost_this;
use crate::expressions::parser::spec_condition_expr;
use crate::expressions::parser::spec_condition_not;
use crate::expressions::parser::spec_condition_or;
use crate::expressions::parser::spec_condition_term;
use crate::expressions::parser::spec_condition_weekday;
use crate::expressions::parser::spec_digits_end;
use crate::expressions::parser::spec_digits_val;
use crate::expressions::parser::spec_duration;
use crate::expressions::parser::spec_integer;
use crate::expressions::parser::spec_parse_condition;
use crate::expressions::parser::spec_tag_match;
use crate::expressions::parser::spec_time_unit;
use crate::expressions::parser::spec_ws_end;

verus! {

/// Every character is whitespace.
pub open spec fn all_spaces(w: Seq<char>) -> bool {
    forall|k: int| 0 <= k < w.len() ==> is_space_char(w[k])
}

/// Whitespace, at least one character of it.
pub open spec fn some_spaces(w: Seq<char>) -> bool {
    all_spaces(w) && w.len() >= 1
}

/// `t` is the text of one term of the grammar, consumed whole by the term
/// parser: a weekday token, a threshold form, or a parenthesized
/// expression.
pub open spec fn is_term_text(t: Seq<char>) -> bool {
    spec_condition_term(t, 0) matches Some(p) && p.1 == t.len()
}

/// The tree of a term.
pub open spec fn term_value(t: Seq<char>) -> Condition {
    match spec_condition_term(t, 0) {
        Some(p) => p.0,
        None => vstd::pervasive::arbitrary(),
    }
}

/// The characters of `t` starting at `p` occur in `s` starting at `i`,
/// for `n` characters.
pub open spec fn win(s: Seq<char>, i: int, t: Seq<char>, p: int, n: int) -> bool {
    &&& 0 <= n
    &&& 0 <= i && i + n <= s.len()
    &&& 0 <= p && p + n <= t.len()
    &&& forall|k: int| 0 <= k < n ==> #[trigger] s[i + k] == t[p + k]
}

// ---------------------------------------------------------------------------
// Characterizations of the scanners.
// ---------------------------------------------------------------------------

/// Where a whitespace run is, the scanner ends exactly at its end.
pub proof fn lemma_ws_run(s: Seq<char>, i: int, e: int)
    requires
        0 <= i <= e <= s.len(),
        forall|k: int| i <= k < e ==> is_space_char(s[k]),
        e < s.len() ==> !is_space_char(s[e]),
    ensures
        spec_ws_end(s, i) == e,
    decreases e - i,
{
    if i < e {
        lemma_ws_run(s, i + 1, e);
    }
}

/// What holds of any whitespace scan: it stays inside the input, runs over
/// whitespace only, and stops before the first other character.
pub proof fn lemma_ws_end_props(s: Seq<char>, i: int)
    requires
        0 <= i <= s.len(),
    ensures
        i <= spec_ws_end(s, i) <= s.len(),
        forall|k: int| i <= k < spec_ws_end(s, i) ==> is_space_char(s[k]),
        spec_ws_end(s, i) < s.len() ==> !is_space_char(s[spec_ws_end(s, i)]),
    decreases s.len() - i,
{
    if i < s.len() && is_space_char(s[i]) {
        lemma_ws_end_props(s, i + 1);
    }
}

/// Where a digit run is, the scanner ends exactly at its end.
pub proof fn lemma_digit_run(s: Seq<char>, i: int, e: int)
    requires
        0 <= i <= e <= s.len(),
        forall|k: int| i <= k < e ==> is_digit_char(s[k]),
        e < s.len() ==> !is_digit_char(s[e]),
    ensures
        spec_digits_end(s, i) == e,
    decreases e - i,
{
    if i < e {
        lemma_digit_run(s, i + 1, e);
    }
}

/// What holds of any digit scan.
pub proof fn lemma_digits_end_props(s: Seq<char>, i: int)
    requires
        0 <= i <= s.len(),
    ensures
        i <= spec_digits_end(s, i) <= s.len(),
        forall|k: int| i <= k < spec_digits_end(s, i) ==> is_digit_char(s[k]),
        spec_digits_end(s, i) < s.len() ==> !is_digit_char(s[spec_digits_end(s, i)]),
    decreases s.len() - i,
{
    if i < s.len() && is_digit_char(s[i]) {
        lemma_digits_end_props(s, i + 1);
    }
}

/// A whitespace scan beginning on a space moves at least one character.
pub proof fn lemma_ws_strict(t: Seq<char>, a: int)
    requires
        0 <= a < t.len(),
        is_space_char(t[a]),
    ensures
        spec_ws_end(t, a) >= a + 1,
{
    lemma_ws_end_props(t, a + 1);
}

/// Bounds of a successful integer parse, and its leading digit.
pub proof fn lemma_integer_bounds(t: Seq<char>, p: int, v: u64, j: int)
    requires
        spec_integer(t, p) == Some((v, j)),
        0 <= p <= t.len(),
    ensures
        p < j <= t.len(),
        is_digit_char(t[p]),
{
    lemma_digits_end_props(t, p);
}

/// Bounds of a successful duration parse, and its leading digit.
pub proof fn lemma_duration_bounds(t: Seq<char>, p: int, d: crate::expressions::parser::Duration, j: int)
    requires
        spec_duration(t, p) == Some((d, j)),
        0 <= p <= t.len(),
    ensures
        p < j <= t.len(),
        is_digit_char(t[p]),
{
    let r1 = spec_integer(t, p);
    assert(r1 is Some);
    let (n0, j1) = r1->Some_0;
    lemma_integer_bounds(t, p, n0, j1);
    lemma_ws_strict(t, j1);
    lemma_ws_end_props(t, j1);
}

/// A window restricted to a part of itself.
pub proof fn lemma_win_sub(s: Seq<char>, i: int, t: Seq<char>, p: int, n: int, p2: int, n2: int)
    requires
        win(s, i, t, p, n),
        p <= p2,
        0 <= n2,
        p2 + n2 <= p + n,
    ensures
        win(s, i + (p2 - p), t, p2, n2),
{
    assert forall|k: int| 0 <= k < n2 implies #[trigger] s[(i + (p2 - p)) + k] == t[p2 + k] by {
        assert(s[i + ((p2 - p) + k)] == t[p + ((p2 - p) + k)]);
    }
}

/// Equal digit runs have equal values.
pub proof fn lemma_digits_val_win(s: Seq<char>, i: int, t: Seq<char>, p: int, n: int)
    requires
        win(s, i, t, p, n),
    ensures
        spec_digits_val(s, i, i + n) == spec_digits_val(t, p, p + n),
    decreases n,
{
    if n > 0 {
        lemma_digits_val_win(s, i, t, p, n - 1);
    }
}

/// A tag carries over to another place holding the same characters.
pub proof fn lemma_tag_win(s: Seq<char>, i: int, t: Seq<char>, p: int, tag: Seq<char>)
    requires
        spec_tag_match(t, p, tag),
        win(s, i, t, p, tag.len() as int),
    ensures
        spec_tag_match(s, i, tag),
{
    assert forall|k: int| 0 <= k < tag.len() implies s.subrange(i, i + tag.len())[k] == tag[k] by {
        assert(s[i + k] == t[p + k]);
        assert(t.subrange(p, p + tag.len())[k] == tag[k]);
        assert(s.subrange(i, i + tag.len())[k] == s[i + k]);
    }
    assert(s.subrange(i, i + tag.len()) =~= tag);
}

/// A tag that does not occur, where the input has room for it, is also
/// absent from another place holding the same characters.
pub proof fn lemma_tag_fail_win(s: Seq<char>, i: int, t: Seq<char>, p: int, tag: Seq<char>)
    requires
        !spec_tag_match(t, p, tag),
        0 <= p && p + tag.len() <= t.len(),
        win(s, i, t, p, tag.len() as int),
    ensures
        !spec_tag_match(s, i, tag),
{
    if spec_tag_match(s, i, tag) {
        assert forall|k: int| 0 <= k < tag.len() implies t.subrange(p, p + tag.len())[k]
            == tag[k] by {
            assert(s[i + k] == t[p + k]);
            assert(s.subrange(i, i + tag.len())[k] == tag[k]);
            assert(t.subrange(p, p + tag.len())[k] == t[p + k]);
        }
        assert(t.subrange(p, p + tag.len()) =~= tag);
    }
}

/// A tag is absent wherever the input differs from it at one position.
pub proof fn lemma_tag_fail_at(s: Seq<char>, i: int, tag: Seq<char>, d: int)
    requires
        0 <= d < tag.len(),
        0 <= i && i + d < s.len(),
        s[i + d] != tag[d],
    ensures
        !spec_tag_match(s, i, tag),
{
    if spec_tag_match(s, i, tag) {
        assert(s.subrange(i, i + tag.len())[d] == tag[d]);
    }
}

// ---------------------------------------------------------------------------
// The pieces of the grammar parse the same wherever their text occurs.
// ---------------------------------------------------------------------------

/// An integer literal, moved to another place holding the same characters
/// including the character that ends the digit run.
pub proof fn lemma_integer_win(s: Seq<char>, i: int, t: Seq<char>, p: int, v: u64, j: int)
    requires
        spec_integer(t, p) == Some((v, j)),
        0 <= p,
        j < t.len(),
        win(s, i, t, p, j - p + 1),
    ensures
        spec_integer(s, i) == Some((v, i + (j - p))),
{
    lemma_digits_end_props(t, p);
    let e = i + (j - p);
    assert forall|k: int| i <= k < e implies is_digit_char(s[k]) by {
        assert(s[i + (k - i)] == t[p + (k - i)]);
    }
    assert(s[i + (j - p)] == t[p + (j - p)]);
    lemma_digit_run(s, i, e);
    lemma_digits_val_win(s, i, t, p, j - p);
}

/// A duration literal, moved to another place holding the same characters.
pub proof fn lemma_duration_win(s: Seq<char>, i: int, t: Seq<char>, p: int, d: crate::expressions::parser::Duration, j: int)
    requires
        spec_duration(t, p) == Some((d, j)),
        0 <= p,
        win(s, i, t, p, j - p),
    ensures
        spec_duration(s, i) == Some((d, i + (j - p))),
{
    let r1 = spec_integer(t, p);
    assert(r1 is Some);
    let (n0, j1) = r1->Some_0;
    lemma_digits_end_props(t, p);
    assert(j1 < t.len() && is_space_char(t[j1]));
    let k1 = spec_ws_end(t, j1);
    lemma_ws_end_props(t, j1);
    lemma_ws_strict(t, j1);
    assert(k1 < t.len() && is_duration_unit(t[k1]));
    assert(j == k1 + 1);
    // the integer, its run ended by the whitespace
    lemma_integer_bounds(t, p, n0, j1);
    lemma_win_sub(s, i, t, p, j - p, p, j1 - p + 1);
    lemma_integer_win(s, i, t, p, n0, j1);
    // the whitespace, ended by the unit letter
    assert forall|k: int| i + (j1 - p) <= k < i + (k1 - p) implies is_space_char(s[k]) by {
        assert(s[i + (k - i)] == t[p + (k - i)]);
    }
    assert(s[i + (k1 - p)] == t[p + (k1 - p)]);
    lemma_ws_run(s, i + (j1 - p), i + (k1 - p));
    assert(s[i + (j1 - p)] == t[p + (j1 - p)]);
}

/// A weekday token, moved to another place holding the same characters.
pub proof fn lemma_weekday_win(s: Seq<char>, i: int, t: Seq<char>, p: int, c: Condition, j: int)
    requires
        spec_condition_weekday(t, p) == Some((c, j)),
        win(s, i, t, p, j - p),
    ensures
        spec_condition_weekday(s, i) == Some((c, i + (j - p))),
{
    reveal_strlit("Mon");
    reveal_strlit("Tue");
    reveal_strlit("Wed");
    reveal_strlit("Thu");
    reveal_strlit("Fri");
    reveal_strlit("Sat");
    reveal_strlit("Sun");
    assert(j == p + 3);
    if spec_tag_match(t, p, "Mon"@) {
        lemma_tag_win(s, i, t, p, "Mon"@);
    } else if spec_tag_match(t, p, "Tue"@) {
        lemma_tag_fail_win(s, i, t, p, "Mon"@);
        lemma_tag_win(s, i, t, p, "Tue"@);
    } else if spec_tag_match(t, p, "Wed"@) {
        lemma_tag_fail_win(s, i, t, p, "Mon"@);
        lemma_tag_fail_win(s, i, t, p, "Tue"@);
        lemma_tag_win(s, i, t, p, "Wed"@);
    } else if spec_tag_match(t, p, "Thu"@) {
        lemma_tag_fail_win(s, i, t, p, "Mon"@);
        lemma_tag_fail_win(s, i, t, p, "Tue"@);
        lemma_tag_fail_win(s, i, t, p, "Wed"@);
        lemma_tag_win(s, i, t, p, "Thu"@);
    } else if spec_tag_match(t, p, "Fri"@) {
        lemma_tag_fail_win(s, i, t, p, "Mon"@);
        lemma_tag_fail_win(s, i, t, p, "Tue"@);
        lemma_tag_fail_win(s, i, t, p, "Wed"@);
        lemma_tag_fail_win(s, i, t, p, "Thu"@);
        lemma_tag_win(s, i, t, p, "Fri"@);
    } else if spec_tag_match(t, p, "Sat"@) {
        lemma_tag_fail_win(s, i, t, p, "Mon"@);
        lemma_tag_fail_win(s, i, t, p, "Tue"@);
        lemma_tag_fail_win(s, i, t, p, "Wed"@);
        lemma_tag_fail_win(s, i, t, p, "Thu"@);
        lemma_tag_fail_win(s, i, t, p, "Fri"@);
        lemma_tag_win(s, i, t, p, "Sat"@);
    } else {
        lemma_tag_fail_win(s, i, t, p, "Mon"@);
        lemma_tag_fail_win(s, i, t, p, "Tue"@);
        lemma_tag_fail_win(s, i, t, p, "Wed"@);
        lemma_tag_fail_win(s, i, t, p, "Thu"@);
        lemma_tag_fail_win(s, i, t, p, "Fri"@);
        lemma_tag_fail_win(s, i, t, p, "Sat"@);
        lemma_tag_win(s, i, t, p, "Sun"@);
    }
}

/// A calendar-unit token, moved to another place holding the same
/// characters; the place need not hold anything beyond the token itself.
pub proof fn lemma_time_unit_win(s: Seq<char>, i: int, t: Seq<char>, p: int, u: crate::expressions::parser::TimeUnit, j: int)
    requires
        spec_time_unit(t, p) == Some((u, j)),
        win(s, i, t, p, j - p),
    ensures
        spec_time_unit(s, i) == Some((u, i + (j - p))),
{
    reveal_strlit("second");
    reveal_strlit("minute");
    reveal_strlit("hour");
    reveal_strlit("day");
    reveal_strlit("week");
    reveal_strlit("month");
    reveal_strlit("year");
    if spec_tag_match(t, p, "second"@) {
        lemma_tag_win(s, i, t, p, "second"@);
    } else if spec_tag_match(t, p, "minute"@) {
        lemma_tag_win(s, i, t, p, "minute"@);
        assert(s.subrange(i, i + 6)[0] == s[i + 0]);
        lemma_tag_fail_at(s, i, "second"@, 0);
    } else if spec_tag_match(t, p, "hour"@) {
        lemma_tag_win(s, i, t, p, "hour"@);
        assert(s.subrange(i, i + 4)[0] == s[i + 0]);
        lemma_tag_fail_at(s, i, "second"@, 0);
        lemma_tag_fail_at(s, i, "minute"@, 0);
    } else if spec_tag_match(t, p, "day"@) {
        lemma_tag_win(s, i, t, p, "day"@);
        assert(s.subrange(i, i + 3)[0] == s[i + 0]);
        lemma_tag_fail_at(s, i, "second"@, 0);
        lemma_tag_fail_at(s, i, "minute"@, 0);
        lemma_tag_fail_at(s, i, "hour"@, 0);
    } else if spec_tag_match(t, p, "week"@) {
        lemma_tag_win(s, i, t, p, "week"@);
        assert(s.subrange(i, i + 4)[0] == s[i + 0]);
        lemma_tag_fail_at(s, i, "second"@, 0);
        lemma_tag_fail_at(s, i, "minute"@, 0);
        lemma_tag_fail_at(s, i, "hour"@, 0);
        lemma_tag_fail_at(s, i, "day"@, 0);
    } else if spec_tag_match(t, p, "month"@) {
        lemma_tag_win(s, i, t, p, "month"@);
        assert(s.subrange(i, i + 5)[0] == s[i + 0]);
        assert(s.subrange(i, i + 5)[1] == s[i + 1]);
        lemma_tag_fail_at(s, i, "second"@, 0);
        lemma_tag_fail_at(s, i, "minute"@, 1);
        lemma_tag_fail_at(s, i, "hour"@, 0);
        lemma_tag_fail_at(s, i, "day"@, 0);
        lemma_tag_fail_at(s, i, "week"@, 0);
    } else {
        lemma_tag_win(s, i, t, p, "year"@);
        assert(s.subrange(i, i + 4)[0] == s[i + 0]);
        lemma_tag_fail_at(s, i, "second"@, 0);
        lemma_tag_fail_at(s, i, "minute"@, 0);
        lemma_tag_fail_at(s, i, "hour"@, 0);
        lemma_tag_fail_at(s, i, "day"@, 0);
        lemma_tag_fail_at(s, i, "week"@, 0);
        lemma_tag_fail_at(s, i, "month"@, 0);
    }
}

/// The shared threshold prefix, moved to another place holding the same
/// characters including the one the final whitespace scan stops before.
pub proof fn lemma_prefix_win(s: Seq<char>, i: int, t: Seq<char>, p: int, limit: crate::expressions::parser::Duration, q: int)
    requires
        spec_atmost_prefix(t, p) == Some((limit, q)),
        0 <= p,
        q < t.len(),
        win(s, i, t, p, q - p + 1),
    ensures
        spec_atmost_prefix(s, i) == Some((limit, i + (q - p))),
{
    reveal_strlit("atmost");
    reveal_strlit("in");
    let a = p + 6;
    assert(a < t.len() && is_space_char(t[a]));
    let b = spec_ws_end(t, a);
    lemma_ws_end_props(t, a);
    lemma_ws_strict(t, a);
    let r1 = spec_duration(t, b);
    assert(r1 is Some);
    let (limit0, c1) = r1->Some_0;
    lemma_duration_bounds(t, b, limit0, c1);
    assert(c1 < t.len() && is_space_char(t[c1]));
    let d1 = spec_ws_end(t, c1);
    lemma_ws_end_props(t, c1);
    lemma_ws_strict(t, c1);
    assert(spec_tag_match(t, d1, "in"@));
    let e1 = d1 + 2;
    assert(e1 < t.len() && is_space_char(t[e1]));
    assert(q == spec_ws_end(t, e1));
    lemma_ws_end_props(t, e1);
    lemma_ws_strict(t, e1);
    assert(!is_space_char(t[q]));
    assert(p < a < b < c1 < d1 < e1 < q <= t.len());

    // the duration starts with a digit, so the first whitespace scan stops there
    lemma_digits_end_props(t, b);
    assert(is_digit_char(t[b]));

    lemma_win_sub(s, i, t, p, q - p + 1, p, 6);
    lemma_tag_win(s, i, t, p, "atmost"@);
    assert(s[i + (a - p)] == t[p + (a - p)]);
    assert forall|k: int| i + (a - p) <= k < i + (b - p) implies is_space_char(s[k]) by {
        assert(s[i + (k - i)] == t[p + (k - i)]);
    }
    assert(s[i + (b - p)] == t[p + (b - p)]);
    lemma_ws_run(s, i + (a - p), i + (b - p));
    lemma_win_sub(s, i, t, p, q - p + 1, b, c1 - b);
    lemma_duration_win(s, i + (b - p), t, b, limit0, c1);
    assert(s[i + (c1 - p)] == t[p + (c1 - p)]);
    assert forall|k: int| i + (c1 - p) <= k < i + (d1 - p) implies is_space_char(s[k]) by {
        assert(s[i + (k - i)] == t[p + (k - i)]);
    }
    assert(s[i + (d1 - p)] == t[p + (d1 - p)]);
    lemma_ws_run(s, i + (c1 - p), i + (d1 - p));
    lemma_win_sub(s, i, t, p, q - p + 1, d1, 2);
    lemma_tag_win(s, i + (d1 - p), t, d1, "in"@);
    assert(s[i + (e1 - p)] == t[p + (e1 - p)]);
    assert forall|k: int| i + (e1 - p) <= k < i + (q - p) implies is_space_char(s[k]) by {
        assert(s[i + (k - i)] == t[p + (k - i)]);
    }
    assert(s[i + (q - p)] == t[p + (q - p)]);
    lemma_ws_run(s, i + (e1 - p), i + (q - p));
}

/// Bounds of a successful threshold-prefix parse.
pub proof fn lemma_prefix_bounds(t: Seq<char>, p: int, limit: crate::expressions::parser::Duration, q: int)
    requires
        spec_atmost_prefix(t, p) == Some((limit, q)),
        0 <= p,
    ensures
        p + 6 < q <= t.len(),
{
    let a = p + 6;
    let b = spec_ws_end(t, a);
    lemma_ws_end_props(t, a);
    lemma_ws_strict(t, a);
    let r1 = spec_duration(t, b);
    assert(r1 is Some);
    let (limit0, c1) = r1->Some_0;
    lemma_duration_bounds(t, b, limit0, c1);
    let d1 = spec_ws_end(t, c1);
    lemma_ws_end_props(t, c1);
    lemma_ws_strict(t, c1);
    let e1 = d1 + 2;
    lemma_ws_end_props(t, e1);
    lemma_ws_strict(t, e1);
}

/// A whole calendar-aligned threshold term, moved to another place holding
/// the same characters.
pub proof fn lemma_atmost_this_win(s: Seq<char>, i: int, t: Seq<char>, p: int, c: Condition, j: int)
    requires
        spec_condition_atmost_this(t, p) == Some((c, j)),
        0 <= p,
        win(s, i, t, p, j - p),
    ensures
        spec_condition_atmost_this(s, i) == Some((c, i + (j - p))),
{
    reveal_strlit("this");
    let r1 = spec_atmost_prefix(t, p);
    assert(r1 is Some);
    let (limit, q) = r1->Some_0;
    assert(spec_tag_match(t, q, "this"@));
    let q2 = q + 4;
    assert(q2 < t.len() && is_space_char(t[q2]));
    let w = spec_ws_end(t, q2);
    lemma_ws_end_props(t, q2);
    lemma_ws_strict(t, q2);
    let r2 = spec_time_unit(t, w);
    assert(r2 is Some);
    let (u, j2) = r2->Some_0;
    assert(j == j2);
    // the calendar unit starts with a letter, where the whitespace scan stops
    proof_time_unit_first_char(t, w, u, j2);
    lemma_prefix_bounds(t, p, limit, q);
    assert(p <= q < q2 < w < j2 <= t.len());

    lemma_win_sub(s, i, t, p, j - p, p, q - p + 1);
    lemma_prefix_win(s, i, t, p, limit, q);
    lemma_win_sub(s, i, t, p, j - p, q, 4);
    lemma_tag_win(s, i + (q - p), t, q, "this"@);
    assert(s[i + (q2 - p)] == t[p + (q2 - p)]);
    assert forall|k: int| i + (q2 - p) <= k < i + (w - p) implies is_space_char(s[k]) by {
        assert(s[i + (k - i)] == t[p + (k - i)]);
    }
    assert(s[i + (w - p)] == t[p + (w - p)]);
    lemma_ws_run(s, i + (q2 - p), i + (w - p));
    lemma_win_sub(s, i, t, p, j - p, w, j2 - w);
    lemma_time_unit_win(s, i + (w - p), t, w, u, j2);
}

/// A calendar-unit token starts with a letter, never with whitespace.
proof fn proof_time_unit_first_char(t: Seq<char>, w: int, u: crate::expressions::parser::TimeUnit, j: int)
    requires
        spec_time_unit(t, w) == Some((u, j)),
    ensures
        0 <= w < t.len(),
        !is_space_char(t[w]),
        w + 3 <= j <= t.len(),
    decreases 0int,
{
    reveal_strlit("second");
    reveal_strlit("minute");
    reveal_strlit("hour");
    reveal_strlit("day");
    reveal_strlit("week");
    reveal_strlit("month");
    reveal_strlit("year");
    if spec_tag_match(t, w, "second"@) {
        assert(t.subrange(w, w + 6)[0] == t[w]);
    } else if spec_tag_match(t, w, "minute"@) {
        assert(t.subrange(w, w + 6)[0] == t[w]);
    } else if spec_tag_match(t, w, "hour"@) {
        assert(t.subrange(w, w + 4)[0] == t[w]);
    } else if spec_tag_match(t, w, "day"@) {
        assert(t.subrange(w, w + 3)[0] == t[w]);
    } else if spec_tag_match(t, w, "week"@) {
        assert(t.subrange(w, w + 4)[0] == t[w]);
    } else if spec_tag_match(t, w, "month"@) {
        assert(t.subrange(w, w + 5)[0] == t[w]);
    } else {
        assert(t.subrange(w, w + 4)[0] == t[w]);
    }
}

/// A whole sliding-window threshold term, moved to another place holding
/// the same characters.
pub proof fn lemma_atmost_sliding_win(s: Seq<char>, i: int, t: Seq<char>, p: int, c: Condition, j: int)
    requires
        spec_condition_atmost_sliding(t, p) == Some((c, j)),
        0 <= p,
        win(s, i, t, p, j - p),
    ensures
        spec_condition_atmost_sliding(s, i) == Some((c, i + (j - p))),
{
    reveal_strlit("sliding");
    let r1 = spec_atmost_prefix(t, p);
    assert(r1 is Some);
    let (limit, q) = r1->Some_0;
    assert(spec_tag_match(t, q, "sliding"@));
    let q2 = q + 7;
    assert(q2 < t.len() && is_space_char(t[q2]));
    let w = spec_ws_end(t, q2);
    lemma_ws_end_props(t, q2);
    lemma_ws_strict(t, q2);
    let r2 = spec_duration(t, w);
    assert(r2 is Some);
    let (window0, j2) = r2->Some_0;
    assert(j == j2);
    lemma_duration_bounds(t, w, window0, j2);
    lemma_prefix_bounds(t, p, limit, q);
    assert(p <= q < q2 < w < j2 <= t.len());

    lemma_win_sub(s, i, t, p, j - p, p, q - p + 1);
    lemma_prefix_win(s, i, t, p, limit, q);
    lemma_win_sub(s, i, t, p, j - p, q, 7);
    lemma_tag_win(s, i + (q - p), t, q, "sliding"@);
    assert(s[i + (q2 - p)] == t[p + (q2 - p)]);
    assert forall|k: int| i + (q2 - p) <= k < i + (w - p) implies is_space_char(s[k]) by {
        assert(s[i + (k - i)] == t[p + (k - i)]);
    }
    // the window duration starts with a digit, where the whitespace scan stops
    lemma_digits_end_props(t, w);
    assert(is_digit_char(t[w]));
    assert(s[i + (w - p)] == t[p + (w - p)]);
    lemma_ws_run(s, i + (q2 - p), i + (w - p));
    lemma_win_sub(s, i, t, p, j - p, w, j2 - w);
    lemma_duration_win(s, i + (w - p), t, w, window0, j2);
}

// ---------------------------------------------------------------------------
// Terms and expressions parse the same wherever their text occurs.
// ---------------------------------------------------------------------------

/// A weekday token: its length, and its first letter.
proof fn lemma_weekday_tokens(s: Seq<char>, p: int, c: Condition, j: int)
    requires
        spec_condition_weekday(s, p) == Some((c, j)),
        0 <= p,
    ensures
        j == p + 3,
        p + 3 <= s.len(),
        !is_space_char(s[p]),
        s[p] != 'n',
        s[p] != ')',
        s[p] != '(',
{
    reveal_strlit("Mon");
    reveal_strlit("Tue");
    reveal_strlit("Wed");
    reveal_strlit("Thu");
    reveal_strlit("Fri");
    reveal_strlit("Sat");
    reveal_strlit("Sun");
    if spec_tag_match(s, p, "Mon"@) {
        assert(s.subrange(p, p + 3)[0] == s[p]);
    } else if spec_tag_match(s, p, "Tue"@) {
        assert(s.subrange(p, p + 3)[0] == s[p]);
    } else if spec_tag_match(s, p, "Wed"@) {
        assert(s.subrange(p, p + 3)[0] == s[p]);
    } else if spec_tag_match(s, p, "Thu"@) {
        assert(s.subrange(p, p + 3)[0] == s[p]);
    } else if spec_tag_match(s, p, "Fri"@) {
        assert(s.subrange(p, p + 3)[0] == s[p]);
    } else if spec_tag_match(s, p, "Sat"@) {
        assert(s.subrange(p, p + 3)[0] == s[p]);
    } else {
        assert(s.subrange(p, p + 3)[0] == s[p]);
    }
}

/// Bounds and first character of a successful term parse: the term is not
/// empty, stays inside the input, and starts with `(`, a weekday letter or
/// the `a` of `atmost` - never with whitespace, `n` or `)`.
pub proof fn lemma_term_bounds(s: Seq<char>, p: int, c: Condition, j: int)
    requires
        spec_condition_term(s, p) == Some((c, j)),
        0 <= p,
    ensures
        p < j <= s.len(),
        !is_space_char(s[p]),
        s[p] != 'n',
        s[p] != ')',
    decreases s.len() - p, 2int,
{
    reveal_strlit("atmost");
    if 0 <= p < s.len() && s[p] == '(' {
        let a = spec_ws_end(s, p + 1);
        lemma_ws_end_props(s, p + 1);
        let re = spec_condition_expr(s, a);
        assert(re is Some);
        let (c0, m) = re->Some_0;
        lemma_expr_bounds(s, a, c0, m);
        let b = spec_ws_end(s, m);
        lemma_ws_end_props(s, m);
        assert(j == b + 1);
    } else {
        let rw = spec_condition_weekday(s, p);
        if rw is Some {
            let (cw, jw) = rw->Some_0;
            lemma_weekday_tokens(s, p, cw, jw);
        } else {
            let rp = spec_atmost_prefix(s, p);
            assert(rp is Some);
            let (limit, q) = rp->Some_0;
            lemma_prefix_bounds(s, p, limit, q);
            assert(s.subrange(p, p + 6)[0] == s[p]);
            let rt = spec_condition_atmost_this(s, p);
            if rt is Some {
                reveal_strlit("this");
                let q2 = q + 4;
                let w = spec_ws_end(s, q2);
                lemma_ws_end_props(s, q2);
                let ru = spec_time_unit(s, w);
                assert(ru is Some);
                let (u, j2) = ru->Some_0;
                proof_time_unit_first_char(s, w, u, j2);
            } else {
                reveal_strlit("sliding");
                let q2 = q + 7;
                let w = spec_ws_end(s, q2);
                lemma_ws_end_props(s, q2);
                let rd = spec_duration(s, w);
                assert(rd is Some);
                let (d0, j2) = rd->Some_0;
                lemma_duration_bounds(s, w, d0, j2);
            }
        }
    }
}

/// Bounds and first character of a successful expression parse.
pub proof fn lemma_expr_bounds(s: Seq<char>, p: int, c: Condition, j: int)
    requires
        spec_condition_expr(s, p) == Some((c, j)),
        0 <= p,
    ensures
        p < j <= s.len(),
        !is_space_char(s[p]),
        s[p] != ')',
    decreases s.len() - p, 3int,
{
    reveal_strlit("not");
    let ra = spec_condition_and(s, p);
    let ro = spec_condition_or(s, p);
    let rn = spec_condition_not(s, p);
    if ra is Some {
        let rt = spec_condition_term(s, p);
        assert(rt is Some);
        let (c1, m1) = rt->Some_0;
        lemma_term_bounds(s, p, c1, m1);
        let a = spec_ws_end(s, m1);
        let b = a + 3;
        let k = spec_ws_end(s, b);
        let ri = spec_condition_expr(s, k);
        assert(ri is Some);
        let (c2, mi) = ri->Some_0;
        lemma_expr_bounds(s, k, c2, mi);
    } else if ro is Some {
        let rt = spec_condition_term(s, p);
        assert(rt is Some);
        let (c1, m1) = rt->Some_0;
        lemma_term_bounds(s, p, c1, m1);
        let a = spec_ws_end(s, m1);
        let b = a + 2;
        let k = spec_ws_end(s, b);
        let ri = spec_condition_expr(s, k);
        assert(ri is Some);
        let (c2, mi) = ri->Some_0;
        lemma_expr_bounds(s, k, c2, mi);
    } else if rn is Some {
        assert(spec_tag_match(s, p, "not"@));
        assert(s.subrange(p, p + 3)[0] == s[p]);
        let a = p + 3;
        let k = spec_ws_end(s, a);
        let ri = spec_condition_expr(s, k);
        assert(ri is Some);
        let (c0, mi) = ri->Some_0;
        lemma_expr_bounds(s, k, c0, mi);
    } else {
        let rt = spec_condition_term(s, p);
        assert(rt is Some);
        let (c1, m1) = rt->Some_0;
        lemma_term_bounds(s, p, c1, m1);
    }
}

/// A term parses identically wherever its text occurs.
pub proof fn lemma_term_stable(s2: Seq<char>, i2: int, s1: Seq<char>, p: int, c: Condition, j: int)
    requires
        spec_condition_term(s1, p) == Some((c, j)),
        0 <= p,
        win(s2, i2, s1, p, j - p),
    ensures
        spec_condition_term(s2, i2) == Some((c, i2 + (j - p))),
    decreases s1.len() - p, 4int,
{
    lemma_term_bounds(s1, p, c, j);
    assert(s2[i2 + 0] == s1[p + 0]);
    if s1[p] == '(' {
        let a = spec_ws_end(s1, p + 1);
        lemma_ws_end_props(s1, p + 1);
        let re = spec_condition_expr(s1, a);
        assert(re is Some);
        let (c0, m) = re->Some_0;
        assert(c0 == c);
        lemma_expr_bounds(s1, a, c0, m);
        let b = spec_ws_end(s1, m);
        lemma_ws_end_props(s1, m);
        assert(b < s1.len() && s1[b] == ')' && j == b + 1);
        // the whitespace after the opening parenthesis, ended by the first
        // character of the inner expression
        assert forall|k: int| i2 + 1 <= k < i2 + (a - p) implies is_space_char(s2[k]) by {
            assert(s2[i2 + (k - i2)] == s1[p + (k - i2)]);
        }
        assert(s2[i2 + (a - p)] == s1[p + (a - p)]);
        lemma_ws_run(s2, i2 + 1, i2 + (a - p));
        // the inner expression, guarded by the closing parenthesis
        assert(s2[i2 + (b - p)] == s1[p + (b - p)]);
        lemma_win_sub(s2, i2, s1, p, j - p, a, b - a);
        lemma_expr_stable_guarded(s2, i2 + (a - p), s1, a, c0, m, b, i2 + (b - p));
        // the whitespace before the closing parenthesis
        assert forall|k: int| i2 + (m - p) <= k < i2 + (b - p) implies is_space_char(s2[k]) by {
            assert(s2[i2 + (k - i2)] == s1[p + (k - i2)]);
        }
        lemma_ws_run(s2, i2 + (m - p), i2 + (b - p));
    } else {
        reveal_strlit("Mon");
        reveal_strlit("Tue");
        reveal_strlit("Wed");
        reveal_strlit("Thu");
        reveal_strlit("Fri");
        reveal_strlit("Sat");
        reveal_strlit("Sun");
        reveal_strlit("this");
        let rw = spec_condition_weekday(s1, p);
        if rw is Some {
            let (cw, jw) = rw->Some_0;
            lemma_weekday_win(s2, i2, s1, p, cw, jw);
        } else {
            // the seven weekday tokens are absent here and there
            let rt = spec_condition_atmost_this(s1, p);
            let rs = spec_condition_atmost_sliding(s1, p);
            let rp = spec_atmost_prefix(s1, p);
            assert(rp is Some);
            let (limit, q) = rp->Some_0;
            lemma_prefix_bounds(s1, p, limit, q);
            // the parsed form reaches beyond the prefix, so `j` does too
            if rt is Some {
                let q2 = q + 4;
                let w = spec_ws_end(s1, q2);
                lemma_ws_end_props(s1, q2);
                lemma_ws_strict(s1, q2);
                let ru = spec_time_unit(s1, w);
                assert(ru is Some);
                let (u0, j2) = ru->Some_0;
                proof_time_unit_first_char(s1, w, u0, j2);
                assert(q < j);
            } else {
                reveal_strlit("sliding");
                let q2 = q + 7;
                let w = spec_ws_end(s1, q2);
                lemma_ws_end_props(s1, q2);
                lemma_ws_strict(s1, q2);
                let rd = spec_duration(s1, w);
                assert(rd is Some);
                let (d0, j2) = rd->Some_0;
                lemma_duration_bounds(s1, w, d0, j2);
                assert(q < j);
            }
            lemma_win_sub(s2, i2, s1, p, j - p, p, 3);
            lemma_tag_fail_win(s2, i2, s1, p, "Mon"@);
            lemma_tag_fail_win(s2, i2, s1, p, "Tue"@);
            lemma_tag_fail_win(s2, i2, s1, p, "Wed"@);
            lemma_tag_fail_win(s2, i2, s1, p, "Thu"@);
            lemma_tag_fail_win(s2, i2, s1, p, "Fri"@);
            lemma_tag_fail_win(s2, i2, s1, p, "Sat"@);
            lemma_tag_fail_win(s2, i2, s1, p, "Sun"@);
            if rt is Some {
                let (ca, ja) = rt->Some_0;
                lemma_atmost_this_win(s2, i2, s1, p, ca, ja);
            } else {
                let (cs, js) = rs->Some_0;
                // the sliding form: `this` is not at q, here nor there
                reveal_strlit("sliding");
                assert(spec_tag_match(s1, q, "sliding"@));
                if spec_tag_match(s1, q, "this"@) {
                    assert(s1.subrange(q, q + 4)[0] == s1[q]);
                    assert(s1.subrange(q, q + 7)[0] == s1[q]);
                    assert(false);
                }
                lemma_win_sub(s2, i2, s1, p, j - p, q, 4);
                lemma_tag_fail_win(s2, i2 + (q - p), s1, q, "this"@);
                lemma_win_sub(s2, i2, s1, p, j - p, p, q - p + 1);
                lemma_prefix_win(s2, i2, s1, p, limit, q);
                lemma_atmost_sliding_win(s2, i2, s1, p, cs, js);
            }
        }
    }
}

/// An expression followed, after optional whitespace, by a closing
/// parenthesis or the end of the input parses identically wherever its
/// text occurs under such a guard: the guard keeps the `and` and `or`
/// rules from reaching any further.
pub proof fn lemma_expr_stable_guarded(
    s2: Seq<char>,
    i2: int,
    s1: Seq<char>,
    p: int,
    c: Condition,
    m: int,
    e1: int,
    q2: int,
)
    requires
        spec_condition_expr(s1, p) == Some((c, m)),
        0 <= p,
        m <= e1 <= s1.len(),
        forall|k: int| m <= k < e1 ==> is_space_char(s1[k]),
        win(s2, i2, s1, p, e1 - p),
        i2 + (e1 - p) <= q2 <= s2.len(),
        forall|k: int| i2 + (e1 - p) <= k < q2 ==> is_space_char(s2[k]),
        q2 == s2.len() || s2[q2] == ')',
    ensures
        spec_condition_expr(s2, i2) == Some((c, i2 + (m - p))),
    decreases s1.len() - p, 6int,
{
    let ra = spec_condition_and(s1, p);
    let ro = spec_condition_or(s1, p);
    let rn = spec_condition_not(s1, p);
    if ra is Some {
        lemma_expr_guarded_and(s2, i2, s1, p, c, m, e1, q2);
    } else if ro is Some {
        lemma_expr_guarded_or(s2, i2, s1, p, c, m, e1, q2);
    } else if rn is Some {
        lemma_expr_guarded_not(s2, i2, s1, p, c, m, e1, q2);
    } else {
        lemma_expr_guarded_term(s2, i2, s1, p, c, m, e1, q2);
    }
}

/// The guarded stability of a conjunction.
#[verifier::rlimit(80)]
proof fn lemma_expr_guarded_and(
    s2: Seq<char>,
    i2: int,
    s1: Seq<char>,
    p: int,
    c: Condition,
    m: int,
    e1: int,
    q2: int,
)
    requires
        spec_condition_expr(s1, p) == Some((c, m)),
        0 <= p,
        m <= e1 <= s1.len(),
        forall|k: int| m <= k < e1 ==> is_space_char(s1[k]),
        win(s2, i2, s1, p, e1 - p),
        i2 + (e1 - p) <= q2 <= s2.len(),
        forall|k: int| i2 + (e1 - p) <= k < q2 ==> is_space_char(s2[k]),
        q2 == s2.len() || s2[q2] == ')',
        spec_condition_and(s1, p) is Some,
    ensures
        spec_condition_expr(s2, i2) == Some((c, i2 + (m - p))),
    decreases s1.len() - p, 5int,
{
    reveal_strlit("and");
    lemma_expr_bounds(s1, p, c, m);
    assert(spec_condition_and(s1, p) == Some((c, m)));
    let rt = spec_condition_term(s1, p);
    assert(rt is Some);
    let (c1, m1) = rt->Some_0;
    lemma_term_bounds(s1, p, c1, m1);
    assert(m1 < s1.len() && is_space_char(s1[m1]));
    let a = spec_ws_end(s1, m1);
    lemma_ws_end_props(s1, m1);
    lemma_ws_strict(s1, m1);
    assert(spec_tag_match(s1, a, "and"@));
    assert(s1.subrange(a, a + 3)[0] == s1[a]);
    let b = a + 3;
    assert(b < s1.len() && is_space_char(s1[b]));
    let k = spec_ws_end(s1, b);
    lemma_ws_end_props(s1, b);
    lemma_ws_strict(s1, b);
    let ri = spec_condition_expr(s1, k);
    assert(ri is Some);
    let (c2, mi) = ri->Some_0;
    assert(mi == m);
    lemma_expr_bounds(s1, k, c2, mi);
    assert(p < m1 < a < b < k < m <= e1);
    lemma_win_sub(s2, i2, s1, p, e1 - p, p, m1 - p);
    lemma_term_stable(s2, i2, s1, p, c1, m1);
    assert(s2[i2 + (m1 - p)] == s1[p + (m1 - p)]);
    assert forall|k2: int| i2 + (m1 - p) <= k2 < i2 + (a - p) implies is_space_char(s2[k2]) by {
        assert(s2[i2 + (k2 - i2)] == s1[p + (k2 - i2)]);
    }
    assert(s2[i2 + (a - p)] == s1[p + (a - p)]);
    lemma_ws_run(s2, i2 + (m1 - p), i2 + (a - p));
    lemma_win_sub(s2, i2, s1, p, e1 - p, a, 3);
    lemma_tag_win(s2, i2 + (a - p), s1, a, "and"@);
    assert(s2[i2 + (b - p)] == s1[p + (b - p)]);
    assert forall|k2: int| i2 + (b - p) <= k2 < i2 + (k - p) implies is_space_char(s2[k2]) by {
        assert(s2[i2 + (k2 - i2)] == s1[p + (k2 - i2)]);
    }
    assert(s2[i2 + (k - p)] == s1[p + (k - p)]);
    lemma_ws_run(s2, i2 + (b - p), i2 + (k - p));
    lemma_win_sub(s2, i2, s1, p, e1 - p, k, e1 - k);
    lemma_expr_stable_guarded(s2, i2 + (k - p), s1, k, c2, mi, e1, q2);
    assert(spec_condition_and(s2, i2) == Some((c, i2 + (m - p))));
}

/// The guarded stability of a disjunction.
#[verifier::rlimit(80)]
proof fn lemma_expr_guarded_or(
    s2: Seq<char>,
    i2: int,
    s1: Seq<char>,
    p: int,
    c: Condition,
    m: int,
    e1: int,
    q2: int,
)
    requires
        spec_condition_expr(s1, p) == Some((c, m)),
        0 <= p,
        m <= e1 <= s1.len(),
        forall|k: int| m <= k < e1 ==> is_space_char(s1[k]),
        win(s2, i2, s1, p, e1 - p),
        i2 + (e1 - p) <= q2 <= s2.len(),
        forall|k: int| i2 + (e1 - p) <= k < q2 ==> is_space_char(s2[k]),
        q2 == s2.len() || s2[q2] == ')',
        spec_condition_and(s1, p) is None,
        spec_condition_or(s1, p) is Some,
    ensures
        spec_condition_expr(s2, i2) == Some((c, i2 + (m - p))),
    decreases s1.len() - p, 5int,
{
    reveal_strlit("and");
    reveal_strlit("or");
    lemma_expr_bounds(s1, p, c, m);
    assert(spec_condition_or(s1, p) == Some((c, m)));
    let rt = spec_condition_term(s1, p);
    assert(rt is Some);
    let (c1, m1) = rt->Some_0;
    lemma_term_bounds(s1, p, c1, m1);
    assert(m1 < s1.len() && is_space_char(s1[m1]));
    let a = spec_ws_end(s1, m1);
    lemma_ws_end_props(s1, m1);
    lemma_ws_strict(s1, m1);
    assert(spec_tag_match(s1, a, "or"@));
    assert(s1.subrange(a, a + 2)[0] == s1[a]);
    let b = a + 2;
    assert(b < s1.len() && is_space_char(s1[b]));
    let k = spec_ws_end(s1, b);
    lemma_ws_end_props(s1, b);
    lemma_ws_strict(s1, b);
    let ri = spec_condition_expr(s1, k);
    assert(ri is Some);
    let (c2, mi) = ri->Some_0;
    assert(mi == m);
    lemma_expr_bounds(s1, k, c2, mi);
    assert(p < m1 < a < b < k < m <= e1);
    lemma_win_sub(s2, i2, s1, p, e1 - p, p, m1 - p);
    lemma_term_stable(s2, i2, s1, p, c1, m1);
    assert(s2[i2 + (m1 - p)] == s1[p + (m1 - p)]);
    assert forall|k2: int| i2 + (m1 - p) <= k2 < i2 + (a - p) implies is_space_char(s2[k2]) by {
        assert(s2[i2 + (k2 - i2)] == s1[p + (k2 - i2)]);
    }
    assert(s2[i2 + (a - p)] == s1[p + (a - p)]);
    lemma_ws_run(s2, i2 + (m1 - p), i2 + (a - p));
    // `and` cannot match where `or` stands
    lemma_tag_fail_at(s2, i2 + (a - p), "and"@, 0);
    assert(spec_condition_and(s2, i2) is None);
    lemma_win_sub(s2, i2, s1, p, e1 - p, a, 2);
    lemma_tag_win(s2, i2 + (a - p), s1, a, "or"@);
    assert(s2[i2 + (b - p)] == s1[p + (b - p)]);
    assert forall|k2: int| i2 + (b - p) <= k2 < i2 + (k - p) implies is_space_char(s2[k2]) by {
        assert(s2[i2 + (k2 - i2)] == s1[p + (k2 - i2)]);
    }
    assert(s2[i2 + (k - p)] == s1[p + (k - p)]);
    lemma_ws_run(s2, i2 + (b - p), i2 + (k - p));
    lemma_win_sub(s2, i2, s1, p, e1 - p, k, e1 - k);
    lemma_expr_stable_guarded(s2, i2 + (k - p), s1, k, c2, mi, e1, q2);
    assert(spec_condition_or(s2, i2) == Some((c, i2 + (m - p))));
}

/// The guarded stability of a negation.
#[verifier::rlimit(80)]
proof fn lemma_expr_guarded_not(
    s2: Seq<char>,
    i2: int,
    s1: Seq<char>,
    p: int,
    c: Condition,
    m: int,
    e1: int,
    q2: int,
)
    requires
        spec_condition_expr(s1, p) == Some((c, m)),
        0 <= p,
        m <= e1 <= s1.len(),
        forall|k: int| m <= k < e1 ==> is_space_char(s1[k]),
        win(s2, i2, s1, p, e1 - p),
        i2 + (e1 - p) <= q2 <= s2.len(),
        forall|k: int| i2 + (e1 - p) <= k < q2 ==> is_space_char(s2[k]),
        q2 == s2.len() || s2[q2] == ')',
        spec_condition_and(s1, p) is None,
        spec_condition_or(s1, p) is None,
        spec_condition_not(s1, p) is Some,
    ensures
        spec_condition_expr(s2, i2) == Some((c, i2 + (m - p))),
    decreases s1.len() - p, 5int,
{
    reveal_strlit("and");
    reveal_strlit("or");
    reveal_strlit("not");
    lemma_expr_bounds(s1, p, c, m);
    assert(spec_condition_not(s1, p) == Some((c, m)));
    assert(spec_tag_match(s1, p, "not"@));
    assert(s1.subrange(p, p + 3)[0] == s1[p]);
    let a = p + 3;
    assert(a < s1.len() && is_space_char(s1[a]));
    let k = spec_ws_end(s1, a);
    lemma_ws_end_props(s1, a);
    lemma_ws_strict(s1, a);
    let ri = spec_condition_expr(s1, k);
    assert(ri is Some);
    let (c0, mi) = ri->Some_0;
    assert(mi == m);
    lemma_expr_bounds(s1, k, c0, mi);
    assert(p < a < k < m <= e1);
    // no term can start with the `n` of `not`, so `and` and `or` fail
    reveal_strlit("Mon");
    reveal_strlit("Tue");
    reveal_strlit("Wed");
    reveal_strlit("Thu");
    reveal_strlit("Fri");
    reveal_strlit("Sat");
    reveal_strlit("Sun");
    reveal_strlit("atmost");
    assert(s2[i2 + 0] == s1[p + 0]);
    lemma_tag_fail_at(s2, i2, "Mon"@, 0);
    lemma_tag_fail_at(s2, i2, "Tue"@, 0);
    lemma_tag_fail_at(s2, i2, "Wed"@, 0);
    lemma_tag_fail_at(s2, i2, "Thu"@, 0);
    lemma_tag_fail_at(s2, i2, "Fri"@, 0);
    lemma_tag_fail_at(s2, i2, "Sat"@, 0);
    lemma_tag_fail_at(s2, i2, "Sun"@, 0);
    lemma_tag_fail_at(s2, i2, "atmost"@, 0);
    assert(spec_condition_weekday(s2, i2) is None);
    assert(spec_atmost_prefix(s2, i2) is None);
    assert(spec_condition_atmost_this(s2, i2) is None);
    assert(spec_condition_atmost_sliding(s2, i2) is None);
    assert(spec_condition_term(s2, i2) is None);
    assert(spec_condition_and(s2, i2) is None);
    assert(spec_condition_or(s2, i2) is None);
    lemma_win_sub(s2, i2, s1, p, e1 - p, p, 3);
    lemma_tag_win(s2, i2, s1, p, "not"@);
    assert(s2[i2 + (a - p)] == s1[p + (a - p)]);
    assert forall|k2: int| i2 + (a - p) <= k2 < i2 + (k - p) implies is_space_char(s2[k2]) by {
        assert(s2[i2 + (k2 - i2)] == s1[p + (k2 - i2)]);
    }
    assert(s2[i2 + (k - p)] == s1[p + (k - p)]);
    lemma_ws_run(s2, i2 + (a - p), i2 + (k - p));
    lemma_win_sub(s2, i2, s1, p, e1 - p, k, e1 - k);
    lemma_expr_stable_guarded(s2, i2 + (k - p), s1, k, c0, mi, e1, q2);
    assert(spec_condition_not(s2, i2) == Some((c, i2 + (m - p))));
}

/// The guarded stability of a bare term.
#[verifier::rlimit(80)]
proof fn lemma_expr_guarded_term(
    s2: Seq<char>,
    i2: int,
    s1: Seq<char>,
    p: int,
    c: Condition,
    m: int,
    e1: int,
    q2: int,
)
    requires
        spec_condition_expr(s1, p) == Some((c, m)),
        0 <= p,
        m <= e1 <= s1.len(),
        forall|k: int| m <= k < e1 ==> is_space_char(s1[k]),
        win(s2, i2, s1, p, e1 - p),
        i2 + (e1 - p) <= q2 <= s2.len(),
        forall|k: int| i2 + (e1 - p) <= k < q2 ==> is_space_char(s2[k]),
        q2 == s2.len() || s2[q2] == ')',
        spec_condition_and(s1, p) is None,
        spec_condition_or(s1, p) is None,
        spec_condition_not(s1, p) is None,
    ensures
        spec_condition_expr(s2, i2) == Some((c, i2 + (m - p))),
    decreases s1.len() - p, 5int,
{
    reveal_strlit("and");
    reveal_strlit("or");
    reveal_strlit("not");
    lemma_expr_bounds(s1, p, c, m);
    let rt = spec_condition_term(s1, p);
    assert(rt is Some);
    let (c1, m1) = rt->Some_0;
    assert(c1 == c && m1 == m);
    lemma_term_bounds(s1, p, c1, m1);
    lemma_win_sub(s2, i2, s1, p, e1 - p, p, m - p);
    lemma_term_stable(s2, i2, s1, p, c, m);
    let mp = i2 + (m - p);
    assert(s2[i2 + 0] == s1[p + 0]);
    if mp < q2 {
        // whitespace to the closing parenthesis, where no tag matches
        assert forall|k2: int| mp <= k2 < q2 implies is_space_char(s2[k2]) by {
            if k2 < i2 + (e1 - p) {
                assert(s2[i2 + (k2 - i2)] == s1[p + (k2 - i2)]);
            }
        }
        lemma_ws_run(s2, mp, q2);
        if q2 < s2.len() {
            lemma_tag_fail_at(s2, q2, "and"@, 0);
            lemma_tag_fail_at(s2, q2, "or"@, 0);
        }
    }
    assert(spec_condition_and(s2, i2) is None);
    assert(spec_condition_or(s2, i2) is None);
    lemma_tag_fail_at(s2, i2, "not"@, 0);
    assert(spec_condition_not(s2, i2) is None);
}

/// First-character facts of a whole term text.
pub proof fn lemma_term_first(t: Seq<char>)
    requires
        is_term_text(t),
    ensures
        t.len() > 0,
        !is_space_char(t[0]),
        t[0] != 'n',
        t[0] != ')',
{
    let r = spec_condition_term(t, 0);
    let (c, j) = r->Some_0;
    assert(r == Some((c, j)));
    lemma_term_bounds(t, 0, c, j);
}

/// A whole term text parses identically wherever it occurs.
pub proof fn lemma_term_at(s: Seq<char>, i: int, t: Seq<char>)
    requires
        is_term_text(t),
        win(s, i, t, 0, t.len() as int),
    ensures
        spec_condition_term(s, i) == Some((term_value(t), i + t.len())),
{
    let r = spec_condition_term(t, 0);
    let (c, j) = r->Some_0;
    assert(r == Some((c, j)));
    assert(c == term_value(t) && j == t.len());
    lemma_term_stable(s, i, t, 0, c, j);
}

/// A tag occurring literally in the input matches there.
pub proof fn lemma_tag_here(s: Seq<char>, a: int, tag: Seq<char>)
    requires
        0 <= a && a + tag.len() <= s.len(),
        forall|k: int| 0 <= k < tag.len() ==> #[trigger] s[a + k] == tag[k],
    ensures
        spec_tag_match(s, a, tag),
{
    assert(spec_tag_match(tag, 0, tag)) by {
        assert(tag.subrange(0, tag.len() as int) =~= tag);
    }
    lemma_tag_win(s, a, tag, 0, tag);
}

/// An expression that is one term with only whitespace after it: the
/// `and`, `or` and `not` rules cannot apply, so the expression is exactly
/// that term.
pub proof fn lemma_expr_of_term_then_ws(s: Seq<char>, i: int, m: int, cv: Condition)
    requires
        spec_condition_term(s, i) == Some((cv, m)),
        0 <= i < s.len(),
        s[i] != 'n',
        i < m <= s.len(),
        forall|k: int| m <= k < s.len() ==> is_space_char(s[k]),
    ensures
        spec_condition_expr(s, i) == Some((cv, m)),
        spec_ws_end(s, m) == s.len(),
    decreases 0int,
{
    reveal_strlit("and");
    reveal_strlit("or");
    reveal_strlit("not");
    lemma_ws_run(s, m, s.len() as int);
    if m < s.len() && is_space_char(s[m]) {
        assert(spec_ws_end(s, m) == s.len());
    }
    lemma_tag_fail_at(s, i, "not"@, 0);
    assert(spec_condition_and(s, i) is None);
    assert(spec_condition_or(s, i) is None);
    assert(spec_condition_not(s, i) is None);
}

/// An expression that is one term followed directly by a closing
/// parenthesis: again exactly that term.
pub proof fn lemma_expr_of_term_then_close(s: Seq<char>, i: int, m: int, cv: Condition)
    requires
        spec_condition_term(s, i) == Some((cv, m)),
        0 <= i < s.len(),
        s[i] != 'n',
        i < m < s.len(),
        s[m] == ')',
    ensures
        spec_condition_expr(s, i) == Some((cv, m)),
    decreases 0int,
{
    reveal_strlit("and");
    reveal_strlit("or");
    reveal_strlit("not");
    lemma_tag_fail_at(s, i, "not"@, 0);
    assert(!is_space_char(s[m]));
    assert(spec_condition_and(s, i) is None);
    assert(spec_condition_or(s, i) is None);
    assert(spec_condition_not(s, i) is None);
}

/// An expression that is a term, whitespace, `and`, whitespace, and a
/// known expression: the whole is their conjunction, nested to the right.
pub proof fn lemma_expr_of_term_and(
    s: Seq<char>,
    i: int,
    m1: int,
    cv: Condition,
    wa: Seq<char>,
    wb: Seq<char>,
    k: int,
    x: Condition,
    m: int,
)
    requires
        spec_condition_term(s, i) == Some((cv, m1)),
        0 <= i < m1,
        some_spaces(wa),
        win(s, m1, wa, 0, wa.len() as int),
        spec_tag_match(s, m1 + wa.len(), "and"@),
        some_spaces(wb),
        win(s, m1 + wa.len() + 3, wb, 0, wb.len() as int),
        k == m1 + wa.len() + 3 + wb.len(),
        k < s.len(),
        !is_space_char(s[k]),
        spec_condition_expr(s, k) == Some((x, m)),
    ensures
        spec_condition_expr(s, i) == Some(
            (Condition::And(ConditionAnd { c1: Box::new(cv), c2: Box::new(x) }), m),
        ),
    decreases 0int,
{
    reveal_strlit("and");
    let a = m1 + wa.len();
    let b = a + 3;
    assert(s[m1 + 0] == wa[0]);
    assert forall|k2: int| m1 <= k2 < a implies is_space_char(s[k2]) by {
        assert(s[m1 + (k2 - m1)] == wa[k2 - m1]);
    }
    assert(s.subrange(a, a + 3)[0] == s[a]);
    assert(s[a] == 'a');
    lemma_ws_run(s, m1, a);
    assert(s[b + 0] == wb[0]);
    assert forall|k2: int| b <= k2 < k implies is_space_char(s[k2]) by {
        assert(s[b + (k2 - b)] == wb[k2 - b]);
    }
    lemma_ws_run(s, b, k);
    assert(spec_condition_and(s, i) == Some(
        (Condition::And(ConditionAnd { c1: Box::new(cv), c2: Box::new(x) }), m),
    ));
}

/// An expression that is a term, whitespace, `or`, whitespace, and a
/// known expression: the whole is their disjunction, nested to the right.
pub proof fn lemma_expr_of_term_or(
    s: Seq<char>,
    i: int,
    m1: int,
    cv: Condition,
    wa: Seq<char>,
    wb: Seq<char>,
    k: int,
    x: Condition,
    m: int,
)
    requires
        spec_condition_term(s, i) == Some((cv, m1)),
        0 <= i < m1,
        some_spaces(wa),
        win(s, m1, wa, 0, wa.len() as int),
        spec_tag_match(s, m1 + wa.len(), "or"@),
        some_spaces(wb),
        win(s, m1 + wa.len() + 2, wb, 0, wb.len() as int),
        k == m1 + wa.len() + 2 + wb.len(),
        k < s.len(),
        !is_space_char(s[k]),
        spec_condition_expr(s, k) == Some((x, m)),
    ensures
        spec_condition_expr(s, i) == Some(
            (Condition::Or(ConditionOr { c1: Box::new(cv), c2: Box::new(x) }), m),
        ),
    decreases 0int,
{
    reveal_strlit("and");
    reveal_strlit("or");
    let a = m1 + wa.len();
    let b = a + 2;
    assert(s[m1 + 0] == wa[0]);
    assert forall|k2: int| m1 <= k2 < a implies is_space_char(s[k2]) by {
        assert(s[m1 + (k2 - m1)] == wa[k2 - m1]);
    }
    assert(s.subrange(a, a + 2)[0] == s[a]);
    assert(s[a] == 'o');
    lemma_ws_run(s, m1, a);
    // the conjunction rule cannot match here
    lemma_tag_fail_at(s, a, "and"@, 0);
    assert(spec_condition_and(s, i) is None);
    assert(s[b + 0] == wb[0]);
    assert forall|k2: int| b <= k2 < k implies is_space_char(s[k2]) by {
        assert(s[b + (k2 - b)] == wb[k2 - b]);
    }
    lemma_ws_run(s, b, k);
    assert(spec_condition_or(s, i) == Some(
        (Condition::Or(ConditionOr { c1: Box::new(cv), c2: Box::new(x) }), m),
    ));
}

/// An expression that is `not`, whitespace, and a known expression: the
/// whole is its negation.
pub proof fn lemma_expr_of_not(
    s: Seq<char>,
    i: int,
    wa: Seq<char>,
    k: int,
    x: Condition,
    m: int,
)
    requires
        spec_tag_match(s, i, "not"@),
        0 <= i,
        some_spaces(wa),
        win(s, i + 3, wa, 0, wa.len() as int),
        k == i + 3 + wa.len(),
        k < s.len(),
        !is_space_char(s[k]),
        spec_condition_expr(s, k) == Some((x, m)),
    ensures
        spec_condition_expr(s, i) == Some(
            (Condition::Not(ConditionNot { c: Box::new(x) }), m),
        ),
    decreases 0int,
{
    reveal_strlit("not");
    reveal_strlit("Mon");
    reveal_strlit("Tue");
    reveal_strlit("Wed");
    reveal_strlit("Thu");
    reveal_strlit("Fri");
    reveal_strlit("Sat");
    reveal_strlit("Sun");
    reveal_strlit("atmost");
    // no term starts with the `n` of `not`, so `and` and `or` cannot match
    assert(s.subrange(i, i + 3)[0] == s[i]);
    assert(s[i] == 'n');
    lemma_tag_fail_at(s, i, "Mon"@, 0);
    lemma_tag_fail_at(s, i, "Tue"@, 0);
    lemma_tag_fail_at(s, i, "Wed"@, 0);
    lemma_tag_fail_at(s, i, "Thu"@, 0);
    lemma_tag_fail_at(s, i, "Fri"@, 0);
    lemma_tag_fail_at(s, i, "Sat"@, 0);
    lemma_tag_fail_at(s, i, "Sun"@, 0);
    lemma_tag_fail_at(s, i, "atmost"@, 0);
    assert(spec_condition_weekday(s, i) is None);
    assert(spec_atmost_prefix(s, i) is None);
    assert(spec_condition_atmost_this(s, i) is None);
    assert(spec_condition_atmost_sliding(s, i) is None);
    assert(spec_condition_term(s, i) is None);
    assert(spec_condition_and(s, i) is None);
    assert(spec_condition_or(s, i) is None);
    let a = i + 3;
    assert(s[a + 0] == wa[0]);
    assert forall|k2: int| a <= k2 < k implies is_space_char(s[k2]) by {
        assert(s[a + (k2 - a)] == wa[k2 - a]);
    }
    lemma_ws_run(s, a, k);
    assert(spec_condition_not(s, i) == Some(
        (Condition::Not(ConditionNot { c: Box::new(x) }), m),
    ));
}

/// A term wrapped in parentheses is a term again, with the same
/// tree.
pub proof fn lemma_term_paren(s: Seq<char>, i: int, t: Seq<char>)
    requires
        is_term_text(t),
        win(s, i + 1, t, 0, t.len() as int),
        0 <= i,
        s[i] == '(',
        i + 1 + t.len() < s.len(),
        s[i + 1 + t.len()] == ')',
    ensures
        spec_condition_term(s, i) == Some((term_value(t), i + t.len() + 2)),
    decreases 0int,
{
    let m = i + 1 + t.len();
    lemma_term_first(t);
    lemma_term_at(s, i + 1, t);
    assert(s[(i + 1) + 0] == t[0]);
    lemma_expr_of_term_then_close(s, i + 1, m, term_value(t));
    lemma_ws_run(s, i + 1, i + 1);
    lemma_ws_run(s, m, m);
}

// ---------------------------------------------------------------------------
// The laws themselves.
// ---------------------------------------------------------------------------

/// Whitespace around an expression is insignificant: any amount of
/// leading and trailing whitespace around a term parses to the term's own
/// tree.
pub proof fn lemma_whitespace_around_term(w0: Seq<char>, t: Seq<char>, w1: Seq<char>)
    requires
        all_spaces(w0),
        is_term_text(t),
        all_spaces(w1),
    ensures
        spec_parse_condition(w0 + t + w1) == Some(term_value(t)),
{
    let s = w0 + t + w1;
    let i0 = w0.len() as int;
    let n = t.len() as int;
    assert forall|k: int| 0 <= k < n implies #[trigger] s[i0 + k] == t[k] by {
        assert((w0 + t)[i0 + k] == t[k]);
    }
    assert forall|k: int| 0 <= k < i0 implies is_space_char(s[k]) by {
        assert((w0 + t)[k] == w0[k]);
    }
    assert forall|k: int| i0 + n <= k < s.len() implies is_space_char(s[k]) by {
        assert(s[k] == w1[k - (i0 + n)]);
    }
    lemma_term_first(t);
    assert(s[i0 + 0] == t[0]);
    lemma_ws_run(s, 0, i0);
    lemma_term_at(s, i0, t);
    lemma_expr_of_term_then_ws(s, i0, i0 + n, term_value(t));
}

/// Whitespace between the tokens of a conjunction is insignificant, and
/// the conjunction of two terms parses to their conjunction.
pub proof fn lemma_whitespace_around_and(
    w0: Seq<char>,
    ta: Seq<char>,
    wa: Seq<char>,
    wb: Seq<char>,
    tb: Seq<char>,
    w1: Seq<char>,
)
    requires
        all_spaces(w0),
        is_term_text(ta),
        some_spaces(wa),
        some_spaces(wb),
        is_term_text(tb),
        all_spaces(w1),
    ensures
        spec_parse_condition(w0 + ta + wa + "and"@ + wb + tb + w1) == Some(
            Condition::And(
                ConditionAnd { c1: Box::new(term_value(ta)), c2: Box::new(term_value(tb)) },
            ),
        ),
{
    reveal_strlit("and");
    let s = w0 + ta + wa + "and"@ + wb + tb + w1;
    let i0 = w0.len() as int;
    let na = ta.len() as int;
    let m1 = i0 + na;
    let a = m1 + wa.len();
    let b = a + 3;
    let k = b + wb.len();
    let nb = tb.len() as int;
    let m2 = k + nb;
    assert(s.len() == m2 + w1.len());
    // where each piece of the text sits
    assert forall|q: int| 0 <= q < i0 implies is_space_char(s[q]) by {
        assert(s[q] == w0[q]);
    }
    assert forall|q: int| 0 <= q < na implies #[trigger] s[i0 + q] == ta[q] by {
        assert(s[i0 + q] == ta[q]);
    }
    assert forall|q: int| 0 <= q < wa.len() implies #[trigger] s[m1 + q] == wa[q] by {
        assert(s[m1 + q] == wa[q]);
    }
    assert forall|q: int| 0 <= q < 3 implies #[trigger] s[a + q] == "and"@[q] by {
        assert(s[a + q] == "and"@[q]);
    }
    assert forall|q: int| 0 <= q < wb.len() implies #[trigger] s[b + q] == wb[q] by {
        assert(s[b + q] == wb[q]);
    }
    assert forall|q: int| 0 <= q < nb implies #[trigger] s[k + q] == tb[q] by {
        assert(s[k + q] == tb[q]);
    }
    assert forall|q: int| m2 <= q < s.len() implies is_space_char(s[q]) by {
        assert(s[q] == w1[q - m2]);
    }
    lemma_term_first(ta);
    lemma_term_first(tb);
    assert(s[i0 + 0] == ta[0]);
    assert(s[k + 0] == tb[0]);
    lemma_ws_run(s, 0, i0);
    lemma_term_at(s, i0, ta);
    lemma_term_at(s, k, tb);
    lemma_expr_of_term_then_ws(s, k, m2, term_value(tb));
    lemma_tag_here(s, a, "and"@);
    lemma_expr_of_term_and(s, i0, m1, term_value(ta), wa, wb, k, term_value(tb), m2);
}

/// Whitespace between the tokens of a disjunction is insignificant, and
/// the disjunction of two terms parses to their disjunction.
pub proof fn lemma_whitespace_around_or(
    w0: Seq<char>,
    ta: Seq<char>,
    wa: Seq<char>,
    wb: Seq<char>,
    tb: Seq<char>,
    w1: Seq<char>,
)
    requires
        all_spaces(w0),
        is_term_text(ta),
        some_spaces(wa),
        some_spaces(wb),
        is_term_text(tb),
        all_spaces(w1),
    ensures
        spec_parse_condition(w0 + ta + wa + "or"@ + wb + tb + w1) == Some(
            Condition::Or(
                ConditionOr { c1: Box::new(term_value(ta)), c2: Box::new(term_value(tb)) },
            ),
        ),
{
    reveal_strlit("or");
    let s = w0 + ta + wa + "or"@ + wb + tb + w1;
    let i0 = w0.len() as int;
    let na = ta.len() as int;
    let m1 = i0 + na;
    let a = m1 + wa.len();
    let b = a + 2;
    let k = b + wb.len();
    let nb = tb.len() as int;
    let m2 = k + nb;
    assert(s.len() == m2 + w1.len());
    // where each piece of the text sits
    assert forall|q: int| 0 <= q < i0 implies is_space_char(s[q]) by {
        assert(s[q] == w0[q]);
    }
    assert forall|q: int| 0 <= q < na implies #[trigger] s[i0 + q] == ta[q] by {
        assert(s[i0 + q] == ta[q]);
    }
    assert forall|q: int| 0 <= q < wa.len() implies #[trigger] s[m1 + q] == wa[q] by {
        assert(s[m1 + q] == wa[q]);
    }
    assert forall|q: int| 0 <= q < 2 implies #[trigger] s[a + q] == "or"@[q] by {
        assert(s[a + q] == "or"@[q]);
    }
    assert forall|q: int| 0 <= q < wb.len() implies #[trigger] s[b + q] == wb[q] by {
        assert(s[b + q] == wb[q]);
    }
    assert forall|q: int| 0 <= q < nb implies #[trigger] s[k + q] == tb[q] by {
        assert(s[k + q] == tb[q]);
    }
    assert forall|q: int| m2 <= q < s.len() implies is_space_char(s[q]) by {
        assert(s[q] == w1[q - m2]);
    }
    lemma_term_first(ta);
    lemma_term_first(tb);
    assert(s[i0 + 0] == ta[0]);
    assert(s[k + 0] == tb[0]);
    lemma_ws_run(s, 0, i0);
    lemma_term_at(s, i0, ta);
    lemma_term_at(s, k, tb);
    lemma_expr_of_term_then_ws(s, k, m2, term_value(tb));
    lemma_tag_here(s, a, "or"@);
    lemma_expr_of_term_or(s, i0, m1, term_value(ta), wa, wb, k, term_value(tb), m2);
}

/// Whitespace around a negation is insignificant, and the negation of a
/// term parses to its negation.
pub proof fn lemma_whitespace_around_not(
    w0: Seq<char>,
    wa: Seq<char>,
    t: Seq<char>,
    w1: Seq<char>,
)
    requires
        all_spaces(w0),
        some_spaces(wa),
        is_term_text(t),
        all_spaces(w1),
    ensures
        spec_parse_condition(w0 + "not"@ + wa + t + w1) == Some(
            Condition::Not(ConditionNot { c: Box::new(term_value(t)) }),
        ),
{
    reveal_strlit("not");
    let s = w0 + "not"@ + wa + t + w1;
    let i0 = w0.len() as int;
    let a = i0 + 3;
    let k = a + wa.len();
    let nt = t.len() as int;
    let m2 = k + nt;
    assert(s.len() == m2 + w1.len());
    // where each piece of the text sits
    assert forall|q: int| 0 <= q < i0 implies is_space_char(s[q]) by {
        assert(s[q] == w0[q]);
    }
    assert forall|q: int| 0 <= q < 3 implies #[trigger] s[i0 + q] == "not"@[q] by {
        assert(s[i0 + q] == "not"@[q]);
    }
    assert forall|q: int| 0 <= q < wa.len() implies #[trigger] s[a + q] == wa[q] by {
        assert(s[a + q] == wa[q]);
    }
    assert forall|q: int| 0 <= q < nt implies #[trigger] s[k + q] == t[q] by {
        assert(s[k + q] == t[q]);
    }
    assert forall|q: int| m2 <= q < s.len() implies is_space_char(s[q]) by {
        assert(s[q] == w1[q - m2]);
    }
    lemma_term_first(t);
    assert(s[k + 0] == t[0]);
    assert(s[i0 + 0] == 'n');
    lemma_ws_run(s, 0, i0);
    lemma_tag_here(s, i0, "not"@);
    lemma_term_at(s, k, t);
    lemma_expr_of_term_then_ws(s, k, m2, term_value(t));
    lemma_expr_of_not(s, i0, wa, k, term_value(t), m2);
}

/// `and` nests to the right: three terms joined by `and` parse as the
/// first term conjoined with the conjunction of the other two, never as a
/// left-nested tree.
pub proof fn lemma_and_right_associative(ta: Seq<char>, tb: Seq<char>, tc: Seq<char>)
    requires
        is_term_text(ta),
        is_term_text(tb),
        is_term_text(tc),
    ensures
        spec_parse_condition(ta + " and "@ + tb + " and "@ + tc) == Some(
            Condition::And(
                ConditionAnd {
                    c1: Box::new(term_value(ta)),
                    c2: Box::new(
                        Condition::And(
                            ConditionAnd {
                                c1: Box::new(term_value(tb)),
                                c2: Box::new(term_value(tc)),
                            },
                        ),
                    ),
                },
            ),
        ),
{
    reveal_strlit(" and ");
    reveal_strlit("and");
    let sp = " and "@;
    let s = ta + sp + tb + sp + tc;
    let na = ta.len() as int;
    let nb = tb.len() as int;
    let nc = tc.len() as int;
    let k1 = na + 5;
    let k2 = k1 + nb + 5;
    assert(s.len() == k2 + nc);
    assert forall|q: int| 0 <= q < na implies #[trigger] s[0 + q] == ta[q] by {
        assert(s[0 + q] == ta[q]);
    }
    assert forall|q: int| 0 <= q < 5 implies #[trigger] s[na + q] == sp[q] by {
        assert(s[na + q] == sp[q]);
    }
    assert forall|q: int| 0 <= q < nb implies #[trigger] s[k1 + q] == tb[q] by {
        assert(s[k1 + q] == tb[q]);
    }
    assert forall|q: int| 0 <= q < 5 implies #[trigger] s[(k1 + nb) + q] == sp[q] by {
        assert(s[(k1 + nb) + q] == sp[q]);
    }
    assert forall|q: int| 0 <= q < nc implies #[trigger] s[k2 + q] == tc[q] by {
        assert(s[k2 + q] == tc[q]);
    }
    lemma_term_first(ta);
    lemma_term_first(tb);
    lemma_term_first(tc);
    assert(s[0int + 0] == ta[0]);
    assert(s[k1 + 0] == tb[0]);
    assert(s[k2 + 0] == tc[0]);
    lemma_term_at(s, 0, ta);
    lemma_term_at(s, k1, tb);
    lemma_term_at(s, k2, tc);
    // the whole of `tc`, with nothing after it
    lemma_expr_of_term_then_ws(s, k2, k2 + nc, term_value(tc));
    // the single spaces around each `and`
    let wsp = seq![' '];
    assert(s[na] == ' ' && s[na + 4] == ' ');
    assert(s[(k1 + nb)] == ' ' && s[(k1 + nb) + 4] == ' ');
    assert forall|q: int| 0 <= q < 3 implies #[trigger] s[(na + 1) + q] == "and"@[q] by {
        assert(s[na + (1 + q)] == sp[1 + q]);
    }
    assert forall|q: int| 0 <= q < 3 implies #[trigger] s[(k1 + nb + 1) + q] == "and"@[q] by {
        assert(s[(k1 + nb) + (1 + q)] == sp[1 + q]);
    }
    lemma_tag_here(s, na + 1, "and"@);
    lemma_tag_here(s, k1 + nb + 1, "and"@);
    assert(win(s, na, wsp, 0, 1)) by {
        assert(s[na + 0] == sp[0]);
    }
    assert(win(s, na + 4, wsp, 0, 1)) by {
        assert(s[na + 4] == sp[4]);
        assert(s[(na + 4) + 0] == s[na + 4]);
    }
    assert(win(s, k1 + nb, wsp, 0, 1)) by {
        assert(s[(k1 + nb) + 0] == sp[0]);
    }
    assert(win(s, k1 + nb + 4, wsp, 0, 1)) by {
        assert(s[(k1 + nb) + 4] == sp[4]);
        assert(s[(k1 + nb + 4) + 0] == s[k1 + nb + 4]);
    }
    // the inner conjunction, nested on the right
    lemma_expr_of_term_and(
        s,
        k1,
        k1 + nb,
        term_value(tb),
        wsp,
        wsp,
        k2,
        term_value(tc),
        k2 + nc,
    );
    // the outer conjunction
    lemma_expr_of_term_and(
        s,
        0,
        na,
        term_value(ta),
        wsp,
        wsp,
        k1,
        Condition::And(
            ConditionAnd { c1: Box::new(term_value(tb)), c2: Box::new(term_value(tc)) },
        ),
        k2 + nc,
    );
    lemma_ws_run(s, 0, 0);
    lemma_ws_run(s, s.len() as int, s.len() as int);
}

/// Parentheses around the operands of a conjunction are transparent: the
/// parenthesized text parses to exactly the tree of the plain text.
pub proof fn lemma_parens_transparent(ta: Seq<char>, tb: Seq<char>)
    requires
        is_term_text(ta),
        is_term_text(tb),
    ensures
        spec_parse_condition("("@ + ta + ") and ("@ + tb + ")"@) == spec_parse_condition(
            ta + " and "@ + tb,
        ),
        spec_parse_condition(ta + " and "@ + tb) == Some(
            Condition::And(
                ConditionAnd { c1: Box::new(term_value(ta)), c2: Box::new(term_value(tb)) },
            ),
        ),
{
    reveal_strlit(" and ");
    reveal_strlit(") and (");
    reveal_strlit("(");
    reveal_strlit(")");
    reveal_strlit("and");
    let wsp = seq![' '];
    lemma_term_first(ta);
    lemma_term_first(tb);

    // the plain text
    let s1 = ta + " and "@ + tb;
    let na = ta.len() as int;
    let nb = tb.len() as int;
    let k = na + 5;
    assert(s1.len() == k + nb);
    assert forall|q: int| 0 <= q < na implies #[trigger] s1[0 + q] == ta[q] by {
        assert(s1[0 + q] == ta[q]);
    }
    assert forall|q: int| 0 <= q < 5 implies #[trigger] s1[na + q] == " and "@[q] by {
        assert(s1[na + q] == " and "@[q]);
    }
    assert forall|q: int| 0 <= q < nb implies #[trigger] s1[k + q] == tb[q] by {
        assert(s1[k + q] == tb[q]);
    }
    assert(s1[0int + 0] == ta[0]);
    assert(s1[k + 0] == tb[0]);
    lemma_term_at(s1, 0, ta);
    lemma_term_at(s1, k, tb);
    lemma_expr_of_term_then_ws(s1, k, k + nb, term_value(tb));
    assert forall|q: int| 0 <= q < 3 implies #[trigger] s1[(na + 1) + q] == "and"@[q] by {
        assert(s1[na + (1 + q)] == " and "@[1 + q]);
    }
    lemma_tag_here(s1, na + 1, "and"@);
    assert(win(s1, na, wsp, 0, 1)) by {
        assert(s1[na + 0] == " and "@[0]);
    }
    assert(win(s1, na + 4, wsp, 0, 1)) by {
        assert(s1[na + 4] == " and "@[4]);
        assert(s1[(na + 4) + 0] == s1[na + 4]);
    }
    lemma_expr_of_term_and(s1, 0, na, term_value(ta), wsp, wsp, k, term_value(tb), k + nb);
    lemma_ws_run(s1, 0, 0);
    lemma_ws_run(s1, s1.len() as int, s1.len() as int);

    // the parenthesized text
    let s2 = "("@ + ta + ") and ("@ + tb + ")"@;
    let p2 = na + 8;
    assert(s2.len() == p2 + nb + 1);
    assert forall|q: int| 0 <= q < na implies #[trigger] s2[1 + q] == ta[q] by {
        assert(s2[1 + q] == ta[q]);
    }
    assert forall|q: int| 0 <= q < 7 implies #[trigger] s2[(na + 1) + q] == ") and ("@[q] by {
        assert(s2[(na + 1) + q] == ") and ("@[q]);
    }
    assert forall|q: int| 0 <= q < nb implies #[trigger] s2[p2 + q] == tb[q] by {
        assert(s2[p2 + q] == tb[q]);
    }
    assert(s2[0] == '(');
    assert(s2[s2.len() - 1] == ')');
    assert(s2[1 + na] == ')');
    assert(s2[p2 - 1] == '(');
    lemma_term_paren(s2, 0, ta);
    lemma_term_paren(s2, p2 - 1, tb);
    assert(s2[(p2 - 1) + 0] == '(');
    lemma_expr_of_term_then_ws(s2, p2 - 1, s2.len() as int, term_value(tb));
    assert forall|q: int| 0 <= q < 3 implies #[trigger] s2[(na + 3) + q] == "and"@[q] by {
        assert(s2[(na + 1) + (2 + q)] == ") and ("@[2 + q]);
    }
    lemma_tag_here(s2, na + 3, "and"@);
    assert(win(s2, na + 2, wsp, 0, 1)) by {
        assert(s2[(na + 1) + 1] == ") and ("@[1]);
        assert(s2[(na + 2) + 0] == s2[na + 2]);
    }
    assert(win(s2, na + 6, wsp, 0, 1)) by {
        assert(s2[(na + 1) + 5] == ") and ("@[5]);
        assert(s2[(na + 6) + 0] == s2[na + 6]);
    }
    lemma_expr_of_term_and(
        s2,
        0,
        na + 2,
        term_value(ta),
        wsp,
        wsp,
        p2 - 1,
        term_value(tb),
        s2.len() as int,
    );
    lemma_ws_run(s2, 0, 0);
    lemma_ws_run(s2, s2.len() as int, s2.len() as int);
}

/// Parentheses around a whole condition are transparent: any text that
/// parses, wrapped in one more pair of parentheses, parses to the same
/// tree.
pub proof fn lemma_parens_around_whole(e: Seq<char>, c: Condition)
    requires
        spec_parse_condition(e) == Some(c),
    ensures
        spec_parse_condition("("@ + e + ")"@) == Some(c),
{
    reveal_strlit("(");
    reveal_strlit(")");
    reveal_strlit("and");
    reveal_strlit("or");
    reveal_strlit("not");
    let i0 = spec_ws_end(e, 0);
    lemma_ws_end_props(e, 0);
    let re = spec_condition_expr(e, i0);
    assert(re is Some);
    let (c0, j) = re->Some_0;
    assert(c0 == c);
    assert(spec_ws_end(e, j) == e.len());
    lemma_ws_end_props(e, j);
    lemma_expr_bounds(e, i0, c0, j);

    let s = "("@ + e + ")"@;
    let ne = e.len() as int;
    assert(s.len() == ne + 2);
    assert forall|q: int| 0 <= q < ne implies #[trigger] s[1 + q] == e[q] by {
        assert(s[1 + q] == e[q]);
    }
    assert(s[0] == '(');
    assert(s[1 + ne] == ')');
    // leading whitespace inside the parentheses, ended by the expression
    assert forall|k: int| 1 <= k < 1 + i0 implies is_space_char(s[k]) by {
        assert(s[1 + (k - 1)] == e[k - 1]);
    }
    assert(s[1 + i0] == e[i0]);
    lemma_ws_run(s, 1, 1 + i0);
    // the expression, guarded by the appended closing parenthesis
    assert(win(s, 1, e, 0, ne));
    lemma_win_sub(s, 1, e, 0, ne, i0, ne - i0);
    lemma_expr_stable_guarded(s, 1 + i0, e, i0, c0, j, ne, 1 + ne);
    // the trailing whitespace, ended by that parenthesis
    assert forall|k: int| 1 + j <= k < 1 + ne implies is_space_char(s[k]) by {
        assert(s[1 + (k - 1)] == e[k - 1]);
    }
    lemma_ws_run(s, 1 + j, 1 + ne);
    assert(spec_condition_term(s, 0) == Some((c, s.len() as int)));
    // the whole input is that one parenthesized term
    assert(spec_condition_and(s, 0) is None);
    assert(spec_condition_or(s, 0) is None);
    lemma_tag_fail_at(s, 0, "not"@, 0);
    assert(spec_condition_not(s, 0) is None);
    lemma_ws_run(s, 0, 0);
    lemma_ws_run(s, s.len() as int, s.len() as int);
}

/// Whitespace around a whole condition is insignificant: any text that
/// parses still parses, to the same tree, with arbitrary whitespace
/// before and after it.
pub proof fn lemma_whitespace_around_condition(
    w0: Seq<char>,
    e: Seq<char>,
    w1: Seq<char>,
    c: Condition,
)
    requires
        all_spaces(w0),
        spec_parse_condition(e) == Some(c),
        all_spaces(w1),
    ensures
        spec_parse_condition(w0 + e + w1) == Some(c),
{
    let i0 = spec_ws_end(e, 0);
    lemma_ws_end_props(e, 0);
    let re = spec_condition_expr(e, i0);
    assert(re is Some);
    let (c0, j) = re->Some_0;
    assert(c0 == c);
    assert(spec_ws_end(e, j) == e.len());
    lemma_ws_end_props(e, j);
    lemma_expr_bounds(e, i0, c0, j);

    let s = w0 + e + w1;
    let n0 = w0.len() as int;
    let ne = e.len() as int;
    assert(s.len() == n0 + ne + w1.len());
    assert forall|q: int| 0 <= q < ne implies #[trigger] s[n0 + q] == e[q] by {
        assert(s[n0 + q] == e[q]);
    }
    // the leading whitespace runs to the expression's first character
    assert forall|k: int| 0 <= k < n0 + i0 implies is_space_char(s[k]) by {
        if k < n0 {
            assert(s[k] == w0[k]);
        } else {
            assert(s[n0 + (k - n0)] == e[k - n0]);
        }
    }
    assert(s[n0 + i0] == e[i0]);
    lemma_ws_run(s, 0, n0 + i0);
    // the expression, guarded by the end of the input
    assert(win(s, n0, e, 0, ne));
    lemma_win_sub(s, n0, e, 0, ne, i0, ne - i0);
    assert forall|k: int| n0 + ne <= k < s.len() implies is_space_char(s[k]) by {
        assert(s[k] == w1[k - (n0 + ne)]);
    }
    lemma_expr_stable_guarded(s, n0 + i0, e, i0, c0, j, ne, s.len() as int);
    // everything after the expression is whitespace to the end
    assert forall|k: int| n0 + j <= k < s.len() implies is_space_char(s[k]) by {
        if k < n0 + ne {
            assert(s[n0 + (k - n0)] == e[k - n0]);
        } else {
            assert(s[k] == w1[k - (n0 + ne)]);
        }
    }
    lemma_ws_run(s, n0 + j, s.len() as int);
}

} // verus!
