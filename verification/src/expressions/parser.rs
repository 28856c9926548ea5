//! The condition expression language: abstract syntax and a recursive-descent
//! parser for boolean conditions over weekdays and usage thresholds.
//!
//! Grammar (ordered choice, `expr` is the entry point):
//! ```text
//! expr   := and | or | not | term
//! and    := term WS1 "and" WS1 expr
//! or     := term WS1 "or"  WS1 expr
//! not    := "not" WS1 expr
//! term   := "(" WS0 expr WS0 ")" | weekday | atmost_this | atmost_sliding
//! weekday:= "Mon"|"Tue"|"Wed"|"Thu"|"Fri"|"Sat"|"Sun"
//! atmost_this    := "atmost" WS1 duration WS1 "in" WS1 "this" WS1 time_unit
//! atmost_sliding := "atmost" WS1 duration WS1 "in" WS1 "sliding" WS1 duration
//! duration       := digits WS1 [smhDW]
//! time_unit      := "second"|"minute"|"hour"|"day"|"week"|"month"|"year"
//! ```
//! `and`/`or` are right-associative by construction: the left operand is a
//! non-recursive `term`, the right operand recurses into `expr`.
use vstd::prelude::*;
use vstd::string::StrSliceExecFns;
use vstd::string::StringExecFns;

verus! {

/// A boolean condition over the evaluation instant and the usage ledger.
#[derive(Debug, PartialEq, Eq)]
pub enum Condition {
    And(ConditionAnd),
    Or(ConditionOr),
    Not(ConditionNot),
    Weekday(ConditionWeekday),
    AtMostInSliding(ConditionAtMostInSliding),
    AtMostInThis(ConditionAtMostInThis),
}

#[derive(Debug, PartialEq, Eq)]
pub struct ConditionAnd {
    pub c1: Box<Condition>,
    pub c2: Box<Condition>,
}

#[derive(Debug, PartialEq, Eq)]
pub struct ConditionOr {
    pub c1: Box<Condition>,
    pub c2: Box<Condition>,
}

#[derive(Debug, PartialEq, Eq)]
pub struct ConditionNot {
    pub c: Box<Condition>,
}

#[derive(Clone, Copy, Debug, PartialEq, Eq, Structural)]
pub enum ConditionWeekday {
    Mon,
    Tue,
    Wed,
    Thu,
    Fri,
    Sat,
    Sun,
}

/// True iff usage in the sliding window `[now - window_size, now]` is
/// strictly below `limit`.
#[derive(Debug, PartialEq, Eq)]
pub struct ConditionAtMostInSliding {
    pub limit: Duration,
    pub window_size: Duration,
}

/// True iff usage since the start of the current calendar period is
/// strictly below `limit`.
#[derive(Debug, PartialEq, Eq)]
pub struct ConditionAtMostInThis {
    pub limit: Duration,
    pub time_unit: TimeUnit,
}

/// A non-negative count of seconds.
#[derive(Clone, Copy, Debug, PartialEq, Eq, Structural)]
pub struct Duration {
    pub seconds: u64,
}

/// A calendar unit for the calendar-aligned ("this ...") usage windows.
#[derive(Clone, Copy, Debug, PartialEq, Eq, Structural)]
pub enum TimeUnit {
    Second,
    Minute,
    Hour,
    Day,
    Week,
    Month,
    Year,
}

// ---------------------------------------------------------------------------
// Specification of the grammar, as functions over sequences of characters.
// Each partial parser takes the input and a start position and yields the
// parsed value together with the position just past the consumed input, or
// nothing when the input does not match.
// ---------------------------------------------------------------------------

pub open spec fn is_space_char(c: char) -> bool {
    c == ' ' || c == '\t' || c == '\n' || c == '\r'
}

/// First position at or after `i` holding a non-space character (or the end).
pub open spec fn spec_ws_end(s: Seq<char>, i: int) -> int
    decreases s.len() - i,
{
    if 0 <= i < s.len() && is_space_char(s[i]) {
        spec_ws_end(s, i + 1)
    } else {
        i
    }
}

pub open spec fn spec_tag_match(s: Seq<char>, i: int, t: Seq<char>) -> bool {
    0 <= i && i + t.len() <= s.len() && s.subrange(i, i + t.len()) == t
}

pub open spec fn is_digit_char(c: char) -> bool {
    '0' <= c && c <= '9'
}

pub open spec fn digit_val(c: char) -> int {
    c as int - '0' as int
}

/// First position at or after `i` holding a non-digit character (or the end).
pub open spec fn spec_digits_end(s: Seq<char>, i: int) -> int
    decreases s.len() - i,
{
    if 0 <= i < s.len() && is_digit_char(s[i]) {
        spec_digits_end(s, i + 1)
    } else {
        i
    }
}

/// Value of the decimal digit run `s[i..j)`.
pub open spec fn spec_digits_val(s: Seq<char>, i: int, j: int) -> int
    decreases j - i,
{
    if i < j {
        spec_digits_val(s, i, j - 1) * 10 + digit_val(s[j - 1])
    } else {
        0
    }
}

/// An unsigned integer literal: one or more ASCII digits, whose value must
/// fit in 64 bits.
pub open spec fn spec_integer(s: Seq<char>, i: int) -> Option<(u64, int)> {
    let j = spec_digits_end(s, i);
    if j == i {
        None
    } else {
        let v = spec_digits_val(s, i, j);
        if v <= u64::MAX {
            Some((v as u64, j))
        } else {
            None
        }
    }
}

pub open spec fn is_duration_unit(c: char) -> bool {
    c == 's' || c == 'm' || c == 'h' || c == 'D' || c == 'W'
}

pub open spec fn unit_multiplier(c: char) -> int {
    if c == 's' {
        1
    } else if c == 'm' {
        60
    } else if c == 'h' {
        3600
    } else if c == 'D' {
        86400
    } else if c == 'W' {
        604800
    } else {
        0
    }
}

/// A duration literal: an integer, one or more spaces, and a unit letter.
/// The seconds count must fit in 64 bits.
pub open spec fn spec_duration(s: Seq<char>, i: int) -> Option<(Duration, int)> {
    match spec_integer(s, i) {
        None => None,
        Some((num, j)) => {
            if j < s.len() && is_space_char(s[j]) {
                let k = spec_ws_end(s, j);
                if k < s.len() && is_duration_unit(s[k]) {
                    let total = num as int * unit_multiplier(s[k]);
                    if total <= u64::MAX {
                        Some((Duration { seconds: total as u64 }, k + 1))
                    } else {
                        None
                    }
                } else {
                    None
                }
            } else {
                None
            }
        }
    }
}

pub open spec fn spec_time_unit(s: Seq<char>, i: int) -> Option<(TimeUnit, int)> {
    if spec_tag_match(s, i, "second"@) {
        Some((TimeUnit::Second, i + 6))
    } else if spec_tag_match(s, i, "minute"@) {
        Some((TimeUnit::Minute, i + 6))
    } else if spec_tag_match(s, i, "hour"@) {
        Some((TimeUnit::Hour, i + 4))
    } else if spec_tag_match(s, i, "day"@) {
        Some((TimeUnit::Day, i + 3))
    } else if spec_tag_match(s, i, "week"@) {
        Some((TimeUnit::Week, i + 4))
    } else if spec_tag_match(s, i, "month"@) {
        Some((TimeUnit::Month, i + 5))
    } else if spec_tag_match(s, i, "year"@) {
        Some((TimeUnit::Year, i + 4))
    } else {
        None
    }
}

pub open spec fn spec_condition_weekday(s: Seq<char>, i: int) -> Option<(Condition, int)> {
    if spec_tag_match(s, i, "Mon"@) {
        Some((Condition::Weekday(ConditionWeekday::Mon), i + 3))
    } else if spec_tag_match(s, i, "Tue"@) {
        Some((Condition::Weekday(ConditionWeekday::Tue), i + 3))
    } else if spec_tag_match(s, i, "Wed"@) {
        Some((Condition::Weekday(ConditionWeekday::Wed), i + 3))
    } else if spec_tag_match(s, i, "Thu"@) {
        Some((Condition::Weekday(ConditionWeekday::Thu), i + 3))
    } else if spec_tag_match(s, i, "Fri"@) {
        Some((Condition::Weekday(ConditionWeekday::Fri), i + 3))
    } else if spec_tag_match(s, i, "Sat"@) {
        Some((Condition::Weekday(ConditionWeekday::Sat), i + 3))
    } else if spec_tag_match(s, i, "Sun"@) {
        Some((Condition::Weekday(ConditionWeekday::Sun), i + 3))
    } else {
        None
    }
}

/// The shared prefix of both threshold forms: `"atmost" WS1 duration WS1
/// "in" WS1`. Yields the limit and the position just past the whitespace
/// following `"in"`.
pub open spec fn spec_atmost_prefix(s: Seq<char>, i: int) -> Option<(Duration, int)> {
    if spec_tag_match(s, i, "atmost"@) {
        let a = i + 6;
        if a < s.len() && is_space_char(s[a]) {
            let b = spec_ws_end(s, a);
            match spec_duration(s, b) {
                None => None,
                Some((limit, c)) => {
                    if c < s.len() && is_space_char(s[c]) {
                        let d = spec_ws_end(s, c);
                        if spec_tag_match(s, d, "in"@) {
                            let e = d + 2;
                            if e < s.len() && is_space_char(s[e]) {
                                Some((limit, spec_ws_end(s, e)))
                            } else {
                                None
                            }
                        } else {
                            None
                        }
                    } else {
                        None
                    }
                }
            }
        } else {
            None
        }
    } else {
        None
    }
}

pub open spec fn spec_condition_atmost_this(s: Seq<char>, i: int) -> Option<(Condition, int)> {
    match spec_atmost_prefix(s, i) {
        None => None,
        Some((limit, p)) => {
            if spec_tag_match(s, p, "this"@) {
                let q = p + 4;
                if q < s.len() && is_space_char(s[q]) {
                    let w = spec_ws_end(s, q);
                    match spec_time_unit(s, w) {
                        None => None,
                        Some((u, j)) => Some(
                            (Condition::AtMostInThis(ConditionAtMostInThis { limit, time_unit: u }), j),
                        ),
                    }
                } else {
                    None
                }
            } else {
                None
            }
        }
    }
}

pub open spec fn spec_condition_atmost_sliding(s: Seq<char>, i: int) -> Option<(Condition, int)> {
    match spec_atmost_prefix(s, i) {
        None => None,
        Some((limit, p)) => {
            if spec_tag_match(s, p, "sliding"@) {
                let q = p + 7;
                if q < s.len() && is_space_char(s[q]) {
                    let w = spec_ws_end(s, q);
                    match spec_duration(s, w) {
                        None => None,
                        Some((window, j)) => Some(
                            (Condition::AtMostInSliding(
                                ConditionAtMostInSliding { limit, window_size: window },
                            ), j),
                        ),
                    }
                } else {
                    None
                }
            } else {
                None
            }
        }
    }
}

/// A term: a parenthesized expression, a weekday, or a threshold form. The
/// branches are mutually exclusive on the first character, so the ordered
/// choice of the grammar reduces to a case split.
pub open spec fn spec_condition_term(s: Seq<char>, i: int) -> Option<(Condition, int)>
    decreases s.len() - i, 1int,
{
    if 0 <= i < s.len() && s[i] == '(' {
        let a = spec_ws_end(s, i + 1);
        if i + 1 <= a <= s.len() {
            match spec_condition_expr(s, a) {
                None => None,
                Some((c, m)) => {
                    let b = spec_ws_end(s, m);
                    if 0 <= b < s.len() && s[b] == ')' {
                        Some((c, b + 1))
                    } else {
                        None
                    }
                }
            }
        } else {
            None
        }
    } else {
        match spec_condition_weekday(s, i) {
            Some(r) => Some(r),
            None => match spec_condition_atmost_this(s, i) {
                Some(r) => Some(r),
                None => spec_condition_atmost_sliding(s, i),
            },
        }
    }
}

pub open spec fn spec_condition_and(s: Seq<char>, i: int) -> Option<(Condition, int)>
    decreases s.len() - i, 2int,
{
    match spec_condition_term(s, i) {
        None => None,
        Some((c1, m)) => {
            if m < s.len() && is_space_char(s[m]) {
                let a = spec_ws_end(s, m);
                if spec_tag_match(s, a, "and"@) {
                    let b = a + 3;
                    if b < s.len() && is_space_char(s[b]) {
                        let k = spec_ws_end(s, b);
                        if i < k && k <= s.len() {
                            match spec_condition_expr(s, k) {
                                None => None,
                                Some((c2, j)) => Some(
                                    (Condition::And(
                                        ConditionAnd { c1: Box::new(c1), c2: Box::new(c2) },
                                    ), j),
                                ),
                            }
                        } else {
                            None
                        }
                    } else {
                        None
                    }
                } else {
                    None
                }
            } else {
                None
            }
        }
    }
}

pub open spec fn spec_condition_or(s: Seq<char>, i: int) -> Option<(Condition, int)>
    decreases s.len() - i, 2int,
{
    match spec_condition_term(s, i) {
        None => None,
        Some((c1, m)) => {
            if m < s.len() && is_space_char(s[m]) {
                let a = spec_ws_end(s, m);
                if spec_tag_match(s, a, "or"@) {
                    let b = a + 2;
                    if b < s.len() && is_space_char(s[b]) {
                        let k = spec_ws_end(s, b);
                        if i < k && k <= s.len() {
                            match spec_condition_expr(s, k) {
                                None => None,
                                Some((c2, j)) => Some(
                                    (Condition::Or(
                                        ConditionOr { c1: Box::new(c1), c2: Box::new(c2) },
                                    ), j),
                                ),
                            }
                        } else {
                            None
                        }
                    } else {
                        None
                    }
                } else {
                    None
                }
            } else {
                None
            }
        }
    }
}

pub open spec fn spec_condition_not(s: Seq<char>, i: int) -> Option<(Condition, int)>
    decreases s.len() - i, 2int,
{
    if spec_tag_match(s, i, "not"@) {
        let a = i + 3;
        if a < s.len() && is_space_char(s[a]) {
            let k = spec_ws_end(s, a);
            if i < k && k <= s.len() {
                match spec_condition_expr(s, k) {
                    None => None,
                    Some((c, j)) => Some((Condition::Not(ConditionNot { c: Box::new(c) }), j)),
                }
            } else {
                None
            }
        } else {
            None
        }
    } else {
        None
    }
}

/// An expression: the first of `and`, `or`, `not`, `term` that matches.
pub open spec fn spec_condition_expr(s: Seq<char>, i: int) -> Option<(Condition, int)>
    decreases s.len() - i, 3int,
{
    if spec_condition_and(s, i) is Some {
        spec_condition_and(s, i)
    } else if spec_condition_or(s, i) is Some {
        spec_condition_or(s, i)
    } else if spec_condition_not(s, i) is Some {
        spec_condition_not(s, i)
    } else {
        spec_condition_term(s, i)
    }
}

/// The whole-input condition parse: optional surrounding whitespace, one
/// expression, and nothing else.
pub open spec fn spec_parse_condition(s: Seq<char>) -> Option<Condition> {
    match spec_condition_expr(s, spec_ws_end(s, 0)) {
        None => None,
        Some((c, j)) => {
            if spec_ws_end(s, j) == s.len() {
                Some(c)
            } else {
                None
            }
        }
    }
}

/// The whole-input duration parse: optional surrounding whitespace, one
/// duration literal, and nothing else.
pub open spec fn spec_parse_duration(s: Seq<char>) -> Option<Duration> {
    match spec_duration(s, spec_ws_end(s, 0)) {
        None => None,
        Some((d, j)) => {
            if spec_ws_end(s, j) == s.len() {
                Some(d)
            } else {
                None
            }
        }
    }
}

// ---------------------------------------------------------------------------
// Executable parser. Every function mirrors its specification exactly.
// ---------------------------------------------------------------------------

/// How far an attempted parse has reached: the deepest position at which
/// some rule of the grammar was tried, and which rule it was. Kept for
/// diagnostics only; no contract depends on it.
struct ParseDepth {
    pos: usize,
    rule: u8,
}

const RULE_EXPRESSION: u8 = 0;

const RULE_TERM: u8 = 1;

const RULE_NUMBER: u8 = 2;

const RULE_DURATION: u8 = 3;

const RULE_UNIT: u8 = 4;

const RULE_TIME_UNIT: u8 = 5;

const RULE_THRESHOLD: u8 = 6;

const RULE_CLOSE: u8 = 7;

/// Record that `rule` was tried at `pos`, keeping the deepest attempt.
fn note_attempt(diag: &mut ParseDepth, pos: usize, rule: u8) {
    if pos >= diag.pos {
        diag.pos = pos;
        diag.rule = rule;
    }
}

/// The grammar rule a depth record points at, in words.
fn rule_name(rule: u8) -> &'static str {
    if rule == RULE_TERM {
        "a term"
    } else if rule == RULE_NUMBER {
        "a number"
    } else if rule == RULE_DURATION {
        "a duration"
    } else if rule == RULE_UNIT {
        "a duration unit letter"
    } else if rule == RULE_TIME_UNIT {
        "a calendar unit"
    } else if rule == RULE_THRESHOLD {
        "a threshold form"
    } else if rule == RULE_CLOSE {
        "a closing parenthesis"
    } else {
        "a condition"
    }
}

fn is_space_ch(c: char) -> (b: bool)
    ensures
        b == is_space_char(c),
{
    c == ' ' || c == '\t' || c == '\n' || c == '\r'
}

fn is_digit_ch(c: char) -> (b: bool)
    ensures
        b == is_digit_char(c),
{
    '0' <= c && c <= '9'
}

/// Advance past spaces, tabs and newlines.
fn skip_ws(s: &str, pos: usize, n: usize) -> (j: usize)
    requires
        n == s@.len(),
        pos <= n,
    ensures
        j as int == spec_ws_end(s@, pos as int),
        pos <= j <= n,
{
    let mut j: usize = pos;
    while j < n && is_space_ch(s.get_char(j))
        invariant
            n == s@.len(),
            pos <= j <= n,
            spec_ws_end(s@, pos as int) == spec_ws_end(s@, j as int),
        decreases n - j,
    {
        j += 1;
    }
    j
}

/// Does the literal `tag` occur in `s` at position `pos`?
fn match_tag(s: &str, pos: usize, n: usize, tag: &str) -> (b: bool)
    requires
        n == s@.len(),
        pos <= n,
    ensures
        b == spec_tag_match(s@, pos as int, tag@),
{
    let tlen = tag.unicode_len();
    if tlen > n - pos {
        return false;
    }
    let mut k: usize = 0;
    while k < tlen
        invariant
            n == s@.len(),
            tlen == tag@.len(),
            pos + tlen <= n,
            0 <= k <= tlen,
            forall|q: int| 0 <= q < k ==> s@[pos + q] == tag@[q],
        decreases tlen - k,
    {
        if s.get_char(pos + k) != tag.get_char(k) {
            proof {
                assert(s@.subrange(pos as int, pos + tag@.len())[k as int] == s@[pos + k]);
            }
            return false;
        }
        k += 1;
    }
    proof {
        assert(s@.subrange(pos as int, pos + tag@.len()) =~= tag@);
    }
    true
}

proof fn lemma_digits_val_bounds(s: Seq<char>, i: int, j: int)
    requires
        0 <= i <= j <= s.len(),
        forall|k: int| i <= k < j ==> is_digit_char(s[k]),
    ensures
        spec_digits_val(s, i, j) >= 0,
        i < j ==> spec_digits_val(s, i, j) >= spec_digits_val(s, i, j - 1),
    decreases j - i,
{
    if i < j {
        lemma_digits_val_bounds(s, i, j - 1);
        assert(spec_digits_val(s, i, j) == spec_digits_val(s, i, j - 1) * 10 + digit_val(s[j - 1]));
        assert(spec_digits_val(s, i, j - 1) * 10 >= spec_digits_val(s, i, j - 1)) by (nonlinear_arith)
            requires
                spec_digits_val(s, i, j - 1) >= 0,
        ;
    }
}

/// An integer literal: a run of digits whose value fits in 64 bits.
fn integer(s: &str, pos: usize, n: usize, diag: &mut ParseDepth) -> (r: Option<(u64, usize)>)
    requires
        n == s@.len(),
        pos <= n,
    ensures
        (r is None) == (spec_integer(s@, pos as int) is None),
        r matches Some(p) ==> spec_integer(s@, pos as int) == Some((p.0, p.1 as int)) && pos < p.1
            <= n,
{
    note_attempt(diag, pos, RULE_NUMBER);
    let mut j: usize = pos;
    let mut acc: u64 = 0;
    let mut overflow: bool = false;
    while j < n && is_digit_ch(s.get_char(j))
        invariant
            n == s@.len(),
            pos <= j <= n,
            spec_digits_end(s@, pos as int) == spec_digits_end(s@, j as int),
            forall|k: int| pos <= k < j ==> is_digit_char(s@[k]),
            !overflow ==> acc as int == spec_digits_val(s@, pos as int, j as int),
            overflow ==> spec_digits_val(s@, pos as int, j as int) > u64::MAX,
        decreases n - j,
    {
        let c = s.get_char(j);
        let d: u64 = (c as u32 as u64) - 48;
        proof {
            assert(d == digit_val(c));
            lemma_digits_val_bounds(s@, pos as int, j + 1);
        }
        if overflow || acc > (u64::MAX - d) / 10 {
            proof {
                if !overflow {
                    let q = (u64::MAX - d) / 10;
                    assert(10 * q <= u64::MAX - d < 10 * q + 10) by (nonlinear_arith)
                        requires
                            q == (u64::MAX - d) / 10,
                            d <= 9,
                    ;
                    assert(acc * 10 >= (q + 1) * 10) by (nonlinear_arith)
                        requires
                            acc >= q + 1,
                    ;
                }
                assert(spec_digits_val(s@, pos as int, j + 1) > u64::MAX);
            }
            overflow = true;
        } else {
            proof {
                let q = (u64::MAX - d) / 10;
                assert(10 * q <= u64::MAX - d) by (nonlinear_arith)
                    requires
                        q == (u64::MAX - d) / 10,
                        d <= 9,
                ;
                assert(acc * 10 <= q * 10) by (nonlinear_arith)
                    requires
                        acc <= q,
                ;
            }
            acc = acc * 10 + d;
        }
        j += 1;
    }
    if j == pos {
        None
    } else if overflow {
        None
    } else {
        Some((acc, j))
    }
}

/// A duration literal: integer, whitespace, unit letter.
fn duration(s: &str, pos: usize, n: usize, diag: &mut ParseDepth) -> (r: Option<(Duration, usize)>)
    requires
        n == s@.len(),
        pos <= n,
    ensures
        (r is None) == (spec_duration(s@, pos as int) is None),
        r matches Some(p) ==> spec_duration(s@, pos as int) == Some((p.0, p.1 as int)) && pos < p.1
            <= n,
{
    note_attempt(diag, pos, RULE_DURATION);
    match integer(s, pos, n, diag) {
        None => None,
        Some((num, j)) => {
            if j < n && is_space_ch(s.get_char(j)) {
                let k = skip_ws(s, j, n);
                note_attempt(diag, k, RULE_UNIT);
                if k < n {
                    let c = s.get_char(k);
                    let mult: u64 = if c == 's' {
                        1
                    } else if c == 'm' {
                        60
                    } else if c == 'h' {
                        3600
                    } else if c == 'D' {
                        86400
                    } else if c == 'W' {
                        604800
                    } else {
                        return None;
                    };
                    proof {
                        assert(mult == unit_multiplier(c));
                    }
                    match num.checked_mul(mult) {
                        Some(total) => Some((Duration { seconds: total }, k + 1)),
                        None => None,
                    }
                } else {
                    None
                }
            } else {
                None
            }
        }
    }
}

fn time_unit(s: &str, pos: usize, n: usize, diag: &mut ParseDepth) -> (r: Option<(TimeUnit, usize)>)
    requires
        n == s@.len(),
        pos <= n,
    ensures
        (r is None) == (spec_time_unit(s@, pos as int) is None),
        r matches Some(p) ==> spec_time_unit(s@, pos as int) == Some((p.0, p.1 as int)) && pos < p.1
            <= n,
{
    proof {
        reveal_strlit("second");
        reveal_strlit("minute");
        reveal_strlit("hour");
        reveal_strlit("day");
        reveal_strlit("week");
        reveal_strlit("month");
        reveal_strlit("year");
    }
    note_attempt(diag, pos, RULE_TIME_UNIT);
    if match_tag(s, pos, n, "second") {
        Some((TimeUnit::Second, pos + 6))
    } else if match_tag(s, pos, n, "minute") {
        Some((TimeUnit::Minute, pos + 6))
    } else if match_tag(s, pos, n, "hour") {
        Some((TimeUnit::Hour, pos + 4))
    } else if match_tag(s, pos, n, "day") {
        Some((TimeUnit::Day, pos + 3))
    } else if match_tag(s, pos, n, "week") {
        Some((TimeUnit::Week, pos + 4))
    } else if match_tag(s, pos, n, "month") {
        Some((TimeUnit::Month, pos + 5))
    } else if match_tag(s, pos, n, "year") {
        Some((TimeUnit::Year, pos + 4))
    } else {
        None
    }
}

fn condition_weekday(s: &str, pos: usize, n: usize) -> (r: Option<(Condition, usize)>)
    requires
        n == s@.len(),
        pos <= n,
    ensures
        (r is None) == (spec_condition_weekday(s@, pos as int) is None),
        r matches Some(p) ==> spec_condition_weekday(s@, pos as int) == Some((p.0, p.1 as int))
            && pos < p.1 <= n,
{
    proof {
        reveal_strlit("Mon");
        reveal_strlit("Tue");
        reveal_strlit("Wed");
        reveal_strlit("Thu");
        reveal_strlit("Fri");
        reveal_strlit("Sat");
        reveal_strlit("Sun");
    }
    if match_tag(s, pos, n, "Mon") {
        Some((Condition::Weekday(ConditionWeekday::Mon), pos + 3))
    } else if match_tag(s, pos, n, "Tue") {
        Some((Condition::Weekday(ConditionWeekday::Tue), pos + 3))
    } else if match_tag(s, pos, n, "Wed") {
        Some((Condition::Weekday(ConditionWeekday::Wed), pos + 3))
    } else if match_tag(s, pos, n, "Thu") {
        Some((Condition::Weekday(ConditionWeekday::Thu), pos + 3))
    } else if match_tag(s, pos, n, "Fri") {
        Some((Condition::Weekday(ConditionWeekday::Fri), pos + 3))
    } else if match_tag(s, pos, n, "Sat") {
        Some((Condition::Weekday(ConditionWeekday::Sat), pos + 3))
    } else if match_tag(s, pos, n, "Sun") {
        Some((Condition::Weekday(ConditionWeekday::Sun), pos + 3))
    } else {
        None
    }
}

/// The shared `"atmost" WS1 duration WS1 "in" WS1` prefix of the two
/// threshold forms.
fn atmost_prefix(s: &str, pos: usize, n: usize, diag: &mut ParseDepth) -> (r: Option<(Duration, usize)>)
    requires
        n == s@.len(),
        pos <= n,
    ensures
        (r is None) == (spec_atmost_prefix(s@, pos as int) is None),
        r matches Some(p) ==> spec_atmost_prefix(s@, pos as int) == Some((p.0, p.1 as int)) && pos
            < p.1 <= n,
{
    proof {
        reveal_strlit("atmost");
        reveal_strlit("in");
    }
    if match_tag(s, pos, n, "atmost") {
        note_attempt(diag, pos, RULE_THRESHOLD);
        let a = pos + 6;
        if a < n && is_space_ch(s.get_char(a)) {
            let b = skip_ws(s, a, n);
            match duration(s, b, n, diag) {
                None => None,
                Some((limit, c)) => {
                    if c < n && is_space_ch(s.get_char(c)) {
                        let d = skip_ws(s, c, n);
                        if match_tag(s, d, n, "in") {
                            let e = d + 2;
                            if e < n && is_space_ch(s.get_char(e)) {
                                Some((limit, skip_ws(s, e, n)))
                            } else {
                                None
                            }
                        } else {
                            None
                        }
                    } else {
                        None
                    }
                }
            }
        } else {
            None
        }
    } else {
        None
    }
}

fn condition_atmost_this(s: &str, pos: usize, n: usize, diag: &mut ParseDepth) -> (r: Option<(Condition, usize)>)
    requires
        n == s@.len(),
        pos <= n,
    ensures
        (r is None) == (spec_condition_atmost_this(s@, pos as int) is None),
        r matches Some(p) ==> spec_condition_atmost_this(s@, pos as int) == Some((p.0, p.1 as int))
            && pos < p.1 <= n,
{
    proof {
        reveal_strlit("this");
    }
    match atmost_prefix(s, pos, n, diag) {
        None => None,
        Some((limit, p)) => {
            if match_tag(s, p, n, "this") {
                let q = p + 4;
                if q < n && is_space_ch(s.get_char(q)) {
                    let w = skip_ws(s, q, n);
                    match time_unit(s, w, n, diag) {
                        None => None,
                        Some((u, j)) => Some(
                            (Condition::AtMostInThis(ConditionAtMostInThis { limit, time_unit: u }), j),
                        ),
                    }
                } else {
                    None
                }
            } else {
                None
            }
        }
    }
}

fn condition_atmost_sliding(s: &str, pos: usize, n: usize, diag: &mut ParseDepth) -> (r: Option<(Condition, usize)>)
    requires
        n == s@.len(),
        pos <= n,
    ensures
        (r is None) == (spec_condition_atmost_sliding(s@, pos as int) is None),
        r matches Some(p) ==> spec_condition_atmost_sliding(s@, pos as int) == Some(
            (p.0, p.1 as int),
        ) && pos < p.1 <= n,
{
    proof {
        reveal_strlit("sliding");
    }
    match atmost_prefix(s, pos, n, diag) {
        None => None,
        Some((limit, p)) => {
            if match_tag(s, p, n, "sliding") {
                let q = p + 7;
                if q < n && is_space_ch(s.get_char(q)) {
                    let w = skip_ws(s, q, n);
                    match duration(s, w, n, diag) {
                        None => None,
                        Some((window, j)) => Some(
                            (Condition::AtMostInSliding(
                                ConditionAtMostInSliding { limit, window_size: window },
                            ), j),
                        ),
                    }
                } else {
                    None
                }
            } else {
                None
            }
        }
    }
}

fn condition_term(s: &str, pos: usize, n: usize, diag: &mut ParseDepth) -> (r: Option<(Condition, usize)>)
    requires
        n == s@.len(),
        pos <= n,
    ensures
        (r is None) == (spec_condition_term(s@, pos as int) is None),
        r matches Some(p) ==> spec_condition_term(s@, pos as int) == Some((p.0, p.1 as int)) && pos
            < p.1 <= n,
    decreases n - pos, 1int,
{
    note_attempt(diag, pos, RULE_TERM);
    if pos < n && s.get_char(pos) == '(' {
        let a = skip_ws(s, pos + 1, n);
        match condition_expr(s, a, n, diag) {
            None => None,
            Some((c, m)) => {
                let b = skip_ws(s, m, n);
                note_attempt(diag, b, RULE_CLOSE);
                if b < n && s.get_char(b) == ')' {
                    Some((c, b + 1))
                } else {
                    None
                }
            }
        }
    } else {
        match condition_weekday(s, pos, n) {
            Some(r) => Some(r),
            None => match condition_atmost_this(s, pos, n, diag) {
                Some(r) => Some(r),
                None => condition_atmost_sliding(s, pos, n, diag),
            },
        }
    }
}

fn condition_and(s: &str, pos: usize, n: usize, diag: &mut ParseDepth) -> (r: Option<(Condition, usize)>)
    requires
        n == s@.len(),
        pos <= n,
    ensures
        (r is None) == (spec_condition_and(s@, pos as int) is None),
        r matches Some(p) ==> spec_condition_and(s@, pos as int) == Some((p.0, p.1 as int)) && pos
            < p.1 <= n,
    decreases n - pos, 2int,
{
    proof {
        reveal_strlit("and");
    }
    match condition_term(s, pos, n, diag) {
        None => None,
        Some((c1, m)) => {
            if m < n && is_space_ch(s.get_char(m)) {
                let a = skip_ws(s, m, n);
                if match_tag(s, a, n, "and") {
                    let b = a + 3;
                    if b < n && is_space_ch(s.get_char(b)) {
                        let k = skip_ws(s, b, n);
                        match condition_expr(s, k, n, diag) {
                            None => None,
                            Some((c2, j)) => Some(
                                (Condition::And(
                                    ConditionAnd { c1: Box::new(c1), c2: Box::new(c2) },
                                ), j),
                            ),
                        }
                    } else {
                        None
                    }
                } else {
                    None
                }
            } else {
                None
            }
        }
    }
}

fn condition_or(s: &str, pos: usize, n: usize, diag: &mut ParseDepth) -> (r: Option<(Condition, usize)>)
    requires
        n == s@.len(),
        pos <= n,
    ensures
        (r is None) == (spec_condition_or(s@, pos as int) is None),
        r matches Some(p) ==> spec_condition_or(s@, pos as int) == Some((p.0, p.1 as int)) && pos
            < p.1 <= n,
    decreases n - pos, 2int,
{
    proof {
        reveal_strlit("or");
    }
    match condition_term(s, pos, n, diag) {
        None => None,
        Some((c1, m)) => {
            if m < n && is_space_ch(s.get_char(m)) {
                let a = skip_ws(s, m, n);
                if match_tag(s, a, n, "or") {
                    let b = a + 2;
                    if b < n && is_space_ch(s.get_char(b)) {
                        let k = skip_ws(s, b, n);
                        match condition_expr(s, k, n, diag) {
                            None => None,
                            Some((c2, j)) => Some(
                                (Condition::Or(
                                    ConditionOr { c1: Box::new(c1), c2: Box::new(c2) },
                                ), j),
                            ),
                        }
                    } else {
                        None
                    }
                } else {
                    None
                }
            } else {
                None
            }
        }
    }
}

fn condition_not(s: &str, pos: usize, n: usize, diag: &mut ParseDepth) -> (r: Option<(Condition, usize)>)
    requires
        n == s@.len(),
        pos <= n,
    ensures
        (r is None) == (spec_condition_not(s@, pos as int) is None),
        r matches Some(p) ==> spec_condition_not(s@, pos as int) == Some((p.0, p.1 as int)) && pos
            < p.1 <= n,
    decreases n - pos, 2int,
{
    proof {
        reveal_strlit("not");
    }
    if match_tag(s, pos, n, "not") {
        let a = pos + 3;
        if a < n && is_space_ch(s.get_char(a)) {
            let k = skip_ws(s, a, n);
            match condition_expr(s, k, n, diag) {
                None => None,
                Some((c, j)) => Some((Condition::Not(ConditionNot { c: Box::new(c) }), j)),
            }
        } else {
            None
        }
    } else {
        None
    }
}

fn condition_expr(s: &str, pos: usize, n: usize, diag: &mut ParseDepth) -> (r: Option<(Condition, usize)>)
    requires
        n == s@.len(),
        pos <= n,
    ensures
        (r is None) == (spec_condition_expr(s@, pos as int) is None),
        r matches Some(p) ==> spec_condition_expr(s@, pos as int) == Some((p.0, p.1 as int)) && pos
            < p.1 <= n,
    decreases n - pos, 3int,
{
    note_attempt(diag, pos, RULE_EXPRESSION);
    match condition_and(s, pos, n, diag) {
        Some(r) => Some(r),
        None => match condition_or(s, pos, n, diag) {
            Some(r) => Some(r),
            None => match condition_not(s, pos, n, diag) {
                Some(r) => Some(r),
                None => condition_term(s, pos, n, diag),
            },
        },
    }
}

/// Append the decimal rendering of `v`.
fn append_u64(out: &mut String, v: u64)
    decreases v,
{
    if v >= 10 {
        append_u64(out, v / 10);
    }
    let d = v % 10;
    if d == 0 {
        out.append("0");
    } else if d == 1 {
        out.append("1");
    } else if d == 2 {
        out.append("2");
    } else if d == 3 {
        out.append("3");
    } else if d == 4 {
        out.append("4");
    } else if d == 5 {
        out.append("5");
    } else if d == 6 {
        out.append("6");
    } else if d == 7 {
        out.append("7");
    } else if d == 8 {
        out.append("8");
    } else {
        out.append("9");
    }
}

/// A diagnostic for a failed parse: where parsing stopped, the deepest
/// rule the parser tried and where, and the input that could not be
/// consumed there.
fn parse_error_message(s: &str, pos: usize, n: usize, what: &str, diag: &ParseDepth) -> (msg:
    String)
    requires
        n == s@.len(),
        pos <= n,
{
    let mut msg = what.to_owned();
    msg.append(" at character ");
    append_u64(&mut msg, pos as u64);
    let deep = if diag.pos > n {
        n
    } else {
        diag.pos
    };
    if deep > pos {
        msg.append("; the parse reached character ");
        append_u64(&mut msg, deep as u64);
        msg.append(" while reading ");
        msg.append(rule_name(diag.rule));
        msg.append(", and stopped at the input starting with \"");
        msg.append(s.substring_char(deep, n));
        msg.append("\"");
    } else {
        msg.append(" while reading ");
        msg.append(rule_name(diag.rule));
        msg.append(", at the unconsumed input starting with \"");
        msg.append(s.substring_char(pos, n));
        msg.append("\"");
    }
    msg
}

/// Parse a whole string as a condition.
///
/// Succeeds exactly on the strings of the condition grammar, with optional
/// surrounding whitespace and nothing unconsumed, and yields exactly the
/// tree that the grammar assigns to the input.
pub fn parse_condition(expr: &str) -> (r: Result<Condition, String>)
    ensures
        (r is Ok) == (spec_parse_condition(expr@) is Some),
        r matches Ok(c) ==> spec_parse_condition(expr@) == Some(c),
{
    let n = expr.unicode_len();
    let mut diag = ParseDepth { pos: 0, rule: RULE_EXPRESSION };
    let i = skip_ws(expr, 0, n);
    match condition_expr(expr, i, n, &mut diag) {
        None => Err(parse_error_message(expr, i, n, "could not read a condition", &diag)),
        Some((c, j)) => {
            let e = skip_ws(expr, j, n);
            if e == n {
                Ok(c)
            } else {
                Err(parse_error_message(expr, e, n, "trailing input after a condition", &diag))
            }
        }
    }
}

/// Parse a whole string as a duration literal.
///
/// Succeeds exactly on `<digits> <unit>` with optional surrounding
/// whitespace, the unit one of `s`, `m`, `h`, `D`, `W`, and the resulting
/// seconds count fitting in 64 bits.
pub fn parse_duration(expr: &str) -> (r: Result<Duration, String>)
    ensures
        (r is Ok) == (spec_parse_duration(expr@) is Some),
        r matches Ok(d) ==> spec_parse_duration(expr@) == Some(d),
{
    let n = expr.unicode_len();
    let mut diag = ParseDepth { pos: 0, rule: RULE_DURATION };
    let i = skip_ws(expr, 0, n);
    match duration(expr, i, n, &mut diag) {
        None => Err(parse_error_message(expr, i, n, "could not read a duration", &diag)),
        Some((d, j)) => {
            let e = skip_ws(expr, j, n);
            if e == n {
                Ok(d)
            } else {
                Err(parse_error_message(expr, e, n, "trailing input after a duration", &diag))
            }
        }
    }
}

/// Parse a whole string as an unsigned 64-bit integer literal: one or more
/// ASCII digits and nothing else, rejecting values over `u64::MAX`.
pub fn parse_integer(s: &str) -> (r: Option<u64>)
    ensures
        r == (match spec_integer(s@, 0) {
            Some((v, j)) => if j == s@.len() {
                Some(v)
            } else {
                None
            },
            None => None::<u64>,
        }),
{
    let n = s.unicode_len();
    let mut diag = ParseDepth { pos: 0, rule: RULE_NUMBER };
    match integer(s, 0, n, &mut diag) {
        Some((v, j)) => {
            if j == n {
                Some(v)
            } else {
                None
            }
        }
        None => None,
    }
}

} // verus!
