//! The calculator tool's reading of an expression. An expression is read
//! left to right into a plan of steps over decimal numbers: the plan says
//! which numbers are multiplied, divided, added and subtracted, and where
//! reading fails. The arithmetic itself is done in floating point by the
//! caller, which runs the steps in order.

use vstd::prelude::*;
use vstd::slice::slice_subrange;
use crate::text::{chars_of, push_str, string_from_chars};

verus! {

/// One step of a calculator plan.
#[derive(Debug, PartialEq, Eq)]
pub enum CalcStep {
    /// Start a term with this number.
    Number(String),
    /// Multiply the term by this number.
    Multiply(String),
    /// Divide the term by this number; dividing by zero fails with
    /// `division_by_zero_message`.
    Divide(String),
    /// Add the term to the pending sum.
    Add,
    /// Subtract the term from the pending sum.
    Subtract,
    /// Add the pending sum to the result and start a new pending sum.
    Flush,
    /// Stop with this error.
    Fail(String),
    /// Stop: the expression continues after an operator that is not an
    /// ASCII character, which the evaluator cannot step over.
    Unsupported,
}

/// The spec view of a step.
pub enum StepView {
    Number(Seq<char>),
    Multiply(Seq<char>),
    Divide(Seq<char>),
    Add,
    Subtract,
    Flush,
    Fail(Seq<char>),
    Unsupported,
}

/// The view of a step.
pub open spec fn step_view(s: CalcStep) -> StepView {
    match s {
        CalcStep::Number(t) => StepView::Number(t@),
        CalcStep::Multiply(t) => StepView::Multiply(t@),
        CalcStep::Divide(t) => StepView::Divide(t@),
        CalcStep::Add => StepView::Add,
        CalcStep::Subtract => StepView::Subtract,
        CalcStep::Flush => StepView::Flush,
        CalcStep::Fail(m) => StepView::Fail(m@),
        CalcStep::Unsupported => StepView::Unsupported,
    }
}

/// The views of a list of steps.
pub open spec fn steps_view(v: Seq<CalcStep>) -> Seq<StepView> {
    v.map_values(|s: CalcStep| step_view(s))
}

/// The text without its space characters.
pub open spec fn without_spaces(s: Seq<char>) -> Seq<char>
    decreases s.len(),
{
    if s.len() == 0 {
        seq![]
    } else if s.last() == ' ' {
        without_spaces(s.drop_last())
    } else {
        without_spaces(s.drop_last()).push(s.last())
    }
}

/// An ASCII decimal digit.
pub open spec fn is_digit(c: char) -> bool {
    '0' <= c && c <= '9'
}

/// Reads digits and at most one decimal point from position `j`: where the
/// number ends, and whether a digit was read.
pub open spec fn scan_number(s: Seq<char>, j: int, seen_dot: bool) -> (int, bool)
    decreases s.len() - j,
{
    if j < 0 || j >= s.len() {
        (j, false)
    } else if is_digit(s[j]) {
        (scan_number(s, j + 1, seen_dot).0, true)
    } else if s[j] == '.' && !seen_dot {
        scan_number(s, j + 1, true)
    } else {
        (j, false)
    }
}

/// Reads a number, with an optional leading minus sign, from position `i`:
/// where it ends, and whether it holds a digit (without one it is no number).
pub open spec fn scan_factor(s: Seq<char>, i: int) -> (int, bool) {
    if 0 <= i < s.len() && s[i] == '-' {
        scan_number(s, i + 1, false)
    } else {
        scan_number(s, i, false)
    }
}

/// The end of the number read from position `i`, never before `i`.
pub open spec fn factor_end(s: Seq<char>, i: int) -> int {
    let e = scan_factor(s, i).0;
    if e > i {
        e
    } else {
        i
    }
}

/// Reads a term (numbers joined by `*` and `/`) from position `i`, where
/// `op` is the operator before the number at `i` (none for the first):
/// its steps, where it ends, and whether reading failed.
pub open spec fn term_steps(s: Seq<char>, i: int, op: Option<char>) -> (Seq<StepView>, int, bool)
    decreases s.len() - i,
{
    if i < 0 || i >= s.len() {
        (seq![], i, false)
    } else {
        let e = factor_end(s, i);
        let text = s.subrange(i, e);
        if !scan_factor(s, i).1 {
            (seq![StepView::Fail("Invalid number: "@ + text)], e, true)
        } else {
            let step = match op {
                None => StepView::Number(text),
                Some(c) => if c == '*' {
                    StepView::Multiply(text)
                } else {
                    StepView::Divide(text)
                },
            };
            if e >= s.len() || (s[e] != '*' && s[e] != '/') {
                (seq![step], e, false)
            } else if e + 1 >= s.len() {
                (seq![step], e + 1, false)
            } else {
                let r = term_steps(s, e + 1, Some(s[e]));
                (seq![step] + r.0, r.1, r.2)
            }
        }
    }
}

/// Reads the expression from position `i`, where `op` is the operator
/// before the term at `i`.
pub open spec fn expr_steps(s: Seq<char>, i: int, op: char) -> Seq<StepView>
    decreases s.len() - i,
{
    if i < 0 || i >= s.len() {
        seq![]
    } else {
        let t = term_steps(s, i, None);
        let e = if t.1 > i {
            t.1
        } else {
            i
        };
        if t.2 {
            t.0
        } else if op != '+' && op != '-' {
            t.0.push(StepView::Fail("Invalid operator: "@ + seq![op]))
        } else {
            let applied = t.0.push(
                if op == '+' {
                    StepView::Add
                } else {
                    StepView::Subtract
                },
            );
            let done = if e >= s.len() || s[e] == '+' || s[e] == '-' {
                applied.push(StepView::Flush)
            } else {
                applied
            };
            if e >= s.len() {
                done
            } else if (s[e] as u32) >= 128 {
                done.push(StepView::Unsupported)
            } else {
                done + expr_steps(s, e + 1, s[e])
            }
        }
    }
}

/// The plan for an expression: spaces are dropped, then terms are read
/// left to right, each added or subtracted by the operator before it.
pub open spec fn calc_plan(expr: Seq<char>) -> Seq<StepView> {
    expr_steps(without_spaces(expr), 0, '+')
}

/// A decimal numeral without sign: digits with at most one decimal point,
/// and at least one digit.
pub open spec fn numeral_body(b: Seq<char>) -> bool {
    &&& (exists|k: int| 0 <= k < b.len() && is_digit(#[trigger] b[k]))
    &&& (forall|k: int| 0 <= k < b.len() ==> is_digit(#[trigger] b[k]) || b[k] == '.')
    &&& (forall|k1: int, k2: int|
        0 <= k1 < k2 < b.len() && #[trigger] b[k1] == '.' ==> #[trigger] b[k2] != '.')
}

/// A decimal numeral, with an optional leading minus sign.
pub open spec fn is_numeral(t: Seq<char>) -> bool {
    if t.len() > 0 && t[0] == '-' {
        numeral_body(t.drop_first())
    } else {
        numeral_body(t)
    }
}

/// Every number a step carries is a decimal numeral.
pub open spec fn step_numbers_are_numerals(st: StepView) -> bool {
    match st {
        StepView::Number(t) => is_numeral(t),
        StepView::Multiply(t) => is_numeral(t),
        StepView::Divide(t) => is_numeral(t),
        _ => true,
    }
}

proof fn lemma_scan_number_text(s: Seq<char>, j: int, seen_dot: bool)
    requires
        0 <= j <= s.len(),
    ensures
        ({
            let (e, d) = scan_number(s, j, seen_dot);
            &&& j <= e <= s.len()
            &&& forall|k: int| j <= k < e ==> is_digit(#[trigger] s[k]) || s[k] == '.'
            &&& seen_dot ==> forall|k: int| j <= k < e ==> #[trigger] s[k] != '.'
            &&& forall|k1: int, k2: int| j <= k1 < k2 < e && #[trigger] s[k1] == '.' ==> #[trigger] s[k2] != '.'
            &&& d <==> exists|k: int| j <= k < e && is_digit(#[trigger] s[k])
        }),
    decreases s.len() - j,
{
    if j < s.len() {
        if is_digit(s[j]) {
            lemma_scan_number_text(s, j + 1, seen_dot);
            let e = scan_number(s, j, seen_dot).0;
            assert(j <= j && j < e && is_digit(s[j]));
        } else if s[j] == '.' && !seen_dot {
            lemma_scan_number_text(s, j + 1, true);
            let (e, d) = scan_number(s, j, seen_dot);
            assert forall|k: int| j <= k < e && is_digit(#[trigger] s[k]) implies j + 1 <= k by {}
        }
    }
}

proof fn lemma_factor_is_numeral(s: Seq<char>, i: int)
    requires
        0 <= i < s.len(),
        scan_factor(s, i).1,
    ensures
        is_numeral(s.subrange(i, factor_end(s, i))),
{
    let t = s.subrange(i, factor_end(s, i));
    if s[i] == '-' {
        lemma_scan_number_text(s, i + 1, false);
        let e = scan_number(s, i + 1, false).0;
        let b = t.drop_first();
        assert(b =~= s.subrange(i + 1, e));
        let k = choose|k: int| i + 1 <= k < e && is_digit(#[trigger] s[k]);
        assert(is_digit(b[k - i - 1]));
        assert forall|k1: int, k2: int| 0 <= k1 < k2 < b.len() && #[trigger] b[k1] == '.' implies #[trigger] b[k2] != '.' by {
            assert(s[k1 + i + 1] == '.');
        }
        assert forall|k: int| 0 <= k < b.len() implies is_digit(#[trigger] b[k]) || b[k] == '.' by {
            assert(s[k + i + 1] == b[k]);
        }
    } else {
        lemma_scan_number_text(s, i, false);
        let e = scan_number(s, i, false).0;
        let k = choose|k: int| i <= k < e && is_digit(#[trigger] s[k]);
        assert(is_digit(t[k - i]));
        assert forall|k1: int, k2: int| 0 <= k1 < k2 < t.len() && #[trigger] t[k1] == '.' implies #[trigger] t[k2] != '.' by {
            assert(s[k1 + i] == '.');
        }
        assert forall|k: int| 0 <= k < t.len() implies is_digit(#[trigger] t[k]) || t[k] == '.' by {
            assert(s[k + i] == t[k]);
        }
    }
}

proof fn lemma_term_numerals(s: Seq<char>, i: int, op: Option<char>)
    ensures
        forall|k: int| 0 <= k < term_steps(s, i, op).0.len() ==> step_numbers_are_numerals(#[trigger] term_steps(s, i, op).0[k]),
    decreases s.len() - i,
{
    if 0 <= i < s.len() {
        let e = factor_end(s, i);
        if scan_factor(s, i).1 {
            lemma_factor_is_numeral(s, i);
            if !(e >= s.len() || (s[e] != '*' && s[e] != '/')) && e + 1 < s.len() {
                lemma_term_numerals(s, e + 1, Some(s[e]));
                let r = term_steps(s, e + 1, Some(s[e]));
                let all = term_steps(s, i, op).0;
                assert forall|k: int| 0 <= k < all.len() implies step_numbers_are_numerals(#[trigger] all[k]) by {
                    if k > 0 {
                        assert(all[k] == r.0[k - 1]);
                    }
                }
            }
        }
    }
}

proof fn lemma_expr_numerals(s: Seq<char>, i: int, op: char)
    ensures
        forall|k: int| 0 <= k < expr_steps(s, i, op).len() ==> step_numbers_are_numerals(#[trigger] expr_steps(s, i, op)[k]),
    decreases s.len() - i,
{
    if 0 <= i < s.len() {
        lemma_term_numerals(s, i, None);
        let t = term_steps(s, i, None);
        let e = if t.1 > i {
            t.1
        } else {
            i
        };
        if !t.2 && (op == '+' || op == '-') && e < s.len() && (s[e] as u32) < 128 {
            lemma_expr_numerals(s, e + 1, s[e]);
        }
        let all = expr_steps(s, i, op);
        if !t.2 && (op == '+' || op == '-') {
            let applied = t.0.push(
                if op == '+' {
                    StepView::Add
                } else {
                    StepView::Subtract
                },
            );
            let done = if e >= s.len() || s[e] == '+' || s[e] == '-' {
                applied.push(StepView::Flush)
            } else {
                applied
            };
            assert forall|k: int| 0 <= k < done.len() implies step_numbers_are_numerals(#[trigger] done[k]) by {
                if k < t.0.len() {
                    assert(done[k] == t.0[k]);
                }
            }
            if e < s.len() && (s[e] as u32) < 128 {
                let rest = expr_steps(s, e + 1, s[e]);
                assert(all == done + rest);
                assert forall|k: int| 0 <= k < all.len() implies step_numbers_are_numerals(#[trigger] all[k]) by {
                    if k < done.len() {
                        assert(all[k] == done[k]);
                    } else {
                        assert(all[k] == rest[k - done.len()]);
                    }
                }
            }
        } else {
            assert forall|k: int| 0 <= k < all.len() implies step_numbers_are_numerals(#[trigger] all[k]) by {
                if k < t.0.len() {
                    assert(all[k] == t.0[k]);
                }
            }
        }
    }
}

/// Every number in the plan of an expression is a decimal numeral (an
/// optional minus sign, digits with at most one decimal point, and at
/// least one digit), so it reads as a floating-point number.
pub proof fn law_plan_numbers_are_numerals(expr: Seq<char>)
    ensures
        forall|k: int| 0 <= k < calc_plan(expr).len() ==> step_numbers_are_numerals(#[trigger] calc_plan(expr)[k]),
{
    lemma_expr_numerals(without_spaces(expr), 0, '+');
}

proof fn lemma_scan_number_bounds(s: Seq<char>, j: int, seen_dot: bool)
    requires
        0 <= j <= s.len(),
    ensures
        j <= scan_number(s, j, seen_dot).0 <= s.len(),
        scan_number(s, j, seen_dot).1 ==> j < scan_number(s, j, seen_dot).0,
    decreases s.len() - j,
{
    if j < s.len() {
        if is_digit(s[j]) || (s[j] == '.' && !seen_dot) {
            lemma_scan_number_bounds(s, j + 1, if is_digit(s[j]) { seen_dot } else { true });
        }
    }
}

/// Drops the spaces of a character sequence.
fn strip_spaces(v: &[char]) -> (r: Vec<char>)
    ensures
        r@ == without_spaces(v@),
{
    let mut r: Vec<char> = Vec::new();
    let mut i: usize = 0;
    while i < v.len()
        invariant
            i <= v@.len(),
            r@ == without_spaces(v@.take(i as int)),
        decreases v.len() - i,
    {
        assert(v@.take(i as int + 1).drop_last() =~= v@.take(i as int));
        if v[i] != ' ' {
            r.push(v[i]);
        }
        i = i + 1;
    }
    assert(v@.take(v@.len() as int) =~= v@);
    r
}

/// Scans a number from position `j`; see `scan_number`.
fn scan_number_at(s: &[char], j: usize, seen_dot: bool) -> (r: (usize, bool))
    requires
        j <= s@.len(),
    ensures
        (r.0 as int, r.1) == scan_number(s@, j as int, seen_dot),
{
    let mut k: usize = j;
    let mut dot = seen_dot;
    let mut digit = false;
    while k < s.len() && ('0' <= s[k] && s[k] <= '9' || s[k] == '.' && !dot)
        invariant
            j <= k <= s@.len(),
            scan_number(s@, j as int, seen_dot) == (
                scan_number(s@, k as int, dot).0,
                digit || scan_number(s@, k as int, dot).1,
            ),
        decreases s.len() - k,
    {
        if '0' <= s[k] && s[k] <= '9' {
            digit = true;
        } else {
            dot = true;
        }
        k = k + 1;
    }
    (k, digit)
}

/// Where the number at `i` ends and whether it holds a digit.
fn scan_factor_at(s: &[char], i: usize) -> (r: (usize, bool))
    requires
        i <= s@.len(),
    ensures
        (r.0 as int, r.1) == scan_factor(s@, i as int),
        i <= r.0 <= s@.len(),
        r.1 ==> i < r.0,
{
    if i < s.len() && s[i] == '-' {
        proof {
            lemma_scan_number_bounds(s@, i + 1, false);
        }
        scan_number_at(s, i + 1, false)
    } else {
        proof {
            lemma_scan_number_bounds(s@, i as int, false);
        }
        scan_number_at(s, i, false)
    }
}

/// Appends the steps of the term at `i` to `out`: where it ends, and
/// whether reading failed.
fn read_term(s: &[char], i: usize, out: &mut Vec<CalcStep>) -> (r: (usize, bool))
    requires
        i < s@.len(),
    ensures
        steps_view(final(out)@) == steps_view(old(out)@) + term_steps(s@, i as int, None).0,
        r.0 as int == term_steps(s@, i as int, None).1,
        r.1 == term_steps(s@, i as int, None).2,
        i < r.0 <= s@.len() || r.1,
{
    let ghost start = steps_view(out@);
    let mut pos: usize = i;
    let mut op: Option<char> = None;
    loop
        invariant
            i <= pos < s@.len(),
            pos == i ==> op is None,
            op is Some ==> i < pos,
            ({
                let whole = term_steps(s@, i as int, None);
                let rest = term_steps(s@, pos as int, op);
                &&& whole.0 == steps_view(out@).subrange(start.len() as int, steps_view(out@).len() as int) + rest.0
                &&& whole.1 == rest.1
                &&& whole.2 == rest.2
            }),
            steps_view(out@).subrange(0, start.len() as int) == start,
            start.len() <= steps_view(out@).len(),
            start == steps_view(old(out)@),
        decreases s@.len() - pos,
    {
        let (e, digit) = scan_factor_at(s, pos);
        let text = string_from_chars(slice_subrange(s, pos, e));
        let ghost before = steps_view(out@);
        if !digit {
            let mut msg: Vec<char> = Vec::new();
            push_str(&mut msg, "Invalid number: ");
            push_str(&mut msg, text.as_str());
            out.push(CalcStep::Fail(string_from_chars(msg.as_slice())));
            proof {
                assert(steps_view(out@) =~= before.push(StepView::Fail("Invalid number: "@ + s@.subrange(pos as int, e as int))));
                assert(steps_view(out@).subrange(start.len() as int, steps_view(out@).len() as int) =~=
                    before.subrange(start.len() as int, before.len() as int) + term_steps(s@, pos as int, op).0);
                assert(steps_view(out@).subrange(0, start.len() as int) =~= before.subrange(0, start.len() as int));
                assert(steps_view(out@) =~= start + term_steps(s@, i as int, None).0);
            }
            return (e, true);
        }
        let step = match op {
            None => CalcStep::Number(text),
            Some(c) => if c == '*' {
                CalcStep::Multiply(text)
            } else {
                CalcStep::Divide(text)
            },
        };
        out.push(step);
        proof {
            assert(steps_view(out@) =~= before.push(step_view(out@.last())));
            assert(steps_view(out@).subrange(0, start.len() as int) =~= before.subrange(0, start.len() as int));
        }
        if e >= s.len() || (s[e] != '*' && s[e] != '/') {
            proof {
                assert(steps_view(out@).subrange(start.len() as int, steps_view(out@).len() as int) =~=
                    before.subrange(start.len() as int, before.len() as int) + term_steps(s@, pos as int, op).0);
                assert(steps_view(out@) =~= start + term_steps(s@, i as int, None).0);
            }
            return (e, false);
        }
        if e + 1 >= s.len() {
            proof {
                assert(steps_view(out@).subrange(start.len() as int, steps_view(out@).len() as int) =~=
                    before.subrange(start.len() as int, before.len() as int) + term_steps(s@, pos as int, op).0);
                assert(steps_view(out@) =~= start + term_steps(s@, i as int, None).0);
            }
            return (e + 1, false);
        }
        proof {
            let rest = term_steps(s@, e + 1, Some(s@[e as int]));
            assert(term_steps(s@, pos as int, op).0 == seq![step_view(out@.last())] + rest.0);
            assert(steps_view(out@).subrange(start.len() as int, steps_view(out@).len() as int) =~=
                before.subrange(start.len() as int, before.len() as int) + seq![step_view(out@.last())]);
        }
        op = Some(s[e]);
        pos = e + 1;
    }
}

/// The plan for a calculator expression: the steps that evaluate it in
/// order, ending where reading fails.
pub fn calc_plan_of(expr: &str) -> (r: Vec<CalcStep>)
    ensures
        steps_view(r@) == calc_plan(expr@),
{
    let all = chars_of(expr);
    let s = strip_spaces(all.as_slice());
    let ghost sv = s@;
    let mut out: Vec<CalcStep> = Vec::new();
    let mut pos: usize = 0;
    let mut op: char = '+';
    assert(steps_view(out@) =~= seq![]);
    while pos < s.len()
        invariant
            sv == s@,
            sv == without_spaces(expr@),
            pos <= s@.len(),
            calc_plan(expr@) == steps_view(out@) + expr_steps(sv, pos as int, op),
        decreases s@.len() - pos,
    {
        let ghost before = steps_view(out@);
        let (e, failed) = read_term(s.as_slice(), pos, &mut out);
        let ghost t = term_steps(sv, pos as int, None);
        if failed {
            return out;
        }
        if op != '+' && op != '-' {
            let mut msg: Vec<char> = Vec::new();
            push_str(&mut msg, "Invalid operator: ");
            msg.push(op);
            assert(msg@ =~= "Invalid operator: "@ + seq![op]);
            let ghost mid = steps_view(out@);
            assert(mid == before + t.0);
            out.push(CalcStep::Fail(string_from_chars(msg.as_slice())));
            proof {
                assert(steps_view(out@) =~= mid.push(step_view(out@.last())));
                assert(steps_view(out@) =~= before + t.0.push(StepView::Fail("Invalid operator: "@ + seq![op])));
            }
            return out;
        }
        let ghost with_term = steps_view(out@);
        if op == '+' {
            out.push(CalcStep::Add);
        } else {
            out.push(CalcStep::Subtract);
        }
        proof {
            assert(steps_view(out@) =~= with_term.push(step_view(out@.last())));
        }
        if e >= s.len() || s[e] == '+' || s[e] == '-' {
            let ghost applied = steps_view(out@);
            out.push(CalcStep::Flush);
            proof {
                assert(steps_view(out@) =~= applied.push(StepView::Flush));
            }
        }
        if e >= s.len() {
            proof {
                assert(expr_steps(sv, pos as int, op) =~= steps_view(out@).subrange(before.len() as int, steps_view(out@).len() as int));
                assert(steps_view(out@) =~= before + expr_steps(sv, pos as int, op));
            }
            return out;
        }
        if (s[e] as u32) >= 128 {
            let ghost done = steps_view(out@);
            out.push(CalcStep::Unsupported);
            proof {
                assert(steps_view(out@) =~= done.push(StepView::Unsupported));
                assert(steps_view(out@) =~= before + expr_steps(sv, pos as int, op));
            }
            return out;
        }
        proof {
            assert(steps_view(out@) + expr_steps(sv, e as int + 1, s@[e as int]) =~= before + expr_steps(sv, pos as int, op));
        }
        op = s[e];
        pos = e + 1;
    }
    assert(steps_view(out@) + expr_steps(sv, pos as int, op) =~= steps_view(out@));
    out
}

/// The error of a division by zero.
pub fn division_by_zero_message() -> (s: &'static str)
    ensures
        s@ == "Division by zero"@,
{
    "Division by zero"
}

} // verus!
