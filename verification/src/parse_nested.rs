//! The token lexer of the expression sublanguage: identifiers, numeric
//! literals (strict and paren-tolerant variants), and maximal-munch operator
//! tokenisation, composed into `IDENT OP NUMBER` expression parsing.

use vstd::prelude::*;

use crate::ast::{op_text, trial_order, Expression};
use crate::util::{
    alnum_pred, digit_pred, has_at, hex_pred, hspace_pred, is_alnum, is_alpha, is_digit,
    is_hspace, is_punct, is_space, lemma_skip_while_exact, non_rparen_pred, rskip_spaces,
    skip_alnum, skip_digits, skip_hex_digits, skip_hspaces, skip_spaces, skip_to_rparen,
    skip_while, space_pred, trim_spec, trim_str,
};

verus! {

/// First operator (in trial order, longest first within a shared-prefix
/// family) whose text is a prefix of `s`, searching from trial index `k`.
pub open spec fn match_op_from(s: Seq<char>, k: int) -> Option<int>
    decreases trial_order().len() - k,
{
    if k < 0 || k >= trial_order().len() {
        None
    } else if has_at(s, 0, op_text(trial_order()[k])) {
        Some(k)
    } else {
        match_op_from(s, k + 1)
    }
}

/// The maximal-munch match: the first operator of the trial order that is a
/// prefix of `s`, if any.
pub open spec fn spec_match_op(s: Seq<char>) -> Option<int> {
    match_op_from(s, 0)
}

pub proof fn lemma_match_op_from_some(s: Seq<char>, j: int)
    ensures
        match match_op_from(s, j) {
            Some(k) => j <= k < trial_order().len() && has_at(s, 0, op_text(trial_order()[k])),
            None => true,
        },
    decreases trial_order().len() - j,
{
    if 0 <= j && j < trial_order().len() && !has_at(s, 0, op_text(trial_order()[j])) {
        lemma_match_op_from_some(s, j + 1);
    }
}

/// Find the trial-order index of the operator at the start of `s`.
fn match_op(s: &str) -> (r: Option<usize>)
    ensures
        match r {
            Some(k) => spec_match_op(s@) == Some(k as int) && 0 <= k < trial_order().len(),
            None => spec_match_op(s@) is None,
        },
{
    let ops = Expression::trial_list();
    let n = ops.len();
    let mut k: usize = 0;
    while k < n
        invariant
            0 <= k <= n,
            n == trial_order().len(),
            ops@ == trial_order(),
            match_op_from(s@, 0) == match_op_from(s@, k as int),
        decreases n - k,
    {
        let t = ops[k].to_str();
        if match_at(s, t) {
            return Some(k);
        }
        k = k + 1;
    }
    None
}

/// Does `s` start with `pat`?
fn match_at(s: &str, pat: &str) -> (r: bool)
    ensures
        r == has_at(s@, 0, pat@),
{
    crate::util::match_at(s, 0, pat)
}

/// One operator tag with the lexer's lookahead rule: `s` must start with the
/// given operator's text, and what follows must not itself start an operator
/// (so a longer munch can never have been missed).
pub open spec fn spec_expression_tag(e: Expression, s: Seq<char>) -> Option<(Seq<char>, Seq<char>)> {
    if has_at(s, 0, op_text(e)) && spec_match_op(s.subrange(op_text(e).len() as int, s.len() as int))
        is None {
        Some((s.subrange(op_text(e).len() as int, s.len() as int), op_text(e)))
    } else {
        None
    }
}

/// Match one specific operator at the start of `input`, requiring that no
/// operator token follows immediately.  Returns `(remainder, matched text)`.
pub fn expression_tag<'a>(e: &Expression, input: &'a str) -> (r: Option<(&'a str, &'a str)>)
    ensures
        match r {
            Some((rest, m)) => spec_expression_tag(*e, input@) == Some((rest@, m@)),
            None => spec_expression_tag(*e, input@) is None,
        },
{
    let t = e.to_str();
    if !match_at(input, t) {
        return None;
    }
    let n = t.unicode_len();
    let rest = input.substring_char(n, input.unicode_len());
    if match_op(rest).is_some() {
        return None;
    }
    let matched = input.substring_char(0, n);
    proof {
        assert(matched@ =~= op_text(*e));
    }
    Some((rest, matched))
}

/// Succeeds exactly when no operator token starts at the beginning of `s`.
pub open spec fn spec_not_expression_tag(s: Seq<char>) -> Option<Seq<char>> {
    if spec_match_op(s) is None {
        Some(trim_spec(s))
    } else {
        None
    }
}

/// Negative lookahead: succeeds (returning the trimmed input) exactly when no
/// operator token starts at the current position.
pub fn not_expression_tag<'a>(input: &'a str) -> (r: Option<&'a str>)
    ensures
        match r {
            Some(rest) => spec_not_expression_tag(input@) == Some(rest@),
            None => spec_not_expression_tag(input@) is None,
        },
{
    if match_op(input).is_some() {
        None
    } else {
        Some(trim_str(input))
    }
}

/// An operator token surrounded by optional horizontal whitespace, with the
/// maximal-munch lookahead: after the matched operator no further operator
/// may start.  Returns `(trimmed remainder, operator text)`.
pub open spec fn spec_operator(s: Seq<char>) -> Option<(Seq<char>, Seq<char>)> {
    let a = skip_while(s, 0, hspace_pred());
    let t = s.subrange(a, s.len() as int);
    match spec_match_op(t) {
        None => None,
        Some(k) => {
            let op = op_text(trial_order()[k]);
            let rest0 = t.subrange(op.len() as int, t.len() as int);
            if spec_match_op(rest0) is Some {
                None
            } else {
                Some((trim_spec(rest0), op))
            }
        },
    }
}

/// Lex one operator with maximal munch.
pub fn operator<'a>(input: &'a str) -> (r: Option<(&'a str, &'a str)>)
    ensures
        match r {
            Some((rest, op)) => spec_operator(input@) == Some((rest@, op@)),
            None => spec_operator(input@) is None,
        },
{
    let a = skip_hspaces(input, 0);
    let t = input.substring_char(a, input.unicode_len());
    match match_op(t) {
        None => None,
        Some(k) => {
            let ops = Expression::trial_list();
            let op_str = ops[k].to_str();
            let n = op_str.unicode_len();
            proof {
                lemma_match_op_from_some(t@, 0);
                assert(has_at(t@, 0, op_text(trial_order()[k as int])));
            }
            let rest0 = t.substring_char(n, t.unicode_len());
            if match_op(rest0).is_some() {
                return None;
            }
            let op = t.substring_char(0, n);
            proof {
                assert(op@ =~= op_text(trial_order()[k as int]));
            }
            Some((trim_str(rest0), op))
        },
    }
}

/// An identifier: optional whitespace, then one or more ASCII alphanumeric
/// characters.  Returns `(trimmed remainder, identifier)`.
pub open spec fn spec_identifier(s: Seq<char>) -> Option<(Seq<char>, Seq<char>)> {
    let a = skip_while(s, 0, space_pred());
    let b = skip_while(s, a, alnum_pred());
    if b == a {
        None
    } else {
        Some((trim_spec(s.subrange(b, s.len() as int)), s.subrange(a, b)))
    }
}

pub fn identifier<'a>(input: &'a str) -> (r: Option<(&'a str, &'a str)>)
    ensures
        match r {
            Some((rest, id)) => spec_identifier(input@) == Some((rest@, id@)),
            None => spec_identifier(input@) is None,
        },
{
    let a = skip_spaces(input, 0);
    let b = skip_alnum(input, a);
    if b == a {
        None
    } else {
        let id = input.substring_char(a, b);
        let rest = trim_str(input.substring_char(b, input.unicode_len()));
        Some((rest, id))
    }
}

/// A hex literal: optional horizontal whitespace, `0x`, one or more hex
/// digits; trailing whitespace is consumed.  The value keeps the `0x` prefix.
pub open spec fn spec_hex_number(s: Seq<char>) -> Option<(Seq<char>, Seq<char>)> {
    let a = skip_while(s, 0, hspace_pred());
    if a + 2 <= s.len() && s[a] == '0' && s[a + 1] == 'x' {
        let d = skip_while(s, a + 2, hex_pred());
        if d == a + 2 {
            None
        } else {
            Some((trim_spec(s.subrange(d, s.len() as int)), s.subrange(a, d)))
        }
    } else {
        None
    }
}

pub fn hex_number<'a>(input: &'a str) -> (r: Option<(&'a str, &'a str)>)
    ensures
        match r {
            Some((rest, num)) => spec_hex_number(input@) == Some((rest@, num@)),
            None => spec_hex_number(input@) is None,
        },
{
    let len = input.unicode_len();
    let a = skip_hspaces(input, 0);
    if a < len && a + 1 < len && input.get_char(a) == '0' && input.get_char(a + 1) == 'x' {
        let d = skip_hex_digits(input, a + 2);
        if d == a + 2 {
            None
        } else {
            let num = input.substring_char(a, d);
            let rest = trim_str(input.substring_char(d, len));
            Some((rest, num))
        }
    } else {
        None
    }
}

/// A decimal literal with the strict rejection rule: one or more digits that
/// must not be immediately followed by a letter or punctuation character.
pub open spec fn spec_decimal_number(s: Seq<char>) -> Option<(Seq<char>, Seq<char>)> {
    let a = skip_while(s, 0, hspace_pred());
    let d = skip_while(s, a, digit_pred());
    if d == a {
        None
    } else if d < s.len() && (is_alpha(s[d]) || is_punct(s[d])) {
        None
    } else {
        Some((trim_spec(s.subrange(d, s.len() as int)), s.subrange(a, d)))
    }
}

pub fn decimal_number<'a>(input: &'a str) -> (r: Option<(&'a str, &'a str)>)
    ensures
        match r {
            Some((rest, num)) => spec_decimal_number(input@) == Some((rest@, num@)),
            None => spec_decimal_number(input@) is None,
        },
{
    let len = input.unicode_len();
    let a = skip_hspaces(input, 0);
    let d = skip_digits(input, a);
    if d == a {
        return None;
    }
    if d < len {
        let c = input.get_char(d);
        if crate::util::char_is_alpha(c) || crate::util::char_is_punct(c) {
            return None;
        }
    }
    let num = input.substring_char(a, d);
    let rest = trim_str(input.substring_char(d, len));
    Some((rest, num))
}

/// The paren-tolerant hex literal: as `spec_hex_number`, but the trailing
/// consume runs to the next `)` rather than over whitespace only.
pub open spec fn spec_hex_number_with_paren(s: Seq<char>) -> Option<(Seq<char>, Seq<char>)> {
    let a = skip_while(s, 0, hspace_pred());
    if a + 2 <= s.len() && s[a] == '0' && s[a + 1] == 'x' {
        let d = skip_while(s, a + 2, hex_pred());
        if d == a + 2 {
            None
        } else {
            let e = skip_while(s, d, non_rparen_pred());
            Some((trim_spec(s.subrange(e, s.len() as int)), s.subrange(a, d)))
        }
    } else {
        None
    }
}

pub fn hex_number_with_paren<'a>(input: &'a str) -> (r: Option<(&'a str, &'a str)>)
    ensures
        match r {
            Some((rest, num)) => spec_hex_number_with_paren(input@) == Some((rest@, num@)),
            None => spec_hex_number_with_paren(input@) is None,
        },
{
    let len = input.unicode_len();
    let a = skip_hspaces(input, 0);
    if a < len && a + 1 < len && input.get_char(a) == '0' && input.get_char(a + 1) == 'x' {
        let d = skip_hex_digits(input, a + 2);
        if d == a + 2 {
            None
        } else {
            let e = skip_to_rparen(input, d);
            let num = input.substring_char(a, d);
            let rest = trim_str(input.substring_char(e, len));
            Some((rest, num))
        }
    } else {
        None
    }
}

/// The paren-tolerant decimal literal: the rejection rule is relaxed to allow
/// a `)` immediately after the digits.
pub open spec fn spec_decimal_number_with_paren(s: Seq<char>) -> Option<(Seq<char>, Seq<char>)> {
    let a = skip_while(s, 0, hspace_pred());
    let d = skip_while(s, a, digit_pred());
    if d == a {
        None
    } else if d < s.len() && (is_alpha(s[d]) || is_punct(s[d])) && s[d] != ')' {
        None
    } else {
        Some((trim_spec(s.subrange(d, s.len() as int)), s.subrange(a, d)))
    }
}

pub fn decimal_number_with_paren<'a>(input: &'a str) -> (r: Option<(&'a str, &'a str)>)
    ensures
        match r {
            Some((rest, num)) => spec_decimal_number_with_paren(input@) == Some((rest@, num@)),
            None => spec_decimal_number_with_paren(input@) is None,
        },
{
    let len = input.unicode_len();
    let a = skip_hspaces(input, 0);
    let d = skip_digits(input, a);
    if d == a {
        return None;
    }
    if d < len {
        let c = input.get_char(d);
        if (crate::util::char_is_alpha(c) || crate::util::char_is_punct(c)) && c != ')' {
            return None;
        }
    }
    let num = input.substring_char(a, d);
    let rest = trim_str(input.substring_char(d, len));
    Some((rest, num))
}

/// A numeric literal: leading whitespace skipped, then a hex literal if
/// possible, else a strict decimal literal.
pub open spec fn spec_number(s: Seq<char>) -> Option<(Seq<char>, Seq<char>)> {
    let a = skip_while(s, 0, space_pred());
    let t = s.subrange(a, s.len() as int);
    match spec_hex_number(t) {
        Some(r) => Some(r),
        None => spec_decimal_number(t),
    }
}

pub fn number<'a>(input: &'a str) -> (r: Option<(&'a str, &'a str)>)
    ensures
        match r {
            Some((rest, num)) => spec_number(input@) == Some((rest@, num@)),
            None => spec_number(input@) is None,
        },
{
    let a = skip_spaces(input, 0);
    let t = input.substring_char(a, input.unicode_len());
    match hex_number(t) {
        Some(r) => Some(r),
        None => decimal_number(t),
    }
}

/// A numeric literal in a context where it may be followed directly by `)`:
/// the strict variants are tried first, then the paren-tolerant ones.
pub open spec fn spec_number_with_paren(s: Seq<char>) -> Option<(Seq<char>, Seq<char>)> {
    let a = skip_while(s, 0, space_pred());
    let t = s.subrange(a, s.len() as int);
    match spec_hex_number(t) {
        Some(r) => Some(r),
        None => match spec_decimal_number(t) {
            Some(r) => Some(r),
            None => match spec_hex_number_with_paren(t) {
                Some(r) => Some(r),
                None => spec_decimal_number_with_paren(t),
            },
        },
    }
}

pub fn number_with_paren<'a>(input: &'a str) -> (r: Option<(&'a str, &'a str)>)
    ensures
        match r {
            Some((rest, num)) => spec_number_with_paren(input@) == Some((rest@, num@)),
            None => spec_number_with_paren(input@) is None,
        },
{
    let a = skip_spaces(input, 0);
    let t = input.substring_char(a, input.unicode_len());
    match hex_number(t) {
        Some(r) => Some(r),
        None => match decimal_number(t) {
            Some(r) => Some(r),
            None => match hex_number_with_paren(t) {
                Some(r) => Some(r),
                None => decimal_number_with_paren(t),
            },
        },
    }
}

/// A bare comparison expression: identifier, operator, numeric literal.
pub open spec fn spec_expression_a(s: Seq<char>) -> Option<
    (Seq<char>, (Seq<char>, Seq<char>, Seq<char>)),
> {
    match spec_identifier(s) {
        None => None,
        Some((r1, id)) => match spec_operator(r1) {
            None => None,
            Some((r2, op)) => match spec_number_with_paren(r2) {
                None => None,
                Some((r3, num)) => Some((r3, (id, op, num))),
            },
        },
    }
}

pub fn expression_a<'a>(input: &'a str) -> (r: Option<(&'a str, Vec<&'a str>)>)
    ensures
        match r {
            Some((rest, v)) => v@.len() == 3 && spec_expression_a(input@) == Some(
                (rest@, (v@[0]@, v@[1]@, v@[2]@)),
            ),
            None => spec_expression_a(input@) is None,
        },
{
    match identifier(input) {
        None => None,
        Some((r1, id)) => match operator(r1) {
            None => None,
            Some((r2, op)) => match number_with_paren(r2) {
                None => None,
                Some((r3, num)) => {
                    let mut v: Vec<&'a str> = Vec::new();
                    v.push(id);
                    v.push(op);
                    v.push(num);
                    Some((r3, v))
                },
            },
        },
    }
}

/// A parenthesised comparison expression: `(`, `spec_expression_a`, `)`.
/// The opening paren must stand first; the close must directly follow the
/// inner expression's (trimmed) remainder.
pub open spec fn spec_expression_b(s: Seq<char>) -> Option<
    (Seq<char>, (Seq<char>, Seq<char>, Seq<char>)),
> {
    if s.len() > 0 && s[0] == '(' {
        match spec_expression_a(s.subrange(1, s.len() as int)) {
            None => None,
            Some((r, v)) => if r.len() > 0 && r[0] == ')' {
                Some((trim_spec(r.subrange(1, r.len() as int)), v))
            } else {
                None
            },
        }
    } else {
        None
    }
}

pub fn expression_b<'a>(input: &'a str) -> (r: Option<(&'a str, Vec<&'a str>)>)
    ensures
        match r {
            Some((rest, v)) => v@.len() == 3 && spec_expression_b(input@) == Some(
                (rest@, (v@[0]@, v@[1]@, v@[2]@)),
            ),
            None => spec_expression_b(input@) is None,
        },
{
    let len = input.unicode_len();
    if len > 0 && input.get_char(0) == '(' {
        let inner = input.substring_char(1, len);
        match expression_a(inner) {
            None => None,
            Some((r, v)) => {
                let rlen = r.unicode_len();
                if rlen > 0 && r.get_char(0) == ')' {
                    let rest = trim_str(r.substring_char(1, rlen));
                    Some((rest, v))
                } else {
                    None
                }
            },
        }
    } else {
        None
    }
}

/// A comparison expression, bare or parenthesised, tried in that order.
pub open spec fn spec_expression(s: Seq<char>) -> Option<
    (Seq<char>, (Seq<char>, Seq<char>, Seq<char>)),
> {
    match spec_expression_a(s) {
        Some(r) => Some(r),
        None => spec_expression_b(s),
    }
}

/// Parse one `IDENT OP NUMBER` comparison, optionally parenthesised.
/// Returns `(remainder, [identifier, operator, number])`.
pub fn expression<'a>(input: &'a str) -> (r: Option<(&'a str, Vec<&'a str>)>)
    ensures
        match r {
            Some((rest, v)) => v@.len() == 3 && spec_expression(input@) == Some(
                (rest@, (v@[0]@, v@[1]@, v@[2]@)),
            ),
            None => spec_expression(input@) is None,
        },
{
    match expression_a(input) {
        Some(r) => Some(r),
        None => expression_b(input),
    }
}

/// One `&&` separator (whitespace allowed around it) followed by an
/// expression.
pub open spec fn spec_and_then_expression(s: Seq<char>) -> Option<
    (Seq<char>, (Seq<char>, Seq<char>, Seq<char>)),
> {
    let a = skip_while(s, 0, space_pred());
    if a + 2 <= s.len() && s[a] == '&' && s[a + 1] == '&' {
        let b = skip_while(s, a + 2, space_pred());
        spec_expression(s.subrange(b, s.len() as int))
    } else {
        None
    }
}

/// The expressions after the first of an `&&`-separated list.  A step that
/// fails to shrink the remainder ends the list, which also bounds the
/// recursion.
pub open spec fn spec_logical_and_more(s: Seq<char>) -> Seq<(Seq<char>, Seq<char>, Seq<char>)>
    decreases s.len(),
{
    match spec_and_then_expression(s) {
        None => Seq::empty(),
        Some((r, v)) => if r.len() < s.len() {
            seq![v] + spec_logical_and_more(r)
        } else {
            seq![v]
        },
    }
}

/// The remainder after the last expression of the `&&`-separated list.
pub open spec fn spec_logical_and_rest(s: Seq<char>) -> Seq<char>
    decreases s.len(),
{
    match spec_and_then_expression(s) {
        None => s,
        Some((r, v)) => if r.len() < s.len() {
            spec_logical_and_rest(r)
        } else {
            r
        },
    }
}

/// An `&&`-separated list of one or more expressions.
pub open spec fn spec_logical_and(s: Seq<char>) -> Option<
    (Seq<char>, Seq<(Seq<char>, Seq<char>, Seq<char>)>),
> {
    match spec_expression(s) {
        None => None,
        Some((r, v)) => Some((spec_logical_and_rest(r), seq![v] + spec_logical_and_more(r))),
    }
}

fn and_then_expression<'a>(input: &'a str) -> (r: Option<(&'a str, Vec<&'a str>)>)
    ensures
        match r {
            Some((rest, v)) => v@.len() == 3 && spec_and_then_expression(input@) == Some(
                (rest@, (v@[0]@, v@[1]@, v@[2]@)),
            ),
            None => spec_and_then_expression(input@) is None,
        },
{
    let len = input.unicode_len();
    let a = skip_spaces(input, 0);
    if a < len && a + 1 < len && input.get_char(a) == '&' && input.get_char(a + 1) == '&' {
        let b = skip_spaces(input, a + 2);
        let t = input.substring_char(b, len);
        expression(t)
    } else {
        None
    }
}

fn logical_and_more<'a>(input: &'a str) -> (r: (&'a str, Vec<Vec<&'a str>>))
    ensures
        r.0@ == spec_logical_and_rest(input@),
        r.1@.len() == spec_logical_and_more(input@).len(),
        forall|i: int|
            0 <= i < r.1@.len() ==> (#[trigger] r.1@[i])@.len() == 3 && spec_logical_and_more(
                input@,
            )[i] == (r.1@[i]@[0]@, r.1@[i]@[1]@, r.1@[i]@[2]@),
    decreases input@.len(),
{
    match and_then_expression(input) {
        None => (input, Vec::new()),
        Some((rest, v)) => {
            if rest.unicode_len() < input.unicode_len() {
                let (tail_rest, mut tail) = logical_and_more(rest);
                let mut out: Vec<Vec<&'a str>> = Vec::new();
                out.push(v);
                out.append(&mut tail);
                (tail_rest, out)
            } else {
                let mut out: Vec<Vec<&'a str>> = Vec::new();
                out.push(v);
                (rest, out)
            }
        },
    }
}

/// Parse an `&&`-separated list of comparison expressions, e.g. the
/// decomposition of `(a != 0) && (b == 1)` into its two clauses.
pub fn logical_and<'a>(input: &'a str) -> (r: Option<(&'a str, Vec<Vec<&'a str>>)>)
    ensures
        match r {
            Some((rest, vs)) => {
                &&& spec_logical_and(input@) matches Some((srest, svs))
                &&& rest@ == srest
                &&& vs@.len() == svs.len()
                &&& forall|i: int|
                    0 <= i < vs@.len() ==> (#[trigger] vs@[i])@.len() == 3 && svs[i] == (
                    vs@[i]@[0]@,
                    vs@[i]@[1]@,
                    vs@[i]@[2]@,
                    )
            },
            None => spec_logical_and(input@) is None,
        },
{
    match expression(input) {
        None => None,
        Some((first_rest, first)) => {
            let (rest, mut tail) = logical_and_more(first_rest);
            let mut out: Vec<Vec<&'a str>> = Vec::new();
            out.push(first);
            out.append(&mut tail);
            Some((rest, out))
        },
    }
}

} // verus!

verus! {

/// The characters operator tokens are made of.
pub open spec fn is_op_char(c: char) -> bool {
    c == '<' || c == '>' || c == '=' || c == '&' || c == '|' || c == '!' || c == '+' || c == '-'
        || c == '*' || c == '/' || c == '~' || c == '^' || c == '%' || c == '?' || c == ':'
}

/// Every operator text is one to three operator characters.
pub proof fn lemma_op_text_facts(e: Expression)
    ensures
        1 <= op_text(e).len() <= 3,
        forall|j: int| 0 <= j < op_text(e).len() ==> is_op_char(op_text(e)[j]),
{
    match e {
        Expression::BinaryShiftLeftEquals => {},
        Expression::BinaryShiftLeft => {},
        Expression::LessThanOrEqualTo => {},
        Expression::LessThan => {},
        Expression::BinaryShiftRightEquals => {},
        Expression::BinaryShiftRight => {},
        Expression::GreaterThanOrEqualTo => {},
        Expression::GreaterThan => {},
        Expression::And => {},
        Expression::BinaryAndEquals => {},
        Expression::BinaryAnd => {},
        Expression::NotEquals => {},
        Expression::Not => {},
        Expression::Or => {},
        Expression::BinaryOrEquals => {},
        Expression::BinaryOr => {},
        Expression::Equals => {},
        Expression::AddEquals => {},
        Expression::Increment => {},
        Expression::Add => {},
        Expression::MinusEquals => {},
        Expression::Decrement => {},
        Expression::Subtract => {},
        Expression::MultiplyEquals => {},
        Expression::Multiply => {},
        Expression::BinaryXorEquals => {},
        Expression::BinaryXor => {},
        Expression::BinaryModulusEquals => {},
        Expression::Modulus => {},
        Expression::DivideEquals => {},
        Expression::Divide => {},
        Expression::Ternary => {},
        Expression::BinaryInvert => {},
    }
}

/// No operator token starts at a position whose first character is not an
/// operator character (or where the input has ended).
pub proof fn lemma_match_op_none(s: Seq<char>, j: int)
    requires
        s.len() == 0 || !is_op_char(s[0]),
    ensures
        match_op_from(s, j) is None,
    decreases trial_order().len() - j,
{
    if 0 <= j && j < trial_order().len() {
        lemma_op_text_facts(trial_order()[j]);
        assert(!has_at(s, 0, op_text(trial_order()[j]))) by {
            let p = op_text(trial_order()[j]);
            if has_at(s, 0, p) {
                assert(s.subrange(0, p.len() as int)[0] == s[0]);
            }
        }
        lemma_match_op_none(s, j + 1);
    }
}

#[verifier::rlimit(60)]proof fn lemma_munch_binaryshiftleftequals(tail: Seq<char>)
    requires
        tail.len() == 0 || !is_op_char(tail[0]),
    ensures
        spec_match_op(op_text(Expression::BinaryShiftLeftEquals) + tail) == Some(0int),
{
    let e = Expression::BinaryShiftLeftEquals;
    let t = op_text(e) + tail;
    reveal_with_fuel(match_op_from, 35);
    if tail.len() > 0 {
        assert(t[3] == tail[0]);
    }
    assert(t.subrange(0, 3) =~= op_text(e));

    assert(has_at(t, 0, op_text(trial_order()[0])));
    assert(spec_match_op(t) == Some(0int));
}

#[verifier::rlimit(60)]proof fn lemma_munch_binaryshiftleft(tail: Seq<char>)
    requires
        tail.len() == 0 || !is_op_char(tail[0]),
    ensures
        spec_match_op(op_text(Expression::BinaryShiftLeft) + tail) == Some(1int),
{
    let e = Expression::BinaryShiftLeft;
    let t = op_text(e) + tail;
    reveal_with_fuel(match_op_from, 35);
    if tail.len() > 0 {
        assert(t[2] == tail[0]);
    }
    assert(t.subrange(0, 2) =~= op_text(e));
    assert(!has_at(t, 0, op_text(trial_order()[0]))) by {
        let p = op_text(trial_order()[0]);
        if has_at(t, 0, p) {
            assert(t.subrange(0, p.len() as int)[0] == p[0]);
        }
    }
    assert(has_at(t, 0, op_text(trial_order()[1])));
    assert(spec_match_op(t) == Some(1int));
}

#[verifier::rlimit(60)]proof fn lemma_munch_lessthanorequalto(tail: Seq<char>)
    requires
        tail.len() == 0 || !is_op_char(tail[0]),
    ensures
        spec_match_op(op_text(Expression::LessThanOrEqualTo) + tail) == Some(2int),
{
    let e = Expression::LessThanOrEqualTo;
    let t = op_text(e) + tail;
    reveal_with_fuel(match_op_from, 35);
    if tail.len() > 0 {
        assert(t[2] == tail[0]);
    }
    assert(t.subrange(0, 2) =~= op_text(e));
    assert(!has_at(t, 0, op_text(trial_order()[0]))) by {
        let p = op_text(trial_order()[0]);
        if has_at(t, 0, p) {
            assert(t.subrange(0, p.len() as int)[0] == p[0]);
        }
    }
    assert(!has_at(t, 0, op_text(trial_order()[1]))) by {
        let p = op_text(trial_order()[1]);
        if has_at(t, 0, p) {
            assert(t.subrange(0, p.len() as int)[0] == p[0]);
        }
    }
    assert(has_at(t, 0, op_text(trial_order()[2])));
    assert(spec_match_op(t) == Some(2int));
}

#[verifier::rlimit(60)]proof fn lemma_munch_lessthan(tail: Seq<char>)
    requires
        tail.len() == 0 || !is_op_char(tail[0]),
    ensures
        spec_match_op(op_text(Expression::LessThan) + tail) == Some(3int),
{
    let e = Expression::LessThan;
    let t = op_text(e) + tail;
    reveal_with_fuel(match_op_from, 35);
    if tail.len() > 0 {
        assert(t[1] == tail[0]);
    }
    assert(t.subrange(0, 1) =~= op_text(e));
    assert(!has_at(t, 0, op_text(trial_order()[0]))) by {
        let p = op_text(trial_order()[0]);
        if has_at(t, 0, p) {
            assert(t.subrange(0, p.len() as int)[0] == p[0]);
        }
    }
    assert(!has_at(t, 0, op_text(trial_order()[1]))) by {
        let p = op_text(trial_order()[1]);
        if has_at(t, 0, p) {
            assert(t.subrange(0, p.len() as int)[0] == p[0]);
        }
    }
    assert(!has_at(t, 0, op_text(trial_order()[2]))) by {
        let p = op_text(trial_order()[2]);
        if has_at(t, 0, p) {
            assert(t.subrange(0, p.len() as int)[0] == p[0]);
        }
    }
    assert(has_at(t, 0, op_text(trial_order()[3])));
    assert(spec_match_op(t) == Some(3int));
}

#[verifier::rlimit(60)]proof fn lemma_munch_binaryshiftrightequals(tail: Seq<char>)
    requires
        tail.len() == 0 || !is_op_char(tail[0]),
    ensures
        spec_match_op(op_text(Expression::BinaryShiftRightEquals) + tail) == Some(4int),
{
    let e = Expression::BinaryShiftRightEquals;
    let t = op_text(e) + tail;
    reveal_with_fuel(match_op_from, 35);
    if tail.len() > 0 {
        assert(t[3] == tail[0]);
    }
    assert(t.subrange(0, 3) =~= op_text(e));
    assert(!has_at(t, 0, op_text(trial_order()[0]))) by {
        let p = op_text(trial_order()[0]);
        if has_at(t, 0, p) {
            assert(t.subrange(0, p.len() as int)[0] == p[0]);
        }
    }
    assert(!has_at(t, 0, op_text(trial_order()[1]))) by {
        let p = op_text(trial_order()[1]);
        if has_at(t, 0, p) {
            assert(t.subrange(0, p.len() as int)[0] == p[0]);
        }
    }
    assert(!has_at(t, 0, op_text(trial_order()[2]))) by {
        let p = op_text(trial_order()[2]);
        if has_at(t, 0, p) {
            assert(t.subrange(0, p.len() as int)[0] == p[0]);
        }
    }
    assert(!has_at(t, 0, op_text(trial_order()[3]))) by {
        let p = op_text(trial_order()[3]);
        if has_at(t, 0, p) {
            assert(t.subrange(0, p.len() as int)[0] == p[0]);
        }
    }
    assert(has_at(t, 0, op_text(trial_order()[4])));
    assert(spec_match_op(t) == Some(4int));
}

#[verifier::rlimit(60)]proof fn lemma_munch_binaryshiftright(tail: Seq<char>)
    requires
        tail.len() == 0 || !is_op_char(tail[0]),
    ensures
        spec_match_op(op_text(Expression::BinaryShiftRight) + tail) == Some(5int),
{
    let e = Expression::BinaryShiftRight;
    let t = op_text(e) + tail;
    reveal_with_fuel(match_op_from, 35);
    if tail.len() > 0 {
        assert(t[2] == tail[0]);
    }
    assert(t.subrange(0, 2) =~= op_text(e));
    assert(!has_at(t, 0, op_text(trial_order()[0]))) by {
        let p = op_text(trial_order()[0]);
        if has_at(t, 0, p) {
            assert(t.subrange(0, p.len() as int)[0] == p[0]);
        }
    }
    assert(!has_at(t, 0, op_text(trial_order()[1]))) by {
        let p = op_text(trial_order()[1]);
        if has_at(t, 0, p) {
            assert(t.subrange(0, p.len() as int)[0] == p[0]);
        }
    }
    assert(!has_at(t, 0, op_text(trial_order()[2]))) by {
        let p = op_text(trial_order()[2]);
        if has_at(t, 0, p) {
            assert(t.subrange(0, p.len() as int)[0] == p[0]);
        }
    }
    assert(!has_at(t, 0, op_text(trial_order()[3]))) by {
        let p = op_text(trial_order()[3]);
        if has_at(t, 0, p) {
            assert(t.subrange(0, p.len() as int)[0] == p[0]);
        }
    }
    assert(!has_at(t, 0, op_text(trial_order()[4]))) by {
        let p = op_text(trial_order()[4]);
        if has_at(t, 0, p) {
            assert(t.subrange(0, p.len() as int)[0] == p[0]);
        }
    }
    assert(has_at(t, 0, op_text(trial_order()[5])));
    assert(spec_match_op(t) == Some(5int));
}

#[verifier::rlimit(60)]proof fn lemma_munch_greaterthanorequalto(tail: Seq<char>)
    requires
        tail.len() == 0 || !is_op_char(tail[0]),
    ensures
        spec_match_op(op_text(Expression::GreaterThanOrEqualTo) + tail) == Some(6int),
{
    let e = Expression::GreaterThanOrEqualTo;
    let t = op_text(e) + tail;
    reveal_with_fuel(match_op_from, 35);
    if tail.len() > 0 {
        assert(t[2] == tail[0]);
    }
    assert(t.subrange(0, 2) =~= op_text(e));
    assert(!has_at(t, 0, op_text(trial_order()[0]))) by {
        let p = op_text(trial_order()[0]);
        if has_at(t, 0, p) {
            assert(t.subrange(0, p.len() as int)[0] == p[0]);
        }
    }
    assert(!has_at(t, 0, op_text(trial_order()[1]))) by {
        let p = op_text(trial_order()[1]);
        if has_at(t, 0, p) {
            assert(t.subrange(0, p.len() as int)[0] == p[0]);
        }
    }
    assert(!has_at(t, 0, op_text(trial_order()[2]))) by {
        let p = op_text(trial_order()[2]);
        if has_at(t, 0, p) {
            assert(t.subrange(0, p.len() as int)[0] == p[0]);
        }
    }
    assert(!has_at(t, 0, op_text(trial_order()[3]))) by {
        let p = op_text(trial_order()[3]);
        if has_at(t, 0, p) {
            assert(t.subrange(0, p.len() as int)[0] == p[0]);
        }
    }
    assert(!has_at(t, 0, op_text(trial_order()[4]))) by {
        let p = op_text(trial_order()[4]);
        if has_at(t, 0, p) {
            assert(t.subrange(0, p.len() as int)[0] == p[0]);
        }
    }
    assert(!has_at(t, 0, op_text(trial_order()[5]))) by {
        let p = op_text(trial_order()[5]);
        if has_at(t, 0, p) {
            assert(t.subrange(0, p.len() as int)[0] == p[0]);
        }
    }
    assert(has_at(t, 0, op_text(trial_order()[6])));
    assert(spec_match_op(t) == Some(6int));
}

#[verifier::rlimit(60)]proof fn lemma_munch_greaterthan(tail: Seq<char>)
    requires
        tail.len() == 0 || !is_op_char(tail[0]),
    ensures
        spec_match_op(op_text(Expression::GreaterThan) + tail) == Some(7int),
{
    let e = Expression::GreaterThan;
    let t = op_text(e) + tail;
    reveal_with_fuel(match_op_from, 35);
    if tail.len() > 0 {
        assert(t[1] == tail[0]);
    }
    assert(t.subrange(0, 1) =~= op_text(e));
    assert(!has_at(t, 0, op_text(trial_order()[0]))) by {
        let p = op_text(trial_order()[0]);
        if has_at(t, 0, p) {
            assert(t.subrange(0, p.len() as int)[0] == p[0]);
        }
    }
    assert(!has_at(t, 0, op_text(trial_order()[1]))) by {
        let p = op_text(trial_order()[1]);
        if has_at(t, 0, p) {
            assert(t.subrange(0, p.len() as int)[0] == p[0]);
        }
    }
    assert(!has_at(t, 0, op_text(trial_order()[2]))) by {
        let p = op_text(trial_order()[2]);
        if has_at(t, 0, p) {
            assert(t.subrange(0, p.len() as int)[0] == p[0]);
        }
    }
    assert(!has_at(t, 0, op_text(trial_order()[3]))) by {
        let p = op_text(trial_order()[3]);
        if has_at(t, 0, p) {
            assert(t.subrange(0, p.len() as int)[0] == p[0]);
        }
    }
    assert(!has_at(t, 0, op_text(trial_order()[4]))) by {
        let p = op_text(trial_order()[4]);
        if has_at(t, 0, p) {
            assert(t.subrange(0, p.len() as int)[0] == p[0]);
        }
    }
    assert(!has_at(t, 0, op_text(trial_order()[5]))) by {
        let p = op_text(trial_order()[5]);
        if has_at(t, 0, p) {
            assert(t.subrange(0, p.len() as int)[0] == p[0]);
        }
    }
    assert(!has_at(t, 0, op_text(trial_order()[6]))) by {
        let p = op_text(trial_order()[6]);
        if has_at(t, 0, p) {
            assert(t.subrange(0, p.len() as int)[0] == p[0]);
        }
    }
    assert(has_at(t, 0, op_text(trial_order()[7])));
    assert(spec_match_op(t) == Some(7int));
}

#[verifier::rlimit(60)]proof fn lemma_munch_and(tail: Seq<char>)
    requires
        tail.len() == 0 || !is_op_char(tail[0]),
    ensures
        spec_match_op(op_text(Expression::And) + tail) == Some(8int),
{
    let e = Expression::And;
    let t = op_text(e) + tail;
    reveal_with_fuel(match_op_from, 35);
    if tail.len() > 0 {
        assert(t[2] == tail[0]);
    }
    assert(t.subrange(0, 2) =~= op_text(e));
    assert(!has_at(t, 0, op_text(trial_order()[0]))) by {
        let p = op_text(trial_order()[0]);
        if has_at(t, 0, p) {
            assert(t.subrange(0, p.len() as int)[0] == p[0]);
        }
    }
    assert(!has_at(t, 0, op_text(trial_order()[1]))) by {
        let p = op_text(trial_order()[1]);
        if has_at(t, 0, p) {
            assert(t.subrange(0, p.len() as int)[0] == p[0]);
        }
    }
    assert(!has_at(t, 0, op_text(trial_order()[2]))) by {
        let p = op_text(trial_order()[2]);
        if has_at(t, 0, p) {
            assert(t.subrange(0, p.len() as int)[0] == p[0]);
        }
    }
    assert(!has_at(t, 0, op_text(trial_order()[3]))) by {
        let p = op_text(trial_order()[3]);
        if has_at(t, 0, p) {
            assert(t.subrange(0, p.len() as int)[0] == p[0]);
        }
    }
    assert(!has_at(t, 0, op_text(trial_order()[4]))) by {
        let p = op_text(trial_order()[4]);
        if has_at(t, 0, p) {
            assert(t.subrange(0, p.len() as int)[0] == p[0]);
        }
    }
    assert(!has_at(t, 0, op_text(trial_order()[5]))) by {
        let p = op_text(trial_order()[5]);
        if has_at(t, 0, p) {
            assert(t.subrange(0, p.len() as int)[0] == p[0]);
        }
    }
    assert(!has_at(t, 0, op_text(trial_order()[6]))) by {
        let p = op_text(trial_order()[6]);
        if has_at(t, 0, p) {
            assert(t.subrange(0, p.len() as int)[0] == p[0]);
        }
    }
    assert(!has_at(t, 0, op_text(trial_order()[7]))) by {
        let p = op_text(trial_order()[7]);
        if has_at(t, 0, p) {
            assert(t.subrange(0, p.len() as int)[0] == p[0]);
        }
    }
    assert(has_at(t, 0, op_text(trial_order()[8])));
    assert(spec_match_op(t) == Some(8int));
}

#[verifier::rlimit(60)]proof fn lemma_munch_binaryandequals(tail: Seq<char>)
    requires
        tail.len() == 0 || !is_op_char(tail[0]),
    ensures
        spec_match_op(op_text(Expression::BinaryAndEquals) + tail) == Some(9int),
{
    let e = Expression::BinaryAndEquals;
    let t = op_text(e) + tail;
    reveal_with_fuel(match_op_from, 35);
    if tail.len() > 0 {
        assert(t[2] == tail[0]);
    }
    assert(t.subrange(0, 2) =~= op_text(e));
    assert(!has_at(t, 0, op_text(trial_order()[0]))) by {
        let p = op_text(trial_order()[0]);
        if has_at(t, 0, p) {
            assert(t.subrange(0, p.len() as int)[0] == p[0]);
        }
    }
    assert(!has_at(t, 0, op_text(trial_order()[1]))) by {
        let p = op_text(trial_order()[1]);
        if has_at(t, 0, p) {
            assert(t.subrange(0, p.len() as int)[0] == p[0]);
        }
    }
    assert(!has_at(t, 0, op_text(trial_order()[2]))) by {
        let p = op_text(trial_order()[2]);
        if has_at(t, 0, p) {
            assert(t.subrange(0, p.len() as int)[0] == p[0]);
        }
    }
    assert(!has_at(t, 0, op_text(trial_order()[3]))) by {
        let p = op_text(trial_order()[3]);
        if has_at(t, 0, p) {
            assert(t.subrange(0, p.len() as int)[0] == p[0]);
        }
    }
    assert(!has_at(t, 0, op_text(trial_order()[4]))) by {
        let p = op_text(trial_order()[4]);
        if has_at(t, 0, p) {
            assert(t.subrange(0, p.len() as int)[0] == p[0]);
        }
    }
    assert(!has_at(t, 0, op_text(trial_order()[5]))) by {
        let p = op_text(trial_order()[5]);
        if has_at(t, 0, p) {
            assert(t.subrange(0, p.len() as int)[0] == p[0]);
        }
    }
    assert(!has_at(t, 0, op_text(trial_order()[6]))) by {
        let p = op_text(trial_order()[6]);
        if has_at(t, 0, p) {
            assert(t.subrange(0, p.len() as int)[0] == p[0]);
        }
    }
    assert(!has_at(t, 0, op_text(trial_order()[7]))) by {
        let p = op_text(trial_order()[7]);
        if has_at(t, 0, p) {
            assert(t.subrange(0, p.len() as int)[0] == p[0]);
        }
    }
    assert(!has_at(t, 0, op_text(trial_order()[8]))) by {
        let p = op_text(trial_order()[8]);
        if has_at(t, 0, p) {
            assert(t.subrange(0, p.len() as int)[0] == p[0]);
        }
    }
    assert(has_at(t, 0, op_text(trial_order()[9])));
    assert(spec_match_op(t) == Some(9int));
}

#[verifier::rlimit(60)]proof fn lemma_munch_binaryand(tail: Seq<char>)
    requires
        tail.len() == 0 || !is_op_char(tail[0]),
    ensures
        spec_match_op(op_text(Expression::BinaryAnd) + tail) == Some(10int),
{
    let e = Expression::BinaryAnd;
    let t = op_text(e) + tail;
    reveal_with_fuel(match_op_from, 35);
    if tail.len() > 0 {
        assert(t[1] == tail[0]);
    }
    assert(t.subrange(0, 1) =~= op_text(e));
    assert(!has_at(t, 0, op_text(trial_order()[0]))) by {
        let p = op_text(trial_order()[0]);
        if has_at(t, 0, p) {
            assert(t.subrange(0, p.len() as int)[0] == p[0]);
        }
    }
    assert(!has_at(t, 0, op_text(trial_order()[1]))) by {
        let p = op_text(trial_order()[1]);
        if has_at(t, 0, p) {
            assert(t.subrange(0, p.len() as int)[0] == p[0]);
        }
    }
    assert(!has_at(t, 0, op_text(trial_order()[2]))) by {
        let p = op_text(trial_order()[2]);
        if has_at(t, 0, p) {
            assert(t.subrange(0, p.len() as int)[0] == p[0]);
        }
    }
    assert(!has_at(t, 0, op_text(trial_order()[3]))) by {
        let p = op_text(trial_order()[3]);
        if has_at(t, 0, p) {
            assert(t.subrange(0, p.len() as int)[0] == p[0]);
        }
    }
    assert(!has_at(t, 0, op_text(trial_order()[4]))) by {
        let p = op_text(trial_order()[4]);
        if has_at(t, 0, p) {
            assert(t.subrange(0, p.len() as int)[0] == p[0]);
        }
    }
    assert(!has_at(t, 0, op_text(trial_order()[5]))) by {
        let p = op_text(trial_order()[5]);
        if has_at(t, 0, p) {
            assert(t.subrange(0, p.len() as int)[0] == p[0]);
        }
    }
    assert(!has_at(t, 0, op_text(trial_order()[6]))) by {
        let p = op_text(trial_order()[6]);
        if has_at(t, 0, p) {
            assert(t.subrange(0, p.len() as int)[0] == p[0]);
        }
    }
    assert(!has_at(t, 0, op_text(trial_order()[7]))) by {
        let p = op_text(trial_order()[7]);
        if has_at(t, 0, p) {
            assert(t.subrange(0, p.len() as int)[0] == p[0]);
        }
    }
    assert(!has_at(t, 0, op_text(trial_order()[8]))) by {
        let p = op_text(trial_order()[8]);
        if has_at(t, 0, p) {
            assert(t.subrange(0, p.len() as int)[0] == p[0]);
        }
    }
    assert(!has_at(t, 0, op_text(trial_order()[9]))) by {
        let p = op_text(trial_order()[9]);
        if has_at(t, 0, p) {
            assert(t.subrange(0, p.len() as int)[0] == p[0]);
        }
    }
    assert(has_at(t, 0, op_text(trial_order()[10])));
    assert(spec_match_op(t) == Some(10int));
}

#[verifier::rlimit(60)]proof fn lemma_munch_notequals(tail: Seq<char>)
    requires
        tail.len() == 0 || !is_op_char(tail[0]),
    ensures
        spec_match_op(op_text(Expression::NotEquals) + tail) == Some(11int),
{
    let e = Expression::NotEquals;
    let t = op_text(e) + tail;
    reveal_with_fuel(match_op_from, 35);
    if tail.len() > 0 {
        assert(t[2] == tail[0]);
    }
    assert(t.subrange(0, 2) =~= op_text(e));
    assert(!has_at(t, 0, op_text(trial_order()[0]))) by {
        let p = op_text(trial_order()[0]);
        if has_at(t, 0, p) {
            assert(t.subrange(0, p.len() as int)[0] == p[0]);
        }
    }
    assert(!has_at(t, 0, op_text(trial_order()[1]))) by {
        let p = op_text(trial_order()[1]);
        if has_at(t, 0, p) {
            assert(t.subrange(0, p.len() as int)[0] == p[0]);
        }
    }
    assert(!has_at(t, 0, op_text(trial_order()[2]))) by {
        let p = op_text(trial_order()[2]);
        if has_at(t, 0, p) {
            assert(t.subrange(0, p.len() as int)[0] == p[0]);
        }
    }
    assert(!has_at(t, 0, op_text(trial_order()[3]))) by {
        let p = op_text(trial_order()[3]);
        if has_at(t, 0, p) {
            assert(t.subrange(0, p.len() as int)[0] == p[0]);
        }
    }
    assert(!has_at(t, 0, op_text(trial_order()[4]))) by {
        let p = op_text(trial_order()[4]);
        if has_at(t, 0, p) {
            assert(t.subrange(0, p.len() as int)[0] == p[0]);
        }
    }
    assert(!has_at(t, 0, op_text(trial_order()[5]))) by {
        let p = op_text(trial_order()[5]);
        if has_at(t, 0, p) {
            assert(t.subrange(0, p.len() as int)[0] == p[0]);
        }
    }
    assert(!has_at(t, 0, op_text(trial_order()[6]))) by {
        let p = op_text(trial_order()[6]);
        if has_at(t, 0, p) {
            assert(t.subrange(0, p.len() as int)[0] == p[0]);
        }
    }
    assert(!has_at(t, 0, op_text(trial_order()[7]))) by {
        let p = op_text(trial_order()[7]);
        if has_at(t, 0, p) {
            assert(t.subrange(0, p.len() as int)[0] == p[0]);
        }
    }
    assert(!has_at(t, 0, op_text(trial_order()[8]))) by {
        let p = op_text(trial_order()[8]);
        if has_at(t, 0, p) {
            assert(t.subrange(0, p.len() as int)[0] == p[0]);
        }
    }
    assert(!has_at(t, 0, op_text(trial_order()[9]))) by {
        let p = op_text(trial_order()[9]);
        if has_at(t, 0, p) {
            assert(t.subrange(0, p.len() as int)[0] == p[0]);
        }
    }
    assert(!has_at(t, 0, op_text(trial_order()[10]))) by {
        let p = op_text(trial_order()[10]);
        if has_at(t, 0, p) {
            assert(t.subrange(0, p.len() as int)[0] == p[0]);
        }
    }
    assert(has_at(t, 0, op_text(trial_order()[11])));
    assert(spec_match_op(t) == Some(11int));
}

#[verifier::rlimit(60)]proof fn lemma_munch_not(tail: Seq<char>)
    requires
        tail.len() == 0 || !is_op_char(tail[0]),
    ensures
        spec_match_op(op_text(Expression::Not) + tail) == Some(12int),
{
    let e = Expression::Not;
    let t = op_text(e) + tail;
    reveal_with_fuel(match_op_from, 35);
    if tail.len() > 0 {
        assert(t[1] == tail[0]);
    }
    assert(t.subrange(0, 1) =~= op_text(e));
    assert(!has_at(t, 0, op_text(trial_order()[0]))) by {
        let p = op_text(trial_order()[0]);
        if has_at(t, 0, p) {
            assert(t.subrange(0, p.len() as int)[0] == p[0]);
        }
    }
    assert(!has_at(t, 0, op_text(trial_order()[1]))) by {
        let p = op_text(trial_order()[1]);
        if has_at(t, 0, p) {
            assert(t.subrange(0, p.len() as int)[0] == p[0]);
        }
    }
    assert(!has_at(t, 0, op_text(trial_order()[2]))) by {
        let p = op_text(trial_order()[2]);
        if has_at(t, 0, p) {
            assert(t.subrange(0, p.len() as int)[0] == p[0]);
        }
    }
    assert(!has_at(t, 0, op_text(trial_order()[3]))) by {
        let p = op_text(trial_order()[3]);
        if has_at(t, 0, p) {
            assert(t.subrange(0, p.len() as int)[0] == p[0]);
        }
    }
    assert(!has_at(t, 0, op_text(trial_order()[4]))) by {
        let p = op_text(trial_order()[4]);
        if has_at(t, 0, p) {
            assert(t.subrange(0, p.len() as int)[0] == p[0]);
        }
    }
    assert(!has_at(t, 0, op_text(trial_order()[5]))) by {
        let p = op_text(trial_order()[5]);
        if has_at(t, 0, p) {
            assert(t.subrange(0, p.len() as int)[0] == p[0]);
        }
    }
    assert(!has_at(t, 0, op_text(trial_order()[6]))) by {
        let p = op_text(trial_order()[6]);
        if has_at(t, 0, p) {
            assert(t.subrange(0, p.len() as int)[0] == p[0]);
        }
    }
    assert(!has_at(t, 0, op_text(trial_order()[7]))) by {
        let p = op_text(trial_order()[7]);
        if has_at(t, 0, p) {
            assert(t.subrange(0, p.len() as int)[0] == p[0]);
        }
    }
    assert(!has_at(t, 0, op_text(trial_order()[8]))) by {
        let p = op_text(trial_order()[8]);
        if has_at(t, 0, p) {
            assert(t.subrange(0, p.len() as int)[0] == p[0]);
        }
    }
    assert(!has_at(t, 0, op_text(trial_order()[9]))) by {
        let p = op_text(trial_order()[9]);
        if has_at(t, 0, p) {
            assert(t.subrange(0, p.len() as int)[0] == p[0]);
        }
    }
    assert(!has_at(t, 0, op_text(trial_order()[10]))) by {
        let p = op_text(trial_order()[10]);
        if has_at(t, 0, p) {
            assert(t.subrange(0, p.len() as int)[0] == p[0]);
        }
    }
    assert(!has_at(t, 0, op_text(trial_order()[11]))) by {
        let p = op_text(trial_order()[11]);
        if has_at(t, 0, p) {
            assert(t.subrange(0, p.len() as int)[0] == p[0]);
        }
    }
    assert(has_at(t, 0, op_text(trial_order()[12])));
    assert(spec_match_op(t) == Some(12int));
}

#[verifier::rlimit(60)]proof fn lemma_munch_or(tail: Seq<char>)
    requires
        tail.len() == 0 || !is_op_char(tail[0]),
    ensures
        spec_match_op(op_text(Expression::Or) + tail) == Some(13int),
{
    let e = Expression::Or;
    let t = op_text(e) + tail;
    reveal_with_fuel(match_op_from, 35);
    if tail.len() > 0 {
        assert(t[2] == tail[0]);
    }
    assert(t.subrange(0, 2) =~= op_text(e));
    assert(!has_at(t, 0, op_text(trial_order()[0]))) by {
        let p = op_text(trial_order()[0]);
        if has_at(t, 0, p) {
            assert(t.subrange(0, p.len() as int)[0] == p[0]);
        }
    }
    assert(!has_at(t, 0, op_text(trial_order()[1]))) by {
        let p = op_text(trial_order()[1]);
        if has_at(t, 0, p) {
            assert(t.subrange(0, p.len() as int)[0] == p[0]);
        }
    }
    assert(!has_at(t, 0, op_text(trial_order()[2]))) by {
        let p = op_text(trial_order()[2]);
        if has_at(t, 0, p) {
            assert(t.subrange(0, p.len() as int)[0] == p[0]);
        }
    }
    assert(!has_at(t, 0, op_text(trial_order()[3]))) by {
        let p = op_text(trial_order()[3]);
        if has_at(t, 0, p) {
            assert(t.subrange(0, p.len() as int)[0] == p[0]);
        }
    }
    assert(!has_at(t, 0, op_text(trial_order()[4]))) by {
        let p = op_text(trial_order()[4]);
        if has_at(t, 0, p) {
            assert(t.subrange(0, p.len() as int)[0] == p[0]);
        }
    }
    assert(!has_at(t, 0, op_text(trial_order()[5]))) by {
        let p = op_text(trial_order()[5]);
        if has_at(t, 0, p) {
            assert(t.subrange(0, p.len() as int)[0] == p[0]);
        }
    }
    assert(!has_at(t, 0, op_text(trial_order()[6]))) by {
        let p = op_text(trial_order()[6]);
        if has_at(t, 0, p) {
            assert(t.subrange(0, p.len() as int)[0] == p[0]);
        }
    }
    assert(!has_at(t, 0, op_text(trial_order()[7]))) by {
        let p = op_text(trial_order()[7]);
        if has_at(t, 0, p) {
            assert(t.subrange(0, p.len() as int)[0] == p[0]);
        }
    }
    assert(!has_at(t, 0, op_text(trial_order()[8]))) by {
        let p = op_text(trial_order()[8]);
        if has_at(t, 0, p) {
            assert(t.subrange(0, p.len() as int)[0] == p[0]);
        }
    }
    assert(!has_at(t, 0, op_text(trial_order()[9]))) by {
        let p = op_text(trial_order()[9]);
        if has_at(t, 0, p) {
            assert(t.subrange(0, p.len() as int)[0] == p[0]);
        }
    }
    assert(!has_at(t, 0, op_text(trial_order()[10]))) by {
        let p = op_text(trial_order()[10]);
        if has_at(t, 0, p) {
            assert(t.subrange(0, p.len() as int)[0] == p[0]);
        }
    }
    assert(!has_at(t, 0, op_text(trial_order()[11]))) by {
        let p = op_text(trial_order()[11]);
        if has_at(t, 0, p) {
            assert(t.subrange(0, p.len() as int)[0] == p[0]);
        }
    }
    assert(!has_at(t, 0, op_text(trial_order()[12]))) by {
        let p = op_text(trial_order()[12]);
        if has_at(t, 0, p) {
            assert(t.subrange(0, p.len() as int)[0] == p[0]);
        }
    }
    assert(has_at(t, 0, op_text(trial_order()[13])));
    assert(spec_match_op(t) == Some(13int));
}

#[verifier::rlimit(60)]proof fn lemma_munch_binaryorequals(tail: Seq<char>)
    requires
        tail.len() == 0 || !is_op_char(tail[0]),
    ensures
        spec_match_op(op_text(Expression::BinaryOrEquals) + tail) == Some(14int),
{
    let e = Expression::BinaryOrEquals;
    let t = op_text(e) + tail;
    reveal_with_fuel(match_op_from, 35);
    if tail.len() > 0 {
        assert(t[2] == tail[0]);
    }
    assert(t.subrange(0, 2) =~= op_text(e));
    assert(!has_at(t, 0, op_text(trial_order()[0]))) by {
        let p = op_text(trial_order()[0]);
        if has_at(t, 0, p) {
            assert(t.subrange(0, p.len() as int)[0] == p[0]);
        }
    }
    assert(!has_at(t, 0, op_text(trial_order()[1]))) by {
        let p = op_text(trial_order()[1]);
        if has_at(t, 0, p) {
            assert(t.subrange(0, p.len() as int)[0] == p[0]);
        }
    }
    assert(!has_at(t, 0, op_text(trial_order()[2]))) by {
        let p = op_text(trial_order()[2]);
        if has_at(t, 0, p) {
            assert(t.subrange(0, p.len() as int)[0] == p[0]);
        }
    }
    assert(!has_at(t, 0, op_text(trial_order()[3]))) by {
        let p = op_text(trial_order()[3]);
        if has_at(t, 0, p) {
            assert(t.subrange(0, p.len() as int)[0] == p[0]);
        }
    }
    assert(!has_at(t, 0, op_text(trial_order()[4]))) by {
        let p = op_text(trial_order()[4]);
        if has_at(t, 0, p) {
            assert(t.subrange(0, p.len() as int)[0] == p[0]);
        }
    }
    assert(!has_at(t, 0, op_text(trial_order()[5]))) by {
        let p = op_text(trial_order()[5]);
        if has_at(t, 0, p) {
            assert(t.subrange(0, p.len() as int)[0] == p[0]);
        }
    }
    assert(!has_at(t, 0, op_text(trial_order()[6]))) by {
        let p = op_text(trial_order()[6]);
        if has_at(t, 0, p) {
            assert(t.subrange(0, p.len() as int)[0] == p[0]);
        }
    }
    assert(!has_at(t, 0, op_text(trial_order()[7]))) by {
        let p = op_text(trial_order()[7]);
        if has_at(t, 0, p) {
            assert(t.subrange(0, p.len() as int)[0] == p[0]);
        }
    }
    assert(!has_at(t, 0, op_text(trial_order()[8]))) by {
        let p = op_text(trial_order()[8]);
        if has_at(t, 0, p) {
            assert(t.subrange(0, p.len() as int)[0] == p[0]);
        }
    }
    assert(!has_at(t, 0, op_text(trial_order()[9]))) by {
        let p = op_text(trial_order()[9]);
        if has_at(t, 0, p) {
            assert(t.subrange(0, p.len() as int)[0] == p[0]);
        }
    }
    assert(!has_at(t, 0, op_text(trial_order()[10]))) by {
        let p = op_text(trial_order()[10]);
        if has_at(t, 0, p) {
            assert(t.subrange(0, p.len() as int)[0] == p[0]);
        }
    }
    assert(!has_at(t, 0, op_text(trial_order()[11]))) by {
        let p = op_text(trial_order()[11]);
        if has_at(t, 0, p) {
            assert(t.subrange(0, p.len() as int)[0] == p[0]);
        }
    }
    assert(!has_at(t, 0, op_text(trial_order()[12]))) by {
        let p = op_text(trial_order()[12]);
        if has_at(t, 0, p) {
            assert(t.subrange(0, p.len() as int)[0] == p[0]);
        }
    }
    assert(!has_at(t, 0, op_text(trial_order()[13]))) by {
        let p = op_text(trial_order()[13]);
        if has_at(t, 0, p) {
            assert(t.subrange(0, p.len() as int)[0] == p[0]);
        }
    }
    assert(has_at(t, 0, op_text(trial_order()[14])));
    assert(spec_match_op(t) == Some(14int));
}

#[verifier::rlimit(60)]proof fn lemma_munch_binaryor(tail: Seq<char>)
    requires
        tail.len() == 0 || !is_op_char(tail[0]),
    ensures
        spec_match_op(op_text(Expression::BinaryOr) + tail) == Some(15int),
{
    let e = Expression::BinaryOr;
    let t = op_text(e) + tail;
    reveal_with_fuel(match_op_from, 35);
    if tail.len() > 0 {
        assert(t[1] == tail[0]);
    }
    assert(t.subrange(0, 1) =~= op_text(e));
    assert(!has_at(t, 0, op_text(trial_order()[0]))) by {
        let p = op_text(trial_order()[0]);
        if has_at(t, 0, p) {
            assert(t.subrange(0, p.len() as int)[0] == p[0]);
        }
    }
    assert(!has_at(t, 0, op_text(trial_order()[1]))) by {
        let p = op_text(trial_order()[1]);
        if has_at(t, 0, p) {
            assert(t.subrange(0, p.len() as int)[0] == p[0]);
        }
    }
    assert(!has_at(t, 0, op_text(trial_order()[2]))) by {
        let p = op_text(trial_order()[2]);
        if has_at(t, 0, p) {
            assert(t.subrange(0, p.len() as int)[0] == p[0]);
        }
    }
    assert(!has_at(t, 0, op_text(trial_order()[3]))) by {
        let p = op_text(trial_order()[3]);
        if has_at(t, 0, p) {
            assert(t.subrange(0, p.len() as int)[0] == p[0]);
        }
    }
    assert(!has_at(t, 0, op_text(trial_order()[4]))) by {
        let p = op_text(trial_order()[4]);
        if has_at(t, 0, p) {
            assert(t.subrange(0, p.len() as int)[0] == p[0]);
        }
    }
    assert(!has_at(t, 0, op_text(trial_order()[5]))) by {
        let p = op_text(trial_order()[5]);
        if has_at(t, 0, p) {
            assert(t.subrange(0, p.len() as int)[0] == p[0]);
        }
    }
    assert(!has_at(t, 0, op_text(trial_order()[6]))) by {
        let p = op_text(trial_order()[6]);
        if has_at(t, 0, p) {
            assert(t.subrange(0, p.len() as int)[0] == p[0]);
        }
    }
    assert(!has_at(t, 0, op_text(trial_order()[7]))) by {
        let p = op_text(trial_order()[7]);
        if has_at(t, 0, p) {
            assert(t.subrange(0, p.len() as int)[0] == p[0]);
        }
    }
    assert(!has_at(t, 0, op_text(trial_order()[8]))) by {
        let p = op_text(trial_order()[8]);
        if has_at(t, 0, p) {
            assert(t.subrange(0, p.len() as int)[0] == p[0]);
        }
    }
    assert(!has_at(t, 0, op_text(trial_order()[9]))) by {
        let p = op_text(trial_order()[9]);
        if has_at(t, 0, p) {
            assert(t.subrange(0, p.len() as int)[0] == p[0]);
        }
    }
    assert(!has_at(t, 0, op_text(trial_order()[10]))) by {
        let p = op_text(trial_order()[10]);
        if has_at(t, 0, p) {
            assert(t.subrange(0, p.len() as int)[0] == p[0]);
        }
    }
    assert(!has_at(t, 0, op_text(trial_order()[11]))) by {
        let p = op_text(trial_order()[11]);
        if has_at(t, 0, p) {
            assert(t.subrange(0, p.len() as int)[0] == p[0]);
        }
    }
    assert(!has_at(t, 0, op_text(trial_order()[12]))) by {
        let p = op_text(trial_order()[12]);
        if has_at(t, 0, p) {
            assert(t.subrange(0, p.len() as int)[0] == p[0]);
        }
    }
    assert(!has_at(t, 0, op_text(trial_order()[13]))) by {
        let p = op_text(trial_order()[13]);
        if has_at(t, 0, p) {
            assert(t.subrange(0, p.len() as int)[0] == p[0]);
        }
    }
    assert(!has_at(t, 0, op_text(trial_order()[14]))) by {
        let p = op_text(trial_order()[14]);
        if has_at(t, 0, p) {
            assert(t.subrange(0, p.len() as int)[0] == p[0]);
        }
    }
    assert(has_at(t, 0, op_text(trial_order()[15])));
    assert(spec_match_op(t) == Some(15int));
}

#[verifier::rlimit(60)]proof fn lemma_munch_equals(tail: Seq<char>)
    requires
        tail.len() == 0 || !is_op_char(tail[0]),
    ensures
        spec_match_op(op_text(Expression::Equals) + tail) == Some(16int),
{
    let e = Expression::Equals;
    let t = op_text(e) + tail;
    reveal_with_fuel(match_op_from, 35);
    if tail.len() > 0 {
        assert(t[2] == tail[0]);
    }
    assert(t.subrange(0, 2) =~= op_text(e));
    assert(!has_at(t, 0, op_text(trial_order()[0]))) by {
        let p = op_text(trial_order()[0]);
        if has_at(t, 0, p) {
            assert(t.subrange(0, p.len() as int)[0] == p[0]);
        }
    }
    assert(!has_at(t, 0, op_text(trial_order()[1]))) by {
        let p = op_text(trial_order()[1]);
        if has_at(t, 0, p) {
            assert(t.subrange(0, p.len() as int)[0] == p[0]);
        }
    }
    assert(!has_at(t, 0, op_text(trial_order()[2]))) by {
        let p = op_text(trial_order()[2]);
        if has_at(t, 0, p) {
            assert(t.subrange(0, p.len() as int)[0] == p[0]);
        }
    }
    assert(!has_at(t, 0, op_text(trial_order()[3]))) by {
        let p = op_text(trial_order()[3]);
        if has_at(t, 0, p) {
            assert(t.subrange(0, p.len() as int)[0] == p[0]);
        }
    }
    assert(!has_at(t, 0, op_text(trial_order()[4]))) by {
        let p = op_text(trial_order()[4]);
        if has_at(t, 0, p) {
            assert(t.subrange(0, p.len() as int)[0] == p[0]);
        }
    }
    assert(!has_at(t, 0, op_text(trial_order()[5]))) by {
        let p = op_text(trial_order()[5]);
        if has_at(t, 0, p) {
            assert(t.subrange(0, p.len() as int)[0] == p[0]);
        }
    }
    assert(!has_at(t, 0, op_text(trial_order()[6]))) by {
        let p = op_text(trial_order()[6]);
        if has_at(t, 0, p) {
            assert(t.subrange(0, p.len() as int)[0] == p[0]);
        }
    }
    assert(!has_at(t, 0, op_text(trial_order()[7]))) by {
        let p = op_text(trial_order()[7]);
        if has_at(t, 0, p) {
            assert(t.subrange(0, p.len() as int)[0] == p[0]);
        }
    }
    assert(!has_at(t, 0, op_text(trial_order()[8]))) by {
        let p = op_text(trial_order()[8]);
        if has_at(t, 0, p) {
            assert(t.subrange(0, p.len() as int)[0] == p[0]);
        }
    }
    assert(!has_at(t, 0, op_text(trial_order()[9]))) by {
        let p = op_text(trial_order()[9]);
        if has_at(t, 0, p) {
            assert(t.subrange(0, p.len() as int)[0] == p[0]);
        }
    }
    assert(!has_at(t, 0, op_text(trial_order()[10]))) by {
        let p = op_text(trial_order()[10]);
        if has_at(t, 0, p) {
            assert(t.subrange(0, p.len() as int)[0] == p[0]);
        }
    }
    assert(!has_at(t, 0, op_text(trial_order()[11]))) by {
        let p = op_text(trial_order()[11]);
        if has_at(t, 0, p) {
            assert(t.subrange(0, p.len() as int)[0] == p[0]);
        }
    }
    assert(!has_at(t, 0, op_text(trial_order()[12]))) by {
        let p = op_text(trial_order()[12]);
        if has_at(t, 0, p) {
            assert(t.subrange(0, p.len() as int)[0] == p[0]);
        }
    }
    assert(!has_at(t, 0, op_text(trial_order()[13]))) by {
        let p = op_text(trial_order()[13]);
        if has_at(t, 0, p) {
            assert(t.subrange(0, p.len() as int)[0] == p[0]);
        }
    }
    assert(!has_at(t, 0, op_text(trial_order()[14]))) by {
        let p = op_text(trial_order()[14]);
        if has_at(t, 0, p) {
            assert(t.subrange(0, p.len() as int)[0] == p[0]);
        }
    }
    assert(!has_at(t, 0, op_text(trial_order()[15]))) by {
        let p = op_text(trial_order()[15]);
        if has_at(t, 0, p) {
            assert(t.subrange(0, p.len() as int)[0] == p[0]);
        }
    }
    assert(has_at(t, 0, op_text(trial_order()[16])));
    assert(spec_match_op(t) == Some(16int));
}

#[verifier::rlimit(60)]proof fn lemma_munch_addequals(tail: Seq<char>)
    requires
        tail.len() == 0 || !is_op_char(tail[0]),
    ensures
        spec_match_op(op_text(Expression::AddEquals) + tail) == Some(17int),
{
    let e = Expression::AddEquals;
    let t = op_text(e) + tail;
    reveal_with_fuel(match_op_from, 35);
    if tail.len() > 0 {
        assert(t[2] == tail[0]);
    }
    assert(t.subrange(0, 2) =~= op_text(e));
    assert(!has_at(t, 0, op_text(trial_order()[0]))) by {
        let p = op_text(trial_order()[0]);
        if has_at(t, 0, p) {
            assert(t.subrange(0, p.len() as int)[0] == p[0]);
        }
    }
    assert(!has_at(t, 0, op_text(trial_order()[1]))) by {
        let p = op_text(trial_order()[1]);
        if has_at(t, 0, p) {
            assert(t.subrange(0, p.len() as int)[0] == p[0]);
        }
    }
    assert(!has_at(t, 0, op_text(trial_order()[2]))) by {
        let p = op_text(trial_order()[2]);
        if has_at(t, 0, p) {
            assert(t.subrange(0, p.len() as int)[0] == p[0]);
        }
    }
    assert(!has_at(t, 0, op_text(trial_order()[3]))) by {
        let p = op_text(trial_order()[3]);
        if has_at(t, 0, p) {
            assert(t.subrange(0, p.len() as int)[0] == p[0]);
        }
    }
    assert(!has_at(t, 0, op_text(trial_order()[4]))) by {
        let p = op_text(trial_order()[4]);
        if has_at(t, 0, p) {
            assert(t.subrange(0, p.len() as int)[0] == p[0]);
        }
    }
    assert(!has_at(t, 0, op_text(trial_order()[5]))) by {
        let p = op_text(trial_order()[5]);
        if has_at(t, 0, p) {
            assert(t.subrange(0, p.len() as int)[0] == p[0]);
        }
    }
    assert(!has_at(t, 0, op_text(trial_order()[6]))) by {
        let p = op_text(trial_order()[6]);
        if has_at(t, 0, p) {
            assert(t.subrange(0, p.len() as int)[0] == p[0]);
        }
    }
    assert(!has_at(t, 0, op_text(trial_order()[7]))) by {
        let p = op_text(trial_order()[7]);
        if has_at(t, 0, p) {
            assert(t.subrange(0, p.len() as int)[0] == p[0]);
        }
    }
    assert(!has_at(t, 0, op_text(trial_order()[8]))) by {
        let p = op_text(trial_order()[8]);
        if has_at(t, 0, p) {
            assert(t.subrange(0, p.len() as int)[0] == p[0]);
        }
    }
    assert(!has_at(t, 0, op_text(trial_order()[9]))) by {
        let p = op_text(trial_order()[9]);
        if has_at(t, 0, p) {
            assert(t.subrange(0, p.len() as int)[0] == p[0]);
        }
    }
    assert(!has_at(t, 0, op_text(trial_order()[10]))) by {
        let p = op_text(trial_order()[10]);
        if has_at(t, 0, p) {
            assert(t.subrange(0, p.len() as int)[0] == p[0]);
        }
    }
    assert(!has_at(t, 0, op_text(trial_order()[11]))) by {
        let p = op_text(trial_order()[11]);
        if has_at(t, 0, p) {
            assert(t.subrange(0, p.len() as int)[0] == p[0]);
        }
    }
    assert(!has_at(t, 0, op_text(trial_order()[12]))) by {
        let p = op_text(trial_order()[12]);
        if has_at(t, 0, p) {
            assert(t.subrange(0, p.len() as int)[0] == p[0]);
        }
    }
    assert(!has_at(t, 0, op_text(trial_order()[13]))) by {
        let p = op_text(trial_order()[13]);
        if has_at(t, 0, p) {
            assert(t.subrange(0, p.len() as int)[0] == p[0]);
        }
    }
    assert(!has_at(t, 0, op_text(trial_order()[14]))) by {
        let p = op_text(trial_order()[14]);
        if has_at(t, 0, p) {
            assert(t.subrange(0, p.len() as int)[0] == p[0]);
        }
    }
    assert(!has_at(t, 0, op_text(trial_order()[15]))) by {
        let p = op_text(trial_order()[15]);
        if has_at(t, 0, p) {
            assert(t.subrange(0, p.len() as int)[0] == p[0]);
        }
    }
    assert(!has_at(t, 0, op_text(trial_order()[16]))) by {
        let p = op_text(trial_order()[16]);
        if has_at(t, 0, p) {
            assert(t.subrange(0, p.len() as int)[0] == p[0]);
        }
    }
    assert(has_at(t, 0, op_text(trial_order()[17])));
    assert(spec_match_op(t) == Some(17int));
}

#[verifier::rlimit(60)]proof fn lemma_munch_increment(tail: Seq<char>)
    requires
        tail.len() == 0 || !is_op_char(tail[0]),
    ensures
        spec_match_op(op_text(Expression::Increment) + tail) == Some(18int),
{
    let e = Expression::Increment;
    let t = op_text(e) + tail;
    reveal_with_fuel(match_op_from, 35);
    if tail.len() > 0 {
        assert(t[2] == tail[0]);
    }
    assert(t.subrange(0, 2) =~= op_text(e));
    assert(!has_at(t, 0, op_text(trial_order()[0]))) by {
        let p = op_text(trial_order()[0]);
        if has_at(t, 0, p) {
            assert(t.subrange(0, p.len() as int)[0] == p[0]);
        }
    }
    assert(!has_at(t, 0, op_text(trial_order()[1]))) by {
        let p = op_text(trial_order()[1]);
        if has_at(t, 0, p) {
            assert(t.subrange(0, p.len() as int)[0] == p[0]);
        }
    }
    assert(!has_at(t, 0, op_text(trial_order()[2]))) by {
        let p = op_text(trial_order()[2]);
        if has_at(t, 0, p) {
            assert(t.subrange(0, p.len() as int)[0] == p[0]);
        }
    }
    assert(!has_at(t, 0, op_text(trial_order()[3]))) by {
        let p = op_text(trial_order()[3]);
        if has_at(t, 0, p) {
            assert(t.subrange(0, p.len() as int)[0] == p[0]);
        }
    }
    assert(!has_at(t, 0, op_text(trial_order()[4]))) by {
        let p = op_text(trial_order()[4]);
        if has_at(t, 0, p) {
            assert(t.subrange(0, p.len() as int)[0] == p[0]);
        }
    }
    assert(!has_at(t, 0, op_text(trial_order()[5]))) by {
        let p = op_text(trial_order()[5]);
        if has_at(t, 0, p) {
            assert(t.subrange(0, p.len() as int)[0] == p[0]);
        }
    }
    assert(!has_at(t, 0, op_text(trial_order()[6]))) by {
        let p = op_text(trial_order()[6]);
        if has_at(t, 0, p) {
            assert(t.subrange(0, p.len() as int)[0] == p[0]);
        }
    }
    assert(!has_at(t, 0, op_text(trial_order()[7]))) by {
        let p = op_text(trial_order()[7]);
        if has_at(t, 0, p) {
            assert(t.subrange(0, p.len() as int)[0] == p[0]);
        }
    }
    assert(!has_at(t, 0, op_text(trial_order()[8]))) by {
        let p = op_text(trial_order()[8]);
        if has_at(t, 0, p) {
            assert(t.subrange(0, p.len() as int)[0] == p[0]);
        }
    }
    assert(!has_at(t, 0, op_text(trial_order()[9]))) by {
        let p = op_text(trial_order()[9]);
        if has_at(t, 0, p) {
            assert(t.subrange(0, p.len() as int)[0] == p[0]);
        }
    }
    assert(!has_at(t, 0, op_text(trial_order()[10]))) by {
        let p = op_text(trial_order()[10]);
        if has_at(t, 0, p) {
            assert(t.subrange(0, p.len() as int)[0] == p[0]);
        }
    }
    assert(!has_at(t, 0, op_text(trial_order()[11]))) by {
        let p = op_text(trial_order()[11]);
        if has_at(t, 0, p) {
            assert(t.subrange(0, p.len() as int)[0] == p[0]);
        }
    }
    assert(!has_at(t, 0, op_text(trial_order()[12]))) by {
        let p = op_text(trial_order()[12]);
        if has_at(t, 0, p) {
            assert(t.subrange(0, p.len() as int)[0] == p[0]);
        }
    }
    assert(!has_at(t, 0, op_text(trial_order()[13]))) by {
        let p = op_text(trial_order()[13]);
        if has_at(t, 0, p) {
            assert(t.subrange(0, p.len() as int)[0] == p[0]);
        }
    }
    assert(!has_at(t, 0, op_text(trial_order()[14]))) by {
        let p = op_text(trial_order()[14]);
        if has_at(t, 0, p) {
            assert(t.subrange(0, p.len() as int)[0] == p[0]);
        }
    }
    assert(!has_at(t, 0, op_text(trial_order()[15]))) by {
        let p = op_text(trial_order()[15]);
        if has_at(t, 0, p) {
            assert(t.subrange(0, p.len() as int)[0] == p[0]);
        }
    }
    assert(!has_at(t, 0, op_text(trial_order()[16]))) by {
        let p = op_text(trial_order()[16]);
        if has_at(t, 0, p) {
            assert(t.subrange(0, p.len() as int)[0] == p[0]);
        }
    }
    assert(!has_at(t, 0, op_text(trial_order()[17]))) by {
        let p = op_text(trial_order()[17]);
        if has_at(t, 0, p) {
            assert(t.subrange(0, p.len() as int)[0] == p[0]);
        }
    }
    assert(has_at(t, 0, op_text(trial_order()[18])));
    assert(spec_match_op(t) == Some(18int));
}

#[verifier::rlimit(60)]proof fn lemma_munch_add(tail: Seq<char>)
    requires
        tail.len() == 0 || !is_op_char(tail[0]),
    ensures
        spec_match_op(op_text(Expression::Add) + tail) == Some(19int),
{
    let e = Expression::Add;
    let t = op_text(e) + tail;
    reveal_with_fuel(match_op_from, 35);
    if tail.len() > 0 {
        assert(t[1] == tail[0]);
    }
    assert(t.subrange(0, 1) =~= op_text(e));
    assert(!has_at(t, 0, op_text(trial_order()[0]))) by {
        let p = op_text(trial_order()[0]);
        if has_at(t, 0, p) {
            assert(t.subrange(0, p.len() as int)[0] == p[0]);
        }
    }
    assert(!has_at(t, 0, op_text(trial_order()[1]))) by {
        let p = op_text(trial_order()[1]);
        if has_at(t, 0, p) {
            assert(t.subrange(0, p.len() as int)[0] == p[0]);
        }
    }
    assert(!has_at(t, 0, op_text(trial_order()[2]))) by {
        let p = op_text(trial_order()[2]);
        if has_at(t, 0, p) {
            assert(t.subrange(0, p.len() as int)[0] == p[0]);
        }
    }
    assert(!has_at(t, 0, op_text(trial_order()[3]))) by {
        let p = op_text(trial_order()[3]);
        if has_at(t, 0, p) {
            assert(t.subrange(0, p.len() as int)[0] == p[0]);
        }
    }
    assert(!has_at(t, 0, op_text(trial_order()[4]))) by {
        let p = op_text(trial_order()[4]);
        if has_at(t, 0, p) {
            assert(t.subrange(0, p.len() as int)[0] == p[0]);
        }
    }
    assert(!has_at(t, 0, op_text(trial_order()[5]))) by {
        let p = op_text(trial_order()[5]);
        if has_at(t, 0, p) {
            assert(t.subrange(0, p.len() as int)[0] == p[0]);
        }
    }
    assert(!has_at(t, 0, op_text(trial_order()[6]))) by {
        let p = op_text(trial_order()[6]);
        if has_at(t, 0, p) {
            assert(t.subrange(0, p.len() as int)[0] == p[0]);
        }
    }
    assert(!has_at(t, 0, op_text(trial_order()[7]))) by {
        let p = op_text(trial_order()[7]);
        if has_at(t, 0, p) {
            assert(t.subrange(0, p.len() as int)[0] == p[0]);
        }
    }
    assert(!has_at(t, 0, op_text(trial_order()[8]))) by {
        let p = op_text(trial_order()[8]);
        if has_at(t, 0, p) {
            assert(t.subrange(0, p.len() as int)[0] == p[0]);
        }
    }
    assert(!has_at(t, 0, op_text(trial_order()[9]))) by {
        let p = op_text(trial_order()[9]);
        if has_at(t, 0, p) {
            assert(t.subrange(0, p.len() as int)[0] == p[0]);
        }
    }
    assert(!has_at(t, 0, op_text(trial_order()[10]))) by {
        let p = op_text(trial_order()[10]);
        if has_at(t, 0, p) {
            assert(t.subrange(0, p.len() as int)[0] == p[0]);
        }
    }
    assert(!has_at(t, 0, op_text(trial_order()[11]))) by {
        let p = op_text(trial_order()[11]);
        if has_at(t, 0, p) {
            assert(t.subrange(0, p.len() as int)[0] == p[0]);
        }
    }
    assert(!has_at(t, 0, op_text(trial_order()[12]))) by {
        let p = op_text(trial_order()[12]);
        if has_at(t, 0, p) {
            assert(t.subrange(0, p.len() as int)[0] == p[0]);
        }
    }
    assert(!has_at(t, 0, op_text(trial_order()[13]))) by {
        let p = op_text(trial_order()[13]);
        if has_at(t, 0, p) {
            assert(t.subrange(0, p.len() as int)[0] == p[0]);
        }
    }
    assert(!has_at(t, 0, op_text(trial_order()[14]))) by {
        let p = op_text(trial_order()[14]);
        if has_at(t, 0, p) {
            assert(t.subrange(0, p.len() as int)[0] == p[0]);
        }
    }
    assert(!has_at(t, 0, op_text(trial_order()[15]))) by {
        let p = op_text(trial_order()[15]);
        if has_at(t, 0, p) {
            assert(t.subrange(0, p.len() as int)[0] == p[0]);
        }
    }
    assert(!has_at(t, 0, op_text(trial_order()[16]))) by {
        let p = op_text(trial_order()[16]);
        if has_at(t, 0, p) {
            assert(t.subrange(0, p.len() as int)[0] == p[0]);
        }
    }
    assert(!has_at(t, 0, op_text(trial_order()[17]))) by {
        let p = op_text(trial_order()[17]);
        if has_at(t, 0, p) {
            assert(t.subrange(0, p.len() as int)[0] == p[0]);
        }
    }
    assert(!has_at(t, 0, op_text(trial_order()[18]))) by {
        let p = op_text(trial_order()[18]);
        if has_at(t, 0, p) {
            assert(t.subrange(0, p.len() as int)[0] == p[0]);
        }
    }
    assert(has_at(t, 0, op_text(trial_order()[19])));
    assert(spec_match_op(t) == Some(19int));
}

#[verifier::rlimit(60)]proof fn lemma_munch_minusequals(tail: Seq<char>)
    requires
        tail.len() == 0 || !is_op_char(tail[0]),
    ensures
        spec_match_op(op_text(Expression::MinusEquals) + tail) == Some(20int),
{
    let e = Expression::MinusEquals;
    let t = op_text(e) + tail;
    reveal_with_fuel(match_op_from, 35);
    if tail.len() > 0 {
        assert(t[2] == tail[0]);
    }
    assert(t.subrange(0, 2) =~= op_text(e));
    assert(!has_at(t, 0, op_text(trial_order()[0]))) by {
        let p = op_text(trial_order()[0]);
        if has_at(t, 0, p) {
            assert(t.subrange(0, p.len() as int)[0] == p[0]);
        }
    }
    assert(!has_at(t, 0, op_text(trial_order()[1]))) by {
        let p = op_text(trial_order()[1]);
        if has_at(t, 0, p) {
            assert(t.subrange(0, p.len() as int)[0] == p[0]);
        }
    }
    assert(!has_at(t, 0, op_text(trial_order()[2]))) by {
        let p = op_text(trial_order()[2]);
        if has_at(t, 0, p) {
            assert(t.subrange(0, p.len() as int)[0] == p[0]);
        }
    }
    assert(!has_at(t, 0, op_text(trial_order()[3]))) by {
        let p = op_text(trial_order()[3]);
        if has_at(t, 0, p) {
            assert(t.subrange(0, p.len() as int)[0] == p[0]);
        }
    }
    assert(!has_at(t, 0, op_text(trial_order()[4]))) by {
        let p = op_text(trial_order()[4]);
        if has_at(t, 0, p) {
            assert(t.subrange(0, p.len() as int)[0] == p[0]);
        }
    }
    assert(!has_at(t, 0, op_text(trial_order()[5]))) by {
        let p = op_text(trial_order()[5]);
        if has_at(t, 0, p) {
            assert(t.subrange(0, p.len() as int)[0] == p[0]);
        }
    }
    assert(!has_at(t, 0, op_text(trial_order()[6]))) by {
        let p = op_text(trial_order()[6]);
        if has_at(t, 0, p) {
            assert(t.subrange(0, p.len() as int)[0] == p[0]);
        }
    }
    assert(!has_at(t, 0, op_text(trial_order()[7]))) by {
        let p = op_text(trial_order()[7]);
        if has_at(t, 0, p) {
            assert(t.subrange(0, p.len() as int)[0] == p[0]);
        }
    }
    assert(!has_at(t, 0, op_text(trial_order()[8]))) by {
        let p = op_text(trial_order()[8]);
        if has_at(t, 0, p) {
            assert(t.subrange(0, p.len() as int)[0] == p[0]);
        }
    }
    assert(!has_at(t, 0, op_text(trial_order()[9]))) by {
        let p = op_text(trial_order()[9]);
        if has_at(t, 0, p) {
            assert(t.subrange(0, p.len() as int)[0] == p[0]);
        }
    }
    assert(!has_at(t, 0, op_text(trial_order()[10]))) by {
        let p = op_text(trial_order()[10]);
        if has_at(t, 0, p) {
            assert(t.subrange(0, p.len() as int)[0] == p[0]);
        }
    }
    assert(!has_at(t, 0, op_text(trial_order()[11]))) by {
        let p = op_text(trial_order()[11]);
        if has_at(t, 0, p) {
            assert(t.subrange(0, p.len() as int)[0] == p[0]);
        }
    }
    assert(!has_at(t, 0, op_text(trial_order()[12]))) by {
        let p = op_text(trial_order()[12]);
        if has_at(t, 0, p) {
            assert(t.subrange(0, p.len() as int)[0] == p[0]);
        }
    }
    assert(!has_at(t, 0, op_text(trial_order()[13]))) by {
        let p = op_text(trial_order()[13]);
        if has_at(t, 0, p) {
            assert(t.subrange(0, p.len() as int)[0] == p[0]);
        }
    }
    assert(!has_at(t, 0, op_text(trial_order()[14]))) by {
        let p = op_text(trial_order()[14]);
        if has_at(t, 0, p) {
            assert(t.subrange(0, p.len() as int)[0] == p[0]);
        }
    }
    assert(!has_at(t, 0, op_text(trial_order()[15]))) by {
        let p = op_text(trial_order()[15]);
        if has_at(t, 0, p) {
            assert(t.subrange(0, p.len() as int)[0] == p[0]);
        }
    }
    assert(!has_at(t, 0, op_text(trial_order()[16]))) by {
        let p = op_text(trial_order()[16]);
        if has_at(t, 0, p) {
            assert(t.subrange(0, p.len() as int)[0] == p[0]);
        }
    }
    assert(!has_at(t, 0, op_text(trial_order()[17]))) by {
        let p = op_text(trial_order()[17]);
        if has_at(t, 0, p) {
            assert(t.subrange(0, p.len() as int)[0] == p[0]);
        }
    }
    assert(!has_at(t, 0, op_text(trial_order()[18]))) by {
        let p = op_text(trial_order()[18]);
        if has_at(t, 0, p) {
            assert(t.subrange(0, p.len() as int)[0] == p[0]);
        }
    }
    assert(!has_at(t, 0, op_text(trial_order()[19]))) by {
        let p = op_text(trial_order()[19]);
        if has_at(t, 0, p) {
            assert(t.subrange(0, p.len() as int)[0] == p[0]);
        }
    }
    assert(has_at(t, 0, op_text(trial_order()[20])));
    assert(spec_match_op(t) == Some(20int));
}

#[verifier::rlimit(60)]proof fn lemma_munch_decrement(tail: Seq<char>)
    requires
        tail.len() == 0 || !is_op_char(tail[0]),
    ensures
        spec_match_op(op_text(Expression::Decrement) + tail) == Some(21int),
{
    let e = Expression::Decrement;
    let t = op_text(e) + tail;
    reveal_with_fuel(match_op_from, 35);
    if tail.len() > 0 {
        assert(t[2] == tail[0]);
    }
    assert(t.subrange(0, 2) =~= op_text(e));
    assert(!has_at(t, 0, op_text(trial_order()[0]))) by {
        let p = op_text(trial_order()[0]);
        if has_at(t, 0, p) {
            assert(t.subrange(0, p.len() as int)[0] == p[0]);
        }
    }
    assert(!has_at(t, 0, op_text(trial_order()[1]))) by {
        let p = op_text(trial_order()[1]);
        if has_at(t, 0, p) {
            assert(t.subrange(0, p.len() as int)[0] == p[0]);
        }
    }
    assert(!has_at(t, 0, op_text(trial_order()[2]))) by {
        let p = op_text(trial_order()[2]);
        if has_at(t, 0, p) {
            assert(t.subrange(0, p.len() as int)[0] == p[0]);
        }
    }
    assert(!has_at(t, 0, op_text(trial_order()[3]))) by {
        let p = op_text(trial_order()[3]);
        if has_at(t, 0, p) {
            assert(t.subrange(0, p.len() as int)[0] == p[0]);
        }
    }
    assert(!has_at(t, 0, op_text(trial_order()[4]))) by {
        let p = op_text(trial_order()[4]);
        if has_at(t, 0, p) {
            assert(t.subrange(0, p.len() as int)[0] == p[0]);
        }
    }
    assert(!has_at(t, 0, op_text(trial_order()[5]))) by {
        let p = op_text(trial_order()[5]);
        if has_at(t, 0, p) {
            assert(t.subrange(0, p.len() as int)[0] == p[0]);
        }
    }
    assert(!has_at(t, 0, op_text(trial_order()[6]))) by {
        let p = op_text(trial_order()[6]);
        if has_at(t, 0, p) {
            assert(t.subrange(0, p.len() as int)[0] == p[0]);
        }
    }
    assert(!has_at(t, 0, op_text(trial_order()[7]))) by {
        let p = op_text(trial_order()[7]);
        if has_at(t, 0, p) {
            assert(t.subrange(0, p.len() as int)[0] == p[0]);
        }
    }
    assert(!has_at(t, 0, op_text(trial_order()[8]))) by {
        let p = op_text(trial_order()[8]);
        if has_at(t, 0, p) {
            assert(t.subrange(0, p.len() as int)[0] == p[0]);
        }
    }
    assert(!has_at(t, 0, op_text(trial_order()[9]))) by {
        let p = op_text(trial_order()[9]);
        if has_at(t, 0, p) {
            assert(t.subrange(0, p.len() as int)[0] == p[0]);
        }
    }
    assert(!has_at(t, 0, op_text(trial_order()[10]))) by {
        let p = op_text(trial_order()[10]);
        if has_at(t, 0, p) {
            assert(t.subrange(0, p.len() as int)[0] == p[0]);
        }
    }
    assert(!has_at(t, 0, op_text(trial_order()[11]))) by {
        let p = op_text(trial_order()[11]);
        if has_at(t, 0, p) {
            assert(t.subrange(0, p.len() as int)[0] == p[0]);
        }
    }
    assert(!has_at(t, 0, op_text(trial_order()[12]))) by {
        let p = op_text(trial_order()[12]);
        if has_at(t, 0, p) {
            assert(t.subrange(0, p.len() as int)[0] == p[0]);
        }
    }
    assert(!has_at(t, 0, op_text(trial_order()[13]))) by {
        let p = op_text(trial_order()[13]);
        if has_at(t, 0, p) {
            assert(t.subrange(0, p.len() as int)[0] == p[0]);
        }
    }
    assert(!has_at(t, 0, op_text(trial_order()[14]))) by {
        let p = op_text(trial_order()[14]);
        if has_at(t, 0, p) {
            assert(t.subrange(0, p.len() as int)[0] == p[0]);
        }
    }
    assert(!has_at(t, 0, op_text(trial_order()[15]))) by {
        let p = op_text(trial_order()[15]);
        if has_at(t, 0, p) {
            assert(t.subrange(0, p.len() as int)[0] == p[0]);
        }
    }
    assert(!has_at(t, 0, op_text(trial_order()[16]))) by {
        let p = op_text(trial_order()[16]);
        if has_at(t, 0, p) {
            assert(t.subrange(0, p.len() as int)[0] == p[0]);
        }
    }
    assert(!has_at(t, 0, op_text(trial_order()[17]))) by {
        let p = op_text(trial_order()[17]);
        if has_at(t, 0, p) {
            assert(t.subrange(0, p.len() as int)[0] == p[0]);
        }
    }
    assert(!has_at(t, 0, op_text(trial_order()[18]))) by {
        let p = op_text(trial_order()[18]);
        if has_at(t, 0, p) {
            assert(t.subrange(0, p.len() as int)[0] == p[0]);
        }
    }
    assert(!has_at(t, 0, op_text(trial_order()[19]))) by {
        let p = op_text(trial_order()[19]);
        if has_at(t, 0, p) {
            assert(t.subrange(0, p.len() as int)[0] == p[0]);
        }
    }
    assert(!has_at(t, 0, op_text(trial_order()[20]))) by {
        let p = op_text(trial_order()[20]);
        if has_at(t, 0, p) {
            assert(t.subrange(0, p.len() as int)[0] == p[0]);
        }
    }
    assert(has_at(t, 0, op_text(trial_order()[21])));
    assert(spec_match_op(t) == Some(21int));
}

#[verifier::rlimit(60)]proof fn lemma_munch_subtract(tail: Seq<char>)
    requires
        tail.len() == 0 || !is_op_char(tail[0]),
    ensures
        spec_match_op(op_text(Expression::Subtract) + tail) == Some(22int),
{
    let e = Expression::Subtract;
    let t = op_text(e) + tail;
    reveal_with_fuel(match_op_from, 35);
    if tail.len() > 0 {
        assert(t[1] == tail[0]);
    }
    assert(t.subrange(0, 1) =~= op_text(e));
    assert(!has_at(t, 0, op_text(trial_order()[0]))) by {
        let p = op_text(trial_order()[0]);
        if has_at(t, 0, p) {
            assert(t.subrange(0, p.len() as int)[0] == p[0]);
        }
    }
    assert(!has_at(t, 0, op_text(trial_order()[1]))) by {
        let p = op_text(trial_order()[1]);
        if has_at(t, 0, p) {
            assert(t.subrange(0, p.len() as int)[0] == p[0]);
        }
    }
    assert(!has_at(t, 0, op_text(trial_order()[2]))) by {
        let p = op_text(trial_order()[2]);
        if has_at(t, 0, p) {
            assert(t.subrange(0, p.len() as int)[0] == p[0]);
        }
    }
    assert(!has_at(t, 0, op_text(trial_order()[3]))) by {
        let p = op_text(trial_order()[3]);
        if has_at(t, 0, p) {
            assert(t.subrange(0, p.len() as int)[0] == p[0]);
        }
    }
    assert(!has_at(t, 0, op_text(trial_order()[4]))) by {
        let p = op_text(trial_order()[4]);
        if has_at(t, 0, p) {
            assert(t.subrange(0, p.len() as int)[0] == p[0]);
        }
    }
    assert(!has_at(t, 0, op_text(trial_order()[5]))) by {
        let p = op_text(trial_order()[5]);
        if has_at(t, 0, p) {
            assert(t.subrange(0, p.len() as int)[0] == p[0]);
        }
    }
    assert(!has_at(t, 0, op_text(trial_order()[6]))) by {
        let p = op_text(trial_order()[6]);
        if has_at(t, 0, p) {
            assert(t.subrange(0, p.len() as int)[0] == p[0]);
        }
    }
    assert(!has_at(t, 0, op_text(trial_order()[7]))) by {
        let p = op_text(trial_order()[7]);
        if has_at(t, 0, p) {
            assert(t.subrange(0, p.len() as int)[0] == p[0]);
        }
    }
    assert(!has_at(t, 0, op_text(trial_order()[8]))) by {
        let p = op_text(trial_order()[8]);
        if has_at(t, 0, p) {
            assert(t.subrange(0, p.len() as int)[0] == p[0]);
        }
    }
    assert(!has_at(t, 0, op_text(trial_order()[9]))) by {
        let p = op_text(trial_order()[9]);
        if has_at(t, 0, p) {
            assert(t.subrange(0, p.len() as int)[0] == p[0]);
        }
    }
    assert(!has_at(t, 0, op_text(trial_order()[10]))) by {
        let p = op_text(trial_order()[10]);
        if has_at(t, 0, p) {
            assert(t.subrange(0, p.len() as int)[0] == p[0]);
        }
    }
    assert(!has_at(t, 0, op_text(trial_order()[11]))) by {
        let p = op_text(trial_order()[11]);
        if has_at(t, 0, p) {
            assert(t.subrange(0, p.len() as int)[0] == p[0]);
        }
    }
    assert(!has_at(t, 0, op_text(trial_order()[12]))) by {
        let p = op_text(trial_order()[12]);
        if has_at(t, 0, p) {
            assert(t.subrange(0, p.len() as int)[0] == p[0]);
        }
    }
    assert(!has_at(t, 0, op_text(trial_order()[13]))) by {
        let p = op_text(trial_order()[13]);
        if has_at(t, 0, p) {
            assert(t.subrange(0, p.len() as int)[0] == p[0]);
        }
    }
    assert(!has_at(t, 0, op_text(trial_order()[14]))) by {
        let p = op_text(trial_order()[14]);
        if has_at(t, 0, p) {
            assert(t.subrange(0, p.len() as int)[0] == p[0]);
        }
    }
    assert(!has_at(t, 0, op_text(trial_order()[15]))) by {
        let p = op_text(trial_order()[15]);
        if has_at(t, 0, p) {
            assert(t.subrange(0, p.len() as int)[0] == p[0]);
        }
    }
    assert(!has_at(t, 0, op_text(trial_order()[16]))) by {
        let p = op_text(trial_order()[16]);
        if has_at(t, 0, p) {
            assert(t.subrange(0, p.len() as int)[0] == p[0]);
        }
    }
    assert(!has_at(t, 0, op_text(trial_order()[17]))) by {
        let p = op_text(trial_order()[17]);
        if has_at(t, 0, p) {
            assert(t.subrange(0, p.len() as int)[0] == p[0]);
        }
    }
    assert(!has_at(t, 0, op_text(trial_order()[18]))) by {
        let p = op_text(trial_order()[18]);
        if has_at(t, 0, p) {
            assert(t.subrange(0, p.len() as int)[0] == p[0]);
        }
    }
    assert(!has_at(t, 0, op_text(trial_order()[19]))) by {
        let p = op_text(trial_order()[19]);
        if has_at(t, 0, p) {
            assert(t.subrange(0, p.len() as int)[0] == p[0]);
        }
    }
    assert(!has_at(t, 0, op_text(trial_order()[20]))) by {
        let p = op_text(trial_order()[20]);
        if has_at(t, 0, p) {
            assert(t.subrange(0, p.len() as int)[0] == p[0]);
        }
    }
    assert(!has_at(t, 0, op_text(trial_order()[21]))) by {
        let p = op_text(trial_order()[21]);
        if has_at(t, 0, p) {
            assert(t.subrange(0, p.len() as int)[0] == p[0]);
        }
    }
    assert(has_at(t, 0, op_text(trial_order()[22])));
    assert(spec_match_op(t) == Some(22int));
}

#[verifier::rlimit(60)]proof fn lemma_munch_multiplyequals(tail: Seq<char>)
    requires
        tail.len() == 0 || !is_op_char(tail[0]),
    ensures
        spec_match_op(op_text(Expression::MultiplyEquals) + tail) == Some(23int),
{
    let e = Expression::MultiplyEquals;
    let t = op_text(e) + tail;
    reveal_with_fuel(match_op_from, 35);
    if tail.len() > 0 {
        assert(t[2] == tail[0]);
    }
    assert(t.subrange(0, 2) =~= op_text(e));
    assert(!has_at(t, 0, op_text(trial_order()[0]))) by {
        let p = op_text(trial_order()[0]);
        if has_at(t, 0, p) {
            assert(t.subrange(0, p.len() as int)[0] == p[0]);
        }
    }
    assert(!has_at(t, 0, op_text(trial_order()[1]))) by {
        let p = op_text(trial_order()[1]);
        if has_at(t, 0, p) {
            assert(t.subrange(0, p.len() as int)[0] == p[0]);
        }
    }
    assert(!has_at(t, 0, op_text(trial_order()[2]))) by {
        let p = op_text(trial_order()[2]);
        if has_at(t, 0, p) {
            assert(t.subrange(0, p.len() as int)[0] == p[0]);
        }
    }
    assert(!has_at(t, 0, op_text(trial_order()[3]))) by {
        let p = op_text(trial_order()[3]);
        if has_at(t, 0, p) {
            assert(t.subrange(0, p.len() as int)[0] == p[0]);
        }
    }
    assert(!has_at(t, 0, op_text(trial_order()[4]))) by {
        let p = op_text(trial_order()[4]);
        if has_at(t, 0, p) {
            assert(t.subrange(0, p.len() as int)[0] == p[0]);
        }
    }
    assert(!has_at(t, 0, op_text(trial_order()[5]))) by {
        let p = op_text(trial_order()[5]);
        if has_at(t, 0, p) {
            assert(t.subrange(0, p.len() as int)[0] == p[0]);
        }
    }
    assert(!has_at(t, 0, op_text(trial_order()[6]))) by {
        let p = op_text(trial_order()[6]);
        if has_at(t, 0, p) {
            assert(t.subrange(0, p.len() as int)[0] == p[0]);
        }
    }
    assert(!has_at(t, 0, op_text(trial_order()[7]))) by {
        let p = op_text(trial_order()[7]);
        if has_at(t, 0, p) {
            assert(t.subrange(0, p.len() as int)[0] == p[0]);
        }
    }
    assert(!has_at(t, 0, op_text(trial_order()[8]))) by {
        let p = op_text(trial_order()[8]);
        if has_at(t, 0, p) {
            assert(t.subrange(0, p.len() as int)[0] == p[0]);
        }
    }
    assert(!has_at(t, 0, op_text(trial_order()[9]))) by {
        let p = op_text(trial_order()[9]);
        if has_at(t, 0, p) {
            assert(t.subrange(0, p.len() as int)[0] == p[0]);
        }
    }
    assert(!has_at(t, 0, op_text(trial_order()[10]))) by {
        let p = op_text(trial_order()[10]);
        if has_at(t, 0, p) {
            assert(t.subrange(0, p.len() as int)[0] == p[0]);
        }
    }
    assert(!has_at(t, 0, op_text(trial_order()[11]))) by {
        let p = op_text(trial_order()[11]);
        if has_at(t, 0, p) {
            assert(t.subrange(0, p.len() as int)[0] == p[0]);
        }
    }
    assert(!has_at(t, 0, op_text(trial_order()[12]))) by {
        let p = op_text(trial_order()[12]);
        if has_at(t, 0, p) {
            assert(t.subrange(0, p.len() as int)[0] == p[0]);
        }
    }
    assert(!has_at(t, 0, op_text(trial_order()[13]))) by {
        let p = op_text(trial_order()[13]);
        if has_at(t, 0, p) {
            assert(t.subrange(0, p.len() as int)[0] == p[0]);
        }
    }
    assert(!has_at(t, 0, op_text(trial_order()[14]))) by {
        let p = op_text(trial_order()[14]);
        if has_at(t, 0, p) {
            assert(t.subrange(0, p.len() as int)[0] == p[0]);
        }
    }
    assert(!has_at(t, 0, op_text(trial_order()[15]))) by {
        let p = op_text(trial_order()[15]);
        if has_at(t, 0, p) {
            assert(t.subrange(0, p.len() as int)[0] == p[0]);
        }
    }
    assert(!has_at(t, 0, op_text(trial_order()[16]))) by {
        let p = op_text(trial_order()[16]);
        if has_at(t, 0, p) {
            assert(t.subrange(0, p.len() as int)[0] == p[0]);
        }
    }
    assert(!has_at(t, 0, op_text(trial_order()[17]))) by {
        let p = op_text(trial_order()[17]);
        if has_at(t, 0, p) {
            assert(t.subrange(0, p.len() as int)[0] == p[0]);
        }
    }
    assert(!has_at(t, 0, op_text(trial_order()[18]))) by {
        let p = op_text(trial_order()[18]);
        if has_at(t, 0, p) {
            assert(t.subrange(0, p.len() as int)[0] == p[0]);
        }
    }
    assert(!has_at(t, 0, op_text(trial_order()[19]))) by {
        let p = op_text(trial_order()[19]);
        if has_at(t, 0, p) {
            assert(t.subrange(0, p.len() as int)[0] == p[0]);
        }
    }
    assert(!has_at(t, 0, op_text(trial_order()[20]))) by {
        let p = op_text(trial_order()[20]);
        if has_at(t, 0, p) {
            assert(t.subrange(0, p.len() as int)[0] == p[0]);
        }
    }
    assert(!has_at(t, 0, op_text(trial_order()[21]))) by {
        let p = op_text(trial_order()[21]);
        if has_at(t, 0, p) {
            assert(t.subrange(0, p.len() as int)[0] == p[0]);
        }
    }
    assert(!has_at(t, 0, op_text(trial_order()[22]))) by {
        let p = op_text(trial_order()[22]);
        if has_at(t, 0, p) {
            assert(t.subrange(0, p.len() as int)[0] == p[0]);
        }
    }
    assert(has_at(t, 0, op_text(trial_order()[23])));
    assert(spec_match_op(t) == Some(23int));
}

#[verifier::rlimit(60)]proof fn lemma_munch_multiply(tail: Seq<char>)
    requires
        tail.len() == 0 || !is_op_char(tail[0]),
    ensures
        spec_match_op(op_text(Expression::Multiply) + tail) == Some(24int),
{
    let e = Expression::Multiply;
    let t = op_text(e) + tail;
    reveal_with_fuel(match_op_from, 35);
    if tail.len() > 0 {
        assert(t[1] == tail[0]);
    }
    assert(t.subrange(0, 1) =~= op_text(e));
    assert(!has_at(t, 0, op_text(trial_order()[0]))) by {
        let p = op_text(trial_order()[0]);
        if has_at(t, 0, p) {
            assert(t.subrange(0, p.len() as int)[0] == p[0]);
        }
    }
    assert(!has_at(t, 0, op_text(trial_order()[1]))) by {
        let p = op_text(trial_order()[1]);
        if has_at(t, 0, p) {
            assert(t.subrange(0, p.len() as int)[0] == p[0]);
        }
    }
    assert(!has_at(t, 0, op_text(trial_order()[2]))) by {
        let p = op_text(trial_order()[2]);
        if has_at(t, 0, p) {
            assert(t.subrange(0, p.len() as int)[0] == p[0]);
        }
    }
    assert(!has_at(t, 0, op_text(trial_order()[3]))) by {
        let p = op_text(trial_order()[3]);
        if has_at(t, 0, p) {
            assert(t.subrange(0, p.len() as int)[0] == p[0]);
        }
    }
    assert(!has_at(t, 0, op_text(trial_order()[4]))) by {
        let p = op_text(trial_order()[4]);
        if has_at(t, 0, p) {
            assert(t.subrange(0, p.len() as int)[0] == p[0]);
        }
    }
    assert(!has_at(t, 0, op_text(trial_order()[5]))) by {
        let p = op_text(trial_order()[5]);
        if has_at(t, 0, p) {
            assert(t.subrange(0, p.len() as int)[0] == p[0]);
        }
    }
    assert(!has_at(t, 0, op_text(trial_order()[6]))) by {
        let p = op_text(trial_order()[6]);
        if has_at(t, 0, p) {
            assert(t.subrange(0, p.len() as int)[0] == p[0]);
        }
    }
    assert(!has_at(t, 0, op_text(trial_order()[7]))) by {
        let p = op_text(trial_order()[7]);
        if has_at(t, 0, p) {
            assert(t.subrange(0, p.len() as int)[0] == p[0]);
        }
    }
    assert(!has_at(t, 0, op_text(trial_order()[8]))) by {
        let p = op_text(trial_order()[8]);
        if has_at(t, 0, p) {
            assert(t.subrange(0, p.len() as int)[0] == p[0]);
        }
    }
    assert(!has_at(t, 0, op_text(trial_order()[9]))) by {
        let p = op_text(trial_order()[9]);
        if has_at(t, 0, p) {
            assert(t.subrange(0, p.len() as int)[0] == p[0]);
        }
    }
    assert(!has_at(t, 0, op_text(trial_order()[10]))) by {
        let p = op_text(trial_order()[10]);
        if has_at(t, 0, p) {
            assert(t.subrange(0, p.len() as int)[0] == p[0]);
        }
    }
    assert(!has_at(t, 0, op_text(trial_order()[11]))) by {
        let p = op_text(trial_order()[11]);
        if has_at(t, 0, p) {
            assert(t.subrange(0, p.len() as int)[0] == p[0]);
        }
    }
    assert(!has_at(t, 0, op_text(trial_order()[12]))) by {
        let p = op_text(trial_order()[12]);
        if has_at(t, 0, p) {
            assert(t.subrange(0, p.len() as int)[0] == p[0]);
        }
    }
    assert(!has_at(t, 0, op_text(trial_order()[13]))) by {
        let p = op_text(trial_order()[13]);
        if has_at(t, 0, p) {
            assert(t.subrange(0, p.len() as int)[0] == p[0]);
        }
    }
    assert(!has_at(t, 0, op_text(trial_order()[14]))) by {
        let p = op_text(trial_order()[14]);
        if has_at(t, 0, p) {
            assert(t.subrange(0, p.len() as int)[0] == p[0]);
        }
    }
    assert(!has_at(t, 0, op_text(trial_order()[15]))) by {
        let p = op_text(trial_order()[15]);
        if has_at(t, 0, p) {
            assert(t.subrange(0, p.len() as int)[0] == p[0]);
        }
    }
    assert(!has_at(t, 0, op_text(trial_order()[16]))) by {
        let p = op_text(trial_order()[16]);
        if has_at(t, 0, p) {
            assert(t.subrange(0, p.len() as int)[0] == p[0]);
        }
    }
    assert(!has_at(t, 0, op_text(trial_order()[17]))) by {
        let p = op_text(trial_order()[17]);
        if has_at(t, 0, p) {
            assert(t.subrange(0, p.len() as int)[0] == p[0]);
        }
    }
    assert(!has_at(t, 0, op_text(trial_order()[18]))) by {
        let p = op_text(trial_order()[18]);
        if has_at(t, 0, p) {
            assert(t.subrange(0, p.len() as int)[0] == p[0]);
        }
    }
    assert(!has_at(t, 0, op_text(trial_order()[19]))) by {
        let p = op_text(trial_order()[19]);
        if has_at(t, 0, p) {
            assert(t.subrange(0, p.len() as int)[0] == p[0]);
        }
    }
    assert(!has_at(t, 0, op_text(trial_order()[20]))) by {
        let p = op_text(trial_order()[20]);
        if has_at(t, 0, p) {
            assert(t.subrange(0, p.len() as int)[0] == p[0]);
        }
    }
    assert(!has_at(t, 0, op_text(trial_order()[21]))) by {
        let p = op_text(trial_order()[21]);
        if has_at(t, 0, p) {
            assert(t.subrange(0, p.len() as int)[0] == p[0]);
        }
    }
    assert(!has_at(t, 0, op_text(trial_order()[22]))) by {
        let p = op_text(trial_order()[22]);
        if has_at(t, 0, p) {
            assert(t.subrange(0, p.len() as int)[0] == p[0]);
        }
    }
    assert(!has_at(t, 0, op_text(trial_order()[23]))) by {
        let p = op_text(trial_order()[23]);
        if has_at(t, 0, p) {
            assert(t.subrange(0, p.len() as int)[0] == p[0]);
        }
    }
    assert(has_at(t, 0, op_text(trial_order()[24])));
    assert(spec_match_op(t) == Some(24int));
}

#[verifier::rlimit(60)]proof fn lemma_munch_binaryxorequals(tail: Seq<char>)
    requires
        tail.len() == 0 || !is_op_char(tail[0]),
    ensures
        spec_match_op(op_text(Expression::BinaryXorEquals) + tail) == Some(25int),
{
    let e = Expression::BinaryXorEquals;
    let t = op_text(e) + tail;
    reveal_with_fuel(match_op_from, 35);
    if tail.len() > 0 {
        assert(t[2] == tail[0]);
    }
    assert(t.subrange(0, 2) =~= op_text(e));
    assert(!has_at(t, 0, op_text(trial_order()[0]))) by {
        let p = op_text(trial_order()[0]);
        if has_at(t, 0, p) {
            assert(t.subrange(0, p.len() as int)[0] == p[0]);
        }
    }
    assert(!has_at(t, 0, op_text(trial_order()[1]))) by {
        let p = op_text(trial_order()[1]);
        if has_at(t, 0, p) {
            assert(t.subrange(0, p.len() as int)[0] == p[0]);
        }
    }
    assert(!has_at(t, 0, op_text(trial_order()[2]))) by {
        let p = op_text(trial_order()[2]);
        if has_at(t, 0, p) {
            assert(t.subrange(0, p.len() as int)[0] == p[0]);
        }
    }
    assert(!has_at(t, 0, op_text(trial_order()[3]))) by {
        let p = op_text(trial_order()[3]);
        if has_at(t, 0, p) {
            assert(t.subrange(0, p.len() as int)[0] == p[0]);
        }
    }
    assert(!has_at(t, 0, op_text(trial_order()[4]))) by {
        let p = op_text(trial_order()[4]);
        if has_at(t, 0, p) {
            assert(t.subrange(0, p.len() as int)[0] == p[0]);
        }
    }
    assert(!has_at(t, 0, op_text(trial_order()[5]))) by {
        let p = op_text(trial_order()[5]);
        if has_at(t, 0, p) {
            assert(t.subrange(0, p.len() as int)[0] == p[0]);
        }
    }
    assert(!has_at(t, 0, op_text(trial_order()[6]))) by {
        let p = op_text(trial_order()[6]);
        if has_at(t, 0, p) {
            assert(t.subrange(0, p.len() as int)[0] == p[0]);
        }
    }
    assert(!has_at(t, 0, op_text(trial_order()[7]))) by {
        let p = op_text(trial_order()[7]);
        if has_at(t, 0, p) {
            assert(t.subrange(0, p.len() as int)[0] == p[0]);
        }
    }
    assert(!has_at(t, 0, op_text(trial_order()[8]))) by {
        let p = op_text(trial_order()[8]);
        if has_at(t, 0, p) {
            assert(t.subrange(0, p.len() as int)[0] == p[0]);
        }
    }
    assert(!has_at(t, 0, op_text(trial_order()[9]))) by {
        let p = op_text(trial_order()[9]);
        if has_at(t, 0, p) {
            assert(t.subrange(0, p.len() as int)[0] == p[0]);
        }
    }
    assert(!has_at(t, 0, op_text(trial_order()[10]))) by {
        let p = op_text(trial_order()[10]);
        if has_at(t, 0, p) {
            assert(t.subrange(0, p.len() as int)[0] == p[0]);
        }
    }
    assert(!has_at(t, 0, op_text(trial_order()[11]))) by {
        let p = op_text(trial_order()[11]);
        if has_at(t, 0, p) {
            assert(t.subrange(0, p.len() as int)[0] == p[0]);
        }
    }
    assert(!has_at(t, 0, op_text(trial_order()[12]))) by {
        let p = op_text(trial_order()[12]);
        if has_at(t, 0, p) {
            assert(t.subrange(0, p.len() as int)[0] == p[0]);
        }
    }
    assert(!has_at(t, 0, op_text(trial_order()[13]))) by {
        let p = op_text(trial_order()[13]);
        if has_at(t, 0, p) {
            assert(t.subrange(0, p.len() as int)[0] == p[0]);
        }
    }
    assert(!has_at(t, 0, op_text(trial_order()[14]))) by {
        let p = op_text(trial_order()[14]);
        if has_at(t, 0, p) {
            assert(t.subrange(0, p.len() as int)[0] == p[0]);
        }
    }
    assert(!has_at(t, 0, op_text(trial_order()[15]))) by {
        let p = op_text(trial_order()[15]);
        if has_at(t, 0, p) {
            assert(t.subrange(0, p.len() as int)[0] == p[0]);
        }
    }
    assert(!has_at(t, 0, op_text(trial_order()[16]))) by {
        let p = op_text(trial_order()[16]);
        if has_at(t, 0, p) {
            assert(t.subrange(0, p.len() as int)[0] == p[0]);
        }
    }
    assert(!has_at(t, 0, op_text(trial_order()[17]))) by {
        let p = op_text(trial_order()[17]);
        if has_at(t, 0, p) {
            assert(t.subrange(0, p.len() as int)[0] == p[0]);
        }
    }
    assert(!has_at(t, 0, op_text(trial_order()[18]))) by {
        let p = op_text(trial_order()[18]);
        if has_at(t, 0, p) {
            assert(t.subrange(0, p.len() as int)[0] == p[0]);
        }
    }
    assert(!has_at(t, 0, op_text(trial_order()[19]))) by {
        let p = op_text(trial_order()[19]);
        if has_at(t, 0, p) {
            assert(t.subrange(0, p.len() as int)[0] == p[0]);
        }
    }
    assert(!has_at(t, 0, op_text(trial_order()[20]))) by {
        let p = op_text(trial_order()[20]);
        if has_at(t, 0, p) {
            assert(t.subrange(0, p.len() as int)[0] == p[0]);
        }
    }
    assert(!has_at(t, 0, op_text(trial_order()[21]))) by {
        let p = op_text(trial_order()[21]);
        if has_at(t, 0, p) {
            assert(t.subrange(0, p.len() as int)[0] == p[0]);
        }
    }
    assert(!has_at(t, 0, op_text(trial_order()[22]))) by {
        let p = op_text(trial_order()[22]);
        if has_at(t, 0, p) {
            assert(t.subrange(0, p.len() as int)[0] == p[0]);
        }
    }
    assert(!has_at(t, 0, op_text(trial_order()[23]))) by {
        let p = op_text(trial_order()[23]);
        if has_at(t, 0, p) {
            assert(t.subrange(0, p.len() as int)[0] == p[0]);
        }
    }
    assert(!has_at(t, 0, op_text(trial_order()[24]))) by {
        let p = op_text(trial_order()[24]);
        if has_at(t, 0, p) {
            assert(t.subrange(0, p.len() as int)[0] == p[0]);
        }
    }
    assert(has_at(t, 0, op_text(trial_order()[25])));
    assert(spec_match_op(t) == Some(25int));
}

#[verifier::rlimit(60)]proof fn lemma_munch_binaryxor(tail: Seq<char>)
    requires
        tail.len() == 0 || !is_op_char(tail[0]),
    ensures
        spec_match_op(op_text(Expression::BinaryXor) + tail) == Some(26int),
{
    let e = Expression::BinaryXor;
    let t = op_text(e) + tail;
    reveal_with_fuel(match_op_from, 35);
    if tail.len() > 0 {
        assert(t[1] == tail[0]);
    }
    assert(t.subrange(0, 1) =~= op_text(e));
    assert(!has_at(t, 0, op_text(trial_order()[0]))) by {
        let p = op_text(trial_order()[0]);
        if has_at(t, 0, p) {
            assert(t.subrange(0, p.len() as int)[0] == p[0]);
        }
    }
    assert(!has_at(t, 0, op_text(trial_order()[1]))) by {
        let p = op_text(trial_order()[1]);
        if has_at(t, 0, p) {
            assert(t.subrange(0, p.len() as int)[0] == p[0]);
        }
    }
    assert(!has_at(t, 0, op_text(trial_order()[2]))) by {
        let p = op_text(trial_order()[2]);
        if has_at(t, 0, p) {
            assert(t.subrange(0, p.len() as int)[0] == p[0]);
        }
    }
    assert(!has_at(t, 0, op_text(trial_order()[3]))) by {
        let p = op_text(trial_order()[3]);
        if has_at(t, 0, p) {
            assert(t.subrange(0, p.len() as int)[0] == p[0]);
        }
    }
    assert(!has_at(t, 0, op_text(trial_order()[4]))) by {
        let p = op_text(trial_order()[4]);
        if has_at(t, 0, p) {
            assert(t.subrange(0, p.len() as int)[0] == p[0]);
        }
    }
    assert(!has_at(t, 0, op_text(trial_order()[5]))) by {
        let p = op_text(trial_order()[5]);
        if has_at(t, 0, p) {
            assert(t.subrange(0, p.len() as int)[0] == p[0]);
        }
    }
    assert(!has_at(t, 0, op_text(trial_order()[6]))) by {
        let p = op_text(trial_order()[6]);
        if has_at(t, 0, p) {
            assert(t.subrange(0, p.len() as int)[0] == p[0]);
        }
    }
    assert(!has_at(t, 0, op_text(trial_order()[7]))) by {
        let p = op_text(trial_order()[7]);
        if has_at(t, 0, p) {
            assert(t.subrange(0, p.len() as int)[0] == p[0]);
        }
    }
    assert(!has_at(t, 0, op_text(trial_order()[8]))) by {
        let p = op_text(trial_order()[8]);
        if has_at(t, 0, p) {
            assert(t.subrange(0, p.len() as int)[0] == p[0]);
        }
    }
    assert(!has_at(t, 0, op_text(trial_order()[9]))) by {
        let p = op_text(trial_order()[9]);
        if has_at(t, 0, p) {
            assert(t.subrange(0, p.len() as int)[0] == p[0]);
        }
    }
    assert(!has_at(t, 0, op_text(trial_order()[10]))) by {
        let p = op_text(trial_order()[10]);
        if has_at(t, 0, p) {
            assert(t.subrange(0, p.len() as int)[0] == p[0]);
        }
    }
    assert(!has_at(t, 0, op_text(trial_order()[11]))) by {
        let p = op_text(trial_order()[11]);
        if has_at(t, 0, p) {
            assert(t.subrange(0, p.len() as int)[0] == p[0]);
        }
    }
    assert(!has_at(t, 0, op_text(trial_order()[12]))) by {
        let p = op_text(trial_order()[12]);
        if has_at(t, 0, p) {
            assert(t.subrange(0, p.len() as int)[0] == p[0]);
        }
    }
    assert(!has_at(t, 0, op_text(trial_order()[13]))) by {
        let p = op_text(trial_order()[13]);
        if has_at(t, 0, p) {
            assert(t.subrange(0, p.len() as int)[0] == p[0]);
        }
    }
    assert(!has_at(t, 0, op_text(trial_order()[14]))) by {
        let p = op_text(trial_order()[14]);
        if has_at(t, 0, p) {
            assert(t.subrange(0, p.len() as int)[0] == p[0]);
        }
    }
    assert(!has_at(t, 0, op_text(trial_order()[15]))) by {
        let p = op_text(trial_order()[15]);
        if has_at(t, 0, p) {
            assert(t.subrange(0, p.len() as int)[0] == p[0]);
        }
    }
    assert(!has_at(t, 0, op_text(trial_order()[16]))) by {
        let p = op_text(trial_order()[16]);
        if has_at(t, 0, p) {
            assert(t.subrange(0, p.len() as int)[0] == p[0]);
        }
    }
    assert(!has_at(t, 0, op_text(trial_order()[17]))) by {
        let p = op_text(trial_order()[17]);
        if has_at(t, 0, p) {
            assert(t.subrange(0, p.len() as int)[0] == p[0]);
        }
    }
    assert(!has_at(t, 0, op_text(trial_order()[18]))) by {
        let p = op_text(trial_order()[18]);
        if has_at(t, 0, p) {
            assert(t.subrange(0, p.len() as int)[0] == p[0]);
        }
    }
    assert(!has_at(t, 0, op_text(trial_order()[19]))) by {
        let p = op_text(trial_order()[19]);
        if has_at(t, 0, p) {
            assert(t.subrange(0, p.len() as int)[0] == p[0]);
        }
    }
    assert(!has_at(t, 0, op_text(trial_order()[20]))) by {
        let p = op_text(trial_order()[20]);
        if has_at(t, 0, p) {
            assert(t.subrange(0, p.len() as int)[0] == p[0]);
        }
    }
    assert(!has_at(t, 0, op_text(trial_order()[21]))) by {
        let p = op_text(trial_order()[21]);
        if has_at(t, 0, p) {
            assert(t.subrange(0, p.len() as int)[0] == p[0]);
        }
    }
    assert(!has_at(t, 0, op_text(trial_order()[22]))) by {
        let p = op_text(trial_order()[22]);
        if has_at(t, 0, p) {
            assert(t.subrange(0, p.len() as int)[0] == p[0]);
        }
    }
    assert(!has_at(t, 0, op_text(trial_order()[23]))) by {
        let p = op_text(trial_order()[23]);
        if has_at(t, 0, p) {
            assert(t.subrange(0, p.len() as int)[0] == p[0]);
        }
    }
    assert(!has_at(t, 0, op_text(trial_order()[24]))) by {
        let p = op_text(trial_order()[24]);
        if has_at(t, 0, p) {
            assert(t.subrange(0, p.len() as int)[0] == p[0]);
        }
    }
    assert(!has_at(t, 0, op_text(trial_order()[25]))) by {
        let p = op_text(trial_order()[25]);
        if has_at(t, 0, p) {
            assert(t.subrange(0, p.len() as int)[0] == p[0]);
        }
    }
    assert(has_at(t, 0, op_text(trial_order()[26])));
    assert(spec_match_op(t) == Some(26int));
}

#[verifier::rlimit(60)]proof fn lemma_munch_binarymodulusequals(tail: Seq<char>)
    requires
        tail.len() == 0 || !is_op_char(tail[0]),
    ensures
        spec_match_op(op_text(Expression::BinaryModulusEquals) + tail) == Some(27int),
{
    let e = Expression::BinaryModulusEquals;
    let t = op_text(e) + tail;
    reveal_with_fuel(match_op_from, 35);
    if tail.len() > 0 {
        assert(t[2] == tail[0]);
    }
    assert(t.subrange(0, 2) =~= op_text(e));
    assert(!has_at(t, 0, op_text(trial_order()[0]))) by {
        let p = op_text(trial_order()[0]);
        if has_at(t, 0, p) {
            assert(t.subrange(0, p.len() as int)[0] == p[0]);
        }
    }
    assert(!has_at(t, 0, op_text(trial_order()[1]))) by {
        let p = op_text(trial_order()[1]);
        if has_at(t, 0, p) {
            assert(t.subrange(0, p.len() as int)[0] == p[0]);
        }
    }
    assert(!has_at(t, 0, op_text(trial_order()[2]))) by {
        let p = op_text(trial_order()[2]);
        if has_at(t, 0, p) {
            assert(t.subrange(0, p.len() as int)[0] == p[0]);
        }
    }
    assert(!has_at(t, 0, op_text(trial_order()[3]))) by {
        let p = op_text(trial_order()[3]);
        if has_at(t, 0, p) {
            assert(t.subrange(0, p.len() as int)[0] == p[0]);
        }
    }
    assert(!has_at(t, 0, op_text(trial_order()[4]))) by {
        let p = op_text(trial_order()[4]);
        if has_at(t, 0, p) {
            assert(t.subrange(0, p.len() as int)[0] == p[0]);
        }
    }
    assert(!has_at(t, 0, op_text(trial_order()[5]))) by {
        let p = op_text(trial_order()[5]);
        if has_at(t, 0, p) {
            assert(t.subrange(0, p.len() as int)[0] == p[0]);
        }
    }
    assert(!has_at(t, 0, op_text(trial_order()[6]))) by {
        let p = op_text(trial_order()[6]);
        if has_at(t, 0, p) {
            assert(t.subrange(0, p.len() as int)[0] == p[0]);
        }
    }
    assert(!has_at(t, 0, op_text(trial_order()[7]))) by {
        let p = op_text(trial_order()[7]);
        if has_at(t, 0, p) {
            assert(t.subrange(0, p.len() as int)[0] == p[0]);
        }
    }
    assert(!has_at(t, 0, op_text(trial_order()[8]))) by {
        let p = op_text(trial_order()[8]);
        if has_at(t, 0, p) {
            assert(t.subrange(0, p.len() as int)[0] == p[0]);
        }
    }
    assert(!has_at(t, 0, op_text(trial_order()[9]))) by {
        let p = op_text(trial_order()[9]);
        if has_at(t, 0, p) {
            assert(t.subrange(0, p.len() as int)[0] == p[0]);
        }
    }
    assert(!has_at(t, 0, op_text(trial_order()[10]))) by {
        let p = op_text(trial_order()[10]);
        if has_at(t, 0, p) {
            assert(t.subrange(0, p.len() as int)[0] == p[0]);
        }
    }
    assert(!has_at(t, 0, op_text(trial_order()[11]))) by {
        let p = op_text(trial_order()[11]);
        if has_at(t, 0, p) {
            assert(t.subrange(0, p.len() as int)[0] == p[0]);
        }
    }
    assert(!has_at(t, 0, op_text(trial_order()[12]))) by {
        let p = op_text(trial_order()[12]);
        if has_at(t, 0, p) {
            assert(t.subrange(0, p.len() as int)[0] == p[0]);
        }
    }
    assert(!has_at(t, 0, op_text(trial_order()[13]))) by {
        let p = op_text(trial_order()[13]);
        if has_at(t, 0, p) {
            assert(t.subrange(0, p.len() as int)[0] == p[0]);
        }
    }
    assert(!has_at(t, 0, op_text(trial_order()[14]))) by {
        let p = op_text(trial_order()[14]);
        if has_at(t, 0, p) {
            assert(t.subrange(0, p.len() as int)[0] == p[0]);
        }
    }
    assert(!has_at(t, 0, op_text(trial_order()[15]))) by {
        let p = op_text(trial_order()[15]);
        if has_at(t, 0, p) {
            assert(t.subrange(0, p.len() as int)[0] == p[0]);
        }
    }
    assert(!has_at(t, 0, op_text(trial_order()[16]))) by {
        let p = op_text(trial_order()[16]);
        if has_at(t, 0, p) {
            assert(t.subrange(0, p.len() as int)[0] == p[0]);
        }
    }
    assert(!has_at(t, 0, op_text(trial_order()[17]))) by {
        let p = op_text(trial_order()[17]);
        if has_at(t, 0, p) {
            assert(t.subrange(0, p.len() as int)[0] == p[0]);
        }
    }
    assert(!has_at(t, 0, op_text(trial_order()[18]))) by {
        let p = op_text(trial_order()[18]);
        if has_at(t, 0, p) {
            assert(t.subrange(0, p.len() as int)[0] == p[0]);
        }
    }
    assert(!has_at(t, 0, op_text(trial_order()[19]))) by {
        let p = op_text(trial_order()[19]);
        if has_at(t, 0, p) {
            assert(t.subrange(0, p.len() as int)[0] == p[0]);
        }
    }
    assert(!has_at(t, 0, op_text(trial_order()[20]))) by {
        let p = op_text(trial_order()[20]);
        if has_at(t, 0, p) {
            assert(t.subrange(0, p.len() as int)[0] == p[0]);
        }
    }
    assert(!has_at(t, 0, op_text(trial_order()[21]))) by {
        let p = op_text(trial_order()[21]);
        if has_at(t, 0, p) {
            assert(t.subrange(0, p.len() as int)[0] == p[0]);
        }
    }
    assert(!has_at(t, 0, op_text(trial_order()[22]))) by {
        let p = op_text(trial_order()[22]);
        if has_at(t, 0, p) {
            assert(t.subrange(0, p.len() as int)[0] == p[0]);
        }
    }
    assert(!has_at(t, 0, op_text(trial_order()[23]))) by {
        let p = op_text(trial_order()[23]);
        if has_at(t, 0, p) {
            assert(t.subrange(0, p.len() as int)[0] == p[0]);
        }
    }
    assert(!has_at(t, 0, op_text(trial_order()[24]))) by {
        let p = op_text(trial_order()[24]);
        if has_at(t, 0, p) {
            assert(t.subrange(0, p.len() as int)[0] == p[0]);
        }
    }
    assert(!has_at(t, 0, op_text(trial_order()[25]))) by {
        let p = op_text(trial_order()[25]);
        if has_at(t, 0, p) {
            assert(t.subrange(0, p.len() as int)[0] == p[0]);
        }
    }
    assert(!has_at(t, 0, op_text(trial_order()[26]))) by {
        let p = op_text(trial_order()[26]);
        if has_at(t, 0, p) {
            assert(t.subrange(0, p.len() as int)[0] == p[0]);
        }
    }
    assert(has_at(t, 0, op_text(trial_order()[27])));
    assert(spec_match_op(t) == Some(27int));
}

#[verifier::rlimit(60)]proof fn lemma_munch_modulus(tail: Seq<char>)
    requires
        tail.len() == 0 || !is_op_char(tail[0]),
    ensures
        spec_match_op(op_text(Expression::Modulus) + tail) == Some(28int),
{
    let e = Expression::Modulus;
    let t = op_text(e) + tail;
    reveal_with_fuel(match_op_from, 35);
    if tail.len() > 0 {
        assert(t[1] == tail[0]);
    }
    assert(t.subrange(0, 1) =~= op_text(e));
    assert(!has_at(t, 0, op_text(trial_order()[0]))) by {
        let p = op_text(trial_order()[0]);
        if has_at(t, 0, p) {
            assert(t.subrange(0, p.len() as int)[0] == p[0]);
        }
    }
    assert(!has_at(t, 0, op_text(trial_order()[1]))) by {
        let p = op_text(trial_order()[1]);
        if has_at(t, 0, p) {
            assert(t.subrange(0, p.len() as int)[0] == p[0]);
        }
    }
    assert(!has_at(t, 0, op_text(trial_order()[2]))) by {
        let p = op_text(trial_order()[2]);
        if has_at(t, 0, p) {
            assert(t.subrange(0, p.len() as int)[0] == p[0]);
        }
    }
    assert(!has_at(t, 0, op_text(trial_order()[3]))) by {
        let p = op_text(trial_order()[3]);
        if has_at(t, 0, p) {
            assert(t.subrange(0, p.len() as int)[0] == p[0]);
        }
    }
    assert(!has_at(t, 0, op_text(trial_order()[4]))) by {
        let p = op_text(trial_order()[4]);
        if has_at(t, 0, p) {
            assert(t.subrange(0, p.len() as int)[0] == p[0]);
        }
    }
    assert(!has_at(t, 0, op_text(trial_order()[5]))) by {
        let p = op_text(trial_order()[5]);
        if has_at(t, 0, p) {
            assert(t.subrange(0, p.len() as int)[0] == p[0]);
        }
    }
    assert(!has_at(t, 0, op_text(trial_order()[6]))) by {
        let p = op_text(trial_order()[6]);
        if has_at(t, 0, p) {
            assert(t.subrange(0, p.len() as int)[0] == p[0]);
        }
    }
    assert(!has_at(t, 0, op_text(trial_order()[7]))) by {
        let p = op_text(trial_order()[7]);
        if has_at(t, 0, p) {
            assert(t.subrange(0, p.len() as int)[0] == p[0]);
        }
    }
    assert(!has_at(t, 0, op_text(trial_order()[8]))) by {
        let p = op_text(trial_order()[8]);
        if has_at(t, 0, p) {
            assert(t.subrange(0, p.len() as int)[0] == p[0]);
        }
    }
    assert(!has_at(t, 0, op_text(trial_order()[9]))) by {
        let p = op_text(trial_order()[9]);
        if has_at(t, 0, p) {
            assert(t.subrange(0, p.len() as int)[0] == p[0]);
        }
    }
    assert(!has_at(t, 0, op_text(trial_order()[10]))) by {
        let p = op_text(trial_order()[10]);
        if has_at(t, 0, p) {
            assert(t.subrange(0, p.len() as int)[0] == p[0]);
        }
    }
    assert(!has_at(t, 0, op_text(trial_order()[11]))) by {
        let p = op_text(trial_order()[11]);
        if has_at(t, 0, p) {
            assert(t.subrange(0, p.len() as int)[0] == p[0]);
        }
    }
    assert(!has_at(t, 0, op_text(trial_order()[12]))) by {
        let p = op_text(trial_order()[12]);
        if has_at(t, 0, p) {
            assert(t.subrange(0, p.len() as int)[0] == p[0]);
        }
    }
    assert(!has_at(t, 0, op_text(trial_order()[13]))) by {
        let p = op_text(trial_order()[13]);
        if has_at(t, 0, p) {
            assert(t.subrange(0, p.len() as int)[0] == p[0]);
        }
    }
    assert(!has_at(t, 0, op_text(trial_order()[14]))) by {
        let p = op_text(trial_order()[14]);
        if has_at(t, 0, p) {
            assert(t.subrange(0, p.len() as int)[0] == p[0]);
        }
    }
    assert(!has_at(t, 0, op_text(trial_order()[15]))) by {
        let p = op_text(trial_order()[15]);
        if has_at(t, 0, p) {
            assert(t.subrange(0, p.len() as int)[0] == p[0]);
        }
    }
    assert(!has_at(t, 0, op_text(trial_order()[16]))) by {
        let p = op_text(trial_order()[16]);
        if has_at(t, 0, p) {
            assert(t.subrange(0, p.len() as int)[0] == p[0]);
        }
    }
    assert(!has_at(t, 0, op_text(trial_order()[17]))) by {
        let p = op_text(trial_order()[17]);
        if has_at(t, 0, p) {
            assert(t.subrange(0, p.len() as int)[0] == p[0]);
        }
    }
    assert(!has_at(t, 0, op_text(trial_order()[18]))) by {
        let p = op_text(trial_order()[18]);
        if has_at(t, 0, p) {
            assert(t.subrange(0, p.len() as int)[0] == p[0]);
        }
    }
    assert(!has_at(t, 0, op_text(trial_order()[19]))) by {
        let p = op_text(trial_order()[19]);
        if has_at(t, 0, p) {
            assert(t.subrange(0, p.len() as int)[0] == p[0]);
        }
    }
    assert(!has_at(t, 0, op_text(trial_order()[20]))) by {
        let p = op_text(trial_order()[20]);
        if has_at(t, 0, p) {
            assert(t.subrange(0, p.len() as int)[0] == p[0]);
        }
    }
    assert(!has_at(t, 0, op_text(trial_order()[21]))) by {
        let p = op_text(trial_order()[21]);
        if has_at(t, 0, p) {
            assert(t.subrange(0, p.len() as int)[0] == p[0]);
        }
    }
    assert(!has_at(t, 0, op_text(trial_order()[22]))) by {
        let p = op_text(trial_order()[22]);
        if has_at(t, 0, p) {
            assert(t.subrange(0, p.len() as int)[0] == p[0]);
        }
    }
    assert(!has_at(t, 0, op_text(trial_order()[23]))) by {
        let p = op_text(trial_order()[23]);
        if has_at(t, 0, p) {
            assert(t.subrange(0, p.len() as int)[0] == p[0]);
        }
    }
    assert(!has_at(t, 0, op_text(trial_order()[24]))) by {
        let p = op_text(trial_order()[24]);
        if has_at(t, 0, p) {
            assert(t.subrange(0, p.len() as int)[0] == p[0]);
        }
    }
    assert(!has_at(t, 0, op_text(trial_order()[25]))) by {
        let p = op_text(trial_order()[25]);
        if has_at(t, 0, p) {
            assert(t.subrange(0, p.len() as int)[0] == p[0]);
        }
    }
    assert(!has_at(t, 0, op_text(trial_order()[26]))) by {
        let p = op_text(trial_order()[26]);
        if has_at(t, 0, p) {
            assert(t.subrange(0, p.len() as int)[0] == p[0]);
        }
    }
    assert(!has_at(t, 0, op_text(trial_order()[27]))) by {
        let p = op_text(trial_order()[27]);
        if has_at(t, 0, p) {
            assert(t.subrange(0, p.len() as int)[0] == p[0]);
        }
    }
    assert(has_at(t, 0, op_text(trial_order()[28])));
    assert(spec_match_op(t) == Some(28int));
}

#[verifier::rlimit(60)]proof fn lemma_munch_divideequals(tail: Seq<char>)
    requires
        tail.len() == 0 || !is_op_char(tail[0]),
    ensures
        spec_match_op(op_text(Expression::DivideEquals) + tail) == Some(29int),
{
    let e = Expression::DivideEquals;
    let t = op_text(e) + tail;
    reveal_with_fuel(match_op_from, 35);
    if tail.len() > 0 {
        assert(t[2] == tail[0]);
    }
    assert(t.subrange(0, 2) =~= op_text(e));
    assert(!has_at(t, 0, op_text(trial_order()[0]))) by {
        let p = op_text(trial_order()[0]);
        if has_at(t, 0, p) {
            assert(t.subrange(0, p.len() as int)[0] == p[0]);
        }
    }
    assert(!has_at(t, 0, op_text(trial_order()[1]))) by {
        let p = op_text(trial_order()[1]);
        if has_at(t, 0, p) {
            assert(t.subrange(0, p.len() as int)[0] == p[0]);
        }
    }
    assert(!has_at(t, 0, op_text(trial_order()[2]))) by {
        let p = op_text(trial_order()[2]);
        if has_at(t, 0, p) {
            assert(t.subrange(0, p.len() as int)[0] == p[0]);
        }
    }
    assert(!has_at(t, 0, op_text(trial_order()[3]))) by {
        let p = op_text(trial_order()[3]);
        if has_at(t, 0, p) {
            assert(t.subrange(0, p.len() as int)[0] == p[0]);
        }
    }
    assert(!has_at(t, 0, op_text(trial_order()[4]))) by {
        let p = op_text(trial_order()[4]);
        if has_at(t, 0, p) {
            assert(t.subrange(0, p.len() as int)[0] == p[0]);
        }
    }
    assert(!has_at(t, 0, op_text(trial_order()[5]))) by {
        let p = op_text(trial_order()[5]);
        if has_at(t, 0, p) {
            assert(t.subrange(0, p.len() as int)[0] == p[0]);
        }
    }
    assert(!has_at(t, 0, op_text(trial_order()[6]))) by {
        let p = op_text(trial_order()[6]);
        if has_at(t, 0, p) {
            assert(t.subrange(0, p.len() as int)[0] == p[0]);
        }
    }
    assert(!has_at(t, 0, op_text(trial_order()[7]))) by {
        let p = op_text(trial_order()[7]);
        if has_at(t, 0, p) {
            assert(t.subrange(0, p.len() as int)[0] == p[0]);
        }
    }
    assert(!has_at(t, 0, op_text(trial_order()[8]))) by {
        let p = op_text(trial_order()[8]);
        if has_at(t, 0, p) {
            assert(t.subrange(0, p.len() as int)[0] == p[0]);
        }
    }
    assert(!has_at(t, 0, op_text(trial_order()[9]))) by {
        let p = op_text(trial_order()[9]);
        if has_at(t, 0, p) {
            assert(t.subrange(0, p.len() as int)[0] == p[0]);
        }
    }
    assert(!has_at(t, 0, op_text(trial_order()[10]))) by {
        let p = op_text(trial_order()[10]);
        if has_at(t, 0, p) {
            assert(t.subrange(0, p.len() as int)[0] == p[0]);
        }
    }
    assert(!has_at(t, 0, op_text(trial_order()[11]))) by {
        let p = op_text(trial_order()[11]);
        if has_at(t, 0, p) {
            assert(t.subrange(0, p.len() as int)[0] == p[0]);
        }
    }
    assert(!has_at(t, 0, op_text(trial_order()[12]))) by {
        let p = op_text(trial_order()[12]);
        if has_at(t, 0, p) {
            assert(t.subrange(0, p.len() as int)[0] == p[0]);
        }
    }
    assert(!has_at(t, 0, op_text(trial_order()[13]))) by {
        let p = op_text(trial_order()[13]);
        if has_at(t, 0, p) {
            assert(t.subrange(0, p.len() as int)[0] == p[0]);
        }
    }
    assert(!has_at(t, 0, op_text(trial_order()[14]))) by {
        let p = op_text(trial_order()[14]);
        if has_at(t, 0, p) {
            assert(t.subrange(0, p.len() as int)[0] == p[0]);
        }
    }
    assert(!has_at(t, 0, op_text(trial_order()[15]))) by {
        let p = op_text(trial_order()[15]);
        if has_at(t, 0, p) {
            assert(t.subrange(0, p.len() as int)[0] == p[0]);
        }
    }
    assert(!has_at(t, 0, op_text(trial_order()[16]))) by {
        let p = op_text(trial_order()[16]);
        if has_at(t, 0, p) {
            assert(t.subrange(0, p.len() as int)[0] == p[0]);
        }
    }
    assert(!has_at(t, 0, op_text(trial_order()[17]))) by {
        let p = op_text(trial_order()[17]);
        if has_at(t, 0, p) {
            assert(t.subrange(0, p.len() as int)[0] == p[0]);
        }
    }
    assert(!has_at(t, 0, op_text(trial_order()[18]))) by {
        let p = op_text(trial_order()[18]);
        if has_at(t, 0, p) {
            assert(t.subrange(0, p.len() as int)[0] == p[0]);
        }
    }
    assert(!has_at(t, 0, op_text(trial_order()[19]))) by {
        let p = op_text(trial_order()[19]);
        if has_at(t, 0, p) {
            assert(t.subrange(0, p.len() as int)[0] == p[0]);
        }
    }
    assert(!has_at(t, 0, op_text(trial_order()[20]))) by {
        let p = op_text(trial_order()[20]);
        if has_at(t, 0, p) {
            assert(t.subrange(0, p.len() as int)[0] == p[0]);
        }
    }
    assert(!has_at(t, 0, op_text(trial_order()[21]))) by {
        let p = op_text(trial_order()[21]);
        if has_at(t, 0, p) {
            assert(t.subrange(0, p.len() as int)[0] == p[0]);
        }
    }
    assert(!has_at(t, 0, op_text(trial_order()[22]))) by {
        let p = op_text(trial_order()[22]);
        if has_at(t, 0, p) {
            assert(t.subrange(0, p.len() as int)[0] == p[0]);
        }
    }
    assert(!has_at(t, 0, op_text(trial_order()[23]))) by {
        let p = op_text(trial_order()[23]);
        if has_at(t, 0, p) {
            assert(t.subrange(0, p.len() as int)[0] == p[0]);
        }
    }
    assert(!has_at(t, 0, op_text(trial_order()[24]))) by {
        let p = op_text(trial_order()[24]);
        if has_at(t, 0, p) {
            assert(t.subrange(0, p.len() as int)[0] == p[0]);
        }
    }
    assert(!has_at(t, 0, op_text(trial_order()[25]))) by {
        let p = op_text(trial_order()[25]);
        if has_at(t, 0, p) {
            assert(t.subrange(0, p.len() as int)[0] == p[0]);
        }
    }
    assert(!has_at(t, 0, op_text(trial_order()[26]))) by {
        let p = op_text(trial_order()[26]);
        if has_at(t, 0, p) {
            assert(t.subrange(0, p.len() as int)[0] == p[0]);
        }
    }
    assert(!has_at(t, 0, op_text(trial_order()[27]))) by {
        let p = op_text(trial_order()[27]);
        if has_at(t, 0, p) {
            assert(t.subrange(0, p.len() as int)[0] == p[0]);
        }
    }
    assert(!has_at(t, 0, op_text(trial_order()[28]))) by {
        let p = op_text(trial_order()[28]);
        if has_at(t, 0, p) {
            assert(t.subrange(0, p.len() as int)[0] == p[0]);
        }
    }
    assert(has_at(t, 0, op_text(trial_order()[29])));
    assert(spec_match_op(t) == Some(29int));
}

#[verifier::rlimit(60)]proof fn lemma_munch_divide(tail: Seq<char>)
    requires
        tail.len() == 0 || !is_op_char(tail[0]),
    ensures
        spec_match_op(op_text(Expression::Divide) + tail) == Some(30int),
{
    let e = Expression::Divide;
    let t = op_text(e) + tail;
    reveal_with_fuel(match_op_from, 35);
    if tail.len() > 0 {
        assert(t[1] == tail[0]);
    }
    assert(t.subrange(0, 1) =~= op_text(e));
    assert(!has_at(t, 0, op_text(trial_order()[0]))) by {
        let p = op_text(trial_order()[0]);
        if has_at(t, 0, p) {
            assert(t.subrange(0, p.len() as int)[0] == p[0]);
        }
    }
    assert(!has_at(t, 0, op_text(trial_order()[1]))) by {
        let p = op_text(trial_order()[1]);
        if has_at(t, 0, p) {
            assert(t.subrange(0, p.len() as int)[0] == p[0]);
        }
    }
    assert(!has_at(t, 0, op_text(trial_order()[2]))) by {
        let p = op_text(trial_order()[2]);
        if has_at(t, 0, p) {
            assert(t.subrange(0, p.len() as int)[0] == p[0]);
        }
    }
    assert(!has_at(t, 0, op_text(trial_order()[3]))) by {
        let p = op_text(trial_order()[3]);
        if has_at(t, 0, p) {
            assert(t.subrange(0, p.len() as int)[0] == p[0]);
        }
    }
    assert(!has_at(t, 0, op_text(trial_order()[4]))) by {
        let p = op_text(trial_order()[4]);
        if has_at(t, 0, p) {
            assert(t.subrange(0, p.len() as int)[0] == p[0]);
        }
    }
    assert(!has_at(t, 0, op_text(trial_order()[5]))) by {
        let p = op_text(trial_order()[5]);
        if has_at(t, 0, p) {
            assert(t.subrange(0, p.len() as int)[0] == p[0]);
        }
    }
    assert(!has_at(t, 0, op_text(trial_order()[6]))) by {
        let p = op_text(trial_order()[6]);
        if has_at(t, 0, p) {
            assert(t.subrange(0, p.len() as int)[0] == p[0]);
        }
    }
    assert(!has_at(t, 0, op_text(trial_order()[7]))) by {
        let p = op_text(trial_order()[7]);
        if has_at(t, 0, p) {
            assert(t.subrange(0, p.len() as int)[0] == p[0]);
        }
    }
    assert(!has_at(t, 0, op_text(trial_order()[8]))) by {
        let p = op_text(trial_order()[8]);
        if has_at(t, 0, p) {
            assert(t.subrange(0, p.len() as int)[0] == p[0]);
        }
    }
    assert(!has_at(t, 0, op_text(trial_order()[9]))) by {
        let p = op_text(trial_order()[9]);
        if has_at(t, 0, p) {
            assert(t.subrange(0, p.len() as int)[0] == p[0]);
        }
    }
    assert(!has_at(t, 0, op_text(trial_order()[10]))) by {
        let p = op_text(trial_order()[10]);
        if has_at(t, 0, p) {
            assert(t.subrange(0, p.len() as int)[0] == p[0]);
        }
    }
    assert(!has_at(t, 0, op_text(trial_order()[11]))) by {
        let p = op_text(trial_order()[11]);
        if has_at(t, 0, p) {
            assert(t.subrange(0, p.len() as int)[0] == p[0]);
        }
    }
    assert(!has_at(t, 0, op_text(trial_order()[12]))) by {
        let p = op_text(trial_order()[12]);
        if has_at(t, 0, p) {
            assert(t.subrange(0, p.len() as int)[0] == p[0]);
        }
    }
    assert(!has_at(t, 0, op_text(trial_order()[13]))) by {
        let p = op_text(trial_order()[13]);
        if has_at(t, 0, p) {
            assert(t.subrange(0, p.len() as int)[0] == p[0]);
        }
    }
    assert(!has_at(t, 0, op_text(trial_order()[14]))) by {
        let p = op_text(trial_order()[14]);
        if has_at(t, 0, p) {
            assert(t.subrange(0, p.len() as int)[0] == p[0]);
        }
    }
    assert(!has_at(t, 0, op_text(trial_order()[15]))) by {
        let p = op_text(trial_order()[15]);
        if has_at(t, 0, p) {
            assert(t.subrange(0, p.len() as int)[0] == p[0]);
        }
    }
    assert(!has_at(t, 0, op_text(trial_order()[16]))) by {
        let p = op_text(trial_order()[16]);
        if has_at(t, 0, p) {
            assert(t.subrange(0, p.len() as int)[0] == p[0]);
        }
    }
    assert(!has_at(t, 0, op_text(trial_order()[17]))) by {
        let p = op_text(trial_order()[17]);
        if has_at(t, 0, p) {
            assert(t.subrange(0, p.len() as int)[0] == p[0]);
        }
    }
    assert(!has_at(t, 0, op_text(trial_order()[18]))) by {
        let p = op_text(trial_order()[18]);
        if has_at(t, 0, p) {
            assert(t.subrange(0, p.len() as int)[0] == p[0]);
        }
    }
    assert(!has_at(t, 0, op_text(trial_order()[19]))) by {
        let p = op_text(trial_order()[19]);
        if has_at(t, 0, p) {
            assert(t.subrange(0, p.len() as int)[0] == p[0]);
        }
    }
    assert(!has_at(t, 0, op_text(trial_order()[20]))) by {
        let p = op_text(trial_order()[20]);
        if has_at(t, 0, p) {
            assert(t.subrange(0, p.len() as int)[0] == p[0]);
        }
    }
    assert(!has_at(t, 0, op_text(trial_order()[21]))) by {
        let p = op_text(trial_order()[21]);
        if has_at(t, 0, p) {
            assert(t.subrange(0, p.len() as int)[0] == p[0]);
        }
    }
    assert(!has_at(t, 0, op_text(trial_order()[22]))) by {
        let p = op_text(trial_order()[22]);
        if has_at(t, 0, p) {
            assert(t.subrange(0, p.len() as int)[0] == p[0]);
        }
    }
    assert(!has_at(t, 0, op_text(trial_order()[23]))) by {
        let p = op_text(trial_order()[23]);
        if has_at(t, 0, p) {
            assert(t.subrange(0, p.len() as int)[0] == p[0]);
        }
    }
    assert(!has_at(t, 0, op_text(trial_order()[24]))) by {
        let p = op_text(trial_order()[24]);
        if has_at(t, 0, p) {
            assert(t.subrange(0, p.len() as int)[0] == p[0]);
        }
    }
    assert(!has_at(t, 0, op_text(trial_order()[25]))) by {
        let p = op_text(trial_order()[25]);
        if has_at(t, 0, p) {
            assert(t.subrange(0, p.len() as int)[0] == p[0]);
        }
    }
    assert(!has_at(t, 0, op_text(trial_order()[26]))) by {
        let p = op_text(trial_order()[26]);
        if has_at(t, 0, p) {
            assert(t.subrange(0, p.len() as int)[0] == p[0]);
        }
    }
    assert(!has_at(t, 0, op_text(trial_order()[27]))) by {
        let p = op_text(trial_order()[27]);
        if has_at(t, 0, p) {
            assert(t.subrange(0, p.len() as int)[0] == p[0]);
        }
    }
    assert(!has_at(t, 0, op_text(trial_order()[28]))) by {
        let p = op_text(trial_order()[28]);
        if has_at(t, 0, p) {
            assert(t.subrange(0, p.len() as int)[0] == p[0]);
        }
    }
    assert(!has_at(t, 0, op_text(trial_order()[29]))) by {
        let p = op_text(trial_order()[29]);
        if has_at(t, 0, p) {
            assert(t.subrange(0, p.len() as int)[0] == p[0]);
        }
    }
    assert(has_at(t, 0, op_text(trial_order()[30])));
    assert(spec_match_op(t) == Some(30int));
}

#[verifier::rlimit(60)]proof fn lemma_munch_ternary(tail: Seq<char>)
    requires
        tail.len() == 0 || !is_op_char(tail[0]),
    ensures
        spec_match_op(op_text(Expression::Ternary) + tail) == Some(31int),
{
    let e = Expression::Ternary;
    let t = op_text(e) + tail;
    reveal_with_fuel(match_op_from, 35);
    if tail.len() > 0 {
        assert(t[2] == tail[0]);
    }
    assert(t.subrange(0, 2) =~= op_text(e));
    assert(!has_at(t, 0, op_text(trial_order()[0]))) by {
        let p = op_text(trial_order()[0]);
        if has_at(t, 0, p) {
            assert(t.subrange(0, p.len() as int)[0] == p[0]);
        }
    }
    assert(!has_at(t, 0, op_text(trial_order()[1]))) by {
        let p = op_text(trial_order()[1]);
        if has_at(t, 0, p) {
            assert(t.subrange(0, p.len() as int)[0] == p[0]);
        }
    }
    assert(!has_at(t, 0, op_text(trial_order()[2]))) by {
        let p = op_text(trial_order()[2]);
        if has_at(t, 0, p) {
            assert(t.subrange(0, p.len() as int)[0] == p[0]);
        }
    }
    assert(!has_at(t, 0, op_text(trial_order()[3]))) by {
        let p = op_text(trial_order()[3]);
        if has_at(t, 0, p) {
            assert(t.subrange(0, p.len() as int)[0] == p[0]);
        }
    }
    assert(!has_at(t, 0, op_text(trial_order()[4]))) by {
        let p = op_text(trial_order()[4]);
        if has_at(t, 0, p) {
            assert(t.subrange(0, p.len() as int)[0] == p[0]);
        }
    }
    assert(!has_at(t, 0, op_text(trial_order()[5]))) by {
        let p = op_text(trial_order()[5]);
        if has_at(t, 0, p) {
            assert(t.subrange(0, p.len() as int)[0] == p[0]);
        }
    }
    assert(!has_at(t, 0, op_text(trial_order()[6]))) by {
        let p = op_text(trial_order()[6]);
        if has_at(t, 0, p) {
            assert(t.subrange(0, p.len() as int)[0] == p[0]);
        }
    }
    assert(!has_at(t, 0, op_text(trial_order()[7]))) by {
        let p = op_text(trial_order()[7]);
        if has_at(t, 0, p) {
            assert(t.subrange(0, p.len() as int)[0] == p[0]);
        }
    }
    assert(!has_at(t, 0, op_text(trial_order()[8]))) by {
        let p = op_text(trial_order()[8]);
        if has_at(t, 0, p) {
            assert(t.subrange(0, p.len() as int)[0] == p[0]);
        }
    }
    assert(!has_at(t, 0, op_text(trial_order()[9]))) by {
        let p = op_text(trial_order()[9]);
        if has_at(t, 0, p) {
            assert(t.subrange(0, p.len() as int)[0] == p[0]);
        }
    }
    assert(!has_at(t, 0, op_text(trial_order()[10]))) by {
        let p = op_text(trial_order()[10]);
        if has_at(t, 0, p) {
            assert(t.subrange(0, p.len() as int)[0] == p[0]);
        }
    }
    assert(!has_at(t, 0, op_text(trial_order()[11]))) by {
        let p = op_text(trial_order()[11]);
        if has_at(t, 0, p) {
            assert(t.subrange(0, p.len() as int)[0] == p[0]);
        }
    }
    assert(!has_at(t, 0, op_text(trial_order()[12]))) by {
        let p = op_text(trial_order()[12]);
        if has_at(t, 0, p) {
            assert(t.subrange(0, p.len() as int)[0] == p[0]);
        }
    }
    assert(!has_at(t, 0, op_text(trial_order()[13]))) by {
        let p = op_text(trial_order()[13]);
        if has_at(t, 0, p) {
            assert(t.subrange(0, p.len() as int)[0] == p[0]);
        }
    }
    assert(!has_at(t, 0, op_text(trial_order()[14]))) by {
        let p = op_text(trial_order()[14]);
        if has_at(t, 0, p) {
            assert(t.subrange(0, p.len() as int)[0] == p[0]);
        }
    }
    assert(!has_at(t, 0, op_text(trial_order()[15]))) by {
        let p = op_text(trial_order()[15]);
        if has_at(t, 0, p) {
            assert(t.subrange(0, p.len() as int)[0] == p[0]);
        }
    }
    assert(!has_at(t, 0, op_text(trial_order()[16]))) by {
        let p = op_text(trial_order()[16]);
        if has_at(t, 0, p) {
            assert(t.subrange(0, p.len() as int)[0] == p[0]);
        }
    }
    assert(!has_at(t, 0, op_text(trial_order()[17]))) by {
        let p = op_text(trial_order()[17]);
        if has_at(t, 0, p) {
            assert(t.subrange(0, p.len() as int)[0] == p[0]);
        }
    }
    assert(!has_at(t, 0, op_text(trial_order()[18]))) by {
        let p = op_text(trial_order()[18]);
        if has_at(t, 0, p) {
            assert(t.subrange(0, p.len() as int)[0] == p[0]);
        }
    }
    assert(!has_at(t, 0, op_text(trial_order()[19]))) by {
        let p = op_text(trial_order()[19]);
        if has_at(t, 0, p) {
            assert(t.subrange(0, p.len() as int)[0] == p[0]);
        }
    }
    assert(!has_at(t, 0, op_text(trial_order()[20]))) by {
        let p = op_text(trial_order()[20]);
        if has_at(t, 0, p) {
            assert(t.subrange(0, p.len() as int)[0] == p[0]);
        }
    }
    assert(!has_at(t, 0, op_text(trial_order()[21]))) by {
        let p = op_text(trial_order()[21]);
        if has_at(t, 0, p) {
            assert(t.subrange(0, p.len() as int)[0] == p[0]);
        }
    }
    assert(!has_at(t, 0, op_text(trial_order()[22]))) by {
        let p = op_text(trial_order()[22]);
        if has_at(t, 0, p) {
            assert(t.subrange(0, p.len() as int)[0] == p[0]);
        }
    }
    assert(!has_at(t, 0, op_text(trial_order()[23]))) by {
        let p = op_text(trial_order()[23]);
        if has_at(t, 0, p) {
            assert(t.subrange(0, p.len() as int)[0] == p[0]);
        }
    }
    assert(!has_at(t, 0, op_text(trial_order()[24]))) by {
        let p = op_text(trial_order()[24]);
        if has_at(t, 0, p) {
            assert(t.subrange(0, p.len() as int)[0] == p[0]);
        }
    }
    assert(!has_at(t, 0, op_text(trial_order()[25]))) by {
        let p = op_text(trial_order()[25]);
        if has_at(t, 0, p) {
            assert(t.subrange(0, p.len() as int)[0] == p[0]);
        }
    }
    assert(!has_at(t, 0, op_text(trial_order()[26]))) by {
        let p = op_text(trial_order()[26]);
        if has_at(t, 0, p) {
            assert(t.subrange(0, p.len() as int)[0] == p[0]);
        }
    }
    assert(!has_at(t, 0, op_text(trial_order()[27]))) by {
        let p = op_text(trial_order()[27]);
        if has_at(t, 0, p) {
            assert(t.subrange(0, p.len() as int)[0] == p[0]);
        }
    }
    assert(!has_at(t, 0, op_text(trial_order()[28]))) by {
        let p = op_text(trial_order()[28]);
        if has_at(t, 0, p) {
            assert(t.subrange(0, p.len() as int)[0] == p[0]);
        }
    }
    assert(!has_at(t, 0, op_text(trial_order()[29]))) by {
        let p = op_text(trial_order()[29]);
        if has_at(t, 0, p) {
            assert(t.subrange(0, p.len() as int)[0] == p[0]);
        }
    }
    assert(!has_at(t, 0, op_text(trial_order()[30]))) by {
        let p = op_text(trial_order()[30]);
        if has_at(t, 0, p) {
            assert(t.subrange(0, p.len() as int)[0] == p[0]);
        }
    }
    assert(has_at(t, 0, op_text(trial_order()[31])));
    assert(spec_match_op(t) == Some(31int));
}

#[verifier::rlimit(60)]proof fn lemma_munch_binaryinvert(tail: Seq<char>)
    requires
        tail.len() == 0 || !is_op_char(tail[0]),
    ensures
        spec_match_op(op_text(Expression::BinaryInvert) + tail) == Some(32int),
{
    let e = Expression::BinaryInvert;
    let t = op_text(e) + tail;
    reveal_with_fuel(match_op_from, 35);
    if tail.len() > 0 {
        assert(t[1] == tail[0]);
    }
    assert(t.subrange(0, 1) =~= op_text(e));
    assert(!has_at(t, 0, op_text(trial_order()[0]))) by {
        let p = op_text(trial_order()[0]);
        if has_at(t, 0, p) {
            assert(t.subrange(0, p.len() as int)[0] == p[0]);
        }
    }
    assert(!has_at(t, 0, op_text(trial_order()[1]))) by {
        let p = op_text(trial_order()[1]);
        if has_at(t, 0, p) {
            assert(t.subrange(0, p.len() as int)[0] == p[0]);
        }
    }
    assert(!has_at(t, 0, op_text(trial_order()[2]))) by {
        let p = op_text(trial_order()[2]);
        if has_at(t, 0, p) {
            assert(t.subrange(0, p.len() as int)[0] == p[0]);
        }
    }
    assert(!has_at(t, 0, op_text(trial_order()[3]))) by {
        let p = op_text(trial_order()[3]);
        if has_at(t, 0, p) {
            assert(t.subrange(0, p.len() as int)[0] == p[0]);
        }
    }
    assert(!has_at(t, 0, op_text(trial_order()[4]))) by {
        let p = op_text(trial_order()[4]);
        if has_at(t, 0, p) {
            assert(t.subrange(0, p.len() as int)[0] == p[0]);
        }
    }
    assert(!has_at(t, 0, op_text(trial_order()[5]))) by {
        let p = op_text(trial_order()[5]);
        if has_at(t, 0, p) {
            assert(t.subrange(0, p.len() as int)[0] == p[0]);
        }
    }
    assert(!has_at(t, 0, op_text(trial_order()[6]))) by {
        let p = op_text(trial_order()[6]);
        if has_at(t, 0, p) {
            assert(t.subrange(0, p.len() as int)[0] == p[0]);
        }
    }
    assert(!has_at(t, 0, op_text(trial_order()[7]))) by {
        let p = op_text(trial_order()[7]);
        if has_at(t, 0, p) {
            assert(t.subrange(0, p.len() as int)[0] == p[0]);
        }
    }
    assert(!has_at(t, 0, op_text(trial_order()[8]))) by {
        let p = op_text(trial_order()[8]);
        if has_at(t, 0, p) {
            assert(t.subrange(0, p.len() as int)[0] == p[0]);
        }
    }
    assert(!has_at(t, 0, op_text(trial_order()[9]))) by {
        let p = op_text(trial_order()[9]);
        if has_at(t, 0, p) {
            assert(t.subrange(0, p.len() as int)[0] == p[0]);
        }
    }
    assert(!has_at(t, 0, op_text(trial_order()[10]))) by {
        let p = op_text(trial_order()[10]);
        if has_at(t, 0, p) {
            assert(t.subrange(0, p.len() as int)[0] == p[0]);
        }
    }
    assert(!has_at(t, 0, op_text(trial_order()[11]))) by {
        let p = op_text(trial_order()[11]);
        if has_at(t, 0, p) {
            assert(t.subrange(0, p.len() as int)[0] == p[0]);
        }
    }
    assert(!has_at(t, 0, op_text(trial_order()[12]))) by {
        let p = op_text(trial_order()[12]);
        if has_at(t, 0, p) {
            assert(t.subrange(0, p.len() as int)[0] == p[0]);
        }
    }
    assert(!has_at(t, 0, op_text(trial_order()[13]))) by {
        let p = op_text(trial_order()[13]);
        if has_at(t, 0, p) {
            assert(t.subrange(0, p.len() as int)[0] == p[0]);
        }
    }
    assert(!has_at(t, 0, op_text(trial_order()[14]))) by {
        let p = op_text(trial_order()[14]);
        if has_at(t, 0, p) {
            assert(t.subrange(0, p.len() as int)[0] == p[0]);
        }
    }
    assert(!has_at(t, 0, op_text(trial_order()[15]))) by {
        let p = op_text(trial_order()[15]);
        if has_at(t, 0, p) {
            assert(t.subrange(0, p.len() as int)[0] == p[0]);
        }
    }
    assert(!has_at(t, 0, op_text(trial_order()[16]))) by {
        let p = op_text(trial_order()[16]);
        if has_at(t, 0, p) {
            assert(t.subrange(0, p.len() as int)[0] == p[0]);
        }
    }
    assert(!has_at(t, 0, op_text(trial_order()[17]))) by {
        let p = op_text(trial_order()[17]);
        if has_at(t, 0, p) {
            assert(t.subrange(0, p.len() as int)[0] == p[0]);
        }
    }
    assert(!has_at(t, 0, op_text(trial_order()[18]))) by {
        let p = op_text(trial_order()[18]);
        if has_at(t, 0, p) {
            assert(t.subrange(0, p.len() as int)[0] == p[0]);
        }
    }
    assert(!has_at(t, 0, op_text(trial_order()[19]))) by {
        let p = op_text(trial_order()[19]);
        if has_at(t, 0, p) {
            assert(t.subrange(0, p.len() as int)[0] == p[0]);
        }
    }
    assert(!has_at(t, 0, op_text(trial_order()[20]))) by {
        let p = op_text(trial_order()[20]);
        if has_at(t, 0, p) {
            assert(t.subrange(0, p.len() as int)[0] == p[0]);
        }
    }
    assert(!has_at(t, 0, op_text(trial_order()[21]))) by {
        let p = op_text(trial_order()[21]);
        if has_at(t, 0, p) {
            assert(t.subrange(0, p.len() as int)[0] == p[0]);
        }
    }
    assert(!has_at(t, 0, op_text(trial_order()[22]))) by {
        let p = op_text(trial_order()[22]);
        if has_at(t, 0, p) {
            assert(t.subrange(0, p.len() as int)[0] == p[0]);
        }
    }
    assert(!has_at(t, 0, op_text(trial_order()[23]))) by {
        let p = op_text(trial_order()[23]);
        if has_at(t, 0, p) {
            assert(t.subrange(0, p.len() as int)[0] == p[0]);
        }
    }
    assert(!has_at(t, 0, op_text(trial_order()[24]))) by {
        let p = op_text(trial_order()[24]);
        if has_at(t, 0, p) {
            assert(t.subrange(0, p.len() as int)[0] == p[0]);
        }
    }
    assert(!has_at(t, 0, op_text(trial_order()[25]))) by {
        let p = op_text(trial_order()[25]);
        if has_at(t, 0, p) {
            assert(t.subrange(0, p.len() as int)[0] == p[0]);
        }
    }
    assert(!has_at(t, 0, op_text(trial_order()[26]))) by {
        let p = op_text(trial_order()[26]);
        if has_at(t, 0, p) {
            assert(t.subrange(0, p.len() as int)[0] == p[0]);
        }
    }
    assert(!has_at(t, 0, op_text(trial_order()[27]))) by {
        let p = op_text(trial_order()[27]);
        if has_at(t, 0, p) {
            assert(t.subrange(0, p.len() as int)[0] == p[0]);
        }
    }
    assert(!has_at(t, 0, op_text(trial_order()[28]))) by {
        let p = op_text(trial_order()[28]);
        if has_at(t, 0, p) {
            assert(t.subrange(0, p.len() as int)[0] == p[0]);
        }
    }
    assert(!has_at(t, 0, op_text(trial_order()[29]))) by {
        let p = op_text(trial_order()[29]);
        if has_at(t, 0, p) {
            assert(t.subrange(0, p.len() as int)[0] == p[0]);
        }
    }
    assert(!has_at(t, 0, op_text(trial_order()[30]))) by {
        let p = op_text(trial_order()[30]);
        if has_at(t, 0, p) {
            assert(t.subrange(0, p.len() as int)[0] == p[0]);
        }
    }
    assert(!has_at(t, 0, op_text(trial_order()[31]))) by {
        let p = op_text(trial_order()[31]);
        if has_at(t, 0, p) {
            assert(t.subrange(0, p.len() as int)[0] == p[0]);
        }
    }
    assert(has_at(t, 0, op_text(trial_order()[32])));
    assert(spec_match_op(t) == Some(32int));
}

/// Maximal munch on an operator followed by a non-operator character: the
/// trial order matches exactly that operator's own text.  (Within every
/// shared-prefix family the longer texts come first, and no earlier trial
/// entry is a prefix of a later one.)
pub proof fn lemma_munch_exact(e: Expression, tail: Seq<char>)
    requires
        tail.len() == 0 || !is_op_char(tail[0]),
    ensures
        ({
            let t = op_text(e) + tail;
            &&& spec_match_op(t) is Some
            &&& op_text(trial_order()[spec_match_op(t)->0]) == op_text(e)
        }),
{
    match e {
        Expression::BinaryShiftLeftEquals => lemma_munch_binaryshiftleftequals(tail),
        Expression::BinaryShiftLeft => lemma_munch_binaryshiftleft(tail),
        Expression::LessThanOrEqualTo => lemma_munch_lessthanorequalto(tail),
        Expression::LessThan => lemma_munch_lessthan(tail),
        Expression::BinaryShiftRightEquals => lemma_munch_binaryshiftrightequals(tail),
        Expression::BinaryShiftRight => lemma_munch_binaryshiftright(tail),
        Expression::GreaterThanOrEqualTo => lemma_munch_greaterthanorequalto(tail),
        Expression::GreaterThan => lemma_munch_greaterthan(tail),
        Expression::And => lemma_munch_and(tail),
        Expression::BinaryAndEquals => lemma_munch_binaryandequals(tail),
        Expression::BinaryAnd => lemma_munch_binaryand(tail),
        Expression::NotEquals => lemma_munch_notequals(tail),
        Expression::Not => lemma_munch_not(tail),
        Expression::Or => lemma_munch_or(tail),
        Expression::BinaryOrEquals => lemma_munch_binaryorequals(tail),
        Expression::BinaryOr => lemma_munch_binaryor(tail),
        Expression::Equals => lemma_munch_equals(tail),
        Expression::AddEquals => lemma_munch_addequals(tail),
        Expression::Increment => lemma_munch_increment(tail),
        Expression::Add => lemma_munch_add(tail),
        Expression::MinusEquals => lemma_munch_minusequals(tail),
        Expression::Decrement => lemma_munch_decrement(tail),
        Expression::Subtract => lemma_munch_subtract(tail),
        Expression::MultiplyEquals => lemma_munch_multiplyequals(tail),
        Expression::Multiply => lemma_munch_multiply(tail),
        Expression::BinaryXorEquals => lemma_munch_binaryxorequals(tail),
        Expression::BinaryXor => lemma_munch_binaryxor(tail),
        Expression::BinaryModulusEquals => lemma_munch_binarymodulusequals(tail),
        Expression::Modulus => lemma_munch_modulus(tail),
        Expression::DivideEquals => lemma_munch_divideequals(tail),
        Expression::Divide => lemma_munch_divide(tail),
        Expression::Ternary => lemma_munch_ternary(tail),
        Expression::BinaryInvert => lemma_munch_binaryinvert(tail),
    }
}

} // verus!


verus! {

/// Law: for every operator token of the vocabulary except the
/// self-doubling-ambiguous set {`&`, `|`, `-`, `+`, `>`, `<`}, parsing
/// `IDENT OP 0` (an alphanumeric identifier, one space, the operator, one
/// space, a zero) consumes the whole input and yields exactly
/// `[IDENT, OP, "0"]`, with the operator text reproduced exactly.
pub proof fn lemma_ident_op_zero(e: Expression, id: Seq<char>)
    requires
        id.len() > 0,
        forall|j: int| 0 <= j < id.len() ==> is_alnum(id[j]),
        e != Expression::BinaryAnd,
        e != Expression::BinaryOr,
        e != Expression::Subtract,
        e != Expression::Add,
        e != Expression::GreaterThan,
        e != Expression::LessThan,
    ensures
        spec_expression(id + seq![' '] + op_text(e) + seq![' ', '0']) == Some((
            Seq::<char>::empty(),
            (id, op_text(e), seq!['0']),
        )),
{
    lemma_op_text_facts(e);
    let op = op_text(e);
    let s = id + seq![' '] + op + seq![' ', '0'];
    let n = id.len() as int;
    let m = op.len() as int;

    // The identifier is the leading alphanumeric run.
    assert(s[0] == id[0]);
    assert(!is_space(s[0]));
    lemma_skip_while_exact(s, 0, space_pred(), 0);
    assert(forall|j: int| 0 <= j < n ==> s[j] == id[j]);
    assert(s[n] == ' ');
    lemma_skip_while_exact(s, 0, alnum_pred(), n);
    assert(s.subrange(0, n) =~= id);
    let r1 = op + seq![' ', '0'];
    assert(s.subrange(n, s.len() as int) =~= seq![' '] + r1);
    let w1 = seq![' '] + r1;
    assert(!is_space(w1[1]));
    lemma_skip_while_exact(w1, 0, space_pred(), 1);
    assert(!is_space(w1[w1.len() - 1]));
    assert(rskip_spaces(w1, w1.len() as int) == w1.len());
    assert(trim_spec(w1) =~= r1);
    assert(spec_identifier(s) == Some((r1, id)));

    // The operator is munched maximally and reproduced exactly.
    assert(!is_hspace(r1[0]));
    lemma_skip_while_exact(r1, 0, hspace_pred(), 0);
    assert(r1.subrange(0, r1.len() as int) =~= r1);
    assert(!is_op_char(' '));
    lemma_munch_exact(e, seq![' ', '0']);
    let k = spec_match_op(r1)->0;
    assert(op_text(trial_order()[k]) == op);
    let rest0 = r1.subrange(m, r1.len() as int);
    assert(rest0 =~= seq![' ', '0']);
    lemma_match_op_none(seq![' ', '0'], 0);
    let w2 = seq![' ', '0'];
    assert(!is_space(w2[1]));
    lemma_skip_while_exact(w2, 0, space_pred(), 1);
    assert(rskip_spaces(w2, 2) == 2);
    assert(trim_spec(w2) =~= seq!['0']);
    assert(spec_operator(r1) == Some((seq!['0'], op)));

    // The zero is a strict decimal literal and ends the input.
    let r3 = seq!['0'];
    assert(!is_space(r3[0]));
    lemma_skip_while_exact(r3, 0, space_pred(), 0);
    assert(r3.subrange(0, 1) =~= r3);
    assert(!is_hspace(r3[0]));
    lemma_skip_while_exact(r3, 0, hspace_pred(), 0);
    assert(is_digit(r3[0]));
    lemma_skip_while_exact(r3, 0, digit_pred(), 1);
    let empty = Seq::<char>::empty();
    assert(r3.subrange(1, 1) =~= empty);
    lemma_skip_while_exact(empty, 0, space_pred(), 0);
    assert(rskip_spaces(empty, 0) == 0);
    assert(trim_spec(empty) =~= empty);
    assert(spec_hex_number(r3) is None);
    assert(spec_decimal_number(r3) == Some((empty, seq!['0'])));
    assert(spec_number(r3) == Some((empty, seq!['0'])));
    assert(spec_number_with_paren(r3) == Some((empty, seq!['0'])));

    assert(spec_expression_a(s) == Some((empty, (id, op, seq!['0']))));
}

} // verus!
