//! Decomposition of a condition into its top-level parenthesised
//! sub-clauses: every balanced `(...)` region at depth zero is collected, in
//! order, and text between the regions (such as `&&`) is passed over.

use vstd::prelude::*;

use crate::errors::{BtError, ErrorKind};
use crate::shared::take_until_unbalanced::{lemma_scan_from_ok, scan_from, scan_region};
use crate::util::{lemma_skip_while, skip_while, trim_start_spec, trim_start_str};

verus! {

/// Any character that is not a parenthesis.
pub open spec fn non_paren_pred() -> spec_fn(char) -> bool {
    |c: char| c != '(' && c != ')'
}

/// After one region has been found, collect the remaining top-level regions
/// starting at `i`.  Characters between regions are skipped; a stray close is
/// an unmatched closing delimiter; an unterminated open fails like the
/// scanner.  Returns the index just after the last region's close together
/// with the regions' texts (outer parentheses included).
pub open spec fn more_regions(s: Seq<char>, i: int) -> Result<(int, Seq<Seq<char>>), ErrorKind>
    recommends
        0 <= i <= s.len(),
    decreases s.len() - i,
{
    let j = skip_while(s, i, non_paren_pred());
    if j < 0 || j >= s.len() {
        Ok((i, Seq::empty()))
    } else if s[j] == ')' {
        Err(ErrorKind::UnmatchedClosingDelimiter)
    } else {
        match scan_from('(', ')', s, j, 0, 0) {
            Err(k) => Err(k),
            Ok((a, b)) => {
                // The scan cannot end before it began or beyond the input;
                // the bounds keep the recursion well founded.
                if i <= b && b < s.len() {
                    match more_regions(s, b + 1) {
                        Err(k) => Err(k),
                        Ok((rest, regs)) => Ok((rest, seq![s.subrange(a, b + 1)] + regs)),
                    }
                } else {
                    Err(ErrorKind::MalformedPrefix)
                }
            },
        }
    }
}

/// All top-level parenthesised regions of `s`: the first must begin cleanly
/// (the scanner's prefix rules apply), the rest are collected by
/// `more_regions`.  Returns the remainder after the last region, its leading
/// whitespace trimmed, and the regions' texts.
pub open spec fn spec_parse_nested_parens(s: Seq<char>) -> Result<
    (Seq<char>, Seq<Seq<char>>),
    ErrorKind,
> {
    match scan_from('(', ')', s, 0, 0, 0) {
        Err(k) => Err(k),
        Ok((a, b)) => match more_regions(s, b + 1) {
            Err(k) => Err(k),
            Ok((rest, regs)) => Ok(
                (
                    trim_start_spec(s.subrange(rest, s.len() as int)),
                    seq![s.subrange(a, b + 1)] + regs,
                ),
            ),
        },
    }
}

fn skip_non_paren(s: &str, from: usize) -> (r: usize)
    requires
        from <= s@.len(),
    ensures
        r == skip_while(s@, from as int, non_paren_pred()),
        from <= r <= s@.len(),
{
    proof {
        lemma_skip_while(s@, from as int, non_paren_pred());
    }
    let len = s.unicode_len();
    let mut i = from;
    while i < len && s.get_char(i) != '(' && s.get_char(i) != ')'
        invariant
            from <= i <= len,
            len == s@.len(),
            skip_while(s@, from as int, non_paren_pred()) == skip_while(
                s@,
                i as int,
                non_paren_pred(),
            ),
        decreases len - i,
    {
        i = i + 1;
    }
    i
}

fn more_regions_exec<'a>(input: &'a str, i: usize) -> (r: Result<(usize, Vec<&'a str>), ErrorKind>)
    requires
        i <= input@.len(),
    ensures
        match r {
            Ok((rest, regs)) => {
                &&& more_regions(input@, i as int) matches Ok((srest, sregs))
                &&& rest == srest
                &&& rest <= input@.len()
                &&& regs@.len() == sregs.len()
                &&& forall|m: int| 0 <= m < regs@.len() ==> (#[trigger] regs@[m])@ == sregs[m]
            },
            Err(k) => more_regions(input@, i as int) == Err::<(int, Seq<Seq<char>>), _>(k),
        },
    decreases input@.len() - i,
{
    let ghost s = input@;
    let len = input.unicode_len();
    let j = skip_non_paren(input, i);
    if j >= len {
        Ok((i, Vec::new()))
    } else if input.get_char(j) == ')' {
        Err(ErrorKind::UnmatchedClosingDelimiter)
    } else {
        match scan_region('(', ')', input, j) {
            Err(k) => Err(k),
            Ok((a, b)) => {
                match more_regions_exec(input, b + 1) {
                    Err(k) => Err(k),
                    Ok((rest, tail)) => {
                        let region = input.substring_char(a, b + 1);
                        let mut regs: Vec<&'a str> = Vec::new();
                        regs.push(region);
                        let mut tail = tail;
                        regs.append(&mut tail);
                        Ok((rest, regs))
                    },
                }
            },
        }
    }
}

/// Split `input` into its top-level parenthesised sub-clauses, e.g.
/// `(a != 0) && (b == 1)` into `["(a != 0)", "(b == 1)"]`.
pub fn parse_nested_parens<'a>(input: &'a str) -> (r: Result<(&'a str, Vec<&'a str>), BtError<'a>>)
    ensures
        match r {
            Ok((rest, regs)) => {
                &&& spec_parse_nested_parens(input@) matches Ok((srest, sregs))
                &&& rest@ == srest
                &&& regs@.len() == sregs.len()
                &&& forall|m: int| 0 <= m < regs@.len() ==> (#[trigger] regs@[m])@ == sregs[m]
            },
            Err(e) => {
                &&& spec_parse_nested_parens(input@) == Err::<(Seq<char>, Seq<Seq<char>>), _>(
                    e.kind,
                )
                &&& e.input == input
            },
        },
{
    let ghost s = input@;
    let len = input.unicode_len();
    match scan_region('(', ')', input, 0) {
        Err(k) => Err(BtError::new(input, k)),
        Ok((a, b)) => {
            match more_regions_exec(input, b + 1) {
                Err(k) => Err(BtError::new(input, k)),
                Ok((rest_i, tail)) => {
                    let region = input.substring_char(a, b + 1);
                    let mut regs: Vec<&'a str> = Vec::new();
                    regs.push(region);
                    let mut tail = tail;
                    regs.append(&mut tail);
                    let rest = trim_start_str(input.substring_char(rest_i, len));
                    Ok((rest, regs))
                },
            }
        },
    }
}

} // verus!
