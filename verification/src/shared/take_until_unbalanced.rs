//! The balanced-region scanner: one generic, depth-counting scanner for any
//! open/close delimiter pair.  It is reused for `()`, `{}` and `<>` regions
//! and is never re-specialised per delimiter kind.

use vstd::prelude::*;

use crate::errors::{BtError, ErrorKind};
use crate::util::{trim_spec, trim_start_spec, trim_start_str, trim_str};

verus! {

/// One step of the depth-counting scan, written as a recursion over the
/// input.  `i` is the current position, `depth` the number of currently open
/// delimiters, and `start` the index of the open that started the region
/// (meaningful only while `depth > 0`).  On success it returns the indices of
/// the region's outermost open and close.
///
/// - a close at depth zero is an unmatched closing delimiter;
/// - any other character at depth zero before a region has opened is a
///   malformed prefix (the scanner tolerates no prefix text, whitespace
///   included), and so is running out of input before a region opens;
/// - running out of input while a region is open leaves it unterminated.
pub open spec fn scan_from(
    open: char,
    close: char,
    s: Seq<char>,
    i: int,
    depth: nat,
    start: int,
) -> Result<(int, int), ErrorKind>
    recommends
        0 <= i <= s.len(),
    decreases s.len() - i,
{
    if i < 0 || i >= s.len() {
        if depth > 0 {
            Err(ErrorKind::UnterminatedDelimiter)
        } else {
            Err(ErrorKind::MalformedPrefix)
        }
    } else {
        let c = s[i];
        if c == open {
            if depth == 0 {
                scan_from(open, close, s, i + 1, 1, i)
            } else {
                scan_from(open, close, s, i + 1, (depth + 1) as nat, start)
            }
        } else if c == close {
            if depth == 0 {
                Err(ErrorKind::UnmatchedClosingDelimiter)
            } else if depth == 1 {
                Ok((start, i))
            } else {
                scan_from(open, close, s, i + 1, (depth - 1) as nat, start)
            }
        } else {
            if depth == 0 {
                Err(ErrorKind::MalformedPrefix)
            } else {
                scan_from(open, close, s, i + 1, depth, start)
            }
        }
    }
}

/// The whole scan of `s`: the indices of the first balanced region's
/// outermost delimiters, or the reason there is none.
pub open spec fn spec_scan(open: char, close: char, s: Seq<char>) -> Result<(int, int), ErrorKind> {
    scan_from(open, close, s, 0, 0, 0)
}

pub proof fn lemma_scan_from_ok(
    open: char,
    close: char,
    s: Seq<char>,
    i: int,
    depth: nat,
    start: int,
)
    requires
        0 <= i <= s.len(),
        depth > 0 ==> 0 <= start < i && s[start] == open,
    ensures
        match scan_from(open, close, s, i, depth, start) {
            Ok((a, b)) => {
                &&& 0 <= a < b < s.len()
                &&& s[a] == open
                &&& s[b] == close
                &&& i <= b
                &&& (depth > 0 ==> a == start)
                &&& (depth == 0 ==> i <= a)
            },
            Err(_) => true,
        },
    decreases s.len() - i,
{
    if 0 <= i && i < s.len() {
        let c = s[i];
        if c == open {
            if depth == 0 {
                lemma_scan_from_ok(open, close, s, i + 1, 1, i);
            } else {
                lemma_scan_from_ok(open, close, s, i + 1, (depth + 1) as nat, start);
            }
        } else if c == close {
            if depth > 1 {
                lemma_scan_from_ok(open, close, s, i + 1, (depth - 1) as nat, start);
            }
        } else {
            if depth > 0 {
                lemma_scan_from_ok(open, close, s, i + 1, depth, start);
            }
        }
    }
}

/// What the scanner returns on `s`: the region's inner content with the
/// outer delimiter pair stripped and surrounding whitespace trimmed, and the
/// remainder after the region, with one statement terminator `;` consumed if
/// it stands immediately after the close and leading whitespace trimmed.
pub open spec fn spec_take_until_unbalanced(open: char, close: char, s: Seq<char>) -> Result<
    (Seq<char>, Seq<char>),
    ErrorKind,
> {
    match spec_scan(open, close, s) {
        Ok((a, b)) => {
            let inner = trim_spec(s.subrange(a + 1, b));
            let after = if b + 1 < s.len() && s[b + 1] == ';' {
                s.subrange(b + 2, s.len() as int)
            } else {
                s.subrange(b + 1, s.len() as int)
            };
            Ok((trim_start_spec(after), inner))
        },
        Err(k) => Err(k),
    }
}

/// Scan `input` for the first balanced `open`/`close` region.  On success the
/// result is `(remainder, contents)`: the region's contents with the outer
/// pair stripped and trimmed, and the input after the region with one leading
/// `;` consumed and leading whitespace trimmed.
pub fn take_until_unbalanced<'a>(open: char, close: char, input: &'a str) -> (r: Result<
    (&'a str, &'a str),
    BtError<'a>,
>)
    ensures
        match r {
            Ok((rest, contents)) => spec_take_until_unbalanced(open, close, input@) == Ok::<
                _,
                ErrorKind,
            >((rest@, contents@)),
            Err(e) => {
                &&& spec_take_until_unbalanced(open, close, input@) == Err::<
                    (Seq<char>, Seq<char>),
                    _,
                >(e.kind)
                &&& e.input == input
            },
        },
{
    let ghost s = input@;
    let len = input.unicode_len();
    let mut i: usize = 0;
    let mut depth: usize = 0;
    let mut start: usize = 0;
    let mut res_start: usize = 0;
    let mut res_end: usize = 0;
    let mut found = false;
    while i < len
        invariant_except_break
            !found,
        invariant
            0 <= i <= len,
            len == s.len(),
            input@ == s,
            depth <= i,
            depth > 0 ==> start < i && s[start as int] == open,
            scan_from(open, close, s, i as int, depth as nat, start as int) == spec_scan(
                open,
                close,
                s,
            ),
        ensures
            found ==> {
                &&& spec_scan(open, close, s) == Ok::<_, ErrorKind>((
                    res_start as int,
                    res_end as int,
                ))
                &&& res_start < res_end < len
            },
            !found ==> i == len && scan_from(open, close, s, i as int, depth as nat, start as int)
                == spec_scan(open, close, s),
        decreases len - i,
    {
        let c = input.get_char(i);
        if c == open {
            if depth == 0 {
                start = i;
                depth = 1;
            } else {
                depth = depth + 1;
            }
        } else if c == close {
            if depth == 0 {
                return Err(BtError::new(input, ErrorKind::UnmatchedClosingDelimiter));
            } else if depth == 1 {
                res_start = start;
                res_end = i;
                found = true;
                proof {
                    lemma_scan_from_ok(open, close, s, i as int, depth as nat, start as int);
                }
                break ;
            } else {
                depth = depth - 1;
            }
        } else {
            if depth == 0 {
                return Err(BtError::new(input, ErrorKind::MalformedPrefix));
            }
        }
        i = i + 1;
    }
    if !found {
        if depth > 0 {
            return Err(BtError::new(input, ErrorKind::UnterminatedDelimiter));
        } else {
            return Err(BtError::new(input, ErrorKind::MalformedPrefix));
        }
    }
    let contents = trim_str(input.substring_char(res_start + 1, res_end));
    let mut j = res_end + 1;
    if j < len && input.get_char(j) == ';' {
        j = j + 1;
    }
    let rest = trim_start_str(input.substring_char(j, len));
    Ok((rest, contents))
}

/// Run the depth-counting scan from position `g` of `input` and report the
/// region's delimiter indices, or the scan's failure kind.
pub fn scan_region(open: char, close: char, input: &str, g: usize) -> (r: Result<
    (usize, usize),
    ErrorKind,
>)
    requires
        g <= input@.len(),
    ensures
        match r {
            Ok((o, h)) => {
                &&& scan_from(open, close, input@, g as int, 0, 0) == Ok::<_, ErrorKind>(
                    (o as int, h as int),
                )
                &&& g <= o < h < input@.len()
            },
            Err(k) => scan_from(open, close, input@, g as int, 0, 0) == Err::<(int, int), _>(k),
        },
{
    let ghost s = input@;
    let len = input.unicode_len();
    let mut i = g;
    let mut depth: usize = 0;
    let mut start: usize = g;
    while i < len
        invariant
            g <= i <= len,
            len == s.len(),
            input@ == s,
            depth <= i,
            depth > 0 ==> g <= start < i && s[start as int] == open,
            scan_from(open, close, s, i as int, depth as nat, start as int) == scan_from(
                open,
                close,
                s,
                g as int,
                0,
                0,
            ),
        decreases len - i,
    {
        let c = input.get_char(i);
        if c == open {
            if depth == 0 {
                start = i;
                depth = 1;
            } else {
                depth = depth + 1;
            }
        } else if c == close {
            if depth == 0 {
                return Err(ErrorKind::UnmatchedClosingDelimiter);
            } else if depth == 1 {
                proof {
                    lemma_scan_from_ok(open, close, s, i as int, depth as nat, start as int);
                }
                return Ok((start, i));
            } else {
                depth = depth - 1;
            }
        } else {
            if depth == 0 {
                return Err(ErrorKind::MalformedPrefix);
            }
        }
        i = i + 1;
    }
    if depth > 0 {
        Err(ErrorKind::UnterminatedDelimiter)
    } else {
        Err(ErrorKind::MalformedPrefix)
    }
}

/// A successful scan always consumes the region, so the remainder is at
/// least two characters shorter than the input.
pub proof fn lemma_take_until_unbalanced_shrinks(open: char, close: char, s: Seq<char>)
    ensures
        spec_take_until_unbalanced(open, close, s) matches Ok((rest, _)) ==> rest.len() + 2
            <= s.len(),
{
    if spec_take_until_unbalanced(open, close, s) is Ok {
        lemma_scan_from_ok(open, close, s, 0, 0, 0);
        let (a, b) = spec_scan(open, close, s)->Ok_0;
        let after = if b + 1 < s.len() && s[b + 1] == ';' {
            s.subrange(b + 2, s.len() as int)
        } else {
            s.subrange(b + 1, s.len() as int)
        };
        crate::util::lemma_trim_lengths(after);
    }
}

/// Net delimiter depth contributed by `s[i..j)`: opens count +1, closes -1.
pub open spec fn net_depth(open: char, close: char, s: Seq<char>, i: int, j: int) -> int
    recommends
        0 <= i <= j <= s.len(),
    decreases j - i,
{
    if i < 0 || i >= j || j > s.len() {
        0
    } else {
        (if s[i] == open {
            1int
        } else if s[i] == close {
            -1int
        } else {
            0int
        }) + net_depth(open, close, s, i + 1, j)
    }
}

/// While a region is open (current depth plus the net depth of every prefix
/// of what remains up to `b` stays at least one) and `s[b]` is the close that
/// brings the depth back to zero, the scan ends exactly at `b`.
proof fn lemma_scan_reaches_close(
    open: char,
    close: char,
    s: Seq<char>,
    i: int,
    depth: nat,
    start: int,
    b: int,
)
    requires
        open != close,
        0 <= i <= b < s.len(),
        s[b] == close,
        depth >= 1,
        depth + net_depth(open, close, s, i, b) == 1,
        forall|k: int| i <= k < b ==> depth + net_depth(open, close, s, i, k) >= 1,
    ensures
        scan_from(open, close, s, i, depth, start) == Ok::<_, ErrorKind>((start, b)),
    decreases b - i,
{
    if i == b {
        assert(net_depth(open, close, s, i, b) == 0);
    } else {
        let c = s[i];
        let d = if c == open {
            1int
        } else if c == close {
            -1int
        } else {
            0int
        };
        let depth2 = depth + d;
        if c == close {
            assert(depth + net_depth(open, close, s, i, i + 1) >= 1);
            assert(net_depth(open, close, s, i + 1, i + 1) == 0);
            assert(net_depth(open, close, s, i, i + 1) == -1);
        }
        assert(depth2 >= 1);
        assert(net_depth(open, close, s, i, b) == d + net_depth(open, close, s, i + 1, b));
        assert forall|k: int| i + 1 <= k < b implies depth2 + #[trigger] net_depth(
            open,
            close,
            s,
            i + 1,
            k,
        ) >= 1 by {
            assert(net_depth(open, close, s, i, k) == d + net_depth(open, close, s, i + 1, k));
            assert(depth + net_depth(open, close, s, i, k) >= 1);
        }
        lemma_scan_reaches_close(open, close, s, i + 1, depth2 as nat, start, b);
    }
}

/// If the depth stays positive through the end of the input, the scan ends
/// in an unterminated-delimiter failure.
proof fn lemma_scan_stays_open(
    open: char,
    close: char,
    s: Seq<char>,
    i: int,
    depth: nat,
    start: int,
)
    requires
        open != close,
        0 <= i <= s.len(),
        depth >= 1,
        forall|k: int| i <= k <= s.len() ==> depth + net_depth(open, close, s, i, k) >= 1,
    ensures
        scan_from(open, close, s, i, depth, start) == Err::<(int, int), _>(
            ErrorKind::UnterminatedDelimiter,
        ),
    decreases s.len() - i,
{
    if i < s.len() {
        let c = s[i];
        let d = if c == open {
            1int
        } else if c == close {
            -1int
        } else {
            0int
        };
        let depth2 = depth + d;
        if c == close {
            assert(depth + net_depth(open, close, s, i, i + 1) >= 1);
            assert(net_depth(open, close, s, i + 1, i + 1) == 0);
            assert(net_depth(open, close, s, i, i + 1) == -1);
        }
        assert(depth2 >= 1);
        assert forall|k: int| i + 1 <= k <= s.len() implies depth2 + #[trigger] net_depth(
            open,
            close,
            s,
            i + 1,
            k,
        ) >= 1 by {
            assert(net_depth(open, close, s, i, k) == d + net_depth(open, close, s, i + 1, k));
            assert(depth + net_depth(open, close, s, i, k) >= 1);
        }
        lemma_scan_stays_open(open, close, s, i + 1, depth2 as nat, start);
    }
}

/// Net depth only looks at the characters of the range, so it can be shifted
/// into a concatenation.
proof fn lemma_net_depth_shift(
    open: char,
    close: char,
    s: Seq<char>,
    body: Seq<char>,
    off: int,
    i: int,
    j: int,
)
    requires
        0 <= i <= j <= body.len(),
        0 <= off,
        off + body.len() <= s.len(),
        forall|k: int| 0 <= k < body.len() ==> s[off + k] == body[k],
    ensures
        net_depth(open, close, s, off + i, off + j) == net_depth(open, close, body, i, j),
    decreases j - i,
{
    if i < j {
        lemma_net_depth_shift(open, close, s, body, off, i + 1, j);
    }
}

/// Law (balanced-region scanner, success case): for any well-formed nested
/// region — an `open`, a body whose every prefix keeps the net depth
/// non-negative and whose total net depth is zero, the matching `close`, and
/// arbitrary following text — the scanner succeeds and returns exactly the
/// body with the outer pair stripped and trimmed, and the remainder after the
/// region with one leading `;` consumed and leading whitespace trimmed.
pub proof fn lemma_scanner_well_formed_region(
    open: char,
    close: char,
    body: Seq<char>,
    rest: Seq<char>,
)
    requires
        open != close,
        forall|k: int| 0 <= k <= body.len() ==> net_depth(open, close, body, 0, k) >= 0,
        net_depth(open, close, body, 0, body.len() as int) == 0,
    ensures
        ({
            let s = seq![open] + body + seq![close] + rest;
            let after = if rest.len() > 0 && rest[0] == ';' {
                rest.subrange(1, rest.len() as int)
            } else {
                rest
            };
            spec_take_until_unbalanced(open, close, s) == Ok::<_, ErrorKind>(
                (trim_start_spec(after), trim_spec(body)),
            )
        }),
{
    let s = seq![open] + body + seq![close] + rest;
    let b = 1 + body.len() as int;
    assert(s[0] == open);
    assert(s[b] == close);
    assert(forall|k: int| 0 <= k < body.len() ==> s[1 + k] == body[k]);
    assert forall|k: int| 1 <= k <= b implies 1 + net_depth(open, close, s, 1, k) >= 1 by {
        lemma_net_depth_shift(open, close, s, body, 1, 0, k - 1);
    }
    lemma_net_depth_shift(open, close, s, body, 1, 0, body.len() as int);
    assert(net_depth(open, close, s, 1, b) == 0);
    lemma_scan_reaches_close(open, close, s, 1, 1, 0, b);
    assert(spec_scan(open, close, s) == Ok::<_, ErrorKind>((0int, b)));
    assert(s.subrange(1, b) =~= body);
    if rest.len() > 0 && rest[0] == ';' {
        assert(s[b + 1] == ';');
        assert(s.subrange(b + 2, s.len() as int) =~= rest.subrange(1, rest.len() as int));
    } else {
        if b + 1 < s.len() {
            assert(s[b + 1] == rest[0]);
        }
        assert(s.subrange(b + 1, s.len() as int) =~= rest);
    }
}

/// Law (balanced-region scanner, unterminated case): if the input opens a
/// region and the net depth stays positive through the end of the input, the
/// scanner fails with an unterminated delimiter.
pub proof fn lemma_scanner_unterminated(open: char, close: char, s: Seq<char>)
    requires
        open != close,
        s.len() > 0,
        s[0] == open,
        forall|k: int| 1 <= k <= s.len() ==> net_depth(open, close, s, 0, k) >= 1,
    ensures
        spec_take_until_unbalanced(open, close, s) == Err::<(Seq<char>, Seq<char>), _>(
            ErrorKind::UnterminatedDelimiter,
        ),
{
    assert forall|k: int| 1 <= k <= s.len() implies 1 + net_depth(open, close, s, 1, k) >= 1 by {
        assert(net_depth(open, close, s, 0, k) == 1 + net_depth(open, close, s, 1, k));
    }
    lemma_scan_stays_open(open, close, s, 1, 1, 0);
}

/// Law (balanced-region scanner, stray close): an input whose first
/// character is the closing delimiter fails with an unmatched closing
/// delimiter.
pub proof fn lemma_scanner_stray_close(open: char, close: char, s: Seq<char>)
    requires
        open != close,
        s.len() > 0,
        s[0] == close,
    ensures
        spec_take_until_unbalanced(open, close, s) == Err::<(Seq<char>, Seq<char>), _>(
            ErrorKind::UnmatchedClosingDelimiter,
        ),
{
}

/// Law (balanced-region scanner, malformed prefix): an input whose first
/// character is neither delimiter fails with a malformed prefix — the
/// scanner tolerates no prefix text at all.
pub proof fn lemma_scanner_malformed_prefix(open: char, close: char, s: Seq<char>)
    requires
        s.len() > 0,
        s[0] != open,
        s[0] != close,
    ensures
        spec_take_until_unbalanced(open, close, s) == Err::<(Seq<char>, Seq<char>), _>(
            ErrorKind::MalformedPrefix,
        ),
{
}

} // verus!
