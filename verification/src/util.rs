//! Character classes and low-level text helpers shared by all parsers.
//!
//! The whole library works over `&str` whose view is a `Seq<char>`; every
//! helper here is specified by a spec function over that view and proved
//! against it.

use vstd::prelude::*;

verus! {

/// Whitespace as the parsers understand it: space, tab, carriage return,
/// line feed.
pub open spec fn is_space(c: char) -> bool {
    c == ' ' || c == '\t' || c == '\r' || c == '\n'
}

/// Horizontal whitespace only (used around operator tokens, where a line
/// break must not be skipped).
pub open spec fn is_hspace(c: char) -> bool {
    c == ' ' || c == '\t'
}

/// ASCII decimal digit.
pub open spec fn is_digit(c: char) -> bool {
    '0' <= c && c <= '9'
}

/// ASCII hexadecimal digit.
pub open spec fn is_hex_digit(c: char) -> bool {
    is_digit(c) || ('a' <= c && c <= 'f') || ('A' <= c && c <= 'F')
}

/// ASCII letter or digit.
pub open spec fn is_alnum(c: char) -> bool {
    is_digit(c) || ('a' <= c && c <= 'z') || ('A' <= c && c <= 'Z')
}

/// ASCII letter.
pub open spec fn is_alpha(c: char) -> bool {
    ('a' <= c && c <= 'z') || ('A' <= c && c <= 'Z')
}

/// ASCII letter, digit or underscore (the alphabet of type tokens).
pub open spec fn is_word(c: char) -> bool {
    is_alnum(c) || c == '_'
}

/// ASCII punctuation, as the strict decimal-literal rejection rule uses it.
pub open spec fn is_punct(c: char) -> bool {
    ('!' <= c && c <= '/') || (':' <= c && c <= '@') || ('[' <= c && c <= '`') || ('{' <= c
        && c <= '~')
}

pub fn char_is_space(c: char) -> (r: bool)
    ensures
        r == is_space(c),
{
    c == ' ' || c == '\t' || c == '\r' || c == '\n'
}

pub fn char_is_hspace(c: char) -> (r: bool)
    ensures
        r == is_hspace(c),
{
    c == ' ' || c == '\t'
}

pub fn char_is_digit(c: char) -> (r: bool)
    ensures
        r == is_digit(c),
{
    '0' <= c && c <= '9'
}

pub fn char_is_hex_digit(c: char) -> (r: bool)
    ensures
        r == is_hex_digit(c),
{
    char_is_digit(c) || ('a' <= c && c <= 'f') || ('A' <= c && c <= 'F')
}

pub fn char_is_alnum(c: char) -> (r: bool)
    ensures
        r == is_alnum(c),
{
    char_is_digit(c) || ('a' <= c && c <= 'z') || ('A' <= c && c <= 'Z')
}

pub fn char_is_alpha(c: char) -> (r: bool)
    ensures
        r == is_alpha(c),
{
    ('a' <= c && c <= 'z') || ('A' <= c && c <= 'Z')
}

pub fn char_is_word(c: char) -> (r: bool)
    ensures
        r == is_word(c),
{
    char_is_alnum(c) || c == '_'
}

pub fn char_is_punct(c: char) -> (r: bool)
    ensures
        r == is_punct(c),
{
    ('!' <= c && c <= '/') || (':' <= c && c <= '@') || ('[' <= c && c <= '`') || ('{' <= c
        && c <= '~')
}

/// First index at or after `i` whose character does not satisfy `p`
/// (or the length of `s` if every remaining character satisfies `p`).
pub open spec fn skip_while(s: Seq<char>, i: int, p: spec_fn(char) -> bool) -> int
    recommends
        0 <= i <= s.len(),
    decreases s.len() - i,
{
    if 0 <= i && i < s.len() && p(s[i]) {
        skip_while(s, i + 1, p)
    } else {
        i
    }
}

pub proof fn lemma_skip_while(s: Seq<char>, i: int, p: spec_fn(char) -> bool)
    requires
        0 <= i <= s.len(),
    ensures
        i <= skip_while(s, i, p) <= s.len(),
        forall|j: int| i <= j < skip_while(s, i, p) ==> p(s[j]),
        skip_while(s, i, p) < s.len() ==> !p(s[skip_while(s, i, p)]),
    decreases s.len() - i,
{
    if i < s.len() && p(s[i]) {
        lemma_skip_while(s, i + 1, p);
    }
}

pub proof fn lemma_skip_while_exact(s: Seq<char>, i: int, p: spec_fn(char) -> bool, k: int)
    requires
        0 <= i <= k <= s.len(),
        forall|j: int| i <= j < k ==> p(s[j]),
        k < s.len() ==> !p(s[k]),
    ensures
        skip_while(s, i, p) == k,
    decreases k - i,
{
    if i < k {
        lemma_skip_while_exact(s, i + 1, p, k);
    }
}

pub open spec fn space_pred() -> spec_fn(char) -> bool {
    |c: char| is_space(c)
}

pub open spec fn hspace_pred() -> spec_fn(char) -> bool {
    |c: char| is_hspace(c)
}

pub open spec fn alnum_pred() -> spec_fn(char) -> bool {
    |c: char| is_alnum(c)
}

pub open spec fn word_pred() -> spec_fn(char) -> bool {
    |c: char| is_word(c)
}

pub open spec fn digit_pred() -> spec_fn(char) -> bool {
    |c: char| is_digit(c)
}

pub open spec fn hex_pred() -> spec_fn(char) -> bool {
    |c: char| is_hex_digit(c)
}

/// Any character other than a line feed.
pub open spec fn non_newline_pred() -> spec_fn(char) -> bool {
    |c: char| c != '\n'
}

/// Any character other than a closing parenthesis (the tolerant trailing
/// consume of the paren-tolerant hex literal).
pub open spec fn non_rparen_pred() -> spec_fn(char) -> bool {
    |c: char| c != ')'
}

pub fn skip_spaces(s: &str, from: usize) -> (r: usize)
    requires
        from <= s@.len(),
    ensures
        r == skip_while(s@, from as int, space_pred()),
        from <= r <= s@.len(),
{
    proof {
        lemma_skip_while(s@, from as int, space_pred());
    }
    let len = s.unicode_len();
    let mut i = from;
    while i < len && char_is_space(s.get_char(i))
        invariant
            from <= i <= len,
            len == s@.len(),
            skip_while(s@, from as int, space_pred()) == skip_while(s@, i as int, space_pred()),
        decreases len - i,
    {
        i = i + 1;
    }
    i
}

pub fn skip_hspaces(s: &str, from: usize) -> (r: usize)
    requires
        from <= s@.len(),
    ensures
        r == skip_while(s@, from as int, hspace_pred()),
        from <= r <= s@.len(),
{
    proof {
        lemma_skip_while(s@, from as int, hspace_pred());
    }
    let len = s.unicode_len();
    let mut i = from;
    while i < len && char_is_hspace(s.get_char(i))
        invariant
            from <= i <= len,
            len == s@.len(),
            skip_while(s@, from as int, hspace_pred()) == skip_while(s@, i as int, hspace_pred()),
        decreases len - i,
    {
        i = i + 1;
    }
    i
}

pub fn skip_alnum(s: &str, from: usize) -> (r: usize)
    requires
        from <= s@.len(),
    ensures
        r == skip_while(s@, from as int, alnum_pred()),
        from <= r <= s@.len(),
{
    proof {
        lemma_skip_while(s@, from as int, alnum_pred());
    }
    let len = s.unicode_len();
    let mut i = from;
    while i < len && char_is_alnum(s.get_char(i))
        invariant
            from <= i <= len,
            len == s@.len(),
            skip_while(s@, from as int, alnum_pred()) == skip_while(s@, i as int, alnum_pred()),
        decreases len - i,
    {
        i = i + 1;
    }
    i
}

pub fn skip_word(s: &str, from: usize) -> (r: usize)
    requires
        from <= s@.len(),
    ensures
        r == skip_while(s@, from as int, word_pred()),
        from <= r <= s@.len(),
{
    proof {
        lemma_skip_while(s@, from as int, word_pred());
    }
    let len = s.unicode_len();
    let mut i = from;
    while i < len && char_is_word(s.get_char(i))
        invariant
            from <= i <= len,
            len == s@.len(),
            skip_while(s@, from as int, word_pred()) == skip_while(s@, i as int, word_pred()),
        decreases len - i,
    {
        i = i + 1;
    }
    i
}

pub fn skip_digits(s: &str, from: usize) -> (r: usize)
    requires
        from <= s@.len(),
    ensures
        r == skip_while(s@, from as int, digit_pred()),
        from <= r <= s@.len(),
{
    proof {
        lemma_skip_while(s@, from as int, digit_pred());
    }
    let len = s.unicode_len();
    let mut i = from;
    while i < len && char_is_digit(s.get_char(i))
        invariant
            from <= i <= len,
            len == s@.len(),
            skip_while(s@, from as int, digit_pred()) == skip_while(s@, i as int, digit_pred()),
        decreases len - i,
    {
        i = i + 1;
    }
    i
}

pub fn skip_hex_digits(s: &str, from: usize) -> (r: usize)
    requires
        from <= s@.len(),
    ensures
        r == skip_while(s@, from as int, hex_pred()),
        from <= r <= s@.len(),
{
    proof {
        lemma_skip_while(s@, from as int, hex_pred());
    }
    let len = s.unicode_len();
    let mut i = from;
    while i < len && char_is_hex_digit(s.get_char(i))
        invariant
            from <= i <= len,
            len == s@.len(),
            skip_while(s@, from as int, hex_pred()) == skip_while(s@, i as int, hex_pred()),
        decreases len - i,
    {
        i = i + 1;
    }
    i
}

pub fn skip_to_newline(s: &str, from: usize) -> (r: usize)
    requires
        from <= s@.len(),
    ensures
        r == skip_while(s@, from as int, non_newline_pred()),
        from <= r <= s@.len(),
{
    proof {
        lemma_skip_while(s@, from as int, non_newline_pred());
    }
    let len = s.unicode_len();
    let mut i = from;
    while i < len && s.get_char(i) != '\n'
        invariant
            from <= i <= len,
            len == s@.len(),
            skip_while(s@, from as int, non_newline_pred()) == skip_while(
                s@,
                i as int,
                non_newline_pred(),
            ),
        decreases len - i,
    {
        i = i + 1;
    }
    i
}

pub fn skip_to_rparen(s: &str, from: usize) -> (r: usize)
    requires
        from <= s@.len(),
    ensures
        r == skip_while(s@, from as int, non_rparen_pred()),
        from <= r <= s@.len(),
{
    proof {
        lemma_skip_while(s@, from as int, non_rparen_pred());
    }
    let len = s.unicode_len();
    let mut i = from;
    while i < len && s.get_char(i) != ')'
        invariant
            from <= i <= len,
            len == s@.len(),
            skip_while(s@, from as int, non_rparen_pred()) == skip_while(
                s@,
                i as int,
                non_rparen_pred(),
            ),
        decreases len - i,
    {
        i = i + 1;
    }
    i
}

/// Index just past the last character that would survive trimming from the
/// right: walks left from `j` over whitespace.
pub open spec fn rskip_spaces(s: Seq<char>, j: int) -> int
    recommends
        0 <= j <= s.len(),
    decreases j,
{
    if 0 < j && j <= s.len() && is_space(s[j - 1]) {
        rskip_spaces(s, j - 1)
    } else {
        j
    }
}

pub proof fn lemma_rskip_spaces(s: Seq<char>, j: int)
    requires
        0 <= j <= s.len(),
    ensures
        0 <= rskip_spaces(s, j) <= j,
        forall|k: int| rskip_spaces(s, j) <= k < j ==> is_space(s[k]),
        rskip_spaces(s, j) > 0 ==> !is_space(s[rskip_spaces(s, j) - 1]),
    decreases j,
{
    if 0 < j && is_space(s[j - 1]) {
        lemma_rskip_spaces(s, j - 1);
    }
}

/// `s` with leading and trailing whitespace removed.
pub open spec fn trim_spec(s: Seq<char>) -> Seq<char> {
    let a = skip_while(s, 0, space_pred());
    let b = rskip_spaces(s, s.len() as int);
    if a <= b {
        s.subrange(a, b)
    } else {
        Seq::empty()
    }
}

/// `s` with leading whitespace removed.
pub open spec fn trim_start_spec(s: Seq<char>) -> Seq<char> {
    s.subrange(skip_while(s, 0, space_pred()), s.len() as int)
}

/// `s` with trailing whitespace removed.
pub open spec fn trim_end_spec(s: Seq<char>) -> Seq<char> {
    s.subrange(0, rskip_spaces(s, s.len() as int))
}

pub fn trim_end_str<'a>(s: &'a str) -> (r: &'a str)
    ensures
        r@ == trim_end_spec(s@),
{
    proof {
        lemma_rskip_spaces(s@, s@.len() as int);
    }
    let len = s.unicode_len();
    let mut b = len;
    while b > 0 && char_is_space(s.get_char(b - 1))
        invariant
            0 <= b <= len,
            len == s@.len(),
            rskip_spaces(s@, len as int) == rskip_spaces(s@, b as int),
        decreases b,
    {
        b = b - 1;
    }
    s.substring_char(0, b)
}

pub proof fn lemma_trim_lengths(s: Seq<char>)
    ensures
        trim_spec(s).len() <= s.len(),
        trim_start_spec(s).len() <= s.len(),
{
    lemma_skip_while(s, 0, space_pred());
    lemma_rskip_spaces(s, s.len() as int);
}

pub fn trim_str<'a>(s: &'a str) -> (r: &'a str)
    ensures
        r@ == trim_spec(s@),
{
    proof {
        lemma_skip_while(s@, 0, space_pred());
    }
    let len = s.unicode_len();
    let a = skip_spaces(s, 0);
    let mut b = len;
    while b > 0 && char_is_space(s.get_char(b - 1))
        invariant
            0 <= b <= len,
            len == s@.len(),
            rskip_spaces(s@, len as int) == rskip_spaces(s@, b as int),
        decreases b,
    {
        b = b - 1;
    }
    if a <= b {
        s.substring_char(a, b)
    } else {
        let r = s.substring_char(0, 0);
        proof {
            assert(r@ =~= Seq::<char>::empty());
        }
        r
    }
}

pub fn trim_start_str<'a>(s: &'a str) -> (r: &'a str)
    ensures
        r@ == trim_start_spec(s@),
{
    let a = skip_spaces(s, 0);
    s.substring_char(a, s.unicode_len())
}

/// The pattern `p` occurs in `s` starting exactly at index `i`.
pub open spec fn has_at(s: Seq<char>, i: int, p: Seq<char>) -> bool {
    0 <= i && i + p.len() <= s.len() && s.subrange(i, i + p.len()) == p
}

pub fn match_at(s: &str, i: usize, pat: &str) -> (r: bool)
    requires
        i <= s@.len(),
    ensures
        r == has_at(s@, i as int, pat@),
{
    let n = pat.unicode_len();
    let len = s.unicode_len();
    if n > len - i {
        return false;
    }
    let mut k: usize = 0;
    while k < n
        invariant
            0 <= k <= n,
            n == pat@.len(),
            len == s@.len(),
            i + n <= len,
            forall|j: int| 0 <= j < k ==> s@[i + j] == pat@[j],
        decreases n - k,
    {
        if s.get_char(i + k) != pat.get_char(k) {
            proof {
                assert(s@.subrange(i as int, i + n) != pat@) by {
                    assert(s@.subrange(i as int, i + n)[k as int] == s@[i + k]);
                }
            }
            return false;
        }
        k = k + 1;
    }
    proof {
        assert(s@.subrange(i as int, i + n) =~= pat@);
    }
    true
}

} // verus!

