//! CMake tokens and the lexer that produces them from source bytes.
use vstd::prelude::*;
use vstd::string::StringSliceAdditionalSpecFns;

verus! {

/// The lexical classes of CMake source text.
#[derive(Debug, Clone, Copy, PartialEq, Eq, Structural)]
pub enum Token {
    Space,
    Newline,
    LParen,
    RParen,
    BracketArgument,
    BracketComment,
    LineComment,
    QuotedArgument,
    UnquotedText,
}

/// A space or a tab.
pub open spec fn is_blank_byte(b: u8) -> bool {
    b == 32u8 || b == 9u8
}

/// Bytes that end a run of unquoted text: ` \t\r\n()#"\`.
pub open spec fn is_stop_byte(b: u8) -> bool {
    b == 32u8 || b == 9u8 || b == 13u8 || b == 10u8 || b == 40u8 || b == 41u8 || b == 35u8
        || b == 34u8 || b == 92u8
}

/// End of the run of spaces and tabs that starts at `i`.
pub open spec fn blank_run_end(s: Seq<u8>, i: int) -> int
    decreases s.len() - i,
{
    if 0 <= i < s.len() && is_blank_byte(s[i]) {
        blank_run_end(s, i + 1)
    } else {
        i
    }
}

/// End of the run of `=` that starts at `i`.
pub open spec fn eq_run_end(s: Seq<u8>, i: int) -> int
    decreases s.len() - i,
{
    if 0 <= i < s.len() && s[i] == 61u8 {
        eq_run_end(s, i + 1)
    } else {
        i
    }
}

/// Position just after the closing `"` of a quoted argument whose body starts at `i`,
/// honouring backslash escapes; `None` when the quote is never closed.
pub open spec fn quoted_close(s: Seq<u8>, i: int) -> Option<int>
    decreases s.len() - i,
{
    if i < 0 || i >= s.len() {
        None
    } else if s[i] == 34u8 {
        Some(i + 1)
    } else if s[i] == 92u8 {
        if i + 1 < s.len() {
            quoted_close(s, i + 2)
        } else {
            None
        }
    } else {
        quoted_close(s, i + 1)
    }
}

/// Length of a `[=*[` opener at `p`, if there is one.
pub open spec fn opener_len(s: Seq<u8>, p: int) -> Option<int> {
    if p < 0 || p >= s.len() || s[p] != 91u8 {
        None
    } else {
        let j = eq_run_end(s, p + 1);
        if j < s.len() && s[j] == 91u8 {
            Some(j + 1 - p)
        } else {
            None
        }
    }
}

/// A closer `]` followed by `eq` signs and `]` starts at `at`.
pub open spec fn closer_at(s: Seq<u8>, at: int, eq: int) -> bool {
    &&& 0 <= at
    &&& at + eq + 2 <= s.len()
    &&& s[at] == 93u8
    &&& forall|k: int| at + 1 <= k < at + 1 + eq ==> s[k] == 61u8
    &&& s[at + 1 + eq] == 93u8
}

/// End (exclusive) of the first closer with `eq` equal signs at or after `i`.
pub open spec fn bracket_close_from(s: Seq<u8>, i: int, eq: int) -> Option<int>
    decreases s.len() - i,
{
    if i < 0 || i >= s.len() {
        None
    } else if closer_at(s, i, eq) {
        Some(i + eq + 2)
    } else {
        bracket_close_from(s, i + 1, eq)
    }
}

/// Index of the first newline at or after `i`, or the length of `s`.
pub open spec fn line_end_from(s: Seq<u8>, i: int) -> int
    decreases s.len() - i,
{
    if i < 0 || i >= s.len() {
        s.len() as int
    } else if s[i] == 10u8 {
        i
    } else {
        line_end_from(s, i + 1)
    }
}

/// End of an unquoted run continuing at `i`: stops at a stop byte, except that a
/// backslash followed by anything but a newline escapes that byte.
pub open spec fn unquoted_run_end(s: Seq<u8>, i: int) -> int
    decreases s.len() - i,
{
    if i < 0 || i >= s.len() {
        i
    } else if s[i] == 92u8 {
        if i + 1 < s.len() && s[i + 1] != 10u8 {
            unquoted_run_end(s, i + 2)
        } else {
            i
        }
    } else if is_stop_byte(s[i]) {
        i
    } else {
        unquoted_run_end(s, i + 1)
    }
}

/// The token that starts at `pos` and where it ends; `Err(())` marks bytes that
/// match no token (bare carriage returns, unclosed quotes or brackets).
pub open spec fn scan(s: Seq<u8>, pos: int) -> (Result<Token, ()>, int) {
    let len = s.len() as int;
    let b = s[pos];
    if is_blank_byte(b) {
        (Ok(Token::Space), blank_run_end(s, pos))
    } else if b == 10u8 {
        (Ok(Token::Newline), pos + 1)
    } else if b == 13u8 {
        if pos + 1 < len && s[pos + 1] == 10u8 {
            (Ok(Token::Newline), pos + 2)
        } else {
            (Err(()), pos + 1)
        }
    } else if b == 40u8 {
        (Ok(Token::LParen), pos + 1)
    } else if b == 41u8 {
        (Ok(Token::RParen), pos + 1)
    } else if b == 34u8 {
        match quoted_close(s, pos + 1) {
            Some(e) => (Ok(Token::QuotedArgument), e),
            None => (Err(()), pos + 1),
        }
    } else if b == 35u8 {
        match opener_len(s, pos + 1) {
            Some(ol) => match bracket_close_from(s, pos + 1 + ol, ol - 2) {
                Some(e) => (Ok(Token::BracketComment), e),
                None => (Err(()), pos + 1 + ol),
            },
            None => (Ok(Token::LineComment), line_end_from(s, pos + 1)),
        }
    } else if b == 91u8 {
        match opener_len(s, pos) {
            Some(ol) => match bracket_close_from(s, pos + ol, ol - 2) {
                Some(e) => (Ok(Token::BracketArgument), e),
                None => (Err(()), pos + ol),
            },
            None => (Err(()), eq_run_end(s, pos + 1)),
        }
    } else if b == 92u8 {
        if pos + 1 < len && s[pos + 1] != 10u8 {
            (Ok(Token::UnquotedText), unquoted_run_end(s, pos + 2))
        } else {
            (Err(()), pos + 1)
        }
    } else {
        (Ok(Token::UnquotedText), unquoted_run_end(s, pos + 1))
    }
}

/// The whole token stream from `pos` on: kind, start and end of each token.
pub open spec fn tokens_from(s: Seq<u8>, pos: int) -> Seq<(Result<Token, ()>, int, int)>
    decreases s.len() - pos,
{
    if pos < 0 || pos >= s.len() {
        Seq::empty()
    } else {
        let r = scan(s, pos);
        if r.1 <= pos || r.1 > s.len() {
            Seq::empty()
        } else {
            seq![(r.0, pos, r.1)] + tokens_from(s, r.1)
        }
    }
}

pub proof fn lemma_blank_run_end(s: Seq<u8>, i: int)
    requires
        0 <= i <= s.len(),
    ensures
        i <= blank_run_end(s, i) <= s.len(),
    decreases s.len() - i,
{
    if i < s.len() && is_blank_byte(s[i]) {
        lemma_blank_run_end(s, i + 1);
    }
}

pub proof fn lemma_eq_run_end(s: Seq<u8>, i: int)
    requires
        0 <= i <= s.len(),
    ensures
        i <= eq_run_end(s, i) <= s.len(),
        forall|k: int| i <= k < eq_run_end(s, i) ==> s[k] == 61u8,
    decreases s.len() - i,
{
    if i < s.len() && s[i] == 61u8 {
        lemma_eq_run_end(s, i + 1);
    }
}

pub proof fn lemma_quoted_close(s: Seq<u8>, i: int)
    requires
        0 <= i,
    ensures
        quoted_close(s, i) matches Some(e) ==> i < e <= s.len(),
    decreases s.len() - i,
{
    if 0 <= i < s.len() && s[i] != 34u8 {
        if s[i] == 92u8 {
            if i + 1 < s.len() {
                lemma_quoted_close(s, i + 2);
            }
        } else {
            lemma_quoted_close(s, i + 1);
        }
    }
}

pub proof fn lemma_bracket_close_from(s: Seq<u8>, i: int, eq: int)
    requires
        0 <= i,
        0 <= eq,
    ensures
        bracket_close_from(s, i, eq) matches Some(e) ==> i < e <= s.len(),
    decreases s.len() - i,
{
    if 0 <= i < s.len() && !closer_at(s, i, eq) {
        lemma_bracket_close_from(s, i + 1, eq);
    }
}

pub proof fn lemma_line_end_from(s: Seq<u8>, i: int)
    requires
        0 <= i <= s.len(),
    ensures
        i <= line_end_from(s, i) <= s.len(),
    decreases s.len() - i,
{
    if i < s.len() && s[i] != 10u8 {
        lemma_line_end_from(s, i + 1);
    }
}

pub proof fn lemma_unquoted_run_end(s: Seq<u8>, i: int)
    requires
        0 <= i <= s.len(),
    ensures
        i <= unquoted_run_end(s, i) <= s.len(),
    decreases s.len() - i,
{
    if i < s.len() {
        if s[i] == 92u8 {
            if i + 1 < s.len() && s[i + 1] != 10u8 {
                lemma_unquoted_run_end(s, i + 2);
            }
        } else if !is_stop_byte(s[i]) {
            lemma_unquoted_run_end(s, i + 1);
        }
    }
}

/// Every token is non-empty and stays within the source.
pub proof fn lemma_scan_progress(s: Seq<u8>, pos: int)
    requires
        0 <= pos < s.len(),
    ensures
        pos < scan(s, pos).1 <= s.len(),
{
    let b = s[pos];
    if is_blank_byte(b) {
        lemma_blank_run_end(s, pos + 1);
    } else if b == 34u8 {
        lemma_quoted_close(s, pos + 1);
    } else if b == 35u8 {
        match opener_len(s, pos + 1) {
            Some(ol) => {
                lemma_eq_run_end(s, pos + 2);
                lemma_bracket_close_from(s, pos + 1 + ol, ol - 2);
            },
            None => {
                lemma_line_end_from(s, pos + 1);
            },
        }
    } else if b == 91u8 {
        lemma_eq_run_end(s, pos + 1);
        match opener_len(s, pos) {
            Some(ol) => {
                lemma_bracket_close_from(s, pos + ol, ol - 2);
            },
            None => {},
        }
    } else if b == 92u8 {
        if pos + 1 < s.len() && s[pos + 1] != 10u8 {
            lemma_unquoted_run_end(s, pos + 2);
        }
    } else if b != 10u8 && b != 13u8 && b != 40u8 && b != 41u8 {
        lemma_unquoted_run_end(s, pos + 1);
    }
}


proof fn lemma_quoted_skip(s: Seq<u8>, i: int, at: int)
    requires
        0 <= i <= at <= s.len(),
        forall|k: int| i <= k < at ==> s[k] != 34u8 && s[k] != 92u8,
    ensures
        quoted_close(s, i) == quoted_close(s, at),
    decreases at - i,
{
    if i < at {
        lemma_quoted_skip(s, i + 1, at);
    }
}

proof fn lemma_line_end_skip(s: Seq<u8>, i: int, at: int)
    requires
        0 <= i <= at <= s.len(),
        forall|k: int| i <= k < at ==> s[k] != 10u8,
    ensures
        line_end_from(s, i) == line_end_from(s, at),
    decreases at - i,
{
    if i < at {
        lemma_line_end_skip(s, i + 1, at);
    }
}

proof fn lemma_close_skip(s: Seq<u8>, i: int, at: int, eq: int)
    requires
        0 <= i <= at <= s.len(),
        forall|k: int| i <= k < at ==> s[k] != 93u8,
    ensures
        bracket_close_from(s, i, eq) == bracket_close_from(s, at, eq),
    decreases at - i,
{
    if i < at {
        lemma_close_skip(s, i + 1, at, eq);
    }
}

fn blank_end(src: &[u8], pos: usize) -> (e: usize)
    requires
        pos <= src@.len(),
    ensures
        e as int == blank_run_end(src@, pos as int),
{
    let mut i = pos;
    while i < src.len() && (src[i] == 32u8 || src[i] == 9u8)
        invariant
            pos <= i <= src@.len(),
            blank_run_end(src@, i as int) == blank_run_end(src@, pos as int),
        decreases src@.len() - i,
    {
        i = i + 1;
    }
    i
}

fn eq_end(src: &[u8], pos: usize) -> (e: usize)
    requires
        pos <= src@.len(),
    ensures
        e as int == eq_run_end(src@, pos as int),
{
    let mut i = pos;
    while i < src.len() && src[i] == 61u8
        invariant
            pos <= i <= src@.len(),
            eq_run_end(src@, i as int) == eq_run_end(src@, pos as int),
        decreases src@.len() - i,
    {
        i = i + 1;
    }
    i
}

fn quoted_end(src: &[u8], start: usize) -> (r: Option<usize>)
    requires
        start <= src@.len(),
    ensures
        r matches Some(e) ==> quoted_close(src@, start as int) == Some(e as int),
        r is None ==> quoted_close(src@, start as int) is None,
{
    let mut i = start;
    loop
        invariant
            start <= i <= src@.len(),
            quoted_close(src@, i as int) == quoted_close(src@, start as int),
        decreases src@.len() - i,
    {
        let rest = &src[i..src.len()];
        match crate::bytes::find_either(34u8, 92u8, rest) {
            None => {
                proof {
                    assert forall|k: int| i <= k < src@.len() implies src@[k] != 34u8 && src@[k]
                        != 92u8 by {
                        assert(rest@[k - i] == src@[k]);
                    }
                    lemma_quoted_skip(src@, i as int, src@.len() as int);
                }
                return None;
            },
            Some(off) => {
                let at = i + off;
                proof {
                    assert forall|k: int| i <= k < at implies src@[k] != 34u8 && src@[k]
                        != 92u8 by {
                        assert(rest@[k - i] == src@[k]);
                    }
                    lemma_quoted_skip(src@, i as int, at as int);
                    assert(rest@[off as int] == src@[at as int]);
                }
                if src[at] == 34u8 {
                    return Some(at + 1);
                } else if at + 1 < src.len() {
                    i = at + 2;
                } else {
                    return None;
                }
            },
        }
    }
}

fn line_end(src: &[u8], start: usize) -> (e: usize)
    requires
        start <= src@.len(),
    ensures
        e as int == line_end_from(src@, start as int),
{
    let rest = &src[start..src.len()];
    match crate::bytes::find_byte(10u8, rest) {
        None => {
            proof {
                assert forall|k: int| start <= k < src@.len() implies src@[k] != 10u8 by {
                    assert(rest@[k - start] == src@[k]);
                }
                lemma_line_end_skip(src@, start as int, src@.len() as int);
            }
            src.len()
        },
        Some(off) => {
            let at = start + off;
            proof {
                assert forall|k: int| start <= k < at implies src@[k] != 10u8 by {
                    assert(rest@[k - start] == src@[k]);
                }
                lemma_line_end_skip(src@, start as int, at as int);
                assert(rest@[off as int] == src@[at as int]);
            }
            at
        },
    }
}

fn opener(src: &[u8], p: usize) -> (r: Option<usize>)
    requires
        p <= src@.len(),
    ensures
        r matches Some(n) ==> opener_len(src@, p as int) == Some(n as int),
        r is None ==> opener_len(src@, p as int) is None,
{
    if p >= src.len() || src[p] != 91u8 {
        return None;
    }
    let j = eq_end(src, p + 1);
    proof {
        lemma_eq_run_end(src@, p + 1);
    }
    if j < src.len() && src[j] == 91u8 {
        Some(j + 1 - p)
    } else {
        None
    }
}

fn closer_matches(src: &[u8], at: usize, eq: usize) -> (b: bool)
    requires
        at < src@.len(),
    ensures
        b == closer_at(src@, at as int, eq as int),
{
    if eq > src.len() - at || src.len() - at - eq < 2 {
        return false;
    }
    if src[at] != 93u8 {
        return false;
    }
    let mut k: usize = 0;
    while k < eq
        invariant
            at + eq + 2 <= src@.len(),
            src@.len() == src.len(),
            k <= eq,
            forall|m: int| at + 1 <= m < at + 1 + k ==> src@[m] == 61u8,
        decreases eq - k,
    {
        if src[at + 1 + k] != 61u8 {
            return false;
        }
        k = k + 1;
    }
    src[at + 1 + eq] == 93u8
}

fn bracket_close(src: &[u8], start: usize, eq: usize) -> (r: Option<usize>)
    requires
        start <= src@.len(),
    ensures
        r matches Some(e) ==> bracket_close_from(src@, start as int, eq as int) == Some(e as int),
        r is None ==> bracket_close_from(src@, start as int, eq as int) is None,
{
    let mut i = start;
    loop
        invariant
            start <= i <= src@.len(),
            bracket_close_from(src@, i as int, eq as int) == bracket_close_from(
                src@,
                start as int,
                eq as int,
            ),
        decreases src@.len() - i,
    {
        let rest = &src[i..src.len()];
        match crate::bytes::find_byte(93u8, rest) {
            None => {
                proof {
                    assert forall|k: int| i <= k < src@.len() implies src@[k] != 93u8 by {
                        assert(rest@[k - i] == src@[k]);
                    }
                    lemma_close_skip(src@, i as int, src@.len() as int, eq as int);
                }
                return None;
            },
            Some(off) => {
                let at = i + off;
                proof {
                    assert forall|k: int| i <= k < at implies src@[k] != 93u8 by {
                        assert(rest@[k - i] == src@[k]);
                    }
                    lemma_close_skip(src@, i as int, at as int, eq as int);
                }
                if closer_matches(src, at, eq) {
                    return Some(at + eq + 2);
                }
                i = at + 1;
            },
        }
    }
}

fn unquoted_end(src: &[u8], start: usize) -> (e: usize)
    requires
        start <= src@.len(),
    ensures
        e as int == unquoted_run_end(src@, start as int),
{
    let mut i = start;
    loop
        invariant
            start <= i <= src@.len(),
            unquoted_run_end(src@, i as int) == unquoted_run_end(src@, start as int),
        decreases src@.len() - i,
    {
        if i >= src.len() {
            return i;
        }
        let b = src[i];
        if b == 92u8 {
            if i + 1 < src.len() && src[i + 1] != 10u8 {
                i = i + 2;
            } else {
                return i;
            }
        } else if b == 32u8 || b == 9u8 || b == 13u8 || b == 10u8 || b == 40u8 || b == 41u8
            || b == 35u8 || b == 34u8 {
            return i;
        } else {
            i = i + 1;
        }
    }
}

/// Scans the token that starts at `pos` and returns its class and end.
pub fn scan_token(src: &[u8], pos: usize) -> (r: (Result<Token, ()>, usize))
    requires
        pos < src@.len(),
    ensures
        r.0 == scan(src@, pos as int).0,
        r.1 as int == scan(src@, pos as int).1,
        pos < r.1 <= src@.len(),
{
    proof {
        lemma_scan_progress(src@, pos as int);
    }
    let len = src.len();
    let b = src[pos];
    if b == 32u8 || b == 9u8 {
        (Ok(Token::Space), blank_end(src, pos))
    } else if b == 10u8 {
        (Ok(Token::Newline), pos + 1)
    } else if b == 13u8 {
        if pos + 1 < len && src[pos + 1] == 10u8 {
            (Ok(Token::Newline), pos + 2)
        } else {
            (Err(()), pos + 1)
        }
    } else if b == 40u8 {
        (Ok(Token::LParen), pos + 1)
    } else if b == 41u8 {
        (Ok(Token::RParen), pos + 1)
    } else if b == 34u8 {
        match quoted_end(src, pos + 1) {
            Some(e) => (Ok(Token::QuotedArgument), e),
            None => (Err(()), pos + 1),
        }
    } else if b == 35u8 {
        match opener(src, pos + 1) {
            Some(ol) => {
                proof {
                    lemma_eq_run_end(src@, pos + 2);
                }
                match bracket_close(src, pos + 1 + ol, ol - 2) {
                    Some(e) => (Ok(Token::BracketComment), e),
                    None => (Err(()), pos + 1 + ol),
                }
            },
            None => (Ok(Token::LineComment), line_end(src, pos + 1)),
        }
    } else if b == 91u8 {
        proof {
            lemma_eq_run_end(src@, pos + 1);
        }
        match opener(src, pos) {
            Some(ol) => match bracket_close(src, pos + ol, ol - 2) {
                Some(e) => (Ok(Token::BracketArgument), e),
                None => (Err(()), pos + ol),
            },
            None => (Err(()), eq_end(src, pos + 1)),
        }
    } else if b == 92u8 {
        if pos + 1 < len && src[pos + 1] != 10u8 {
            (Ok(Token::UnquotedText), unquoted_end(src, pos + 2))
        } else {
            (Err(()), pos + 1)
        }
    } else {
        (Ok(Token::UnquotedText), unquoted_end(src, pos + 1))
    }
}


/// The source bytes covered by a sequence of token spans, in order.
pub open spec fn join_spans(s: Seq<u8>, toks: Seq<(Result<Token, ()>, int, int)>) -> Seq<u8>
    decreases toks.len(),
{
    if toks.len() == 0 {
        Seq::empty()
    } else {
        s.subrange(toks[0].1, toks[0].2) + join_spans(s, toks.drop_first())
    }
}

/// Tokens are non-empty, contiguous and cover the text from `pos` to the end:
/// the first starts at `pos`, each ends where the next starts, the last ends
/// at the end of the source.
pub proof fn lemma_tokens_tile(s: Seq<u8>, pos: int)
    requires
        0 <= pos <= s.len(),
    ensures
        ({
            let t = tokens_from(s, pos);
            &&& (t.len() == 0 <==> pos == s.len())
            &&& t.len() > 0 ==> t[0].1 == pos && t[t.len() - 1].2 == s.len()
            &&& forall|i: int| 0 <= i < t.len() ==> pos <= #[trigger] t[i].1 < t[i].2 <= s.len()
            &&& forall|i: int| 0 <= i < t.len() - 1 ==> #[trigger] t[i].2 == t[i + 1].1
        }),
    decreases s.len() - pos,
{
    if pos < s.len() {
        lemma_scan_progress(s, pos);
        let r = scan(s, pos);
        lemma_tokens_tile(s, r.1);
        let rest = tokens_from(s, r.1);
        let t = tokens_from(s, pos);
        assert(t == seq![(r.0, pos, r.1)] + rest);
        assert forall|i: int| 0 <= i < t.len() implies pos <= #[trigger] t[i].1 < t[i].2
            <= s.len() by {
            if i > 0 {
                assert(t[i] == rest[i - 1]);
            }
        }
        assert forall|i: int| 0 <= i < t.len() - 1 implies #[trigger] t[i].2 == t[i + 1].1 by {
            if i > 0 {
                assert(t[i] == rest[i - 1]);
                assert(t[i + 1] == rest[i]);
            }
        }
        if rest.len() > 0 {
            assert(t[t.len() - 1] == rest[rest.len() - 1]);
        }
    }
}

/// Lexing loses nothing: the texts of the tokens from `pos`, joined in order,
/// are exactly the source from `pos` to the end.
pub proof fn lemma_lexing_is_lossless(s: Seq<u8>, pos: int)
    requires
        0 <= pos <= s.len(),
    ensures
        join_spans(s, tokens_from(s, pos)) == s.subrange(pos, s.len() as int),
    decreases s.len() - pos,
{
    if pos == s.len() {
        assert(s.subrange(pos, s.len() as int) =~= Seq::<u8>::empty());
    } else {
        lemma_scan_progress(s, pos);
        let r = scan(s, pos);
        lemma_lexing_is_lossless(s, r.1);
        let t = tokens_from(s, pos);
        assert(t.drop_first() == tokens_from(s, r.1));
        assert(s.subrange(pos, s.len() as int) =~= s.subrange(pos, r.1) + s.subrange(
            r.1,
            s.len() as int,
        ));
    }
}

/// Streaming lexer over a source text: each call of `next` yields the next
/// token, and `span` gives the byte range of the token last yielded.
pub struct Lexer<'a> {
    src: &'a [u8],
    pos: usize,
    last: (usize, usize),
}

impl<'a> Lexer<'a> {
    #[verifier::type_invariant]
    closed spec fn inv(&self) -> bool {
        &&& self.pos <= self.src@.len()
        &&& self.last.0 <= self.last.1 <= self.pos
    }

    /// The bytes being lexed.
    pub closed spec fn source(&self) -> Seq<u8> {
        self.src@
    }

    /// Where the next token starts.
    pub closed spec fn position(&self) -> int {
        self.pos as int
    }

    /// The span of the token last yielded; `(0, 0)` before the first.
    pub closed spec fn last_span(&self) -> (int, int) {
        (self.last.0 as int, self.last.1 as int)
    }

    pub fn new(source: &'a str) -> (l: Self)
        ensures
            l.source() == source.spec_bytes(),
            l.position() == 0,
            l.last_span() == (0int, 0int),
    {
        Lexer { src: source.as_bytes(), pos: 0, last: (0, 0) }
    }

    /// The next token, or `None` at the end of the input. `Err(())` stands for
    /// bytes that match no token.
    pub fn next(&mut self) -> (r: Option<Result<Token, ()>>)
        ensures
            final(self).source() == old(self).source(),
            old(self).position() >= old(self).source().len() ==> {
                &&& r is None
                &&& final(self).position() == old(self).position()
                &&& final(self).last_span() == old(self).last_span()
            },
            old(self).position() < old(self).source().len() ==> {
                let sc = scan(old(self).source(), old(self).position());
                &&& r == Some(sc.0)
                &&& final(self).position() == sc.1
                &&& final(self).last_span() == (old(self).position(), sc.1)
            },
    {
        proof {
            use_type_invariant(&*self);
        }
        if self.pos >= self.src.len() {
            return None;
        }
        let start = self.pos;
        let (tok, end) = scan_token(self.src, start);
        self.last = (start, start);
        self.pos = end;
        self.last = (start, end);
        Some(tok)
    }

    /// Byte range of the token last yielded by `next`.
    pub fn span(&self) -> (r: (usize, usize))
        ensures
            r.0 as int == self.last_span().0,
            r.1 as int == self.last_span().1,
    {
        self.last
    }
}

/// The token stream of `s` with machine-sized offsets.
pub open spec fn token_seq(s: Seq<u8>) -> Seq<(Result<Token, ()>, usize, usize)> {
    tokens_from(s, 0).map_values(|t: (Result<Token, ()>, int, int)| (t.0, t.1 as usize, t.2 as usize))
}

/// The full token stream of `source`: class, start and end of every token.
pub fn tokenize(source: &str) -> (r: Vec<(Result<Token, ()>, usize, usize)>)
    ensures
        r@ == token_seq(source.spec_bytes()),
        ({
            let t = tokens_from(source.spec_bytes(), 0);
            &&& r@.len() == t.len()
            &&& forall|i: int|
                0 <= i < t.len() ==> r@[i].0 == t[i].0 && r@[i].1 as int == t[i].1 && r@[i].2
                    as int == t[i].2
        }),
{
    let src = source.as_bytes();
    let mut out: Vec<(Result<Token, ()>, usize, usize)> = Vec::new();
    let mut pos: usize = 0;
    proof {
        lemma_tokens_tile(src@, 0);
    }
    while pos < src.len()
        invariant
            pos <= src@.len(),
            src@ == source.spec_bytes(),
            tokens_from(src@, 0) == out@.map_values(
                |x: (Result<Token, ()>, usize, usize)| (x.0, x.1 as int, x.2 as int),
            ) + tokens_from(src@, pos as int),
        decreases src@.len() - pos,
    {
        let (tok, end) = scan_token(src, pos);
        let ghost old_out = out@;
        out.push((tok, pos, end));
        proof {
            let f = |x: (Result<Token, ()>, usize, usize)| (x.0, x.1 as int, x.2 as int);
            assert(tokens_from(src@, pos as int) == seq![(tok, pos as int, end as int)]
                + tokens_from(src@, end as int));
            assert(out@.map_values(f) =~= old_out.map_values(f) + seq![
                (tok, pos as int, end as int),
            ]);
        }
        pos = end;
    }
    proof {
        let f = |x: (Result<Token, ()>, usize, usize)| (x.0, x.1 as int, x.2 as int);
        assert(tokens_from(src@, pos as int) =~= Seq::empty());
        assert(tokens_from(src@, 0) =~= out@.map_values(f));
        assert forall|i: int| 0 <= i < out@.len() implies out@[i].0 == tokens_from(
            src@,
            0,
        )[i].0 && out@[i].1 as int == tokens_from(src@, 0)[i].1 && out@[i].2 as int
            == tokens_from(src@, 0)[i].2 by {
            assert(out@.map_values(f)[i] == f(out@[i]));
        }
        assert(out@ =~= token_seq(src@));
    }
    out
}

} // verus!
