//! Passes over the formatted text that need more than one command at a time:
//! reflowing standalone comment blocks, aligning the values of consecutive
//! `set()` calls and aligning trailing comments.
use vstd::prelude::*;
use vstd::string::StringSliceAdditionalSpecFns;

use crate::config::{CommentPreservation, Configuration};
use crate::gen_file::{pragma_of, pragma_of_bytes, sbytes, PragmaModel, PragmaModelTag};
use crate::text::{
    bnd, find_ws, find_ws_exec, has_at, has_at_exec, lead_width, lemma_back_ws_bnd,
    lemma_back_ws_bounds, lemma_bnd_step, lemma_find_ws_bnd, lemma_skip_ws_bnd,
    lemma_skip_ws_bounds, lemma_str_valid, lemma_valid_between, skip_ws, skip_ws_exec,
    string_of, trim, trim_end_seq, trim_seq, trim_start, trim_start_seq,
};

verus! {

/// The marker that starts every formatter directive inside a comment.
pub open spec fn pragma_marker() -> Seq<u8> {
    "cmakefmt:".spec_bytes()
}

/// The options that the passes read, as they hold at one line.
#[derive(Debug, Clone, Copy, PartialEq, Eq, Structural)]
pub struct LineConfig {
    pub align_consecutive_set: bool,
    pub align_trailing_comments: bool,
    pub comment_gap: u8,
    pub comment_preservation: CommentPreservation,
    pub comment_width: u32,
}

pub open spec fn line_config_of(c: Configuration) -> LineConfig {
    LineConfig {
        align_consecutive_set: c.align_consecutive_set,
        align_trailing_comments: c.align_trailing_comments,
        comment_gap: c.comment_gap,
        comment_preservation: c.comment_preservation,
        comment_width: c.spec_effective_comment_width(),
    }
}

impl LineConfig {
    pub fn from_config(config: &Configuration) -> (r: LineConfig)
        ensures
            r == line_config_of(*config),
    {
        LineConfig {
            align_consecutive_set: config.align_consecutive_set,
            align_trailing_comments: config.align_trailing_comments,
            comment_gap: config.comment_gap,
            comment_preservation: config.comment_preservation,
            comment_width: config.effective_comment_width(),
        }
    }
}

/// The line, with leading whitespace removed, starts with `#`.
pub open spec fn standalone_comment(s: Seq<u8>) -> bool {
    let t = trim_start_seq(s);
    t.len() > 0 && t[0] == 35u8
}

pub fn is_standalone_comment_bytes(line: &[u8]) -> (r: bool)
    ensures
        r == standalone_comment(line@),
{
    let t = trim_start(line);
    t.len() > 0 && t[0] == 35u8
}

/// Whether a line is a comment of its own, not code with a trailing comment.
pub fn is_standalone_comment_line(line: &str) -> (r: bool)
    ensures
        r == standalone_comment(line.spec_bytes()),
{
    is_standalone_comment_bytes(line.as_bytes())
}

/// The text after `#` and `cmakefmt:` (whitespace before each skipped) when
/// the line, from its first non-whitespace character, is such a comment.
pub open spec fn after_marker(s: Seq<u8>) -> Option<Seq<u8>> {
    let t = trim_start_seq(s);
    if t.len() == 0 || t[0] != 35u8 {
        None
    } else {
        let a = trim_start_seq(t.subrange(1, t.len() as int));
        if has_at(a, 0, pragma_marker()) {
            Some(a.subrange(pragma_marker().len() as int, a.len() as int))
        } else {
            None
        }
    }
}

/// The first whitespace-separated word of `d` (empty when there is none).
pub open spec fn first_word(d: Seq<u8>) -> Seq<u8> {
    let st = skip_ws(d, 0);
    d.subrange(st, find_ws(d, st))
}

/// The line is a formatter directive: its first word after the marker is
/// `push`, `pop`, `off`, `on` or `skip`.
pub open spec fn pragma_line(s: Seq<u8>) -> bool {
    match after_marker(s) {
        None => false,
        Some(d) => {
            let w = first_word(d);
            w == "push".spec_bytes() || w == "pop".spec_bytes() || w == "off".spec_bytes() || w
                == "on".spec_bytes() || w == "skip".spec_bytes()
        },
    }
}

fn after_marker_bytes(s: &[u8]) -> (r: Option<&[u8]>)
    ensures
        match (r, after_marker(s@)) {
            (Some(x), Some(y)) => x@ == y,
            (None, None) => true,
            _ => false,
        },
{
    let t = trim_start(s);
    if t.len() == 0 || t[0] != 35u8 {
        return None;
    }
    let a = trim_start(&t[1..t.len()]);
    let p = "cmakefmt:".as_bytes();
    if has_at_exec(a, 0, p) {
        Some(&a[p.len()..a.len()])
    } else {
        None
    }
}

fn first_word_bytes(d: &[u8]) -> (r: &[u8])
    ensures
        r@ == first_word(d@),
{
    let st = skip_ws_exec(d, 0);
    let e = find_ws_exec(d, st);
    &d[st..e]
}

pub fn is_pragma_comment_bytes(line: &[u8]) -> (r: bool)
    ensures
        r == pragma_line(line@),
{
    match after_marker_bytes(line) {
        None => false,
        Some(d) => {
            let w = first_word_bytes(d);
            crate::text::eq_bytes(w, "push".as_bytes()) || crate::text::eq_bytes(
                w,
                "pop".as_bytes(),
            ) || crate::text::eq_bytes(w, "off".as_bytes()) || crate::text::eq_bytes(
                w,
                "on".as_bytes(),
            ) || crate::text::eq_bytes(w, "skip".as_bytes())
        },
    }
}

/// Whether a comment line is a formatter directive, which reflow leaves alone.
pub fn is_pragma_comment_line(line: &str) -> (r: bool)
    ensures
        r == pragma_line(line.spec_bytes()),
{
    is_pragma_comment_bytes(line.as_bytes())
}

/// The override table of a `# cmakefmt: push { .. }` line.
pub open spec fn push_body(s: Seq<u8>) -> Option<Seq<u8>> {
    match pragma_of(s) {
        Some(PragmaModel::Push(b)) => Some(b),
        _ => None,
    }
}

/// The trimmed line is `# cmakefmt: pop`, up to whitespace.
pub open spec fn pop_line(s: Seq<u8>) -> bool {
    let t = trim_seq(s);
    t.len() > 0 && t[0] == 35u8 && {
        let a = trim_start_seq(t.subrange(1, t.len() as int));
        has_at(a, 0, pragma_marker()) && trim_seq(
            a.subrange(pragma_marker().len() as int, a.len() as int),
        ) == "pop".spec_bytes()
    }
}

pub fn push_body_bytes(line: &[u8]) -> (r: Option<&[u8]>)
    ensures
        match (r, push_body(line@)) {
            (Some(x), Some(y)) => x@ == y,
            (None, None) => true,
            _ => false,
        },
{
    match pragma_of_bytes(line) {
        Some((PragmaModelTag::Push, b)) => Some(b),
        _ => None,
    }
}

/// Trimming the ends of valid UTF-8 keeps it valid.
pub proof fn lemma_trim_valid(s: Seq<u8>)
    requires
        vstd::utf8::valid_utf8(s),
    ensures
        vstd::utf8::valid_utf8(trim_start_seq(s)),
        vstd::utf8::valid_utf8(trim_end_seq(s)),
        vstd::utf8::valid_utf8(trim_seq(s)),
{
    lemma_skip_ws_bounds(s, 0);
    lemma_skip_ws_bnd(s, 0);
    lemma_valid_between(s, skip_ws(s, 0), s.len() as int);
    lemma_back_ws_bounds(s, 0, s.len() as int);
    lemma_back_ws_bnd(s, 0, s.len() as int);
    lemma_valid_between(s, 0, crate::text::back_ws(s, 0, s.len() as int));
    let t = trim_start_seq(s);
    lemma_back_ws_bounds(t, 0, t.len() as int);
    lemma_back_ws_bnd(t, 0, t.len() as int);
    lemma_valid_between(t, 0, crate::text::back_ws(t, 0, t.len() as int));
}

/// Dropping a leading ASCII byte from valid UTF-8 keeps it valid.
pub proof fn lemma_drop_ascii_valid(s: Seq<u8>, k: int)
    requires
        vstd::utf8::valid_utf8(s),
        0 <= k <= s.len(),
        forall|i: int| 0 <= i < k ==> s[i] < 0x80u8,
    ensures
        vstd::utf8::valid_utf8(s.subrange(k, s.len() as int)),
        bnd(s, k),
    decreases k,
{
    if k == 0 {
        assert(s.subrange(0, s.len() as int) =~= s);
    } else {
        lemma_drop_ascii_valid(s, k - 1);
        lemma_bnd_step(s, k - 1);
        lemma_valid_between(s, k, s.len() as int);
    }
}

/// The directive marker is ASCII.
pub proof fn lemma_marker_ascii()
    ensures
        forall|i: int| 0 <= i < pragma_marker().len() ==> pragma_marker()[i] < 0x80u8,
{
    reveal_strlit("cmakefmt:");
    let c = "cmakefmt:"@;
    assert(vstd::utf8::is_ascii_chars(c));
    vstd::utf8::is_ascii_chars_encode_utf8(c);
    vstd::utf8::is_ascii_chars_nat_bound(c);
    assert forall|i: int| 0 <= i < pragma_marker().len() implies pragma_marker()[i] < 0x80u8 by {
        assert(c[i] as u8 == pragma_marker()[i]);
        assert((c[i] as nat) < 128);
    }
}

/// The body of a push directive in valid UTF-8 is valid UTF-8.
pub proof fn lemma_push_body_valid(s: Seq<u8>)
    requires
        vstd::utf8::valid_utf8(s),
        push_body(s) is Some,
    ensures
        vstd::utf8::valid_utf8(push_body(s).unwrap()),
{
    let t = trim_seq(s);
    lemma_trim_valid(s);
    lemma_drop_ascii_valid(t, 1);
    let a0 = t.subrange(1, t.len() as int);
    lemma_trim_valid(a0);
    lemma_skip_ws_bounds(a0, 0);
    let b = a0.subrange(skip_ws(a0, 0), a0.len() as int);
    let p = "cmakefmt:".spec_bytes();
    lemma_marker_ascii();
    assert(b.subrange(0, p.len() as int) == p);
    assert forall|i: int| 0 <= i < p.len() implies b[i] < 0x80u8 by {
        assert(p[i] == pragma_marker()[i]);
        assert(b[i] == b.subrange(0, p.len() as int)[i]);
    }
    lemma_drop_ascii_valid(b, p.len() as int);
    let d = b.subrange(p.len() as int, b.len() as int);
    lemma_trim_valid(d);
    lemma_skip_ws_bounds(d, 0);
    let d2 = d.subrange(skip_ws(d, 0), d.len() as int);
    lemma_find_ws_bnd(d2, 0);
    let ae = find_ws(d2, 0);
    lemma_valid_between(d2, ae, d2.len() as int);
    let rem = d2.subrange(ae, d2.len() as int);
    lemma_trim_valid(rem);
}

/// The override table of a `# cmakefmt: push { .. }` line, from its `{`.
pub fn parse_push_body(comment_line: &str) -> (r: Option<String>)
    ensures
        match (r, push_body(comment_line.spec_bytes())) {
            (Some(x), Some(y)) => sbytes(x) == y,
            (None, None) => true,
            _ => false,
        },
{
    proof {
        lemma_str_valid(comment_line);
    }
    match push_body_bytes(comment_line.as_bytes()) {
        None => None,
        Some(b) => {
            proof {
                lemma_push_body_valid(comment_line.spec_bytes());
            }
            Some(string_of(b))
        },
    }
}

pub fn is_pop_bytes(line: &[u8]) -> (r: bool)
    ensures
        r == pop_line(line@),
{
    let t = trim(line);
    if t.len() == 0 || t[0] != 35u8 {
        return false;
    }
    let a = trim_start(&t[1..t.len()]);
    let p = "cmakefmt:".as_bytes();
    if !has_at_exec(a, 0, p) {
        return false;
    }
    crate::text::eq_bytes(trim(&a[p.len()..a.len()]), "pop".as_bytes())
}

/// Whether a comment line is `# cmakefmt: pop`.
pub fn is_pop_directive(comment_line: &str) -> (r: bool)
    ensures
        r == pop_line(comment_line.spec_bytes()),
{
    is_pop_bytes(comment_line.as_bytes())
}

/// `u8::is_ascii_digit`.
pub open spec fn is_digit(b: u8) -> bool {
    48u8 <= b <= 57u8
}

/// `u8::is_ascii_whitespace`: space, tab, line feed, form feed, carriage return.
pub open spec fn is_aws(b: u8) -> bool {
    b == 32u8 || b == 9u8 || b == 10u8 || b == 12u8 || b == 13u8
}

/// First index at or after `i` that does not hold an ASCII digit.
pub open spec fn digits_end(s: Seq<u8>, i: int) -> int
    decreases s.len() - i,
{
    if 0 <= i < s.len() && is_digit(s[i]) {
        digits_end(s, i + 1)
    } else {
        i
    }
}

/// First index at or after `i` that does not hold ASCII whitespace.
pub open spec fn aws_end(s: Seq<u8>, i: int) -> int
    decreases s.len() - i,
{
    if 0 <= i < s.len() && is_aws(s[i]) {
        aws_end(s, i + 1)
    } else {
        i
    }
}

/// End of a list bullet at the start of `s`: `-`, `*`, `+`, or digits and
/// then `.` or `)`.
pub open spec fn marker_token_end(s: Seq<u8>) -> Option<int> {
    if s.len() == 0 {
        None
    } else if s[0] == 45u8 || s[0] == 42u8 || s[0] == 43u8 {
        Some(1)
    } else if is_digit(s[0]) {
        let d = digits_end(s, 0);
        if d >= s.len() {
            None
        } else if s[d] == 46u8 || s[d] == 41u8 {
            Some(d + 1)
        } else {
            None
        }
    } else {
        None
    }
}

/// Where the text of a list item starts: after its bullet and the ASCII
/// whitespace that follows. A bullet needs whitespace after it unless it ends
/// the content.
pub open spec fn list_prefix_end(s: Seq<u8>) -> Option<int> {
    match marker_token_end(s) {
        None => None,
        Some(t) => {
            let pe = aws_end(s, t);
            if pe == t && t < s.len() {
                None
            } else {
                Some(pe)
            }
        },
    }
}

proof fn lemma_digits_end(s: Seq<u8>, i: int)
    requires
        0 <= i <= s.len(),
    ensures
        i <= digits_end(s, i) <= s.len(),
        forall|k: int| i <= k < digits_end(s, i) ==> is_digit(#[trigger] s[k]),
    decreases s.len() - i,
{
    if i < s.len() && is_digit(s[i]) {
        lemma_digits_end(s, i + 1);
    }
}

proof fn lemma_aws_end(s: Seq<u8>, i: int)
    requires
        0 <= i <= s.len(),
    ensures
        i <= aws_end(s, i) <= s.len(),
        forall|k: int| i <= k < aws_end(s, i) ==> is_aws(#[trigger] s[k]),
    decreases s.len() - i,
{
    if i < s.len() && is_aws(s[i]) {
        lemma_aws_end(s, i + 1);
    }
}

fn digits_end_exec(s: &[u8], i: usize) -> (r: usize)
    requires
        i <= s@.len(),
    ensures
        r as int == digits_end(s@, i as int),
{
    let mut k = i;
    while k < s.len() && 48u8 <= s[k] && s[k] <= 57u8
        invariant
            i <= k <= s@.len(),
            digits_end(s@, k as int) == digits_end(s@, i as int),
        decreases s@.len() - k,
    {
        k = k + 1;
    }
    k
}

fn aws_end_exec(s: &[u8], i: usize) -> (r: usize)
    requires
        i <= s@.len(),
    ensures
        r as int == aws_end(s@, i as int),
{
    let mut k = i;
    while k < s.len() && (s[k] == 32u8 || s[k] == 9u8 || s[k] == 10u8 || s[k] == 12u8 || s[k]
        == 13u8)
        invariant
            i <= k <= s@.len(),
            aws_end(s@, k as int) == aws_end(s@, i as int),
        decreases s@.len() - k,
    {
        k = k + 1;
    }
    k
}

pub fn list_prefix_end_exec(s: &[u8]) -> (r: Option<usize>)
    ensures
        match (r, list_prefix_end(s@)) {
            (Some(x), Some(y)) => x == y,
            (None, None) => true,
            _ => false,
        },
{
    if s.len() == 0 {
        return None;
    }
    let t: usize;
    if s[0] == 45u8 || s[0] == 42u8 || s[0] == 43u8 {
        t = 1;
    } else if 48u8 <= s[0] && s[0] <= 57u8 {
        let d = digits_end_exec(s, 0);
        if d >= s.len() {
            return None;
        }
        if s[d] == 46u8 || s[d] == 41u8 {
            t = d + 1;
        } else {
            return None;
        }
    } else {
        return None;
    }
    proof {
        lemma_digits_end(s@, 0);
    }
    let pe = aws_end_exec(s, t);
    if pe == t && t < s.len() {
        None
    } else {
        Some(pe)
    }
}

/// A list item's bullet with the whitespace after it, and its text.
#[derive(Debug)]
pub struct ListMarker {
    pub prefix: String,
    pub text: String,
}

/// The bytes of a valid list content split at the end of its bullet are valid.
proof fn lemma_list_split_valid(s: Seq<u8>)
    requires
        vstd::utf8::valid_utf8(s),
        list_prefix_end(s) is Some,
    ensures
        0 < list_prefix_end(s).unwrap() <= s.len(),
        bnd(s, list_prefix_end(s).unwrap()),
        vstd::utf8::valid_utf8(s.subrange(0, list_prefix_end(s).unwrap())),
        vstd::utf8::valid_utf8(s.subrange(list_prefix_end(s).unwrap(), s.len() as int)),
{
    lemma_digits_end(s, 0);
    let t = marker_token_end(s).unwrap();
    lemma_aws_end(s, t);
    let pe = list_prefix_end(s).unwrap();
    assert(s[pe - 1] < 0x80u8);
    lemma_bnd_step(s, pe - 1);
    lemma_valid_between(s, 0, pe);
    lemma_valid_between(s, pe, s.len() as int);
}

/// The bullet of a list item that starts `content`, if it starts with one.
pub fn parse_list_marker(content: &str) -> (r: Option<ListMarker>)
    ensures
        match (r, list_prefix_end(content.spec_bytes())) {
            (Some(m), Some(pe)) => sbytes(m.prefix) == content.spec_bytes().subrange(0, pe)
                && sbytes(m.text) == content.spec_bytes().subrange(
                pe,
                content.spec_bytes().len() as int,
            ),
            (None, None) => true,
            _ => false,
        },
{
    let b = content.as_bytes();
    match list_prefix_end_exec(b) {
        None => None,
        Some(pe) => {
            proof {
                lemma_str_valid(content);
                lemma_list_split_valid(b@);
            }
            Some(ListMarker { prefix: string_of(&b[0..pe]), text: string_of(&b[pe..b.len()]) })
        },
    }
}

/// Index of the first byte `b` at or after `i`, or the length.
pub open spec fn byte_pos(s: Seq<u8>, b: u8, i: int) -> int
    decreases s.len() - i,
{
    if i < 0 || i >= s.len() {
        s.len() as int
    } else if s[i] == b {
        i
    } else {
        byte_pos(s, b, i + 1)
    }
}

pub proof fn lemma_byte_pos_bounds(s: Seq<u8>, b: u8, i: int)
    requires
        0 <= i <= s.len(),
    ensures
        i <= byte_pos(s, b, i) <= s.len(),
    decreases s.len() - i,
{
    if i < s.len() && s[i] != b {
        lemma_byte_pos_bounds(s, b, i + 1);
    }
}

proof fn lemma_byte_pos_found(s: Seq<u8>, b: u8, j: int, i: int)
    requires
        0 <= j <= i < s.len(),
        s[i] == b,
        forall|k: int| j <= k < i ==> s[k] != b,
    ensures
        byte_pos(s, b, j) == i,
    decreases i - j,
{
    if j < i {
        lemma_byte_pos_found(s, b, j + 1, i);
    }
}

proof fn lemma_byte_pos_absent(s: Seq<u8>, b: u8, j: int)
    requires
        0 <= j <= s.len(),
        forall|k: int| j <= k < s.len() ==> s[k] != b,
    ensures
        byte_pos(s, b, j) == s.len(),
    decreases s.len() - j,
{
    if j < s.len() {
        lemma_byte_pos_absent(s, b, j + 1);
    }
}

/// Index of the first byte `b` of `s`, or its length.
pub fn byte_pos_exec(s: &[u8], b: u8) -> (r: usize)
    ensures
        r as int == byte_pos(s@, b, 0),
        r <= s@.len(),
        r < s@.len() ==> s@[r as int] == b,
{
    match crate::bytes::find_byte(b, s) {
        Some(i) => {
            proof {
                lemma_byte_pos_found(s@, b, 0, i as int);
            }
            i
        },
        None => {
            proof {
                lemma_byte_pos_absent(s@, b, 0);
            }
            s.len()
        },
    }
}

/// End of `s[..j]` once trailing spaces and tabs are removed.
pub open spec fn st_end(s: Seq<u8>, j: int) -> int
    decreases j,
{
    if 0 < j <= s.len() && (s[j - 1] == 32u8 || s[j - 1] == 9u8) {
        st_end(s, j - 1)
    } else {
        j
    }
}

proof fn lemma_st_end(s: Seq<u8>, j: int)
    requires
        0 <= j <= s.len(),
    ensures
        0 <= st_end(s, j) <= j,
        bnd(s, j) ==> bnd(s, st_end(s, j)),
    decreases j,
{
    if 0 < j && (s[j - 1] == 32u8 || s[j - 1] == 9u8) {
        lemma_st_end(s, j - 1);
    }
}

fn st_end_exec(s: &[u8]) -> (r: usize)
    ensures
        r as int == st_end(s@, s@.len() as int),
{
    let mut j = s.len();
    while j > 0 && (s[j - 1] == 32u8 || s[j - 1] == 9u8)
        invariant
            j <= s@.len(),
            st_end(s@, j as int) == st_end(s@, s@.len() as int),
        decreases j,
    {
        j = j - 1;
    }
    j
}

/// The parts of a standalone comment line: the indentation before `#`, the
/// whitespace after it, and the content, with trailing spaces and tabs removed.
pub ghost struct CommentParts {
    pub outer: Seq<u8>,
    pub lead: Seq<u8>,
    pub content: Seq<u8>,
}

/// The text after `#`, without trailing spaces and tabs.
pub open spec fn after_hash(s: Seq<u8>, h: int) -> Seq<u8> {
    let a = s.subrange(h + 1, s.len() as int);
    a.subrange(0, st_end(a, a.len() as int))
}

/// A line whose first `#` has only whitespace before it, split into parts.
pub open spec fn comment_parts(s: Seq<u8>) -> Option<CommentParts> {
    let h = byte_pos(s, 35u8, 0);
    if h >= s.len() || skip_ws(s.subrange(0, h), 0) != h {
        None
    } else {
        let ah = after_hash(s, h);
        let we = skip_ws(ah, 0);
        Some(
            CommentParts {
                outer: s.subrange(0, h),
                lead: ah.subrange(0, we),
                content: ah.subrange(we, ah.len() as int),
            },
        )
    }
}

/// A standalone comment line split into its parts, borrowing from the line.
#[derive(Debug, Clone)]
pub struct ParsedCommentLine<'a> {
    pub outer_prefix: &'a str,
    pub leading_ws: &'a str,
    pub content: &'a str,
    pub raw: &'a str,
}

impl<'a> ParsedCommentLine<'a> {
    pub open spec fn parts(&self) -> CommentParts {
        CommentParts {
            outer: self.outer_prefix.spec_bytes(),
            lead: self.leading_ws.spec_bytes(),
            content: self.content.spec_bytes(),
        }
    }

    /// Splits a line whose first `#` has only whitespace before it.
    pub fn parse(line: &'a str) -> (r: Option<ParsedCommentLine<'a>>)
        ensures
            match (r, comment_parts(line.spec_bytes())) {
                (Some(p), Some(c)) => p.parts() == c && p.raw == line,
                (None, None) => true,
                _ => false,
            },
    {
        let s = line.as_bytes();
        let h = byte_pos_exec(s, 35u8);
        if h >= s.len() {
            return None;
        }
        if skip_ws_exec(&s[0..h], 0) != h {
            return None;
        }
        let a = &s[h + 1..s.len()];
        let e = st_end_exec(a);
        proof {
            lemma_str_valid(line);
            lemma_st_end(a@, a@.len() as int);
        }
        let ah = &a[0..e];
        let we = skip_ws_exec(ah, 0);
        proof {
            let b = s@;
            assert(b[h as int] == 35u8);
            lemma_bnd_step(b, h as int);
            assert(bnd(b, h as int));
            let k = h + 1 + e;
            assert(bnd(a@, e as int));
            assert(bnd(b, k as int)) by {
                if e < a@.len() {
                    assert(a@[e as int] == b[k as int]);
                }
            }
            lemma_valid_between(b, h + 1, k as int);
            assert(ah@ =~= b.subrange(h + 1, k as int));
            lemma_skip_ws_bounds(ah@, 0);
            lemma_skip_ws_bnd(ah@, 0);
            let m = h + 1 + we;
            assert(bnd(b, m as int)) by {
                if we < ah@.len() {
                    assert(ah@[we as int] == b[m as int]);
                }
            }
            crate::text::lemma_boundary(b, h as int);
            crate::text::lemma_boundary(b, h + 1);
            crate::text::lemma_boundary(b, m as int);
            crate::text::lemma_boundary(b, k as int);
            crate::text::lemma_boundary(b, 0);
        }
        let outer_prefix = crate::ast::str_range(line, 0, h);
        let leading_ws = crate::ast::str_range(line, h + 1, h + 1 + we);
        let content = crate::ast::str_range(line, h + 1 + we, h + 1 + e);
        proof {
            assert(leading_ws.spec_bytes() =~= ah@.subrange(0, we as int));
            assert(content.spec_bytes() =~= ah@.subrange(we as int, ah@.len() as int));
        }
        Some(ParsedCommentLine { outer_prefix, leading_ws, content, raw: line })
    }

    /// The comment has no content (`#` alone).
    pub fn is_blank(&self) -> (r: bool)
        ensures
            r == (self.content.spec_bytes().len() == 0),
    {
        self.content.as_bytes().len() == 0
    }

    /// The content is a code fence, three backticks.
    pub fn is_fence_marker(&self) -> (r: bool)
        ensures
            r == (trim_seq(self.content.spec_bytes()) == seq![96u8, 96u8, 96u8]),
    {
        let t = trim(self.content.as_bytes());
        let r = t.len() == 3 && t[0] == 96u8 && t[1] == 96u8 && t[2] == 96u8;
        proof {
            if r {
                assert(t@ =~= seq![96u8, 96u8, 96u8]);
            }
        }
        r
    }

    /// Bytes of whitespace between `#` and the content.
    pub fn leading_ws_len(&self) -> (r: usize)
        ensures
            r == self.leading_ws.spec_bytes().len(),
    {
        self.leading_ws.as_bytes().len()
    }
}

/// Number of characters in UTF-8 bytes: the bytes that do not continue a
/// character.
pub open spec fn char_count(s: Seq<u8>) -> nat
    decreases s.len(),
{
    if s.len() == 0 {
        0
    } else {
        char_count(s.drop_last()) + if vstd::utf8::is_continuation_byte(s.last()) {
            0nat
        } else {
            1nat
        }
    }
}

proof fn lemma_char_count_le(s: Seq<u8>)
    ensures
        char_count(s) <= s.len(),
    decreases s.len(),
{
    if s.len() > 0 {
        lemma_char_count_le(s.drop_last());
    }
}

pub fn char_count_exec(s: &[u8]) -> (r: usize)
    ensures
        r == char_count(s@),
{
    let mut n: usize = 0;
    let mut i: usize = 0;
    while i < s.len()
        invariant
            i <= s@.len(),
            n == char_count(s@.subrange(0, i as int)),
        decreases s@.len() - i,
    {
        proof {
            let t = s@.subrange(0, i + 1);
            assert(t.drop_last() =~= s@.subrange(0, i as int));
            lemma_char_count_le(s@.subrange(0, i as int));
        }
        if !(0x80u8 <= s[i] && s[i] <= 0xbfu8) {
            n = n + 1;
        }
        i = i + 1;
    }
    assert(s@.subrange(0, s@.len() as int) =~= s@);
    n
}

pub proof fn lemma_skip_stops(s: Seq<u8>, i: int)
    requires
        0 <= i <= s.len(),
    ensures
        skip_ws(s, i) < s.len() ==> crate::text::ws_len(s, skip_ws(s, i)) == 0,
    decreases s.len() - i,
{
    if i < s.len() && crate::text::ws_len(s, i) > 0 {
        lemma_skip_stops(s, i + crate::text::ws_len(s, i));
    }
}

/// The whitespace-separated words of `s` from index `i` on, as
/// `str::split_whitespace` gives them.
pub open spec fn words_from(s: Seq<u8>, i: int) -> Seq<Seq<u8>>
    decreases s.len() - i,
{
    if i < 0 || i >= s.len() {
        seq![]
    } else {
        let st = skip_ws(s, i);
        if st >= s.len() {
            seq![]
        } else {
            proof {
                lemma_skip_ws_bounds(s, i);
                lemma_skip_stops(s, i);
                lemma_find_ws_bnd(s, st + 1);
            }
            let e = find_ws(s, st);
            seq![s.subrange(st, e)] + words_from(s, e)
        }
    }
}

pub open spec fn split_ws(s: Seq<u8>) -> Seq<Seq<u8>> {
    words_from(s, 0)
}

/// Every word of valid UTF-8 is valid UTF-8.
proof fn lemma_words_valid(s: Seq<u8>, i: int)
    requires
        vstd::utf8::valid_utf8(s),
        0 <= i <= s.len(),
        bnd(s, i),
    ensures
        forall|k: int|
            0 <= k < words_from(s, i).len() ==> vstd::utf8::valid_utf8(
                #[trigger] words_from(s, i)[k],
            ),
    decreases s.len() - i,
{
    if i < s.len() {
        let st = skip_ws(s, i);
        lemma_skip_ws_bounds(s, i);
        if st < s.len() {
            lemma_skip_stops(s, i);
            lemma_skip_ws_bnd(s, i);
            lemma_find_ws_bnd(s, st + 1);
            let e = find_ws(s, st);
            lemma_valid_between(s, st, e);
            lemma_words_valid(s, e);
            assert forall|k: int| 0 <= k < words_from(s, i).len() implies vstd::utf8::valid_utf8(
                #[trigger] words_from(s, i)[k],
            ) by {
                if k > 0 {
                    assert(words_from(s, i)[k] == words_from(s, e)[k - 1]);
                }
            }
        }
    }
}

/// Total length of the words, each counted with one separator.
pub open spec fn words_len(w: Seq<Seq<u8>>) -> int
    decreases w.len(),
{
    if w.len() == 0 {
        0
    } else {
        words_len(w.drop_last()) + w.last().len() + 1
    }
}

pub(crate) proof fn lemma_words_len_prefix(w: Seq<Seq<u8>>, i: int)
    requires
        0 <= i <= w.len(),
    ensures
        0 <= words_len(w.take(i)) <= words_len(w),
    decreases w.len(),
{
    if w.len() > 0 {
        if i == w.len() {
            assert(w.take(i) =~= w);
            lemma_words_len_prefix(w.drop_last(), i - 1);
            assert(w.drop_last().take(i - 1) =~= w.drop_last());
        } else {
            lemma_words_len_prefix(w.drop_last(), i);
            assert(w.drop_last().take(i) =~= w.take(i));
        }
    }
}

proof fn lemma_find_ws_stops(s: Seq<u8>, i: int)
    requires
        0 <= i <= s.len(),
    ensures
        find_ws(s, i) < s.len() ==> crate::text::ws_len(s, find_ws(s, i)) > 0,
    decreases s.len() - i,
{
    if i < s.len() && crate::text::ws_len(s, i) == 0 {
        lemma_find_ws_stops(s, i + 1);
    }
}

/// The words of `s` as slices of it.
pub fn split_ws_exec(s: &[u8]) -> (r: Vec<&[u8]>)
    ensures
        r@.len() == split_ws(s@).len(),
        forall|k: int| 0 <= k < r@.len() ==> (#[trigger] r@[k])@ == split_ws(s@)[k],
        words_len(split_ws(s@)) <= s@.len() + 1,
{
    let mut out: Vec<&[u8]> = Vec::new();
    let mut i: usize = 0;
    proof {
        assert(out@.map_values(|x: &[u8]| x@) + words_from(s@, 0) =~= split_ws(s@));
    }
    while i < s.len()
        invariant
            i <= s@.len(),
            out@.map_values(|x: &[u8]| x@) + words_from(s@, i as int) == split_ws(s@),
            words_len(out@.map_values(|x: &[u8]| x@)) <= i + 1,
            out@.len() > 0 && i < s@.len() ==> crate::text::ws_len(s@, i as int) > 0,
        decreases s@.len() - i,
    {
        let st = skip_ws_exec(s, i);
        if st >= s.len() {
            proof {
                assert(words_from(s@, i as int) =~= Seq::<Seq<u8>>::empty());
                assert(words_from(s@, s@.len() as int) =~= Seq::<Seq<u8>>::empty());
            }
            i = s.len();
        } else {
            proof {
                lemma_skip_stops(s@, i as int);
                lemma_find_ws_bnd(s@, st + 1);
                lemma_find_ws_stops(s@, st as int);
                if out@.len() > 0 {
                    lemma_skip_ws_bounds(s@, i + crate::text::ws_len(s@, i as int));
                }
            }
            let e = find_ws_exec(s, st);
            let ghost before = out@.map_values(|x: &[u8]| x@);
            out.push(&s[st..e]);
            proof {
                let after = out@.map_values(|x: &[u8]| x@);
                assert(after =~= before.push(s@.subrange(st as int, e as int)));
                assert(after.drop_last() =~= before);
                assert(after + words_from(s@, e as int) =~= before + words_from(s@, i as int));
            }
            i = e;
        }
    }
    proof {
        assert(words_from(s@, s@.len() as int) =~= Seq::<Seq<u8>>::empty());
        assert(out@.map_values(|x: &[u8]| x@) =~= split_ws(s@));
    }
    out
}

/// Appends the bytes of `src` to `dst`.
pub fn push_bytes(dst: &mut Vec<u8>, src: &[u8])
    ensures
        final(dst)@ == old(dst)@ + src@,
{
    let mut i: usize = 0;
    while i < src.len()
        invariant
            i <= src@.len(),
            dst@ == old(dst)@ + src@.subrange(0, i as int),
        decreases src@.len() - i,
    {
        dst.push(src[i]);
        i = i + 1;
        proof {
            assert(src@.subrange(0, i as int) =~= src@.subrange(0, i - 1).push(src@[i - 1]));
        }
    }
    assert(src@.subrange(0, src@.len() as int) =~= src@);
}

/// Greedy word wrapping from word `i` on: `done` holds the finished lines,
/// `cur` the line being filled, `cur_len` its length in characters and
/// `pre_len` the length of its prefix. A word moves to a new line, started
/// with the continuation prefix `cont`, when the line would otherwise reach
/// `width` characters and already holds a word.
pub open spec fn wrap_go(
    words: Seq<Seq<u8>>,
    i: int,
    width: int,
    cont: Seq<u8>,
    done: Seq<Seq<u8>>,
    cur: Seq<u8>,
    cur_len: int,
    pre_len: int,
) -> Seq<Seq<u8>>
    decreases words.len() - i,
{
    if i < 0 || i >= words.len() {
        done.push(cur)
    } else {
        let w = words[i];
        let wl = char_count(w) as int;
        let cand = cur_len + (if cur_len > pre_len {
            1int
        } else {
            0int
        }) + wl;
        if cand >= width && cur_len > pre_len {
            let cl = char_count(cont) as int;
            wrap_go(words, i + 1, width, cont, done.push(cur), cont + w, cl + wl, cl)
        } else if cur_len > pre_len {
            wrap_go(
                words,
                i + 1,
                width,
                cont,
                done,
                cur.push(32u8) + w,
                cur_len + 1 + wl,
                pre_len,
            )
        } else {
            wrap_go(words, i + 1, width, cont, done, cur + w, cur_len + wl, pre_len)
        }
    }
}

/// The lines that wrapping `words` at `width` gives, the first starting with
/// `first` and the others with `cont`; with no words, `first` without its
/// trailing whitespace.
pub open spec fn wrap_words(words: Seq<Seq<u8>>, width: int, first: Seq<u8>, cont: Seq<u8>) -> Seq<
    Seq<u8>,
> {
    if words.len() == 0 {
        seq![trim_end_seq(first)]
    } else {
        let fl = char_count(first) as int;
        wrap_go(words, 0, width, cont, seq![], first, fl, fl)
    }
}

pub open spec fn all_valid(v: Seq<Seq<u8>>) -> bool {
    forall|k: int| 0 <= k < v.len() ==> vstd::utf8::valid_utf8(#[trigger] v[k])
}

pub open spec fn slice_views(v: Seq<&[u8]>) -> Seq<Seq<u8>> {
    v.map_values(|x: &[u8]| x@)
}

pub open spec fn vec_views(v: Seq<Vec<u8>>) -> Seq<Seq<u8>> {
    v.map_values(|x: Vec<u8>| x@)
}

/// Wraps words given as bytes; see `wrap_words`.
pub fn wrap_bytes(words: &Vec<&[u8]>, width: usize, first: &[u8], cont: &[u8]) -> (r: Vec<Vec<u8>>)
    requires
        words_len(slice_views(words@)) + first@.len() + cont@.len() < usize::MAX,
    ensures
        vec_views(r@) == wrap_words(slice_views(words@), width as int, first@, cont@),
        all_valid(slice_views(words@)) && vstd::utf8::valid_utf8(first@)
            && vstd::utf8::valid_utf8(cont@) ==> all_valid(vec_views(r@)),
{
    let ghost ws = slice_views(words@);
    let ghost ok = all_valid(ws) && vstd::utf8::valid_utf8(first@) && vstd::utf8::valid_utf8(
        cont@,
    );
    if words.len() == 0 {
        let t = crate::text::trim_end(first);
        let mut out: Vec<Vec<u8>> = Vec::new();
        let mut line: Vec<u8> = Vec::new();
        push_bytes(&mut line, t);
        out.push(line);
        proof {
            assert(vec_views(out@) =~= seq![trim_end_seq(first@)]);
            if ok {
                lemma_trim_valid(first@);
            }
        }
        return out;
    }
    let cl = char_count_exec(cont);
    let mut done: Vec<Vec<u8>> = Vec::new();
    let mut cur: Vec<u8> = Vec::new();
    push_bytes(&mut cur, first);
    let mut cur_len = char_count_exec(first);
    let mut pre_len = cur_len;
    let mut i: usize = 0;
    proof {
        lemma_char_count_le(first@);
        lemma_char_count_le(cont@);
        lemma_words_len_prefix(ws, 0);
        assert(ws.take(0) =~= Seq::<Seq<u8>>::empty());
        assert(vec_views(done@) =~= Seq::<Seq<u8>>::empty());
        assert(ws.len() == words@.len());
    }
    while i < words.len()
        invariant
            ws == slice_views(words@),
            i <= words@.len(),
            cl == char_count(cont@),
            cl <= cont@.len(),
            cur_len <= cur@.len(),
            cur@.len() <= first@.len() + cont@.len() + words_len(ws.take(i as int)),
            0 <= words_len(ws.take(i as int)) <= words_len(ws),
            words_len(ws) + first@.len() + cont@.len() < usize::MAX,
            wrap_go(ws, i as int, width as int, cont@, vec_views(done@), cur@, cur_len as int, pre_len as int)
                == wrap_words(ws, width as int, first@, cont@),
            ok ==> all_valid(vec_views(done@)) && vstd::utf8::valid_utf8(cur@),
            ok == (all_valid(ws) && vstd::utf8::valid_utf8(first@) && vstd::utf8::valid_utf8(
                cont@,
            )),
        decreases words@.len() - i,
    {
        let w = words[i];
        let wl = char_count_exec(w);
        proof {
            assert(w@ == ws[i as int]);
            lemma_char_count_le(w@);
            assert(ws.take(i + 1).drop_last() =~= ws.take(i as int));
            assert(ws.take(i + 1).last() == ws[i as int]);
            lemma_words_len_prefix(ws, i as int);
            assert(words_len(ws.take(i + 1)) == words_len(ws.take(i as int)) + w@.len() + 1);
            lemma_words_len_prefix(ws, i + 1);
            if ok {
                assert(vstd::utf8::valid_utf8(ws[i as int]));
            }
        }
        let spacer: usize = if cur_len > pre_len {
            1
        } else {
            0
        };
        let cand = cur_len + spacer + wl;
        let ghost old_done = vec_views(done@);
        let ghost old_cur = cur@;
        if cand >= width && cur_len > pre_len {
            let mut fresh: Vec<u8> = Vec::new();
            push_bytes(&mut fresh, cont);
            push_bytes(&mut fresh, w);
            let mut full = fresh;
            std::mem::swap(&mut cur, &mut full);
            done.push(full);
            cur_len = cl + wl;
            pre_len = cl;
            proof {
                assert(vec_views(done@) =~= old_done.push(old_cur));
                if ok {
                    crate::text::lemma_valid_concat(cont@, w@);
                }
            }
        } else if cur_len > pre_len {
            cur.push(32u8);
            push_bytes(&mut cur, w);
            cur_len = cur_len + 1 + wl;
            proof {
                if ok {
                    crate::text::lemma_ascii_valid_utf8(seq![32u8]);
                    crate::text::lemma_valid_concat(old_cur, seq![32u8]);
                    assert(old_cur.push(32u8) =~= old_cur + seq![32u8]);
                    crate::text::lemma_valid_concat(old_cur.push(32u8), w@);
                }
            }
        } else {
            push_bytes(&mut cur, w);
            cur_len = cur_len + wl;
            proof {
                if ok {
                    crate::text::lemma_valid_concat(old_cur, w@);
                }
            }
        }
        i = i + 1;
    }
    let ghost old_done = vec_views(done@);
    let ghost old_cur = cur@;
    done.push(cur);
    proof {
        assert(vec_views(done@) =~= old_done.push(old_cur));
    }
    done
}

/// Wraps comment words at `width` characters; see `wrap_words`.
pub fn wrap_comment_words(words: &[&str], width: usize, first_prefix: &str, continuation_prefix: &str) -> (r: Vec<String>)
    requires
        words_len(words@.map_values(|w: &str| w.spec_bytes())) + first_prefix.spec_bytes().len()
            + continuation_prefix.spec_bytes().len() < usize::MAX,
    ensures
        r@.map_values(|s: String| sbytes(s)) == wrap_words(
            words@.map_values(|w: &str| w.spec_bytes()),
            width as int,
            first_prefix.spec_bytes(),
            continuation_prefix.spec_bytes(),
        ),
{
    let mut ws: Vec<&[u8]> = Vec::new();
    let mut i: usize = 0;
    while i < words.len()
        invariant
            i <= words@.len(),
            slice_views(ws@) == words@.subrange(0, i as int).map_values(|w: &str| w.spec_bytes()),
            all_valid(slice_views(ws@)),
        decreases words@.len() - i,
    {
        proof {
            lemma_str_valid(words@[i as int]);
        }
        let ghost old_ws = ws@;
        let b = words[i].as_bytes();
        ws.push(b);
        i = i + 1;
        proof {
            assert(ws@ =~= old_ws.push(b));
            assert(slice_views(ws@) =~= slice_views(old_ws).push(b@));
            assert(all_valid(slice_views(ws@))) by {
                assert forall|k: int| 0 <= k < slice_views(ws@).len() implies vstd::utf8::valid_utf8(
                    #[trigger] slice_views(ws@)[k],
                ) by {
                    if k < old_ws.len() {
                        assert(slice_views(ws@)[k] == slice_views(old_ws)[k]);
                    }
                }
            }
            assert(slice_views(ws@) =~= words@.subrange(0, i as int).map_values(
                |w: &str| w.spec_bytes(),
            ));
        }
    }
    proof {
        assert(words@.subrange(0, words@.len() as int) =~= words@);
        lemma_str_valid(first_prefix);
        lemma_str_valid(continuation_prefix);
    }
    let lines = wrap_bytes(&ws, width, first_prefix.as_bytes(), continuation_prefix.as_bytes());
    strings_of(&lines)
}

/// Strings holding the given lines of valid UTF-8.
pub fn strings_of(lines: &Vec<Vec<u8>>) -> (r: Vec<String>)
    requires
        all_valid(vec_views(lines@)),
    ensures
        r@.map_values(|s: String| sbytes(s)) == vec_views(lines@),
{
    let mut out: Vec<String> = Vec::new();
    let mut i: usize = 0;
    while i < lines.len()
        invariant
            i <= lines@.len(),
            all_valid(vec_views(lines@)),
            out@.map_values(|s: String| sbytes(s)) == vec_views(lines@).subrange(0, i as int),
        decreases lines@.len() - i,
    {
        proof {
            assert(vstd::utf8::valid_utf8(vec_views(lines@)[i as int]));
        }
        let s = string_of(lines[i].as_slice());
        let ghost old_out = out@;
        out.push(s);
        i = i + 1;
        proof {
            assert(out@ =~= old_out.push(s));
            assert(sbytes(s) == vec_views(lines@)[i - 1]);
            assert(out@.map_values(|s: String| sbytes(s)) =~= old_out.map_values(
                |s: String| sbytes(s),
            ).push(sbytes(s)));
            assert(vec_views(lines@).subrange(0, i as int) =~= vec_views(lines@).subrange(
                0,
                i - 1,
            ).push(vec_views(lines@)[i - 1]));
            assert(out@.map_values(|s: String| sbytes(s)) =~= vec_views(lines@).subrange(
                0,
                i as int,
            ));
        }
    }
    proof {
        assert(vec_views(lines@).subrange(0, lines@.len() as int) =~= vec_views(lines@));
    }
    out
}

/// A parsed standalone comment line together with the line itself.
pub ghost struct PLine {
    pub parts: CommentParts,
    pub raw: Seq<u8>,
}

/// The lines that parse as standalone comments, in order.
pub open spec fn parsed_lines(ls: Seq<Seq<u8>>) -> Seq<PLine>
    decreases ls.len(),
{
    if ls.len() == 0 {
        seq![]
    } else {
        let prev = parsed_lines(ls.drop_last());
        match comment_parts(ls.last()) {
            Some(c) => prev.push(PLine { parts: c, raw: ls.last() }),
            None => prev,
        }
    }
}

pub open spec fn is_fence(l: PLine) -> bool {
    trim_seq(l.parts.content) == seq![96u8, 96u8, 96u8]
}

pub open spec fn is_blank(l: PLine) -> bool {
    l.parts.content.len() == 0
}

/// The smallest whitespace width after `#` among lines with content.
pub open spec fn min_lead(p: Seq<PLine>) -> Option<int>
    decreases p.len(),
{
    if p.len() == 0 {
        None
    } else {
        let m = min_lead(p.drop_last());
        let l = p.last();
        if is_blank(l) {
            m
        } else {
            match m {
                None => Some(l.parts.lead.len() as int),
                Some(x) => Some(
                    if x <= l.parts.lead.len() {
                        x
                    } else {
                        l.parts.lead.len() as int
                    },
                ),
            }
        }
    }
}

pub open spec fn baseline(p: Seq<PLine>) -> int {
    match min_lead(p) {
        Some(x) => x,
        None => 0,
    }
}

/// Indented four or more beyond the baseline: kept as it is (code).
pub open spec fn is_indented_code(l: PLine, base: int) -> bool {
    l.parts.lead.len() >= base + 4
}

/// The line does not continue the item or paragraph of a line with indentation
/// `outer`: other indentation, blank, a fence, or code.
pub open spec fn breaks_run(n: PLine, outer: Seq<u8>, base: int) -> bool {
    n.parts.outer != outer || is_blank(n) || is_fence(n) || is_indented_code(n, base)
}

/// End of the lines that continue a list item whose content starts `bi`
/// bytes after `#`: lines indented further than the item.
pub open spec fn list_end(p: Seq<PLine>, j: int, outer: Seq<u8>, bi: int, base: int) -> int
    decreases p.len() - j,
{
    if j < 0 || j >= p.len() {
        j
    } else {
        let n = p[j];
        if breaks_run(n, outer, base) {
            j
        } else if list_prefix_end(n.parts.content) is Some {
            if n.parts.lead.len() <= bi {
                j
            } else {
                list_end(p, j + 1, outer, bi, base)
            }
        } else if n.parts.lead.len() > bi {
            list_end(p, j + 1, outer, bi, base)
        } else {
            j
        }
    }
}

/// End of a paragraph: the following lines with the same indentation and the
/// same whitespace after `#` that are not list items.
pub open spec fn para_end(p: Seq<PLine>, j: int, outer: Seq<u8>, lead: Seq<u8>, base: int) -> int
    decreases p.len() - j,
{
    if j < 0 || j >= p.len() {
        j
    } else {
        let n = p[j];
        if breaks_run(n, outer, base) || list_prefix_end(n.parts.content) is Some
            || n.parts.lead != lead {
            j
        } else {
            para_end(p, j + 1, outer, lead, base)
        }
    }
}

pub proof fn lemma_list_end(p: Seq<PLine>, j: int, outer: Seq<u8>, bi: int, base: int)
    requires
        0 <= j <= p.len(),
    ensures
        j <= list_end(p, j, outer, bi, base) <= p.len(),
    decreases p.len() - j,
{
    if j < p.len() {
        lemma_list_end(p, j + 1, outer, bi, base);
    }
}

pub proof fn lemma_para_end(p: Seq<PLine>, j: int, outer: Seq<u8>, lead: Seq<u8>, base: int)
    requires
        0 <= j <= p.len(),
    ensures
        j <= para_end(p, j, outer, lead, base) <= p.len(),
    decreases p.len() - j,
{
    if j < p.len() {
        lemma_para_end(p, j + 1, outer, lead, base);
    }
}

/// The words of the contents of lines `i..end`.
pub open spec fn para_words(p: Seq<PLine>, i: int, end: int) -> Seq<Seq<u8>>
    decreases end - i,
{
    if i < 0 || i >= end || end > p.len() {
        seq![]
    } else {
        para_words(p, i, end - 1) + split_ws(p[end - 1].parts.content)
    }
}

/// The lines `i..end` as they stand.
pub open spec fn raws(p: Seq<PLine>, i: int, end: int) -> Seq<Seq<u8>>
    decreases end - i,
{
    if i < 0 || i >= end || end > p.len() {
        seq![]
    } else {
        raws(p, i, end - 1).push(p[end - 1].raw)
    }
}

pub open spec fn spaces(n: nat) -> Seq<u8> {
    Seq::new(n, |k: int| 32u8)
}

/// Reflows the parsed lines from `i` on. Fenced code and lines indented as
/// code stay as they are; a blank comment becomes `#` at its indentation; a
/// list item is rewrapped with its continuation lines hanging under its text,
/// and the lines nested deeper follow unchanged; other lines join the
/// following lines of their paragraph and are rewrapped.
pub open spec fn reflow_from(p: Seq<PLine>, i: int, in_fence: bool, base: int, width: int) -> Seq<
    Seq<u8>,
>
    decreases p.len() - i, 1int,
{
    if i < 0 || i >= p.len() {
        seq![]
    } else {
        let l = p[i];
        if in_fence {
            seq![l.raw] + reflow_from(p, i + 1, !is_fence(l), base, width)
        } else if is_fence(l) {
            seq![l.raw] + reflow_from(p, i + 1, true, base, width)
        } else if is_blank(l) {
            seq![l.parts.outer.push(35u8)] + reflow_from(p, i + 1, false, base, width)
        } else if is_indented_code(l, base) {
            seq![l.raw] + reflow_from(p, i + 1, false, base, width)
        } else {
            reflow_run(p, i, base, width)
        }
    }
}

/// The list item or paragraph that starts at line `i`, then the rest.
pub open spec fn reflow_run(p: Seq<PLine>, i: int, base: int, width: int) -> Seq<Seq<u8>>
    decreases p.len() - i, 0int,
{
    if i < 0 || i >= p.len() {
        seq![]
    } else {
        let l = p[i];
        let hash_prefix = l.parts.outer.push(35u8);
        match list_prefix_end(l.parts.content) {
            Some(pe) => {
                let mp = l.parts.content.subrange(0, pe);
                let text = l.parts.content.subrange(pe, l.parts.content.len() as int);
                let bi = l.parts.lead.len() as int;
                let first = hash_prefix + l.parts.lead + mp;
                let cont = hash_prefix + spaces((bi + char_count(mp)) as nat);
                let end = list_end(p, i + 1, l.parts.outer, bi, base);
                proof {
                    lemma_list_end(p, i + 1, l.parts.outer, bi, base);
                }
                wrap_words(split_ws(text), width, first, cont) + raws(p, i + 1, end) + reflow_from(
                    p,
                    end,
                    false,
                    base,
                    width,
                )
            },
            None => {
                let prefix = hash_prefix + l.parts.lead;
                let end = para_end(p, i + 1, l.parts.outer, l.parts.lead, base);
                proof {
                    lemma_para_end(p, i + 1, l.parts.outer, l.parts.lead, base);
                }
                wrap_words(para_words(p, i, end), width, prefix, prefix) + reflow_from(
                    p,
                    end,
                    false,
                    base,
                    width,
                )
            },
        }
    }
}

/// Reflow of a block of standalone comment lines at `width`.
pub open spec fn reflow_block(ls: Seq<Seq<u8>>, width: int) -> Seq<Seq<u8>> {
    let p = parsed_lines(ls);
    if p.len() == 0 {
        ls
    } else {
        reflow_from(p, 0, false, baseline(p), width)
    }
}

pub open spec fn pline_of(x: ParsedCommentLine) -> PLine {
    PLine { parts: x.parts(), raw: x.raw.spec_bytes() }
}

pub open spec fn plines(v: Seq<ParsedCommentLine>) -> Seq<PLine> {
    v.map_values(|x: ParsedCommentLine| pline_of(x))
}

pub open spec fn string_views(v: Seq<String>) -> Seq<Seq<u8>> {
    v.map_values(|x: String| sbytes(x))
}

/// Every line that parses as a standalone comment, in order.
pub fn parse_all<'a>(lines: &'a [String]) -> (r: Vec<ParsedCommentLine<'a>>)
    ensures
        plines(r@) == parsed_lines(string_views(lines@)),
{
    let mut out: Vec<ParsedCommentLine<'a>> = Vec::new();
    let mut i: usize = 0;
    while i < lines.len()
        invariant
            i <= lines@.len(),
            plines(out@) == parsed_lines(string_views(lines@).take(i as int)),
        decreases lines@.len() - i,
    {
        let ghost ls = string_views(lines@);
        proof {
            assert(ls.take(i + 1).drop_last() =~= ls.take(i as int));
            assert(ls.take(i + 1).last() == sbytes(lines@[i as int]));
        }
        let line: &'a str = lines[i].as_str();
        let ghost old_out = out@;
        match ParsedCommentLine::parse(line) {
            Some(pl) => {
                out.push(pl);
                proof {
                    assert(plines(out@) =~= plines(old_out).push(pline_of(pl)));
                }
            },
            None => {},
        }
        i = i + 1;
    }
    proof {
        assert(string_views(lines@).take(lines@.len() as int) =~= string_views(lines@));
    }
    out
}

fn baseline_exec(p: &Vec<ParsedCommentLine>) -> (r: usize)
    ensures
        r == baseline(plines(p@)),
{
    let mut cur: Option<usize> = None;
    let mut k: usize = 0;
    while k < p.len()
        invariant
            k <= p@.len(),
            match (cur, min_lead(plines(p@).take(k as int))) {
                (Some(x), Some(y)) => x == y,
                (None, None) => true,
                _ => false,
            },
        decreases p@.len() - k,
    {
        proof {
            assert(plines(p@).take(k + 1).drop_last() =~= plines(p@).take(k as int));
            assert(plines(p@).take(k + 1).last() == pline_of(p@[k as int]));
        }
        if !p[k].is_blank() {
            let l = p[k].leading_ws_len();
            cur = match cur {
                None => Some(l),
                Some(x) => Some(
                    if x <= l {
                        x
                    } else {
                        l
                    },
                ),
            };
        }
        k = k + 1;
    }
    proof {
        assert(plines(p@).take(p@.len() as int) =~= plines(p@));
    }
    match cur {
        Some(x) => x,
        None => 0,
    }
}

fn is_code_exec(x: &ParsedCommentLine, base: usize) -> (r: bool)
    ensures
        r == is_indented_code(pline_of(*x), base as int),
{
    let l = x.leading_ws_len();
    l >= base && l - base >= 4
}

fn breaks_run_exec(n: &ParsedCommentLine, outer: &[u8], base: usize) -> (r: bool)
    ensures
        r == breaks_run(pline_of(*n), outer@, base as int),
{
    !crate::text::eq_bytes(n.outer_prefix.as_bytes(), outer) || n.is_blank() || n.is_fence_marker()
        || is_code_exec(n, base)
}

fn list_end_exec(p: &Vec<ParsedCommentLine>, j: usize, outer: &[u8], bi: usize, base: usize) -> (r: usize)
    requires
        j <= p@.len(),
    ensures
        r == list_end(plines(p@), j as int, outer@, bi as int, base as int),
{
    let ghost q = plines(p@);
    let mut k = j;
    while k < p.len()
        invariant
            q == plines(p@),
            j <= k <= p@.len(),
            list_end(q, k as int, outer@, bi as int, base as int) == list_end(
                q,
                j as int,
                outer@,
                bi as int,
                base as int,
            ),
        decreases p@.len() - k,
    {
        let n = &p[k];
        proof {
            assert(q[k as int] == pline_of(*n));
        }
        if breaks_run_exec(n, outer, base) {
            return k;
        }
        let is_item = list_prefix_end_exec(n.content.as_bytes()).is_some();
        let ll = n.leading_ws_len();
        if is_item {
            if ll <= bi {
                return k;
            }
        } else if ll <= bi {
            return k;
        }
        k = k + 1;
    }
    k
}

fn para_end_exec(p: &Vec<ParsedCommentLine>, j: usize, outer: &[u8], lead: &[u8], base: usize) -> (r: usize)
    requires
        j <= p@.len(),
    ensures
        r == para_end(plines(p@), j as int, outer@, lead@, base as int),
{
    let ghost q = plines(p@);
    let mut k = j;
    while k < p.len()
        invariant
            q == plines(p@),
            j <= k <= p@.len(),
            para_end(q, k as int, outer@, lead@, base as int) == para_end(
                q,
                j as int,
                outer@,
                lead@,
                base as int,
            ),
        decreases p@.len() - k,
    {
        let n = &p[k];
        proof {
            assert(q[k as int] == pline_of(*n));
        }
        if breaks_run_exec(n, outer, base) || list_prefix_end_exec(n.content.as_bytes()).is_some()
            || !crate::text::eq_bytes(n.leading_ws.as_bytes(), lead) {
            return k;
        }
        k = k + 1;
    }
    k
}

pub proof fn lemma_words_len_concat(a: Seq<Seq<u8>>, b: Seq<Seq<u8>>)
    ensures
        words_len(a + b) == words_len(a) + words_len(b),
    decreases b.len(),
{
    if b.len() == 0 {
        assert(a + b =~= a);
    } else {
        lemma_words_len_concat(a, b.drop_last());
        assert((a + b).drop_last() =~= a + b.drop_last());
        assert((a + b).last() == b.last());
    }
}

proof fn lemma_all_valid_concat(a: Seq<Seq<u8>>, b: Seq<Seq<u8>>)
    requires
        all_valid(a),
        all_valid(b),
    ensures
        all_valid(a + b),
{
    assert forall|k: int| 0 <= k < (a + b).len() implies vstd::utf8::valid_utf8(#[trigger] (a
        + b)[k]) by {
        if k < a.len() {
            assert((a + b)[k] == a[k]);
        } else {
            assert((a + b)[k] == b[k - a.len()]);
        }
    }
}

/// Every line that a parsed comment holds is valid UTF-8.
pub open spec fn plines_valid(q: Seq<PLine>) -> bool {
    forall|k: int|
        0 <= k < q.len() ==> vstd::utf8::valid_utf8((#[trigger] q[k]).parts.content)
            && vstd::utf8::valid_utf8(q[k].parts.outer) && vstd::utf8::valid_utf8(
            q[k].parts.lead,
        ) && vstd::utf8::valid_utf8(q[k].raw)
}

proof fn lemma_plines_valid(v: Seq<ParsedCommentLine>)
    ensures
        plines_valid(plines(v)),
{
    assert forall|k: int| 0 <= k < plines(v).len() implies vstd::utf8::valid_utf8(
        (#[trigger] plines(v)[k]).parts.content,
    ) && vstd::utf8::valid_utf8(plines(v)[k].parts.outer) && vstd::utf8::valid_utf8(
        plines(v)[k].parts.lead,
    ) && vstd::utf8::valid_utf8(plines(v)[k].raw) by {
        lemma_str_valid(v[k].content);
        lemma_str_valid(v[k].outer_prefix);
        lemma_str_valid(v[k].leading_ws);
        lemma_str_valid(v[k].raw);
    }
}

/// The words of the contents of lines `i..end`, as slices of them.
#[verifier::rlimit(40)]
fn para_words_exec<'b>(p: &'b Vec<ParsedCommentLine>, i: usize, end: usize) -> (r: Vec<&'b [u8]>)
    requires
        i <= end <= p@.len(),
        all_ok(plines(p@)),
    ensures
        slice_views(r@) == para_words(plines(p@), i as int, end as int),
        all_valid(slice_views(r@)),
        words_len(slice_views(r@)) <= words_len(raws(plines(p@), i as int, end as int)),
{
    let ghost q = plines(p@);
    let mut out: Vec<&'b [u8]> = Vec::new();
    let mut k = i;
    proof {
        lemma_plines_valid(p@);
        assert(slice_views(out@) =~= Seq::<Seq<u8>>::empty());
    }
    while k < end
        invariant
            q == plines(p@),
            plines_valid(q),
            all_ok(q),
            i <= k <= end <= p@.len(),
            slice_views(out@) == para_words(q, i as int, k as int),
            all_valid(slice_views(out@)),
            words_len(slice_views(out@)) <= words_len(raws(q, i as int, k as int)),
        decreases end - k,
    {
        let c = p[k].content.as_bytes();
        proof {
            assert(q[k as int] == pline_of(p@[k as int]));
            assert(vstd::utf8::valid_utf8(q[k as int].parts.content));
            lemma_words_valid(c@, 0);
            assert(pline_ok(q[k as int]));
            lemma_comment_parts_len(q[k as int]);
        }
        let ws = split_ws_exec(c);
        let ghost before = slice_views(out@);
        let mut m: usize = 0;
        while m < ws.len()
            invariant
                m <= ws@.len(),
                slice_views(out@) == before + slice_views(ws@).take(m as int),
                forall|t: int| 0 <= t < ws@.len() ==> (#[trigger] ws@[t])@ == split_ws(c@)[t],
                ws@.len() == split_ws(c@).len(),
                all_valid(before),
                all_valid(split_ws(c@)),
            decreases ws@.len() - m,
        {
            let ghost o = out@;
            out.push(ws[m]);
            m = m + 1;
            proof {
                assert(slice_views(out@) =~= slice_views(o).push(ws@[m - 1]@));
                assert(slice_views(ws@).take(m as int) =~= slice_views(ws@).take(m - 1).push(
                    ws@[m - 1]@,
                ));
                assert(slice_views(out@) =~= before + slice_views(ws@).take(m as int));
            }
        }
        proof {
            assert(slice_views(ws@) =~= split_ws(c@));
            assert(slice_views(ws@).take(ws@.len() as int) =~= split_ws(c@));
            lemma_all_valid_concat(before, split_ws(c@));
            lemma_words_len_concat(before, split_ws(c@));
            assert(raws(q, i as int, k + 1).drop_last() =~= raws(q, i as int, k as int));
            assert(raws(q, i as int, k + 1).last() == q[k as int].raw);
            assert(para_words(q, i as int, k + 1) == para_words(q, i as int, k as int) + split_ws(
                c@,
            ));
        }
        k = k + 1;
    }
    out
}

/// The parts are those that the line itself splits into.
pub open spec fn pline_ok(l: PLine) -> bool {
    comment_parts(l.raw) == Some(l.parts)
}

pub open spec fn all_ok(q: Seq<PLine>) -> bool {
    forall|k: int| 0 <= k < q.len() ==> pline_ok(#[trigger] q[k])
}

proof fn lemma_parsed_ok(ls: Seq<Seq<u8>>)
    ensures
        all_ok(parsed_lines(ls)),
    decreases ls.len(),
{
    if ls.len() > 0 {
        lemma_parsed_ok(ls.drop_last());
        let prev = parsed_lines(ls.drop_last());
        match comment_parts(ls.last()) {
            Some(c) => {
                let q = prev.push(PLine { parts: c, raw: ls.last() });
                assert forall|k: int| 0 <= k < q.len() implies pline_ok(#[trigger] q[k]) by {
                    if k < prev.len() {
                        assert(q[k] == prev[k]);
                    }
                }
            },
            None => {},
        }
    }
}

/// The parts of a parsed line fit in the line.
proof fn lemma_comment_parts_len(l: PLine)
    requires
        pline_ok(l),
    ensures
        l.parts.outer.len() + 1 + l.parts.lead.len() + l.parts.content.len() <= l.raw.len(),
{
    let s = l.raw;
    let h = byte_pos(s, 35u8, 0);
    lemma_byte_pos_bounds(s, 35u8, 0);
    assert(h < s.len());
    let a = s.subrange(h + 1, s.len() as int);
    lemma_st_end(a, a.len() as int);
    let ah = after_hash(s, h);
    lemma_skip_ws_bounds(ah, 0);
}

proof fn lemma_words_len_nonneg(w: Seq<Seq<u8>>)
    ensures
        words_len(w) >= 0,
    decreases w.len(),
{
    if w.len() > 0 {
        lemma_words_len_nonneg(w.drop_last());
    }
}

proof fn lemma_raws_push(q: Seq<PLine>, y: PLine, i: int, end: int)
    requires
        0 <= i,
        end <= q.len(),
    ensures
        raws(q.push(y), i, end) == raws(q, i, end),
    decreases end - i,
{
    if i < end {
        lemma_raws_push(q, y, i, end - 1);
        assert(q.push(y)[end - 1] == q[end - 1]);
    }
}

/// The lines of any run of parsed lines are no longer than all the lines.
proof fn lemma_raws_le(ls: Seq<Seq<u8>>, i: int, end: int)
    requires
        0 <= i <= end <= parsed_lines(ls).len(),
    ensures
        0 <= words_len(raws(parsed_lines(ls), i, end)) <= words_len(ls),
    decreases ls.len(),
{
    lemma_words_len_nonneg(ls);
    lemma_words_len_nonneg(raws(parsed_lines(ls), i, end));
    if ls.len() > 0 {
        let prev = parsed_lines(ls.drop_last());
        match comment_parts(ls.last()) {
            Some(c) => {
                let y = PLine { parts: c, raw: ls.last() };
                if end <= prev.len() {
                    lemma_raws_push(prev, y, i, end);
                    lemma_raws_le(ls.drop_last(), i, end);
                } else if i < end {
                    lemma_raws_push(prev, y, i, end - 1);
                    lemma_raws_le(ls.drop_last(), i, end - 1);
                    let r = raws(parsed_lines(ls), i, end);
                    assert(r.drop_last() == raws(prev, i, end - 1));
                    assert(r.last() == ls.last());
                }
            },
            None => {
                lemma_raws_le(ls.drop_last(), i, end);
            },
        }
    }
}

/// Appends the lines of `add` to `out`.
fn append_lines(out: &mut Vec<Vec<u8>>, add: Vec<Vec<u8>>)
    ensures
        vec_views(final(out)@) == vec_views(old(out)@) + vec_views(add@),
{
    let mut add = add;
    let mut rest: Vec<Vec<u8>> = Vec::new();
    let ghost all = vec_views(add@);
    // take the lines off the back, then put them on in order
    while add.len() > 0
        invariant
            vec_views(add@) + vec_views(rest@).reverse() == all,
        decreases add@.len(),
    {
        let ghost a0 = add@;
        let ghost r0 = rest@;
        let x = add.pop().unwrap();
        rest.push(x);
        proof {
            assert(vec_views(a0) =~= vec_views(add@).push(x@));
            assert(vec_views(rest@) =~= vec_views(r0).push(x@));
            assert(vec_views(rest@).reverse() =~= seq![x@] + vec_views(r0).reverse());
            assert(vec_views(add@) + vec_views(rest@).reverse() =~= vec_views(a0) + vec_views(
                r0,
            ).reverse());
        }
    }
    let ghost o0 = vec_views(out@);
    proof {
        assert(vec_views(add@) =~= Seq::<Seq<u8>>::empty());
        assert(vec_views(rest@).reverse() =~= all);
    }
    while rest.len() > 0
        invariant
            vec_views(out@) + vec_views(rest@).reverse() == o0 + all,
        decreases rest@.len(),
    {
        let ghost r0 = rest@;
        let ghost u0 = out@;
        let x = rest.pop().unwrap();
        out.push(x);
        proof {
            assert(vec_views(r0) =~= vec_views(rest@).push(x@));
            assert(vec_views(r0).reverse() =~= seq![x@] + vec_views(rest@).reverse());
            assert(vec_views(out@) =~= vec_views(u0).push(x@));
            assert(vec_views(out@) + vec_views(rest@).reverse() =~= vec_views(u0) + vec_views(
                r0,
            ).reverse());
        }
    }
    proof {
        assert(vec_views(rest@).reverse() =~= Seq::<Seq<u8>>::empty());
        assert(vec_views(out@) =~= o0 + all);
    }
}

/// A copy of the bytes of a line.
fn line_copy(b: &[u8]) -> (r: Vec<u8>)
    ensures
        r@ == b@,
{
    let mut v: Vec<u8> = Vec::new();
    push_bytes(&mut v, b);
    v
}

/// The indentation of a parsed line followed by `#`.
fn hash_prefix_bytes(l: &ParsedCommentLine) -> (r: Vec<u8>)
    ensures
        r@ == l.outer_prefix.spec_bytes().push(35u8),
        vstd::utf8::valid_utf8(r@),
{
    let mut v = line_copy(l.outer_prefix.as_bytes());
    v.push(35u8);
    proof {
        lemma_str_valid(l.outer_prefix);
        crate::text::lemma_ascii_valid_utf8(seq![35u8]);
        crate::text::lemma_valid_concat(l.outer_prefix.spec_bytes(), seq![35u8]);
        assert(l.outer_prefix.spec_bytes().push(35u8) =~= l.outer_prefix.spec_bytes() + seq![
            35u8,
        ]);
    }
    v
}

/// The lines `a..b` of `p` as they stand.
fn raws_exec(p: &Vec<ParsedCommentLine>, a: usize, b: usize) -> (r: Vec<Vec<u8>>)
    requires
        a <= b <= p@.len(),
    ensures
        vec_views(r@) == raws(plines(p@), a as int, b as int),
        all_valid(vec_views(r@)),
{
    let ghost q = plines(p@);
    let mut out: Vec<Vec<u8>> = Vec::new();
    let mut k = a;
    proof {
        lemma_plines_valid(p@);
        assert(vec_views(out@) =~= Seq::<Seq<u8>>::empty());
    }
    while k < b
        invariant
            q == plines(p@),
            plines_valid(q),
            a <= k <= b <= p@.len(),
            vec_views(out@) == raws(q, a as int, k as int),
            all_valid(vec_views(out@)),
        decreases b - k,
    {
        let ghost o = vec_views(out@);
        let x = line_copy(p[k].raw.as_bytes());
        out.push(x);
        proof {
            assert(q[k as int] == pline_of(p@[k as int]));
            assert(vstd::utf8::valid_utf8(q[k as int].raw));
            assert(vec_views(out@) =~= o.push(x@));
            assert(raws(q, a as int, k + 1) == raws(q, a as int, k as int).push(q[k as int].raw));
            assert forall|t: int| 0 <= t < vec_views(out@).len() implies vstd::utf8::valid_utf8(
                #[trigger] vec_views(out@)[t],
            ) by {
                if t < o.len() {
                    assert(vec_views(out@)[t] == o[t]);
                }
            }
        }
        k = k + 1;
    }
    out
}

/// The shared facts about the parsed lines of a block.
pub open spec fn block_ok(q: Seq<PLine>, ls: Seq<Seq<u8>>) -> bool {
    &&& q == parsed_lines(ls)
    &&& all_ok(q)
    &&& plines_valid(q)
    &&& 3 * words_len(ls) + 8 < usize::MAX
}

/// A list item at line `i` rewrapped, followed by its nested lines; and the
/// index after them.
fn list_item_lines(
    p: &Vec<ParsedCommentLine>,
    i: usize,
    pe: usize,
    base: usize,
    width: usize,
    Ghost(ls): Ghost<Seq<Seq<u8>>>,
) -> (r: (Vec<Vec<u8>>, usize))
    requires
        block_ok(plines(p@), ls),
        i < p@.len(),
        list_prefix_end(plines(p@)[i as int].parts.content) == Some(pe as int),
    ensures
        ({
            let q = plines(p@);
            let l = q[i as int];
            let mp = l.parts.content.subrange(0, pe as int);
            let text = l.parts.content.subrange(pe as int, l.parts.content.len() as int);
            let bi = l.parts.lead.len() as int;
            let hp = l.parts.outer.push(35u8);
            let end = list_end(q, i + 1, l.parts.outer, bi, base as int);
            &&& r.1 == end
            &&& vec_views(r.0@) == wrap_words(
                split_ws(text),
                width as int,
                hp + l.parts.lead + mp,
                hp + spaces((bi + char_count(mp)) as nat),
            ) + raws(q, i + 1, end)
        }),
        all_valid(vec_views(r.0@)),
{
    let ghost q = plines(p@);
    let _plen = p.len();
    let l = &p[i];
    let cb = l.content.as_bytes();
    proof {
        assert(q[i as int] == pline_of(*l));
        assert(vstd::utf8::valid_utf8(q[i as int].parts.content));
        assert(pline_ok(q[i as int]));
        lemma_comment_parts_len(q[i as int]);
        lemma_raws_le(ls, i as int, i + 1);
        assert(raws(q, i as int, i as int) =~= Seq::<Seq<u8>>::empty());
        assert(raws(q, i as int, i + 1) == raws(q, i as int, i as int).push(q[i as int].raw));
        assert(raws(q, i as int, i + 1).drop_last() =~= Seq::<Seq<u8>>::empty());
        lemma_list_split_valid(cb@);
    }
    let mp = &cb[0..pe];
    let text = &cb[pe..cb.len()];
    let bi = l.leading_ws_len();
    let cc = char_count_exec(mp);
    proof {
        let lq = q[i as int];
        lemma_char_count_le(mp@);
        assert(words_len(Seq::<Seq<u8>>::empty()) == 0);
        assert(raws(q, i as int, i + 1).last() == lq.raw);
        assert(words_len(raws(q, i as int, i + 1)) == lq.raw.len() + 1);
        assert(lq.parts.lead.len() == bi);
        assert(mp@.len() == pe);
        assert(bi + cc <= lq.raw.len());
    }
    let hp = hash_prefix_bytes(l);
    let mut first = line_copy(hp.as_slice());
    push_bytes(&mut first, l.leading_ws.as_bytes());
    push_bytes(&mut first, mp);
    let mut cont = line_copy(hp.as_slice());
    let n = bi + cc;
    let mut k: usize = 0;
    while k < n
        invariant
            k <= n,
            cont@ == hp@ + spaces(k as nat),
        decreases n - k,
    {
        cont.push(32u8);
        k = k + 1;
        proof {
            assert(cont@ =~= hp@ + spaces(k as nat));
        }
    }
    let end = list_end_exec(p, i + 1, l.outer_prefix.as_bytes(), bi, base);
    proof {
        lemma_list_end(q, i + 1, q[i as int].parts.outer, bi as int, base as int);
    }
    let words = split_ws_exec(text);
    proof {
        assert(slice_views(words@) =~= split_ws(text@));
        assert(hp@.len() == q[i as int].parts.outer.len() + 1);
        assert(first@.len() == hp@.len() + bi + pe);
        assert(cont@.len() == hp@.len() + n);
        assert(text@.len() + pe == q[i as int].parts.content.len());
        lemma_words_valid(text@, 0);
        lemma_str_valid(l.leading_ws);
        crate::text::lemma_valid_concat(hp@, l.leading_ws.spec_bytes());
        crate::text::lemma_valid_concat(hp@ + l.leading_ws.spec_bytes(), mp@);
        assert(first@ =~= hp@ + l.leading_ws.spec_bytes() + mp@);
        crate::text::lemma_ascii_valid_utf8(spaces(n as nat));
        crate::text::lemma_valid_concat(hp@, spaces(n as nat));
    }
    let mut lines = wrap_bytes(&words, width, first.as_slice(), cont.as_slice());
    let rest = raws_exec(p, i + 1, end);
    proof {
        lemma_all_valid_concat(vec_views(lines@), vec_views(rest@));
    }
    append_lines(&mut lines, rest);
    (lines, end)
}

/// A paragraph starting at line `i` rewrapped; and the index after it.
fn paragraph_lines(
    p: &Vec<ParsedCommentLine>,
    i: usize,
    base: usize,
    width: usize,
    Ghost(ls): Ghost<Seq<Seq<u8>>>,
) -> (r: (Vec<Vec<u8>>, usize))
    requires
        block_ok(plines(p@), ls),
        i < p@.len(),
    ensures
        ({
            let q = plines(p@);
            let l = q[i as int];
            let prefix = l.parts.outer.push(35u8) + l.parts.lead;
            let end = para_end(q, i + 1, l.parts.outer, l.parts.lead, base as int);
            &&& r.1 == end
            &&& vec_views(r.0@) == wrap_words(para_words(q, i as int, end), width as int, prefix, prefix)
        }),
        all_valid(vec_views(r.0@)),
{
    let ghost q = plines(p@);
    let _plen = p.len();
    let l = &p[i];
    proof {
        assert(q[i as int] == pline_of(*l));
        assert(pline_ok(q[i as int]));
        lemma_comment_parts_len(q[i as int]);
    }
    let hp = hash_prefix_bytes(l);
    let mut prefix = line_copy(hp.as_slice());
    push_bytes(&mut prefix, l.leading_ws.as_bytes());
    let end = para_end_exec(p, i + 1, l.outer_prefix.as_bytes(), l.leading_ws.as_bytes(), base);
    proof {
        lemma_para_end(q, i + 1, q[i as int].parts.outer, q[i as int].parts.lead, base as int);
        lemma_raws_le(ls, i as int, end as int);
        lemma_raws_le(ls, i as int, i + 1);
        assert(raws(q, i as int, i as int) =~= Seq::<Seq<u8>>::empty());
        assert(raws(q, i as int, i + 1) == raws(q, i as int, i as int).push(q[i as int].raw));
        assert(raws(q, i as int, i + 1).drop_last() =~= Seq::<Seq<u8>>::empty());
        lemma_str_valid(l.leading_ws);
        crate::text::lemma_valid_concat(hp@, l.leading_ws.spec_bytes());
    }
    let words = para_words_exec(p, i, end);
    proof {
        let lq = q[i as int];
        assert(words_len(Seq::<Seq<u8>>::empty()) == 0);
        assert(raws(q, i as int, i + 1).last() == lq.raw);
        assert(words_len(raws(q, i as int, i + 1)) == lq.raw.len() + 1);
        assert(prefix@.len() == lq.parts.outer.len() + 1 + lq.parts.lead.len());
    }
    let lines = wrap_bytes(&words, width, prefix.as_slice(), prefix.as_slice());
    (lines, end)
}

/// The output of the line or run of lines that starts at line `i`, the index
/// after them, and whether a code fence is open there.
fn reflow_step(
    p: &Vec<ParsedCommentLine>,
    i: usize,
    in_fence: bool,
    base: usize,
    width: usize,
    Ghost(ls): Ghost<Seq<Seq<u8>>>,
) -> (r: (Vec<Vec<u8>>, usize, bool))
    requires
        block_ok(plines(p@), ls),
        i < p@.len(),
    ensures
        i < r.1 <= p@.len(),
        vec_views(r.0@) + reflow_from(plines(p@), r.1 as int, r.2, base as int, width as int)
            == reflow_from(plines(p@), i as int, in_fence, base as int, width as int),
        all_valid(vec_views(r.0@)),
{
    let ghost q = plines(p@);
    let _plen = p.len();
    let l = &p[i];
    proof {
        assert(q[i as int] == pline_of(*l));
    }
    let fence = l.is_fence_marker();
    if in_fence || fence || l.is_blank() || is_code_exec(l, base) {
        let x = if !in_fence && !fence && l.is_blank() {
            hash_prefix_bytes(l)
        } else {
            line_copy(l.raw.as_bytes())
        };
        let nf = if in_fence {
            !fence
        } else {
            fence
        };
        let mut v: Vec<Vec<u8>> = Vec::new();
        v.push(x);
        proof {
            assert(vstd::utf8::valid_utf8(q[i as int].raw));
            assert(vec_views(v@) =~= seq![x@]);
        }
        (v, i + 1, nf)
    } else {
        let (more, end) = match list_prefix_end_exec(l.content.as_bytes()) {
            Some(pe) => list_item_lines(p, i, pe, base, width, Ghost(ls)),
            None => paragraph_lines(p, i, base, width, Ghost(ls)),
        };
        proof {
            lemma_list_end(q, i + 1, q[i as int].parts.outer, q[i as int].parts.lead.len() as int, base as int);
            lemma_para_end(q, i + 1, q[i as int].parts.outer, q[i as int].parts.lead, base as int);
            assert(vec_views(more@) + reflow_from(q, end as int, false, base as int, width as int)
                =~= reflow_run(q, i as int, base as int, width as int));
        }
        (more, end, false)
    }
}

/// Copies of the lines.
fn clone_lines(lines: &[String]) -> (r: Vec<String>)
    ensures
        string_views(r@) == string_views(lines@),
{
    let mut out: Vec<String> = Vec::new();
    let mut i: usize = 0;
    while i < lines.len()
        invariant
            i <= lines@.len(),
            string_views(out@) == string_views(lines@).take(i as int),
        decreases lines@.len() - i,
    {
        let ghost o = out@;
        let c = lines[i].clone();
        out.push(c);
        i = i + 1;
        proof {
            assert(string_views(out@) =~= string_views(o).push(sbytes(c)));
            assert(string_views(lines@).take(i as int) =~= string_views(lines@).take(i - 1).push(
                sbytes(lines@[i - 1]),
            ));
        }
    }
    proof {
        assert(string_views(lines@).take(lines@.len() as int) =~= string_views(lines@));
    }
    out
}

/// Reflows a block of standalone comment lines at `width`; see `reflow_block`.
pub fn reflow_comment_block(lines: &[String], width: usize) -> (r: Vec<String>)
    requires
        3 * words_len(string_views(lines@)) + 8 < usize::MAX,
    ensures
        string_views(r@) == reflow_block(string_views(lines@), width as int),
{
    let parsed = parse_all(lines);
    if parsed.len() == 0 {
        return clone_lines(lines);
    }
    let base = baseline_exec(&parsed);
    let ghost ls = string_views(lines@);
    let ghost q = plines(parsed@);
    proof {
        lemma_parsed_ok(ls);
        lemma_plines_valid(parsed@);
        assert(vec_views(Seq::<Vec<u8>>::empty()) =~= Seq::<Seq<u8>>::empty());
    }
    let mut out: Vec<Vec<u8>> = Vec::new();
    let mut i: usize = 0;
    let mut in_fence = false;
    while i < parsed.len()
        invariant
            q == plines(parsed@),
            ls == string_views(lines@),
            block_ok(q, ls),
            q.len() > 0,
            base == baseline(q),
            i <= q.len(),
            vec_views(out@) + reflow_from(q, i as int, in_fence, base as int, width as int)
                == reflow_block(ls, width as int),
            all_valid(vec_views(out@)),
        decreases q.len() - i,
    {
        let ghost o = vec_views(out@);
        let (more, next, fence) = reflow_step(&parsed, i, in_fence, base, width, Ghost(ls));
        proof {
            lemma_all_valid_concat(o, vec_views(more@));
            assert(o + vec_views(more@) + reflow_from(q, next as int, fence, base as int, width as int)
                =~= o + reflow_from(q, i as int, in_fence, base as int, width as int));
        }
        append_lines(&mut out, more);
        i = next;
        in_fence = fence;
    }
    proof {
        assert(reflow_from(q, i as int, in_fence, base as int, width as int) =~= Seq::<Seq<u8>>::empty());
        assert(vec_views(out@) =~= reflow_block(ls, width as int));
    }
    let r = strings_of(&out);
    proof {
        assert(string_views(r@) =~= r@.map_values(|s: String| sbytes(s)));
    }
    r
}

/// Index of the first ASCII whitespace byte at or after `i`, or the length.
pub open spec fn aws_pos(s: Seq<u8>, i: int) -> int
    decreases s.len() - i,
{
    if i < 0 || i >= s.len() {
        s.len() as int
    } else if is_aws(s[i]) {
        i
    } else {
        aws_pos(s, i + 1)
    }
}

proof fn lemma_aws_pos(s: Seq<u8>, i: int)
    requires
        0 <= i <= s.len(),
    ensures
        i <= aws_pos(s, i) <= s.len(),
    decreases s.len() - i,
{
    if i < s.len() && !is_aws(s[i]) {
        lemma_aws_pos(s, i + 1);
    }
}

fn aws_pos_exec(s: &[u8], i: usize) -> (r: usize)
    requires
        i <= s@.len(),
    ensures
        r as int == aws_pos(s@, i as int),
        i <= r <= s@.len(),
{
    let mut k = i;
    while k < s.len() && !(s[k] == 32u8 || s[k] == 9u8 || s[k] == 10u8 || s[k] == 12u8 || s[k]
        == 13u8)
        invariant
            i <= k <= s@.len(),
            aws_pos(s@, k as int) == aws_pos(s@, i as int),
        decreases s@.len() - k,
    {
        k = k + 1;
    }
    k
}

/// Index of the last byte `b` before `j`, or -1.
pub open spec fn last_pos(s: Seq<u8>, b: u8, j: int) -> int
    decreases j,
{
    if j <= 0 || j > s.len() {
        -1
    } else if s[j - 1] == b {
        j - 1
    } else {
        last_pos(s, b, j - 1)
    }
}

proof fn lemma_last_pos(s: Seq<u8>, b: u8, j: int, k: int)
    requires
        0 <= k < j <= s.len(),
        s[k] == b,
    ensures
        k <= last_pos(s, b, j) < j,
        s[last_pos(s, b, j)] == b,
    decreases j,
{
    if s[j - 1] != b {
        lemma_last_pos(s, b, j - 1, k);
    }
}

fn last_pos_exec(s: &[u8], b: u8) -> (r: Option<usize>)
    ensures
        match r {
            Some(x) => x as int == last_pos(s@, b, s@.len() as int),
            None => last_pos(s@, b, s@.len() as int) == -1,
        },
{
    let mut j = s.len();
    while j > 0 && s[j - 1] != b
        invariant
            j <= s@.len(),
            last_pos(s@, b, j as int) == last_pos(s@, b, s@.len() as int),
        decreases j,
    {
        j = j - 1;
    }
    if j == 0 {
        None
    } else {
        Some(j - 1)
    }
}

/// Where the variable name and the first value of a one-line `set()` call
/// stand in the line.
pub ghost struct SetModel {
    pub var_start: int,
    pub var_len: int,
    pub value_start: Option<int>,
}

pub open spec fn set_lit() -> Seq<u8> {
    "set(".spec_bytes()
}

/// A one-line `set(` call (any case, after indentation) with a closing `)`:
/// the variable is the first word inside the parentheses; a value follows it
/// unless nothing or only `PARENT_SCOPE` does.
pub open spec fn set_call(s: Seq<u8>) -> Option<SetModel> {
    let ind = skip_ws(s, 0);
    let t = s.subrange(ind, s.len() as int);
    if t.len() < 4 || !crate::text::ci_eq(t.subrange(0, 4), set_lit()) || byte_pos(t, 41u8, 0)
        >= t.len() {
        None
    } else {
        let ps = ind + byte_pos(t, 40u8, 0) + 1;
        let pe = ind + last_pos(t, 41u8, t.len() as int);
        let seg = s.subrange(ps, pe);
        let a = skip_ws(seg, 0);
        let inner = trim_end_seq(seg.subrange(a, seg.len() as int));
        if inner.len() == 0 {
            None
        } else {
            let ve = aws_pos(inner, 0);
            let av0 = inner.subrange(ve, inner.len() as int);
            let k = skip_ws(av0, 0);
            let av = av0.subrange(k, av0.len() as int);
            if av.len() == 0 || crate::text::ci_eq(
                av.subrange(0, aws_pos(av, 0)),
                "PARENT_SCOPE".spec_bytes(),
            ) {
                Some(SetModel { var_start: ps + a, var_len: ve, value_start: None })
            } else {
                Some(SetModel { var_start: ps + a, var_len: ve, value_start: Some(ps + a + ve + k) })
            }
        }
    }
}

/// The first four bytes after indentation end on a character boundary (the
/// check of the `set(` prefix cuts the line there).
pub open spec fn set_safe(s: Seq<u8>) -> bool {
    let t = trim_start_seq(s);
    t.len() < 4 || bnd(t, 4)
}

proof fn lemma_set_lit()
    ensures
        set_lit() == seq![115u8, 101u8, 116u8, 40u8],
{
    reveal_strlit("set(");
    let c = "set("@;
    assert(vstd::utf8::is_ascii_chars(c));
    vstd::utf8::is_ascii_chars_encode_utf8(c);
    assert(set_lit() =~= seq![115u8, 101u8, 116u8, 40u8]);
}

/// A one-line `set()` call of the formatted output.
#[derive(Debug, Clone, Copy)]
pub struct SetCallInfo {
    pub line_index: usize,
    /// Byte offset of the variable name within the line.
    pub var_start: usize,
    /// Length of the variable name.
    pub var_len: usize,
    /// Byte offset of the first value, if there is one to align.
    pub value_start: Option<usize>,
}

pub open spec fn set_info_matches(i: SetCallInfo, m: SetModel) -> bool {
    &&& i.var_start == m.var_start
    &&& i.var_len == m.var_len
    &&& match (i.value_start, m.value_start) {
        (Some(x), Some(y)) => x == y,
        (None, None) => true,
        _ => false,
    }
}

/// Positions found by `set_call` lie within the line, in order.
proof fn lemma_set_call_bounds(s: Seq<u8>)
    requires
        set_call(s) is Some,
    ensures
        1 <= set_call(s).unwrap().var_start,
        set_call(s).unwrap().var_start + set_call(s).unwrap().var_len <= s.len(),
        set_call(s).unwrap().var_len >= 0,
        match set_call(s).unwrap().value_start {
            Some(v) => set_call(s).unwrap().var_start + set_call(s).unwrap().var_len <= v <= s.len(),
            None => true,
        },
{
    let ind = skip_ws(s, 0);
    lemma_skip_ws_bounds(s, 0);
    let t = s.subrange(ind, s.len() as int);
    lemma_byte_pos_bounds(t, 41u8, 0);
    lemma_byte_pos_bounds(t, 40u8, 0);
    lemma_set_lit();
    assert(t[3] == 40u8) by {
        assert(t.subrange(0, 4)[3] == t[3]);
    }
    lemma_byte_pos_at_most(t, 40u8, 3);
    let cp = byte_pos(t, 41u8, 0);
    assert(cp >= 4) by {
        if cp < 4 {
            assert(t.subrange(0, 4)[cp] == t[cp]);
            lemma_byte_pos_found_is(t, 41u8);
        }
    }
    lemma_byte_pos_found_is(t, 41u8);
    lemma_last_pos(t, 41u8, t.len() as int, cp);
    let ps = ind + byte_pos(t, 40u8, 0) + 1;
    let pe = ind + last_pos(t, 41u8, t.len() as int);
    let seg = s.subrange(ps, pe);
    lemma_skip_ws_bounds(seg, 0);
    let a = skip_ws(seg, 0);
    let x = seg.subrange(a, seg.len() as int);
    lemma_back_ws_bounds(x, 0, x.len() as int);
    let inner = trim_end_seq(x);
    lemma_aws_pos(inner, 0);
    let ve = aws_pos(inner, 0);
    let av0 = inner.subrange(ve, inner.len() as int);
    lemma_skip_ws_bounds(av0, 0);
}

proof fn lemma_byte_pos_at_most(s: Seq<u8>, b: u8, k: int)
    requires
        0 <= k < s.len(),
        s[k] == b,
    ensures
        byte_pos(s, b, 0) <= k,
{
    lemma_byte_pos_le(s, b, 0, k);
}

proof fn lemma_byte_pos_le(s: Seq<u8>, b: u8, j: int, k: int)
    requires
        0 <= j <= k < s.len(),
        s[k] == b,
    ensures
        byte_pos(s, b, j) <= k,
    decreases k - j,
{
    if j < k && s[j] != b {
        lemma_byte_pos_le(s, b, j + 1, k);
    }
}

proof fn lemma_byte_pos_found_is(s: Seq<u8>, b: u8)
    ensures
        byte_pos(s, b, 0) < s.len() ==> s[byte_pos(s, b, 0)] == b,
{
    lemma_byte_pos_is(s, b, 0);
}

pub proof fn lemma_byte_pos_is(s: Seq<u8>, b: u8, j: int)
    requires
        0 <= j,
    ensures
        byte_pos(s, b, j) < s.len() ==> s[byte_pos(s, b, j)] == b,
    decreases s.len() - j,
{
    if j < s.len() && s[j] != b {
        lemma_byte_pos_is(s, b, j + 1);
    }
}

/// Finds a one-line `set()` call and where its variable and value stand.
pub fn parse_set_call_bytes(line: &[u8]) -> (r: Option<SetCallInfo>)
    requires
        set_safe(line@),
    ensures
        match (r, set_call(line@)) {
            (Some(i), Some(m)) => set_info_matches(i, m),
            (None, None) => true,
            _ => false,
        },
{
    let ind = skip_ws_exec(line, 0);
    let t = &line[ind..line.len()];
    if t.len() < 4 {
        return None;
    }
    if !crate::text::eq_ci(&t[0..4], "set(".as_bytes()) {
        return None;
    }
    if byte_pos_exec(t, 41u8) >= t.len() {
        return None;
    }
    proof {
        lemma_set_call_shape(line@);
    }
    let fp = byte_pos_exec(t, 40u8);
    let ps = ind + fp + 1;
    let lp = match last_pos_exec(t, 41u8) {
        Some(x) => x,
        None => {
            return None;
        },
    };
    let pe = ind + lp;
    let seg = &line[ps..pe];
    let a = skip_ws_exec(seg, 0);
    let inner = crate::text::trim_end(&seg[a..seg.len()]);
    proof {
        let x = seg@.subrange(a as int, seg@.len() as int);
        lemma_back_ws_bounds(x, 0, x.len() as int);
        assert(inner@.len() <= seg@.len() - a);
    }
    if inner.len() == 0 {
        return None;
    }
    let ve = aws_pos_exec(inner, 0);
    let av0 = &inner[ve..inner.len()];
    let k = skip_ws_exec(av0, 0);
    let av = &av0[k..av0.len()];
    if av.len() == 0 {
        return Some(SetCallInfo { line_index: 0, var_start: ps + a, var_len: ve, value_start: None });
    }
    let st = aws_pos_exec(av, 0);
    if crate::text::eq_ci(&av[0..st], "PARENT_SCOPE".as_bytes()) {
        return Some(SetCallInfo { line_index: 0, var_start: ps + a, var_len: ve, value_start: None });
    }
    Some(SetCallInfo { line_index: 0, var_start: ps + a, var_len: ve, value_start: Some(ps + a + ve + k) })
}

/// Facts about the parentheses of a line that starts like a `set()` call.
proof fn lemma_set_call_shape(s: Seq<u8>)
    requires
        ({
            let ind = skip_ws(s, 0);
            let t = s.subrange(ind, s.len() as int);
            t.len() >= 4 && crate::text::ci_eq(t.subrange(0, 4), set_lit()) && byte_pos(t, 41u8, 0) < t.len()
        }),
    ensures
        ({
            let ind = skip_ws(s, 0);
            let t = s.subrange(ind, s.len() as int);
            &&& 0 <= ind <= s.len()
            &&& byte_pos(t, 40u8, 0) <= 3
            &&& 4 <= last_pos(t, 41u8, t.len() as int) < t.len()
            &&& t[last_pos(t, 41u8, t.len() as int)] == 41u8
        }),
{
    let ind = skip_ws(s, 0);
    lemma_skip_ws_bounds(s, 0);
    let t = s.subrange(ind, s.len() as int);
    lemma_set_lit();
    assert(t[3] == 40u8) by {
        assert(t.subrange(0, 4)[3] == t[3]);
    }
    lemma_byte_pos_at_most(t, 40u8, 3);
    lemma_byte_pos_bounds(t, 41u8, 0);
    let cp = byte_pos(t, 41u8, 0);
    lemma_byte_pos_found_is(t, 41u8);
    assert(cp >= 4) by {
        if cp < 4 {
            assert(t.subrange(0, 4)[cp] == t[cp]);
        }
    }
    lemma_last_pos(t, 41u8, t.len() as int, cp);
}

/// Finds a one-line `set()` call and where its variable and value stand.
pub fn parse_set_call(line: &str) -> (r: Option<SetCallInfo>)
    requires
        set_safe(line.spec_bytes()),
    ensures
        match (r, set_call(line.spec_bytes())) {
            (Some(i), Some(m)) => set_info_matches(i, m),
            (None, None) => true,
            _ => false,
        },
{
    parse_set_call_bytes(line.as_bytes())
}

/// In valid UTF-8, the end of the variable name and the start of the value
/// are character boundaries.
proof fn lemma_set_call_bnd(s: Seq<u8>)
    requires
        vstd::utf8::valid_utf8(s),
        set_call(s) is Some,
    ensures
        bnd(s, set_call(s).unwrap().var_start + set_call(s).unwrap().var_len),
        set_call(s).unwrap().value_start matches Some(v) ==> bnd(s, v),
{
    lemma_set_call_bounds(s);
    lemma_set_call_shape(s);
    let ind = skip_ws(s, 0);
    lemma_skip_ws_bounds(s, 0);
    lemma_skip_ws_bnd(s, 0);
    let t = s.subrange(ind, s.len() as int);
    let fp = byte_pos(t, 40u8, 0);
    lemma_byte_pos_found_is(t, 40u8);
    lemma_byte_pos_bounds(t, 40u8, 0);
    let lp = last_pos(t, 41u8, t.len() as int);
    let ps = ind + fp + 1;
    let pe = ind + lp;
    assert(s[ind + fp] == t[fp]);
    lemma_bnd_step(s, ind + fp);
    assert(bnd(s, ps));
    assert(s[pe] == t[lp]);
    assert(bnd(s, pe));
    lemma_valid_between(s, ps, pe);
    let seg = s.subrange(ps, pe);
    lemma_skip_ws_bounds(seg, 0);
    lemma_skip_ws_bnd(seg, 0);
    let a = skip_ws(seg, 0);
    assert(bnd(s, ps + a)) by {
        if a < seg.len() {
            assert(seg[a] == s[ps + a]);
        }
    }
    lemma_valid_between(seg, a, seg.len() as int);
    let x = seg.subrange(a, seg.len() as int);
    lemma_back_ws_bounds(x, 0, x.len() as int);
    lemma_back_ws_bnd(x, 0, x.len() as int);
    let e = crate::text::back_ws(x, 0, x.len() as int);
    let inner = x.subrange(0, e);
    assert(bnd(s, ps + a + e)) by {
        if e < x.len() {
            assert(x[e] == s[ps + a + e]);
        }
    }
    lemma_aws_pos(inner, 0);
    let ve = aws_pos(inner, 0);
    lemma_aws_pos_is(inner, 0);
    assert(bnd(s, ps + a + ve)) by {
        if ve < inner.len() {
            assert(inner[ve] == s[ps + a + ve]);
        }
    }
    let av0 = inner.subrange(ve, inner.len() as int);
    lemma_valid_between(x, 0, e);
    assert(bnd(inner, ve)) by {
        if ve < inner.len() {
            assert(inner[ve] == s[ps + a + ve]);
        }
    }
    lemma_valid_between(inner, ve, inner.len() as int);
    lemma_skip_ws_bounds(av0, 0);
    lemma_skip_ws_bnd(av0, 0);
    let k = skip_ws(av0, 0);
    if k < av0.len() {
        assert(av0[k] == s[ps + a + ve + k]);
    }
}

proof fn lemma_aws_pos_is(s: Seq<u8>, i: int)
    requires
        0 <= i <= s.len(),
    ensures
        aws_pos(s, i) < s.len() ==> is_aws(s[aws_pos(s, i)]),
    decreases s.len() - i,
{
    if i < s.len() && !is_aws(s[i]) {
        lemma_aws_pos_is(s, i + 1);
    }
}

/// Widest variable name among the calls of a group that have a value.
pub open spec fn set_max(g: Seq<(int, SetModel)>) -> int
    decreases g.len(),
{
    if g.len() == 0 {
        0
    } else {
        let m = set_max(g.drop_last());
        let x = g.last().1;
        if x.value_start is Some && x.var_len > m {
            x.var_len
        } else {
            m
        }
    }
}

/// The line with its value moved to one column past the widest name.
pub open spec fn set_rebuilt(line: Seq<u8>, m: SetModel, mx: int) -> Seq<u8> {
    line.subrange(0, m.var_start + m.var_len) + spaces((mx - m.var_len + 1) as nat)
        + line.subrange(m.value_start.unwrap(), line.len() as int)
}

pub open spec fn apply_sets(ls: Seq<Seq<u8>>, g: Seq<(int, SetModel)>, k: int, mx: int) -> Seq<
    Seq<u8>,
>
    decreases g.len() - k,
{
    if k < 0 || k >= g.len() {
        ls
    } else {
        let (idx, m) = g[k];
        let ls2 = if m.value_start is Some {
            ls.update(idx, set_rebuilt(ls[idx], m, mx))
        } else {
            ls
        };
        apply_sets(ls2, g, k + 1, mx)
    }
}

/// The lines of a group of `set()` calls with their values aligned.
pub open spec fn set_alignment(ls: Seq<Seq<u8>>, g: Seq<(int, SetModel)>) -> Seq<Seq<u8>> {
    let mx = set_max(g);
    if mx == 0 {
        ls
    } else {
        apply_sets(ls, g, 0, mx)
    }
}

/// The group holds, for increasing line indices, what `set_call` finds there.
pub open spec fn group_fits(ls: Seq<Seq<u8>>, g: Seq<(int, SetModel)>) -> bool {
    &&& forall|k: int| 0 <= k < g.len() ==> 0 <= (#[trigger] g[k]).0 < ls.len() && set_call(ls[g[k].0]) == Some(g[k].1)
    &&& forall|a: int, b: int| 0 <= a < b < g.len() ==> (#[trigger] g[a]).0 < (#[trigger] g[b]).0
}

pub open spec fn infos_match(v: Seq<SetCallInfo>, g: Seq<(int, SetModel)>) -> bool {
    v.len() == g.len() && forall|k: int|
        0 <= k < v.len() ==> (#[trigger] v[k]).line_index == g[k].0 && set_info_matches(
            v[k],
            g[k].1,
        )
}

proof fn lemma_set_max(g: Seq<(int, SetModel)>)
    ensures
        set_max(g) >= 0,
        forall|k: int|
            0 <= k < g.len() && (#[trigger] g[k]).1.value_start is Some ==> g[k].1.var_len <= set_max(g),
        set_max(g) == 0 || exists|k: int| 0 <= k < g.len() && (#[trigger] g[k]).1.value_start is Some && g[k].1.var_len == set_max(g),
    decreases g.len(),
{
    if g.len() > 0 {
        lemma_set_max(g.drop_last());
        assert forall|k: int|
            0 <= k < g.len() && (#[trigger] g[k]).1.value_start is Some implies g[k].1.var_len <= set_max(g) by {
            if k < g.len() - 1 {
                assert(g[k] == g.drop_last()[k]);
            }
        }
        if set_max(g) != 0 {
            if set_max(g) == set_max(g.drop_last()) {
                let k = choose|k: int| 0 <= k < g.drop_last().len() && (#[trigger] g.drop_last()[k]).1.value_start is Some && g.drop_last()[k].1.var_len == set_max(g.drop_last());
                assert(g[k] == g.drop_last()[k]);
            } else {
                assert(g[g.len() - 1] == g.last());
            }
        }
    }
}

/// The group's line indices are increasing and within `n` lines.
pub open spec fn indices_ok(n: int, g: Seq<(int, SetModel)>) -> bool {
    &&& forall|k: int| 0 <= k < g.len() ==> 0 <= (#[trigger] g[k]).0 < n
    &&& forall|a: int, b: int| 0 <= a < b < g.len() ==> (#[trigger] g[a]).0 < (#[trigger] g[b]).0
}

/// Applying the group from `k` on changes only the lines of those calls.
proof fn lemma_apply_sets(ls: Seq<Seq<u8>>, g: Seq<(int, SetModel)>, k: int, mx: int)
    requires
        0 <= k <= g.len(),
        indices_ok(ls.len() as int, g),
    ensures
        apply_sets(ls, g, k, mx).len() == ls.len(),
        forall|j: int|
            0 <= j < ls.len() && (forall|t: int| k <= t < g.len() ==> (#[trigger] g[t]).0 != j)
                ==> apply_sets(ls, g, k, mx)[j] == ls[j],
    decreases g.len() - k,
{
    if k < g.len() {
        let (idx, m) = g[k];
        let ls2 = if m.value_start is Some {
            ls.update(idx, set_rebuilt(ls[idx], m, mx))
        } else {
            ls
        };
        lemma_apply_sets(ls2, g, k + 1, mx);
        assert(apply_sets(ls, g, k, mx) == apply_sets(ls2, g, k + 1, mx));
        assert forall|j: int|
            0 <= j < ls.len() && (forall|t: int| k <= t < g.len() ==> (#[trigger] g[t]).0 != j)
                implies apply_sets(ls, g, k, mx)[j] == ls[j] by {
            assert(g[k].0 != j);
            assert(ls2[j] == ls[j]);
            assert(forall|t: int| k + 1 <= t < g.len() ==> (#[trigger] g[t]).0 != j);
            assert(apply_sets(ls2, g, k + 1, mx)[j] == ls2[j]);
        }
    }
}

/// The bytes of a `String` are valid UTF-8.
proof fn lemma_string_valid(s: String)
    ensures
        vstd::utf8::valid_utf8(sbytes(s)),
{
    vstd::utf8::encode_utf8_valid_utf8(s@);
}

fn set_max_exec(group: &Vec<SetCallInfo>, Ghost(g): Ghost<Seq<(int, SetModel)>>) -> (r: usize)
    requires
        infos_match(group@, g),
    ensures
        r == set_max(g),
{
    let mut mx: usize = 0;
    let mut k: usize = 0;
    while k < group.len()
        invariant
            k <= group@.len(),
            infos_match(group@, g),
            mx == set_max(g.take(k as int)),
        decreases group@.len() - k,
    {
        proof {
            assert(g.take(k + 1).drop_last() =~= g.take(k as int));
            assert(g.take(k + 1).last() == g[k as int]);
            assert(set_info_matches(group@[k as int], g[k as int].1));
        }
        let info = group[k];
        if info.value_start.is_some() && info.var_len > mx {
            mx = info.var_len;
        }
        k = k + 1;
    }
    proof {
        assert(g.take(group@.len() as int) =~= g);
    }
    mx
}

/// Moves the values of the group's calls to one column past the widest
/// variable name (calls without a value stay as they are).
pub fn apply_set_alignment(lines: &mut Vec<String>, group: &Vec<SetCallInfo>, Ghost(g): Ghost<Seq<(int, SetModel)>>)
    requires
        indices_ok(old(lines)@.len() as int, g),
        forall|k: int| 0 <= k < g.len() ==> set_call(string_views(old(lines)@)[(#[trigger] g[k]).0]) == Some(g[k].1),
        infos_match(group@, g),
    ensures
        string_views(final(lines)@) == set_alignment(string_views(old(lines)@), g),
{
    let mx = set_max_exec(group, Ghost(g));
    if mx == 0 {
        return;
    }
    let ghost ls0 = string_views(lines@);
    let mut k: usize = 0;
    proof {
        lemma_set_max(g);
    }
    while k < group.len()
        invariant
            k <= group@.len(),
            infos_match(group@, g),
            indices_ok(ls0.len() as int, g),
            forall|t: int| 0 <= t < g.len() ==> set_call(ls0[(#[trigger] g[t]).0]) == Some(g[t].1),
            mx == set_max(g),
            mx > 0,
            forall|t: int| 0 <= t < g.len() && (#[trigger] g[t]).1.value_start is Some ==> g[t].1.var_len <= mx,
            string_views(lines@).len() == ls0.len(),
            forall|t: int| k <= t < g.len() ==> string_views(lines@)[(#[trigger] g[t]).0] == ls0[g[t].0],
            apply_sets(string_views(lines@), g, k as int, mx as int) == apply_sets(ls0, g, 0, mx as int),
        decreases group@.len() - k,
    {
        let info = group[k];
        let ghost cur = string_views(lines@);
        let ghost m = g[k as int].1;
        let ghost idx = g[k as int].0;
        proof {
            assert(set_info_matches(group@[k as int], m));
            assert(info.line_index == idx);
        }
        match info.value_start {
            None => {},
            Some(vs) => {
                let i = info.line_index;
                let lb = lines[i].as_str().as_bytes();
                proof {
                    assert(lb@ == cur[idx]);
                    assert(cur[idx] == ls0[idx]);
                    lemma_set_call_bounds(lb@);
                    lemma_string_valid(lines@[i as int]);
                    lemma_set_call_bnd(lb@);
                }
                let ve = info.var_start + info.var_len;
                proof {
                    assert(g[k as int].1.value_start is Some);
                    assert(info.var_len <= mx);
                }
                let mut nb = line_copy(&lb[0..ve]);
                nb.push(32u8);
                proof {
                    assert(nb@ =~= lb@.subrange(0, ve as int) + spaces(1));
                }
                let extra = mx - info.var_len;
                let mut c: usize = 0;
                while c < extra
                    invariant
                        c <= extra,
                        ve <= lb@.len(),
                        nb@ == lb@.subrange(0, ve as int) + spaces((c + 1) as nat),
                    decreases extra - c,
                {
                    nb.push(32u8);
                    c = c + 1;
                    proof {
                        assert(nb@ =~= lb@.subrange(0, ve as int) + spaces((c + 1) as nat));
                    }
                }
                let ghost pad = extra + 1;
                push_bytes(&mut nb, &lb[vs..lb.len()]);
                proof {
                    assert(nb@ =~= set_rebuilt(cur[idx], m, mx as int));
                    lemma_valid_between(lb@, 0, ve as int);
                    lemma_valid_between(lb@, vs as int, lb@.len() as int);
                    crate::text::lemma_ascii_valid_utf8(spaces(pad as nat));
                    crate::text::lemma_valid_concat(lb@.subrange(0, ve as int), spaces(pad as nat));
                    crate::text::lemma_valid_concat(lb@.subrange(0, ve as int) + spaces(pad as nat), lb@.subrange(vs as int, lb@.len() as int));
                }
                let ns = string_of(nb.as_slice());
                lines[i] = ns;
                proof {
                    assert(string_views(lines@) =~= cur.update(idx, set_rebuilt(cur[idx], m, mx as int)));
                }
            },
        }
        proof {
            let nxt = string_views(lines@);
            assert(apply_sets(cur, g, k as int, mx as int) == apply_sets(nxt, g, k + 1, mx as int));
            assert forall|t: int| k + 1 <= t < g.len() implies nxt[(#[trigger] g[t]).0] == ls0[g[t].0] by {
                assert(g[k as int].0 < g[t].0);
            }
        }
        k = k + 1;
    }
}

/// A code line: not blank and not a standalone comment.
pub open spec fn code_line(l: Seq<u8>) -> bool {
    trim_seq(l).len() > 0 && trim_seq(l)[0] != 35u8
}

pub open spec fn in_set_group(ls: Seq<Seq<u8>>, cs: Seq<LineConfig>, j: int) -> bool {
    cs[j].align_consecutive_set && code_line(ls[j]) && set_call(ls[j]) is Some
}

/// End of a run of consecutive one-line `set()` calls from line `j`.
pub open spec fn set_group_end(ls: Seq<Seq<u8>>, cs: Seq<LineConfig>, j: int) -> int
    decreases ls.len() - j,
{
    if 0 <= j < ls.len() && j < cs.len() && in_set_group(ls, cs, j) {
        set_group_end(ls, cs, j + 1)
    } else {
        j
    }
}

pub proof fn lemma_set_group_end(ls: Seq<Seq<u8>>, cs: Seq<LineConfig>, j: int)
    requires
        0 <= j <= ls.len(),
    ensures
        j <= set_group_end(ls, cs, j) <= ls.len(),
        j <= cs.len() ==> set_group_end(ls, cs, j) <= cs.len(),
        forall|k: int| j <= k < set_group_end(ls, cs, j) ==> in_set_group(ls, cs, k) && k < cs.len(),
    decreases ls.len() - j,
{
    if j < ls.len() && j < cs.len() && in_set_group(ls, cs, j) {
        lemma_set_group_end(ls, cs, j + 1);
        assert forall|k: int| j <= k < set_group_end(ls, cs, j) implies in_set_group(ls, cs, k)
            && k < cs.len() by {
            if k > j {
                assert(j + 1 <= k < set_group_end(ls, cs, j + 1));
            }
        }
    }
}

/// The calls of lines `i..e`, with their line indices.
pub open spec fn group_models(ls: Seq<Seq<u8>>, i: int, e: int) -> Seq<(int, SetModel)>
    decreases e - i,
{
    if i < 0 || i >= e || e > ls.len() {
        seq![]
    } else {
        group_models(ls, i, e - 1).push((e - 1, set_call(ls[e - 1]).unwrap()))
    }
}

proof fn lemma_group_models(ls: Seq<Seq<u8>>, i: int, e: int)
    requires
        0 <= i <= e <= ls.len(),
    ensures
        group_models(ls, i, e).len() == e - i,
        forall|t: int| 0 <= t < e - i ==> (#[trigger] group_models(ls, i, e)[t]).0 == i + t
            && group_models(ls, i, e)[t].1 == set_call(ls[i + t]).unwrap(),
        indices_ok(ls.len() as int, group_models(ls, i, e)),
    decreases e - i,
{
    if i < e {
        lemma_group_models(ls, i, e - 1);
        let g = group_models(ls, i, e);
        assert forall|t: int| 0 <= t < e - i implies (#[trigger] g[t]).0 == i + t && g[t].1
            == set_call(ls[i + t]).unwrap() by {
            if t < e - i - 1 {
                assert(g[t] == group_models(ls, i, e - 1)[t]);
            }
        }
    }
}

/// Aligns the values of each run of two or more consecutive one-line `set()`
/// calls from line `i` on, where the option is on.
pub open spec fn align_sets_from(ls: Seq<Seq<u8>>, cs: Seq<LineConfig>, i: int) -> Seq<Seq<u8>>
    decreases cs.len() - i,
{
    if i < 0 || i >= ls.len() || i >= cs.len() {
        ls
    } else if !cs[i].align_consecutive_set || set_call(ls[i]) is None {
        align_sets_from(ls, cs, i + 1)
    } else {
        let e = set_group_end(ls, cs, i + 1);
        proof {
            lemma_set_group_end(ls, cs, i + 1);
        }
        let g = group_models(ls, i, e);
        let ls2 = if g.len() >= 2 {
            set_alignment(ls, g)
        } else {
            ls
        };
        align_sets_from(ls2, cs, e)
    }
}

/// A line with a `set()` call is a code line.
proof fn lemma_set_call_code(s: Seq<u8>)
    requires
        set_call(s) is Some,
    ensures
        code_line(s),
{
    let ind = skip_ws(s, 0);
    lemma_skip_ws_bounds(s, 0);
    let t = s.subrange(ind, s.len() as int);
    lemma_set_lit();
    assert(t[0] == 115u8 || t[0] == 83u8) by {
        assert(t.subrange(0, 4)[0] == t[0]);
        assert(crate::text::lower(t[0]) == 115u8);
    }
    lemma_back_not_first(t, t.len() as int);
    lemma_back_ws_bounds(t, 0, t.len() as int);
    assert(trim_seq(s)[0] == t[0]);
}

proof fn lemma_back_not_first(t: Seq<u8>, j: int)
    requires
        1 <= j <= t.len(),
        t[0] == 115u8 || t[0] == 83u8,
    ensures
        crate::text::back_ws(t, 0, j) >= 1,
    decreases j,
{
    let w = crate::text::ws_len_before(t, j);
    if 0 < j && w > 0 && j - w >= 0 {
        if j - w == 0 {
            assert(false);
        } else {
            lemma_back_not_first(t, j - w);
        }
    }
}

fn code_line_exec(l: &[u8]) -> (r: bool)
    ensures
        r == code_line(l@),
{
    let t = trim(l);
    t.len() > 0 && t[0] != 35u8
}

/// Aligns the values of runs of consecutive one-line `set()` calls; see
/// `align_sets_from`.
pub fn align_consecutive_set_lines(lines: &mut Vec<String>, configs: &[LineConfig])
    requires
        configs@.len() == old(lines)@.len(),
        forall|k: int|
            0 <= k < old(lines)@.len() && (#[trigger] configs@[k]).align_consecutive_set ==> set_safe(
                string_views(old(lines)@)[k],
            ),
    ensures
        string_views(final(lines)@) == align_sets_from(string_views(old(lines)@), configs@, 0),
        final(lines)@.len() == old(lines)@.len(),
{
    let ghost ls0 = string_views(lines@);
    let ghost cs = configs@;
    let n = lines.len();
    let mut i: usize = 0;
    while i < n
        invariant
            n == lines@.len(),
            cs == configs@,
            cs.len() == n,
            string_views(lines@).len() == n,
            forall|k: int| i <= k < n ==> #[trigger] string_views(lines@)[k] == ls0[k],
            forall|k: int| 0 <= k < n && (#[trigger] cs[k]).align_consecutive_set ==> set_safe(ls0[k]),
            i <= n,
            align_sets_from(string_views(lines@), cs, i as int) == align_sets_from(ls0, cs, 0),
        decreases n - i,
    {
        let ghost cur = string_views(lines@);
        if !configs[i].align_consecutive_set {
            i = i + 1;
            continue;
        }
        proof {
            assert(cur[i as int] == ls0[i as int]);
        }
        let first = parse_set_call(lines[i].as_str());
        match first {
            None => {
                i = i + 1;
            },
            Some(info0) => {
                let mut group: Vec<SetCallInfo> = Vec::new();
                let mut info = info0;
                info.line_index = i;
                group.push(info);
                let start = i;
                let mut j = i + 1;
                proof {
                    lemma_group_models(cur, start as int, j as int);
                    assert(group_models(cur, start as int, j as int)[0].1 == set_call(cur[start as int]).unwrap());
                }
                while j < n
                    invariant
                        n == lines@.len(),
                        cs == configs@,
                        cs.len() == n,
                        cur == string_views(lines@),
                        cur.len() == n,
                        forall|k: int| start <= k < n ==> #[trigger] cur[k] == ls0[k],
                        forall|k: int| 0 <= k < n && (#[trigger] cs[k]).align_consecutive_set ==> set_safe(ls0[k]),
                        start < j <= n,
                        set_group_end(cur, cs, j as int) == set_group_end(cur, cs, start + 1),
                        infos_match(group@, group_models(cur, start as int, j as int)),
                    ensures
                        start < j <= n,
                        set_group_end(cur, cs, j as int) == j as int,
                        set_group_end(cur, cs, j as int) == set_group_end(cur, cs, start + 1),
                        infos_match(group@, group_models(cur, start as int, j as int)),
                    decreases n - j,
                {
                    proof {
                        assert(cur[j as int] == ls0[j as int]);
                    }
                    if !configs[j].align_consecutive_set {
                        break;
                    }
                    if !code_line_exec(lines[j].as_str().as_bytes()) {
                        break;
                    }
                    match parse_set_call(lines[j].as_str()) {
                        None => {
                            break;
                        },
                        Some(inf) => {
                            let mut inf = inf;
                            inf.line_index = j;
                            let ghost gm = group_models(cur, start as int, j as int);
                            group.push(inf);
                            j = j + 1;
                            proof {
                                lemma_group_models(cur, start as int, j as int);
                                assert(group_models(cur, start as int, j as int) == gm.push(((j - 1) as int, set_call(cur[j - 1]).unwrap())));
                            }
                        },
                    }
                }
                let ghost e = j as int;
                proof {
                    lemma_set_group_end(cur, cs, start + 1);
                    lemma_set_group_end(cur, cs, j as int);
                    assert(set_group_end(cur, cs, j as int) == j);
                    lemma_group_models(cur, start as int, e);
                }
                let ghost g = group_models(cur, start as int, e);
                if group.len() >= 2 {
                    proof {
                        assert forall|k: int| 0 <= k < g.len() implies set_call(string_views(lines@)[(#[trigger] g[k]).0]) == Some(g[k].1) by {
                            assert(g[k].0 == start + k);
                            if k == 0 {
                                assert(set_call(cur[start as int]) is Some);
                            } else {
                                lemma_set_group_end(cur, cs, start + 1);
                                assert(in_set_group(cur, cs, start + k));
                            }
                        }
                    }
                    apply_set_alignment(lines, &group, Ghost(g));
                }
                proof {
                    let nxt = string_views(lines@);
                    if g.len() >= 2 {
                        lemma_apply_sets(cur, g, 0, set_max(g));
                        assert forall|k: int| e <= k < n implies #[trigger] nxt[k] == ls0[k] by {
                            assert forall|t: int| 0 <= t < g.len() implies (#[trigger] g[t]).0 != k by {
                                assert(g[t].0 == start + t);
                            }
                            assert(cur[k] == ls0[k]);
                        }
                    }
                    assert(align_sets_from(cur, cs, start as int) == align_sets_from(nxt, cs, e));
                }
                i = j;
            },
        }
    }
}

/// Index of the first `#` from `i` on that is not inside a quoted string
/// (where a backslash escapes the next byte), or -1.
pub open spec fn comment_scan(s: Seq<u8>, i: int, in_quote: bool) -> int
    decreases s.len() - i,
{
    if i < 0 || i >= s.len() {
        -1
    } else if s[i] == 34u8 {
        comment_scan(s, i + 1, !in_quote)
    } else if s[i] == 92u8 && in_quote && i + 1 < s.len() {
        comment_scan(s, i + 2, in_quote)
    } else if s[i] == 35u8 && !in_quote {
        i
    } else {
        comment_scan(s, i + 1, in_quote)
    }
}

proof fn lemma_comment_scan(s: Seq<u8>, i: int, q: bool)
    requires
        0 <= i,
    ensures
        comment_scan(s, i, q) == -1 || (i <= comment_scan(s, i, q) < s.len() && s[comment_scan(s, i, q)] == 35u8),
    decreases s.len() - i,
{
    if i < s.len() {
        if s[i] == 34u8 {
            lemma_comment_scan(s, i + 1, !q);
        } else if s[i] == 92u8 && q && i + 1 < s.len() {
            lemma_comment_scan(s, i + 2, q);
        } else if !(s[i] == 35u8 && !q) {
            lemma_comment_scan(s, i + 1, q);
        }
    }
}

/// A trailing comment: the length of the code before it (without trailing
/// whitespace), the indentation of the line, and the comment from its `#`.
pub ghost struct TrailingModel {
    pub code_len: int,
    pub indent_level: int,
    pub comment: Seq<u8>,
}

/// The trailing comment of a code line, if it has one outside strings.
pub open spec fn trailing_comment(s: Seq<u8>) -> Option<TrailingModel> {
    let t = trim_seq(s);
    if t.len() == 0 || t[0] == 35u8 {
        None
    } else {
        let cs = comment_scan(s, 0, false);
        if cs < 0 {
            None
        } else {
            let code = trim_end_seq(s.subrange(0, cs));
            if code.len() == 0 {
                None
            } else {
                Some(
                    TrailingModel {
                        code_len: code.len() as int,
                        indent_level: skip_ws(s, 0),
                        comment: s.subrange(cs, s.len() as int),
                    },
                )
            }
        }
    }
}

/// A line's trailing comment and where it stands.
#[derive(Debug)]
pub struct TrailingCommentInfo {
    /// Length of the code before the comment, without trailing whitespace.
    pub code_len: usize,
    /// Bytes of indentation of the line.
    pub indent_level: usize,
    /// The comment, from `#` to the end of the line.
    pub comment: String,
}

pub open spec fn tc_matches(i: TrailingCommentInfo, m: TrailingModel) -> bool {
    i.code_len == m.code_len && i.indent_level == m.indent_level && sbytes(i.comment) == m.comment
}

fn comment_scan_exec(s: &[u8]) -> (r: Option<usize>)
    ensures
        match r {
            Some(x) => x as int == comment_scan(s@, 0, false),
            None => comment_scan(s@, 0, false) == -1,
        },
{
    let n = s.len();
    let mut in_quote = false;
    let mut i: usize = 0;
    while i < n
        invariant
            n == s@.len(),
            i <= n + 1,
            comment_scan(s@, i as int, in_quote) == comment_scan(s@, 0, false),
        decreases n + 1 - i,
    {
        let b = s[i];
        if b == 34u8 {
            in_quote = !in_quote;
            i = i + 1;
        } else if b == 92u8 && in_quote && i + 1 < n {
            i = i + 2;
        } else if b == 35u8 && !in_quote {
            proof {
                lemma_comment_scan(s@, 0, false);
            }
            return Some(i);
        } else {
            i = i + 1;
        }
    }
    None
}

/// The trailing comment of a code line (one not inside a quoted string).
pub fn parse_trailing_comment(line: &str) -> (r: Option<TrailingCommentInfo>)
    ensures
        match (r, trailing_comment(line.spec_bytes())) {
            (Some(i), Some(m)) => tc_matches(i, m),
            (None, None) => true,
            _ => false,
        },
{
    let s = line.as_bytes();
    let t = trim(s);
    if t.len() == 0 || t[0] == 35u8 {
        return None;
    }
    let indent = skip_ws_exec(s, 0);
    let cs = match comment_scan_exec(s) {
        None => {
            return None;
        },
        Some(c) => c,
    };
    proof {
        lemma_comment_scan(s@, 0, false);
    }
    let code = crate::text::trim_end(&s[0..cs]);
    if code.len() == 0 {
        return None;
    }
    proof {
        lemma_str_valid(line);
        assert(bnd(s@, cs as int));
        lemma_valid_between(s@, cs as int, s@.len() as int);
    }
    let comment = string_of(&s[cs..s.len()]);
    Some(TrailingCommentInfo { code_len: code.len(), indent_level: indent, comment })
}

/// The widest code among the lines of a group.
pub open spec fn tc_max(g: Seq<(int, TrailingModel)>) -> int
    decreases g.len(),
{
    if g.len() == 0 {
        0
    } else {
        let m = tc_max(g.drop_last());
        if g.last().1.code_len > m {
            g.last().1.code_len
        } else {
            m
        }
    }
}

/// The line with its comment moved to column `col`.
pub open spec fn tc_rebuilt(line: Seq<u8>, m: TrailingModel, col: int) -> Seq<u8> {
    line.subrange(0, m.code_len) + spaces((col - m.code_len) as nat) + m.comment
}

pub open spec fn apply_tcs(ls: Seq<Seq<u8>>, g: Seq<(int, TrailingModel)>, k: int, col: int) -> Seq<
    Seq<u8>,
>
    decreases g.len() - k,
{
    if k < 0 || k >= g.len() {
        ls
    } else {
        let (idx, m) = g[k];
        apply_tcs(ls.update(idx, tc_rebuilt(ls[idx], m, col)), g, k + 1, col)
    }
}

/// The lines of a group with their comments in one column: `gap` past the
/// widest code.
pub open spec fn tc_alignment(ls: Seq<Seq<u8>>, g: Seq<(int, TrailingModel)>, gap: int) -> Seq<Seq<u8>> {
    apply_tcs(ls, g, 0, tc_max(g) + gap)
}

pub open spec fn tc_indices_ok(n: int, g: Seq<(int, TrailingModel)>) -> bool {
    &&& forall|k: int| 0 <= k < g.len() ==> 0 <= (#[trigger] g[k]).0 < n
    &&& forall|a: int, b: int| 0 <= a < b < g.len() ==> (#[trigger] g[a]).0 < (#[trigger] g[b]).0
}

proof fn lemma_apply_tcs(ls: Seq<Seq<u8>>, g: Seq<(int, TrailingModel)>, k: int, col: int)
    requires
        0 <= k <= g.len(),
        tc_indices_ok(ls.len() as int, g),
    ensures
        apply_tcs(ls, g, k, col).len() == ls.len(),
        forall|j: int|
            0 <= j < ls.len() && (forall|t: int| k <= t < g.len() ==> (#[trigger] g[t]).0 != j)
                ==> apply_tcs(ls, g, k, col)[j] == ls[j],
    decreases g.len() - k,
{
    if k < g.len() {
        let (idx, m) = g[k];
        let ls2 = ls.update(idx, tc_rebuilt(ls[idx], m, col));
        lemma_apply_tcs(ls2, g, k + 1, col);
        assert(apply_tcs(ls, g, k, col) == apply_tcs(ls2, g, k + 1, col));
        assert forall|j: int|
            0 <= j < ls.len() && (forall|t: int| k <= t < g.len() ==> (#[trigger] g[t]).0 != j)
                implies apply_tcs(ls, g, k, col)[j] == ls[j] by {
            assert(g[k].0 != j);
            assert(ls2[j] == ls[j]);
            assert(forall|t: int| k + 1 <= t < g.len() ==> (#[trigger] g[t]).0 != j);
            assert(apply_tcs(ls2, g, k + 1, col)[j] == ls2[j]);
        }
    }
}

proof fn lemma_tc_max(g: Seq<(int, TrailingModel)>)
    ensures
        tc_max(g) >= 0,
        forall|k: int| 0 <= k < g.len() ==> (#[trigger] g[k]).1.code_len <= tc_max(g),
        tc_max(g) == 0 || exists|k: int| 0 <= k < g.len() && (#[trigger] g[k]).1.code_len == tc_max(g),
    decreases g.len(),
{
    if g.len() > 0 {
        lemma_tc_max(g.drop_last());
        assert forall|k: int| 0 <= k < g.len() implies (#[trigger] g[k]).1.code_len <= tc_max(g) by {
            if k < g.len() - 1 {
                assert(g[k] == g.drop_last()[k]);
            }
        }
        if tc_max(g) != 0 {
            if tc_max(g) == tc_max(g.drop_last()) {
                let k = choose|k: int| 0 <= k < g.drop_last().len() && (#[trigger] g.drop_last()[k]).1.code_len == tc_max(g.drop_last());
                assert(g[k] == g.drop_last()[k]);
            } else {
                assert(g[g.len() - 1] == g.last());
            }
        }
    }
}

pub open spec fn tcs_match(v: Seq<(usize, TrailingCommentInfo)>, g: Seq<(int, TrailingModel)>) -> bool {
    v.len() == g.len() && forall|k: int|
        0 <= k < v.len() ==> (#[trigger] v[k]).0 == g[k].0 && tc_matches(v[k].1, g[k].1)
}

/// The code of a line with a trailing comment ends at a character boundary.
proof fn lemma_tc_bnd(s: Seq<u8>)
    requires
        trailing_comment(s) is Some,
    ensures
        bnd(s, trailing_comment(s).unwrap().code_len),
        trailing_comment(s).unwrap().code_len <= s.len(),
{
    lemma_comment_scan(s, 0, false);
    let cs = comment_scan(s, 0, false);
    let x = s.subrange(0, cs);
    lemma_back_ws_bounds(x, 0, x.len() as int);
    lemma_back_ws_bnd(x, 0, x.len() as int);
    let e = crate::text::back_ws(x, 0, x.len() as int);
    if e < x.len() {
        assert(x[e] == s[e]);
    }
}

fn tc_max_exec(group: &Vec<(usize, TrailingCommentInfo)>, Ghost(g): Ghost<Seq<(int, TrailingModel)>>) -> (r: usize)
    requires
        tcs_match(group@, g),
    ensures
        r == tc_max(g),
{
    let mut mx: usize = 0;
    let mut k: usize = 0;
    while k < group.len()
        invariant
            k <= group@.len(),
            tcs_match(group@, g),
            mx == tc_max(g.take(k as int)),
        decreases group@.len() - k,
    {
        proof {
            assert(g.take(k + 1).drop_last() =~= g.take(k as int));
            assert(g.take(k + 1).last() == g[k as int]);
            assert(tc_matches(group@[k as int].1, g[k as int].1));
        }
        let c = group[k].1.code_len;
        if c > mx {
            mx = c;
        }
        k = k + 1;
    }
    proof {
        assert(g.take(group@.len() as int) =~= g);
    }
    mx
}

/// Moves the comments of a group of lines to one column, `comment_gap` past
/// the widest code.
pub fn apply_trailing_comment_alignment(
    lines: &mut Vec<String>,
    group: &Vec<(usize, TrailingCommentInfo)>,
    comment_gap: u8,
    Ghost(g): Ghost<Seq<(int, TrailingModel)>>,
)
    requires
        tc_indices_ok(old(lines)@.len() as int, g),
        forall|k: int| 0 <= k < g.len() ==> trailing_comment(string_views(old(lines)@)[(#[trigger] g[k]).0]) == Some(g[k].1),
        tcs_match(group@, g),
        tc_max(g) + 256 < usize::MAX,
    ensures
        string_views(final(lines)@) == tc_alignment(string_views(old(lines)@), g, comment_gap as int),
{
    let mx = tc_max_exec(group, Ghost(g));
    let col = mx + comment_gap as usize;
    let ghost ls0 = string_views(lines@);
    proof {
        lemma_tc_max(g);
    }
    let mut k: usize = 0;
    while k < group.len()
        invariant
            k <= group@.len(),
            tcs_match(group@, g),
            tc_indices_ok(ls0.len() as int, g),
            forall|t: int| 0 <= t < g.len() ==> trailing_comment(ls0[(#[trigger] g[t]).0]) == Some(g[t].1),
            col == tc_max(g) + comment_gap,
            forall|t: int| 0 <= t < g.len() ==> (#[trigger] g[t]).1.code_len <= tc_max(g),
            string_views(lines@).len() == ls0.len(),
            forall|t: int| k <= t < g.len() ==> string_views(lines@)[(#[trigger] g[t]).0] == ls0[g[t].0],
            apply_tcs(string_views(lines@), g, k as int, col as int) == apply_tcs(ls0, g, 0, col as int),
        decreases group@.len() - k,
    {
        let ghost cur = string_views(lines@);
        let ghost m = g[k as int].1;
        let ghost idx = g[k as int].0;
        let e = &group[k];
        let i = e.0;
        proof {
            assert(tc_matches(group@[k as int].1, m));
            assert(i == idx);
        }
        let lb = lines[i].as_str().as_bytes();
        proof {
            assert(lb@ == cur[idx]);
            assert(cur[idx] == ls0[idx]);
            lemma_tc_bnd(lb@);
            lemma_string_valid(lines@[i as int]);
            lemma_string_valid(e.1.comment);
        }
        let cl = e.1.code_len;
        let mut nb = line_copy(&lb[0..cl]);
        let pad = col - cl;
        let mut c: usize = 0;
        while c < pad
            invariant
                c <= pad,
                cl <= lb@.len(),
                nb@ == lb@.subrange(0, cl as int) + spaces(c as nat),
            decreases pad - c,
        {
            nb.push(32u8);
            c = c + 1;
            proof {
                assert(nb@ =~= lb@.subrange(0, cl as int) + spaces(c as nat));
            }
        }
        push_bytes(&mut nb, e.1.comment.as_str().as_bytes());
        proof {
            assert(nb@ =~= tc_rebuilt(cur[idx], m, col as int));
            lemma_valid_between(lb@, 0, cl as int);
            crate::text::lemma_ascii_valid_utf8(spaces(pad as nat));
            crate::text::lemma_valid_concat(lb@.subrange(0, cl as int), spaces(pad as nat));
            crate::text::lemma_valid_concat(lb@.subrange(0, cl as int) + spaces(pad as nat), m.comment);
        }
        let ns = string_of(nb.as_slice());
        lines[i] = ns;
        proof {
            let nxt = string_views(lines@);
            assert(nxt =~= cur.update(idx, tc_rebuilt(cur[idx], m, col as int)));
            assert(apply_tcs(cur, g, k as int, col as int) == apply_tcs(nxt, g, k + 1, col as int));
            assert forall|t: int| k + 1 <= t < g.len() implies nxt[(#[trigger] g[t]).0] == ls0[g[t].0] by {
                assert(g[k as int].0 < g[t].0);
            }
        }
        k = k + 1;
    }
}

pub open spec fn in_tc_group(ls: Seq<Seq<u8>>, cs: Seq<LineConfig>, j: int, indent: int) -> bool {
    cs[j].align_trailing_comments && trim_seq(ls[j]).len() > 0 && (trailing_comment(ls[j]) matches Some(m)
        && m.indent_level == indent)
}

/// End of a run of lines with trailing comments at indentation `indent`.
pub open spec fn tc_group_end(ls: Seq<Seq<u8>>, cs: Seq<LineConfig>, j: int, indent: int) -> int
    decreases ls.len() - j,
{
    if 0 <= j < ls.len() && j < cs.len() && in_tc_group(ls, cs, j, indent) {
        tc_group_end(ls, cs, j + 1, indent)
    } else {
        j
    }
}

pub proof fn lemma_tc_group_end(ls: Seq<Seq<u8>>, cs: Seq<LineConfig>, j: int, indent: int)
    requires
        0 <= j <= ls.len(),
    ensures
        j <= tc_group_end(ls, cs, j, indent) <= ls.len(),
        j <= cs.len() ==> tc_group_end(ls, cs, j, indent) <= cs.len(),
        forall|k: int|
            j <= k < tc_group_end(ls, cs, j, indent) ==> in_tc_group(ls, cs, k, indent) && k < cs.len(),
    decreases ls.len() - j,
{
    if j < ls.len() && j < cs.len() && in_tc_group(ls, cs, j, indent) {
        lemma_tc_group_end(ls, cs, j + 1, indent);
        assert forall|k: int| j <= k < tc_group_end(ls, cs, j, indent) implies in_tc_group(
            ls,
            cs,
            k,
            indent,
        ) && k < cs.len() by {
            if k > j {
                assert(j + 1 <= k < tc_group_end(ls, cs, j + 1, indent));
            }
        }
    }
}

/// The trailing comments of lines `i..e`, with their line indices.
pub open spec fn tc_models(ls: Seq<Seq<u8>>, i: int, e: int) -> Seq<(int, TrailingModel)>
    decreases e - i,
{
    if i < 0 || i >= e || e > ls.len() {
        seq![]
    } else {
        tc_models(ls, i, e - 1).push((e - 1, trailing_comment(ls[e - 1]).unwrap()))
    }
}

proof fn lemma_tc_models(ls: Seq<Seq<u8>>, i: int, e: int)
    requires
        0 <= i <= e <= ls.len(),
    ensures
        tc_models(ls, i, e).len() == e - i,
        forall|t: int| 0 <= t < e - i ==> (#[trigger] tc_models(ls, i, e)[t]).0 == i + t
            && tc_models(ls, i, e)[t].1 == trailing_comment(ls[i + t]).unwrap(),
        tc_indices_ok(ls.len() as int, tc_models(ls, i, e)),
    decreases e - i,
{
    if i < e {
        lemma_tc_models(ls, i, e - 1);
        let g = tc_models(ls, i, e);
        assert forall|t: int| 0 <= t < e - i implies (#[trigger] g[t]).0 == i + t && g[t].1
            == trailing_comment(ls[i + t]).unwrap() by {
            if t < e - i - 1 {
                assert(g[t] == tc_models(ls, i, e - 1)[t]);
            }
        }
    }
}

/// Aligns each run of two or more consecutive lines with trailing comments at
/// one indentation, from line `i` on, where the option is on.
pub open spec fn align_tcs_from(ls: Seq<Seq<u8>>, cs: Seq<LineConfig>, i: int) -> Seq<Seq<u8>>
    decreases cs.len() - i,
{
    if i < 0 || i >= ls.len() || i >= cs.len() {
        ls
    } else if !cs[i].align_trailing_comments || trailing_comment(ls[i]) is None {
        align_tcs_from(ls, cs, i + 1)
    } else {
        let m0 = trailing_comment(ls[i]).unwrap();
        let e = tc_group_end(ls, cs, i + 1, m0.indent_level);
        proof {
            lemma_tc_group_end(ls, cs, i + 1, m0.indent_level);
        }
        let g = tc_models(ls, i, e);
        let ls2 = if g.len() >= 2 {
            tc_alignment(ls, g, cs[i].comment_gap as int)
        } else {
            ls
        };
        align_tcs_from(ls2, cs, e)
    }
}

/// Aligns runs of trailing comments; see `align_tcs_from`.
pub fn align_trailing_comment_lines(lines: &mut Vec<String>, configs: &[LineConfig])
    requires
        configs@.len() == old(lines)@.len(),
        forall|k: int| 0 <= k < old(lines)@.len() ==> (#[trigger] string_views(old(lines)@)[k]).len() + 256 < usize::MAX,
    ensures
        string_views(final(lines)@) == align_tcs_from(string_views(old(lines)@), configs@, 0),
{
    let ghost ls0 = string_views(lines@);
    let ghost cs = configs@;
    let n = lines.len();
    let mut i: usize = 0;
    while i < n
        invariant
            n == lines@.len(),
            cs == configs@,
            cs.len() == n,
            string_views(lines@).len() == n,
            forall|k: int| i <= k < n ==> #[trigger] string_views(lines@)[k] == ls0[k],
            forall|k: int| 0 <= k < n ==> (#[trigger] ls0[k]).len() + 256 < usize::MAX,
            i <= n,
            align_tcs_from(string_views(lines@), cs, i as int) == align_tcs_from(ls0, cs, 0),
        decreases n - i,
    {
        let ghost cur = string_views(lines@);
        if !configs[i].align_trailing_comments {
            i = i + 1;
            continue;
        }
        proof {
            assert(cur[i as int] == ls0[i as int]);
        }
        match parse_trailing_comment(lines[i].as_str()) {
            None => {
                i = i + 1;
            },
            Some(first) => {
                let indent = first.indent_level;
                let gap = configs[i].comment_gap;
                let start = i;
                let mut group: Vec<(usize, TrailingCommentInfo)> = Vec::new();
                group.push((i, first));
                let mut j = i + 1;
                proof {
                    lemma_tc_models(cur, start as int, j as int);
                }
                while j < n
                    invariant
                        n == lines@.len(),
                        cs == configs@,
                        cs.len() == n,
                        cur == string_views(lines@),
                        cur.len() == n,
                        start < j <= n,
                        tc_group_end(cur, cs, j as int, indent as int) == tc_group_end(cur, cs, start + 1, indent as int),
                        tcs_match(group@, tc_models(cur, start as int, j as int)),
                    ensures
                        start < j <= n,
                        tc_group_end(cur, cs, j as int, indent as int) == j as int,
                        tc_group_end(cur, cs, j as int, indent as int) == tc_group_end(cur, cs, start + 1, indent as int),
                        tcs_match(group@, tc_models(cur, start as int, j as int)),
                    decreases n - j,
                {
                    if !configs[j].align_trailing_comments {
                        break;
                    }
                    if trim(lines[j].as_str().as_bytes()).len() == 0 {
                        break;
                    }
                    match parse_trailing_comment(lines[j].as_str()) {
                        None => {
                            break;
                        },
                        Some(info) => {
                            if info.indent_level != indent {
                                break;
                            }
                            let ghost gm = tc_models(cur, start as int, j as int);
                            group.push((j, info));
                            j = j + 1;
                            proof {
                                lemma_tc_models(cur, start as int, j as int);
                                assert(tc_models(cur, start as int, j as int) == gm.push(((j - 1) as int, trailing_comment(cur[j - 1]).unwrap())));
                            }
                        },
                    }
                }
                let ghost e = j as int;
                proof {
                    lemma_tc_group_end(cur, cs, start + 1, indent as int);
                    lemma_tc_models(cur, start as int, e);
                }
                let ghost g = tc_models(cur, start as int, e);
                if group.len() >= 2 {
                    proof {
                        assert forall|k: int| 0 <= k < g.len() implies trailing_comment(string_views(lines@)[(#[trigger] g[k]).0]) == Some(g[k].1) by {
                            assert(g[k].0 == start + k);
                            if k > 0 {
                                assert(in_tc_group(cur, cs, start + k, indent as int));
                            }
                        }
                        lemma_tc_max(g);
                        if tc_max(g) > 0 {
                            let k = choose|k: int| 0 <= k < g.len() && (#[trigger] g[k]).1.code_len == tc_max(g);
                            assert(g[k].0 == start + k);
                            lemma_tc_bnd(cur[start + k]);
                            assert(cur[start + k] == ls0[start + k]);
                        }
                    }
                    apply_trailing_comment_alignment(lines, &group, gap, Ghost(g));
                }
                proof {
                    let nxt = string_views(lines@);
                    if g.len() >= 2 {
                        lemma_apply_tcs(cur, g, 0, tc_max(g) + gap as int);
                        assert forall|k: int| e <= k < n implies #[trigger] nxt[k] == ls0[k] by {
                            assert forall|t: int| 0 <= t < g.len() implies (#[trigger] g[t]).0 != k by {
                                assert(g[t].0 == start + t);
                            }
                            assert(cur[k] == ls0[k]);
                        }
                    }
                    assert(align_tcs_from(cur, cs, start as int) == align_tcs_from(nxt, cs, e));
                }
                i = j;
            },
        }
    }
}

/// A line that the comment reflow rewrites: a standalone comment, not a
/// directive, where reflow is on.
pub open spec fn should_reflow(l: Seq<u8>, c: LineConfig) -> bool {
    c.comment_preservation == CommentPreservation::Reflow && standalone_comment(l) && !pragma_line(l)
}

fn should_reflow_exec(line: &str, c: &LineConfig) -> (r: bool)
    ensures
        r == should_reflow(line.spec_bytes(), *c),
{
    (match c.comment_preservation {
        CommentPreservation::Reflow => true,
        _ => false,
    }) && is_standalone_comment_line(line) && !is_pragma_comment_line(line)
}

/// End of a block of reflowable lines from `j` that share the comment width `w`.
pub open spec fn reflow_run_end(ls: Seq<Seq<u8>>, cs: Seq<LineConfig>, j: int, w: u32) -> int
    decreases ls.len() - j,
{
    if 0 <= j < ls.len() && j < cs.len() && should_reflow(ls[j], cs[j]) && cs[j].comment_width == w {
        reflow_run_end(ls, cs, j + 1, w)
    } else {
        j
    }
}

pub proof fn lemma_reflow_run_end(ls: Seq<Seq<u8>>, cs: Seq<LineConfig>, j: int, w: u32)
    requires
        0 <= j <= ls.len(),
    ensures
        j <= reflow_run_end(ls, cs, j, w) <= ls.len(),
    decreases ls.len() - j,
{
    if j < ls.len() && j < cs.len() && should_reflow(ls[j], cs[j]) && cs[j].comment_width == w {
        lemma_reflow_run_end(ls, cs, j + 1, w);
    }
}

/// Reflows each block of consecutive standalone comment lines (sharing one
/// comment width) from line `i` on; other lines stay.
pub open spec fn reflow_blocks_from(ls: Seq<Seq<u8>>, cs: Seq<LineConfig>, i: int) -> Seq<Seq<u8>>
    decreases ls.len() - i,
{
    if i < 0 || i >= ls.len() || i >= cs.len() {
        seq![]
    } else if !should_reflow(ls[i], cs[i]) {
        seq![ls[i]] + reflow_blocks_from(ls, cs, i + 1)
    } else {
        let w = cs[i].comment_width;
        let e = reflow_run_end(ls, cs, i + 1, w);
        proof {
            lemma_reflow_run_end(ls, cs, i + 1, w);
        }
        reflow_block(ls.subrange(i, e), w as int) + reflow_blocks_from(ls, cs, e)
    }
}

proof fn lemma_words_len_sub(w: Seq<Seq<u8>>, i: int, e: int)
    requires
        0 <= i <= e <= w.len(),
    ensures
        words_len(w.subrange(i, e)) <= words_len(w),
{
    assert(w =~= w.subrange(0, i) + w.subrange(i, e) + w.subrange(e, w.len() as int));
    lemma_words_len_concat(w.subrange(0, i) + w.subrange(i, e), w.subrange(e, w.len() as int));
    lemma_words_len_concat(w.subrange(0, i), w.subrange(i, e));
    lemma_words_len_nonneg(w.subrange(0, i));
    lemma_words_len_nonneg(w.subrange(e, w.len() as int));
}

/// Reflows the standalone comment blocks of the lines; see `reflow_blocks_from`.
pub fn reflow_standalone_comment_blocks(lines: &Vec<String>, configs: &[LineConfig]) -> (r: Vec<String>)
    requires
        configs@.len() == lines@.len(),
        3 * words_len(string_views(lines@)) + 8 < usize::MAX,
    ensures
        string_views(r@) == reflow_blocks_from(string_views(lines@), configs@, 0),
{
    let ghost ls = string_views(lines@);
    let ghost cs = configs@;
    let n = lines.len();
    let mut out: Vec<String> = Vec::new();
    let mut i: usize = 0;
    while i < n
        invariant
            n == lines@.len(),
            ls == string_views(lines@),
            cs == configs@,
            cs.len() == n,
            3 * words_len(ls) + 8 < usize::MAX,
            i <= n,
            string_views(out@) + reflow_blocks_from(ls, cs, i as int) == reflow_blocks_from(ls, cs, 0),
        decreases n - i,
    {
        let ghost o = string_views(out@);
        if !should_reflow_exec(lines[i].as_str(), &configs[i]) {
            let c = lines[i].clone();
            out.push(c);
            proof {
                assert(string_views(out@) =~= o.push(ls[i as int]));
                assert(o.push(ls[i as int]) + reflow_blocks_from(ls, cs, i + 1) =~= o + (seq![ls[i as int]] + reflow_blocks_from(ls, cs, i + 1)));
            }
            i = i + 1;
        } else {
            let w = configs[i].comment_width;
            let start = i;
            i = i + 1;
            while i < n && should_reflow_exec(lines[i].as_str(), &configs[i]) && configs[i].comment_width == w
                invariant
                    n == lines@.len(),
                    ls == string_views(lines@),
                    cs == configs@,
                    cs.len() == n,
                    start < i <= n,
                    reflow_run_end(ls, cs, i as int, w) == reflow_run_end(ls, cs, start + 1, w),
                decreases n - i,
            {
                i = i + 1;
            }
            proof {
                lemma_words_len_sub(ls, start as int, i as int);
                assert(string_views(lines@.subrange(start as int, i as int)) =~= ls.subrange(start as int, i as int));
            }
            let block = reflow_comment_block(&lines.as_slice()[start..i], w as usize);
            let ghost bv = string_views(block@);
            let mut k: usize = 0;
            while k < block.len()
                invariant
                    k <= block@.len(),
                    bv == string_views(block@),
                    string_views(out@) == o + bv.take(k as int),
                decreases block@.len() - k,
            {
                let ghost o2 = string_views(out@);
                let c = block[k].clone();
                out.push(c);
                k = k + 1;
                proof {
                    assert(string_views(out@) =~= o2.push(bv[k - 1]));
                    assert(bv.take(k as int) =~= bv.take(k - 1).push(bv[k - 1]));
                }
            }
            proof {
                assert(bv.take(block@.len() as int) =~= bv);
                assert(o + bv + reflow_blocks_from(ls, cs, i as int) =~= o + reflow_blocks_from(ls, cs, start as int));
            }
        }
    }
    proof {
        assert(string_views(out@) =~= reflow_blocks_from(ls, cs, 0));
    }
    out
}

} // verus!
