//! Finishing formatted text: the byte order mark, bare carriage returns, the
//! final newline, whitespace kept where the configuration asks for it, the
//! options that leading directives set, and the paths left alone.
use vstd::prelude::*;
use vstd::string::StringSliceAdditionalSpecFns;

use crate::alignments::{dominant_ending, detect_dominant_line_ending, join_sep, split_from, split_lines, separator_ok};
use crate::config::{ConfigModel, Configuration, NewLineKind};
use crate::load::{lemma_string_valid, sbytes};
use crate::post_process::string_views;
use crate::text::{bnd, lemma_ascii_valid_utf8, lemma_bnd_step, lemma_str_valid, lemma_valid_between, lemma_valid_concat, string_of};

verus! {

// ---------------------------------------------------------------------------
// Byte order mark
// ---------------------------------------------------------------------------

/// The UTF-8 encoding of U+FEFF.
pub open spec fn bom() -> Seq<u8> {
    seq![0xEFu8, 0xBBu8, 0xBFu8]
}

/// The text without a leading byte order mark.
pub open spec fn without_bom(s: Seq<u8>) -> Seq<u8> {
    if s.len() >= 3 && s.subrange(0, 3) == bom() {
        s.subrange(3, s.len() as int)
    } else {
        s
    }
}

/// The text without a leading byte order mark (U+FEFF).
pub fn strip_bom(text: &str) -> (r: String)
    ensures
        sbytes(r) == without_bom(text.spec_bytes()),
{
    let b = text.as_bytes();
    proof {
        lemma_str_valid(text);
    }
    if b.len() >= 3 && b[0] == 0xEFu8 && b[1] == 0xBBu8 && b[2] == 0xBFu8 {
        proof {
            assert(b@.subrange(0, 3) =~= bom());
            assert(bnd(b@, 0));
            lemma_bnd_step(b@, 0);
            lemma_valid_between(b@, 3, b@.len() as int);
        }
        let rest = &b[3..b.len()];
        proof {
            assert(rest@ =~= b@.subrange(3, b@.len() as int));
        }
        string_of(rest)
    } else {
        proof {
            if b@.len() >= 3 && b@.subrange(0, 3) == bom() {
                assert(b@[0] == b@.subrange(0, 3)[0]);
                assert(b@[1] == b@.subrange(0, 3)[1]);
                assert(b@[2] == b@.subrange(0, 3)[2]);
            }
        }
        String::from_str(text)
    }
}

// ---------------------------------------------------------------------------
// Line endings
// ---------------------------------------------------------------------------

/// The line ending that a `newLineKind` asks for: `\n`, `\r\n`, or the one
/// the text mostly uses.
pub open spec fn newline_of(s: Seq<u8>, kind: NewLineKind) -> Seq<u8> {
    match kind {
        NewLineKind::Lf => "\n".spec_bytes(),
        NewLineKind::CrLf => "\r\n".spec_bytes(),
        NewLineKind::Auto => dominant_ending(s),
    }
}

/// See `newline_of`.
pub fn resolve_new_line_kind(text: &str, kind: NewLineKind) -> (r: &'static str)
    ensures
        r.spec_bytes() == newline_of(text.spec_bytes(), kind),
{
    match kind {
        NewLineKind::Lf => "\n",
        NewLineKind::CrLf => "\r\n",
        NewLineKind::Auto => detect_dominant_line_ending(text),
    }
}

// ---------------------------------------------------------------------------
// Bare carriage returns: a `\r` that no `\n` follows
// ---------------------------------------------------------------------------

/// A `\r` at `i` that no `\n` follows.
pub open spec fn bare_cr(s: Seq<u8>, i: int) -> bool {
    0 <= i < s.len() && s[i] == 13u8 && !(i + 1 < s.len() && s[i + 1] == 10u8)
}

/// Whether the text holds a bare `\r`.
pub fn has_bare_cr(text: &str) -> (r: bool)
    ensures
        r == exists|i: int| bare_cr(text.spec_bytes(), i),
{
    let b = text.as_bytes();
    let mut i: usize = 0;
    while i < b.len()
        invariant
            i <= b@.len(),
            b@ == text.spec_bytes(),
            forall|j: int| 0 <= j < i ==> !bare_cr(b@, j),
        decreases b@.len() - i,
    {
        if b[i] == 13u8 && !(i + 1 < b.len() && b[i + 1] == 10u8) {
            proof {
                assert(bare_cr(b@, i as int));
            }
            return true;
        }
        i = i + 1;
    }
    false
}

/// Number of bare `\r` in `s[i..]`.
pub open spec fn bare_count(s: Seq<u8>, i: int) -> nat
    decreases s.len() - i,
{
    if i < 0 || i >= s.len() {
        0
    } else {
        (if bare_cr(s, i) { 1nat } else { 0nat }) + bare_count(s, i + 1)
    }
}

/// Number of bare `\r` in the text.
pub fn count_bare_crs_in(segment: &str) -> (r: usize)
    ensures
        r == bare_count(segment.spec_bytes(), 0),
        r <= segment.spec_bytes().len(),
{
    let b = segment.as_bytes();
    let mut count: usize = 0;
    let mut i: usize = b.len();
    while i > 0
        invariant
            i <= b@.len(),
            b@ == segment.spec_bytes(),
            count == bare_count(b@, i as int),
            count <= b@.len() - i,
        decreases i,
    {
        i = i - 1;
        if b[i] == 13u8 && !(i + 1 < b.len() && b[i + 1] == 10u8) {
            count = count + 1;
        }
    }
    count
}

/// Formatted lines from `k` on, `need` of them (or as many as are left) put
/// back with `\r` between them; and the index after the last one used.
pub open spec fn take_pieces(fl: Seq<Seq<u8>>, k: int, need: nat, first: bool) -> (Seq<u8>, int)
    decreases need,
{
    if need == 0 {
        (seq![], k)
    } else {
        let sep = if first { Seq::<u8>::empty() } else { seq![13u8] };
        let piece = if 0 <= k < fl.len() { fl[k] } else { Seq::<u8>::empty() };
        let k1 = if 0 <= k < fl.len() { k + 1 } else { k };
        let r = take_pieces(fl, k1, (need - 1) as nat, false);
        (sep + piece + r.0, r.1)
    }
}

/// The formatted lines from `k` on that no segment took, each after `\n`.
pub open spec fn rest_lines(fl: Seq<Seq<u8>>, k: int) -> Seq<u8>
    decreases fl.len() - k,
{
    if k < 0 || k >= fl.len() {
        seq![]
    } else {
        seq![10u8] + fl[k] + rest_lines(fl, k + 1)
    }
}

/// The bare `\r` of segment `si` of the original: those of the segment, less
/// a `\r` that ends it when a `\n` follows it in the original (a line ending,
/// not a bare `\r`).
pub open spec fn seg_bare(segs: Seq<Seq<u8>>, si: int) -> nat {
    let seg = segs[si];
    if si + 1 < segs.len() && seg.len() > 0 && seg.last() == 13u8 {
        (bare_count(seg, 0) - 1) as nat
    } else {
        bare_count(seg, 0)
    }
}

proof fn lemma_bare_count_pos(s: Seq<u8>, i: int, j: int)
    requires
        0 <= i <= j,
        bare_cr(s, j),
    ensures
        bare_count(s, i) >= 1,
    decreases j - i,
{
    if i < j {
        lemma_bare_count_pos(s, i + 1, j);
    }
}

/// The original's `\n`-separated segments from `si` on, each rebuilt from as
/// many formatted lines as it had bare `\r` plus one (see `seg_bare`), joined
/// with `\r`; the segments joined with `\n`; then the formatted lines left
/// over.
pub open spec fn restore_from(segs: Seq<Seq<u8>>, fl: Seq<Seq<u8>>, si: int, k: int) -> Seq<u8>
    decreases segs.len() - si,
{
    if si < 0 || si >= segs.len() {
        rest_lines(fl, k)
    } else {
        let nl = if si > 0 { seq![10u8] } else { Seq::<u8>::empty() };
        let r = take_pieces(fl, k, seg_bare(segs, si) + 1, true);
        nl + r.0 + restore_from(segs, fl, si + 1, r.1)
    }
}

/// The formatted text with the original's bare `\r` put back: see
/// `restore_from` over the lines of both.
pub open spec fn restored(f: Seq<u8>, o: Seq<u8>) -> Seq<u8> {
    restore_from(split_from(o, "\n".spec_bytes(), 0, 0), split_from(f, "\n".spec_bytes(), 0, 0), 0, 0)
}

proof fn lemma_take_pieces(fl: Seq<Seq<u8>>, k: int, need: nat, first: bool)
    requires
        0 <= k <= fl.len(),
    ensures
        k <= take_pieces(fl, k, need, first).1 <= fl.len(),
    decreases need,
{
    if need > 0 {
        let k1 = if 0 <= k < fl.len() { k + 1 } else { k };
        lemma_take_pieces(fl, k1, (need - 1) as nat, false);
    }
}

/// Puts the original's bare `\r` back into the formatted text; see `restored`.
pub fn restore_bare_crs(formatted: &str, original: &str) -> (r: String)
    ensures
        sbytes(r) == restored(formatted.spec_bytes(), original.spec_bytes()),
{
    proof {
        crate::alignments::lemma_separators_ok();
        lemma_ascii_valid_utf8(seq![10u8]);
        lemma_ascii_valid_utf8(seq![13u8]);
    }
    let segs = split_lines(original, "\n");
    let lines = split_lines(formatted, "\n");
    let ghost sm = string_views(segs@);
    let ghost fl = string_views(lines@);
    let ghost total = restore_from(sm, fl, 0, 0);
    let mut out: Vec<u8> = Vec::new();
    let mut k: usize = 0;
    let mut si: usize = 0;
    proof {
        lemma_ascii_valid_utf8(out@);
    }
    while si < segs.len()
        invariant
            si <= segs@.len(),
            k <= lines@.len(),
            sm == string_views(segs@),
            fl == string_views(lines@),
            out@ + restore_from(sm, fl, si as int, k as int) == total,
            vstd::utf8::valid_utf8(out@),
            vstd::utf8::valid_utf8(seq![10u8]),
            vstd::utf8::valid_utf8(seq![13u8]),
        decreases segs@.len() - si,
    {
        let ghost o = out@;
        if si > 0 {
            proof {
                lemma_valid_concat(out@, seq![10u8]);
            }
            out.push(10u8);
            proof {
                assert(out@ =~= o + seq![10u8]);
            }
        }
        let mut extra = count_bare_crs_in(segs[si].as_str());
        let sb = segs[si].as_str().as_bytes();
        if si + 1 < segs.len() && sb.len() > 0 && sb[sb.len() - 1] == 13u8 {
            proof {
                assert(sb@ == sm[si as int]);
                lemma_bare_count_pos(sb@, 0, sb@.len() - 1);
            }
            extra = extra - 1;
        }
        proof {
            assert(sb@ == sm[si as int]);
            assert(extra as nat == seg_bare(sm, si as int));
        }
        let ghost k0 = k as int;
        let ghost nl = if si > 0 { seq![10u8] } else { Seq::<u8>::empty() };
        let ghost tp = take_pieces(fl, k0, (extra + 1) as nat, true);
        proof {
            assert(out@ == o + nl);
            lemma_take_pieces(fl, k0, (extra + 1) as nat, true);
        }
        if k < lines.len() {
            let b = lines[k].as_str().as_bytes();
            proof {
                lemma_string_valid(lines@[k as int]);
                lemma_valid_concat(out@, b@);
            }
            crate::post_process::push_bytes(&mut out, b);
            k = k + 1;
        }
        proof {
            let piece = if 0 <= k0 < fl.len() { fl[k0] } else { Seq::<u8>::empty() };
            assert(out@ == o + nl + piece);
            assert(take_pieces(fl, k0, (extra + 1) as nat, true) == (Seq::<u8>::empty() + piece + take_pieces(fl, k as int, extra as nat, false).0, take_pieces(fl, k as int, extra as nat, false).1));
            assert(out@ + take_pieces(fl, k as int, extra as nat, false).0 =~= o + nl + tp.0);
        }
        let mut j: usize = 0;
        while j < extra
            invariant
                j <= extra,
                k <= lines@.len(),
                fl == string_views(lines@),
                vstd::utf8::valid_utf8(out@),
                vstd::utf8::valid_utf8(seq![10u8]),
                vstd::utf8::valid_utf8(seq![13u8]),
                out@ + take_pieces(fl, k as int, (extra - j) as nat, false).0 == o + nl + tp.0,
                take_pieces(fl, k as int, (extra - j) as nat, false).1 == tp.1,
            decreases extra - j,
        {
            let ghost before = out@;
            let ghost kb = k as int;
            proof {
                lemma_valid_concat(out@, seq![13u8]);
            }
            out.push(13u8);
            proof {
                assert(out@ =~= before + seq![13u8]);
            }
            if k < lines.len() {
                let b = lines[k].as_str().as_bytes();
                proof {
                    lemma_string_valid(lines@[k as int]);
                    lemma_valid_concat(out@, b@);
                }
                crate::post_process::push_bytes(&mut out, b);
                k = k + 1;
            }
            proof {
                let piece = if 0 <= kb < fl.len() { fl[kb] } else { Seq::<u8>::empty() };
                assert(out@ == before + seq![13u8] + piece);
                let r = take_pieces(fl, k as int, (extra - j - 1) as nat, false);
                assert(take_pieces(fl, kb, (extra - j) as nat, false) == (seq![13u8] + piece + r.0, r.1));
                assert(out@ + r.0 =~= before + take_pieces(fl, kb, (extra - j) as nat, false).0);
            }
            j = j + 1;
        }
        proof {
            assert(out@ == o + nl + tp.0);
            assert(restore_from(sm, fl, si as int, k0) == nl + tp.0 + restore_from(sm, fl, si + 1, tp.1));
            assert(out@ + restore_from(sm, fl, si + 1, k as int) =~= o + restore_from(sm, fl, si as int, k0));
        }
        si = si + 1;
    }
    while k < lines.len()
        invariant
            k <= lines@.len(),
            fl == string_views(lines@),
            out@ + rest_lines(fl, k as int) == total,
            vstd::utf8::valid_utf8(out@),
            vstd::utf8::valid_utf8(seq![10u8]),
        decreases lines@.len() - k,
    {
        let ghost o = out@;
        let b = lines[k].as_str().as_bytes();
        proof {
            lemma_valid_concat(out@, seq![10u8]);
            lemma_string_valid(lines@[k as int]);
            lemma_valid_concat(out@ + seq![10u8], b@);
        }
        out.push(10u8);
        proof {
            assert(out@ =~= o + seq![10u8]);
        }
        crate::post_process::push_bytes(&mut out, b);
        proof {
            assert(out@ =~= o + seq![10u8] + fl[k as int]);
            assert(o + rest_lines(fl, k as int) =~= out@ + rest_lines(fl, k + 1));
        }
        k = k + 1;
    }
    proof {
        assert(out@ =~= total);
    }
    string_of(out.as_slice())
}

/// Each bare `\r` made a `\n`.
pub open spec fn normalized(s: Seq<u8>) -> Seq<u8> {
    Seq::new(s.len(), |i: int| if bare_cr(s, i) { 10u8 } else { s[i] })
}

/// An ASCII byte of valid UTF-8 replaced by an ASCII byte leaves valid UTF-8.
pub proof fn lemma_replace_ascii(s: Seq<u8>, p: int, c: u8)
    requires
        vstd::utf8::valid_utf8(s),
        0 <= p < s.len(),
        s[p] < 0x80u8,
        c < 0x80u8,
    ensures
        vstd::utf8::valid_utf8(s.update(p, c)),
{
    assert(bnd(s, p));
    lemma_bnd_step(s, p);
    vstd::utf8::is_char_boundary_start_end_of_seq(s);
    vstd::utf8::is_char_boundary_iff_not_is_continuation_byte(s, 0);
    assert(bnd(s, 0));
    lemma_valid_between(s, 0, p);
    lemma_valid_between(s, p + 1, s.len() as int);
    lemma_ascii_valid_utf8(seq![c]);
    lemma_valid_concat(s.subrange(0, p), seq![c]);
    lemma_valid_concat(s.subrange(0, p) + seq![c], s.subrange(p + 1, s.len() as int));
    assert(s.update(p, c) =~= s.subrange(0, p) + seq![c] + s.subrange(p + 1, s.len() as int));
}

/// The text with each bare `\r` made a `\n`, for the parser.
pub fn normalize_bare_crs(text: &str) -> (r: String)
    ensures
        sbytes(r) == normalized(text.spec_bytes()),
{
    let b = text.as_bytes();
    let ghost s = b@;
    let mut out: Vec<u8> = Vec::new();
    let mut i: usize = 0;
    let ghost mut g = s;
    proof {
        lemma_str_valid(text);
    }
    while i < b.len()
        invariant
            i <= s.len(),
            s == b@,
            out@ == normalized(s).take(i as int),
            g.len() == s.len(),
            forall|j: int| 0 <= j < i ==> #[trigger] g[j] == normalized(s)[j],
            forall|j: int| i <= j < s.len() ==> #[trigger] g[j] == s[j],
            vstd::utf8::valid_utf8(g),
        decreases s.len() - i,
    {
        if b[i] == 13u8 && !(i + 1 < b.len() && b[i + 1] == 10u8) {
            proof {
                assert(bare_cr(s, i as int));
                lemma_replace_ascii(g, i as int, 10u8);
                g = g.update(i as int, 10u8);
            }
            out.push(10u8);
        } else {
            out.push(b[i]);
        }
        proof {
            assert(out@ =~= normalized(s).take(i + 1));
        }
        i = i + 1;
    }
    proof {
        assert(g =~= normalized(s));
        assert(out@ =~= normalized(s));
    }
    string_of(out.as_slice())
}

// ---------------------------------------------------------------------------
// The final newline
// ---------------------------------------------------------------------------

/// How many times `nl` ends the text, one after another.
pub open spec fn trailing_count(t: Seq<u8>, nl: Seq<u8>) -> nat
    decreases t.len(),
{
    if nl.len() > 0 && t.len() >= nl.len() && t.subrange(t.len() - nl.len(), t.len() as int) == nl {
        1 + trailing_count(t.subrange(0, t.len() - nl.len()), nl)
    } else {
        0
    }
}

/// How many line endings `newline` end the text.
pub fn count_trailing_newlines(text: &str, newline: &str) -> (r: usize)
    requires
        newline.spec_bytes().len() > 0,
    ensures
        r == trailing_count(text.spec_bytes(), newline.spec_bytes()),
{
    let t = text.as_bytes();
    let nl = newline.as_bytes();
    let mut end: usize = t.len();
    let mut count: usize = 0;
    proof {
        assert(t@.subrange(0, end as int) =~= t@);
    }
    let n = t.len();
    loop
        invariant
            n == t@.len(),
            end <= t@.len(),
            nl@.len() > 0,
            count + end <= t@.len(),
            count + trailing_count(t@.subrange(0, end as int), nl@) == trailing_count(t@, nl@),
        ensures
            count == trailing_count(t@, nl@),
        decreases end,
    {
        proof {
            let u = t@.subrange(0, end as int);
            if u.len() >= nl@.len() && u.subrange(u.len() - nl@.len(), u.len() as int) == nl@ {
                assert(u.subrange(u.len() - nl@.len(), u.len() as int) =~= t@.subrange(end - nl@.len(), end as int));
            }
        }
        if end < nl.len() {
            break;
        }
        if !crate::text::has_at_exec(t, end - nl.len(), nl) {
            break;
        }
        proof {
            let u = t@.subrange(0, end as int);
            assert(u.subrange(u.len() - nl@.len(), u.len() as int) =~= t@.subrange(end - nl@.len(), end as int));
            assert(u.subrange(0, u.len() - nl@.len()) =~= t@.subrange(0, end - nl@.len()));
        }
        count = count + 1;
        end = end - nl.len();
    }
    count
}

/// A byte that is not a space, a tab, `\r` or `\n`.
pub open spec fn content_byte(b: u8) -> bool {
    b != 32u8 && b != 9u8 && b != 13u8 && b != 10u8
}

/// Where the text ends once the `\n` and `\r` at its end are left out.
pub open spec fn content_end(s: Seq<u8>, j: int) -> int
    decreases j,
{
    if j <= 0 {
        0
    } else if s[j - 1] == 10u8 || s[j - 1] == 13u8 {
        content_end(s, j - 1)
    } else {
        j
    }
}

/// `nl` written `k` times.
pub open spec fn repeat(nl: Seq<u8>, k: nat) -> Seq<u8>
    decreases k,
{
    if k == 0 {
        seq![]
    } else {
        repeat(nl, (k - 1) as nat) + nl
    }
}

/// `finalNewline`: when it holds, the text as it is (it ends with one line
/// ending); else nothing when the text has no content, and otherwise the
/// text without its line endings followed by as many as the original ended
/// with, at most `maxBlankLines + 1`.
pub open spec fn with_final_newline(f: Seq<u8>, o: Seq<u8>, final_newline: bool, max_blank: u8, nl: Seq<u8>) -> Seq<u8> {
    if final_newline {
        f
    } else if !(exists|k: int| 0 <= k < f.len() && content_byte(#[trigger] f[k])) {
        seq![]
    } else {
        let base = f.subrange(0, content_end(f, f.len() as int));
        let n = trailing_count(o, nl);
        let m = if n <= max_blank + 1 { n } else { (max_blank + 1) as nat };
        base + repeat(nl, m)
    }
}

proof fn lemma_content_end(s: Seq<u8>, j: int)
    requires
        0 <= j <= s.len(),
    ensures
        0 <= content_end(s, j) <= j,
        content_end(s, j) > 0 ==> s[content_end(s, j) - 1] != 10u8 && s[content_end(s, j) - 1] != 13u8,
        forall|k: int| content_end(s, j) <= k < j ==> (#[trigger] s[k] == 10u8 || s[k] == 13u8),
    decreases j,
{
    if j > 0 && (s[j - 1] == 10u8 || s[j - 1] == 13u8) {
        lemma_content_end(s, j - 1);
    }
}

/// Applies `finalNewline`; see `with_final_newline`.
pub fn apply_final_newline(formatted: &str, original: &str, config: &Configuration, newline: &str) -> (r: String)
    requires
        newline.spec_bytes().len() > 0,
    ensures
        sbytes(r) == with_final_newline(formatted.spec_bytes(), original.spec_bytes(), config.final_newline, config.max_blank_lines, newline.spec_bytes()),
{
    if config.final_newline {
        return String::from_str(formatted);
    }
    let f = formatted.as_bytes();
    let mut has_content = false;
    let mut k: usize = 0;
    while k < f.len()
        invariant
            k <= f@.len(),
            has_content == exists|j: int| 0 <= j < k && content_byte(#[trigger] f@[j]),
        decreases f@.len() - k,
    {
        if f[k] != 32u8 && f[k] != 9u8 && f[k] != 13u8 && f[k] != 10u8 {
            proof {
                assert(content_byte(f@[k as int]));
            }
            has_content = true;
        }
        k = k + 1;
    }
    if !has_content {
        return String::new();
    }
    let mut end: usize = f.len();
    while end > 0 && (f[end - 1] == 10u8 || f[end - 1] == 13u8)
        invariant
            end <= f@.len(),
            content_end(f@, end as int) == content_end(f@, f@.len() as int),
        decreases end,
    {
        end = end - 1;
    }
    proof {
        lemma_str_valid(formatted);
        lemma_content_end(f@, f@.len() as int);
        if end > 0 {
            assert(bnd(f@, end as int));
        }
        lemma_valid_between(f@, 0, end as int);
        lemma_str_valid(newline);
    }
    let mut out: Vec<u8> = Vec::new();
    crate::post_process::push_bytes(&mut out, &f[0..end]);
    let orig_trailing = count_trailing_newlines(original, newline);
    let cap: usize = config.max_blank_lines as usize + 1;
    let trailing = if orig_trailing <= cap { orig_trailing } else { cap };
    let ghost base = f@.subrange(0, end as int);
    proof {
        assert(out@ =~= base);
    }
    let nl = newline.as_bytes();
    let mut j: usize = 0;
    while j < trailing
        invariant
            j <= trailing,
            out@ == base + repeat(nl@, j as nat),
            vstd::utf8::valid_utf8(out@),
            vstd::utf8::valid_utf8(nl@),
        decreases trailing - j,
    {
        proof {
            lemma_valid_concat(out@, nl@);
        }
        crate::post_process::push_bytes(&mut out, nl);
        j = j + 1;
        proof {
            assert(out@ =~= base + repeat(nl@, j as nat));
        }
    }
    string_of(out.as_slice())
}

// ---------------------------------------------------------------------------
// Directives at the start of a line: `# cmakefmt: push { ... }` and `pop`
// ---------------------------------------------------------------------------

/// A leading directive, with text as bytes.
pub ghost enum LeadingModel {
    Push(Seq<u8>),
    Pop,
}

/// The directive a comment line holds: after `#` and `cmakefmt:` (each
/// followed by optional whitespace), the word `push` with a body that starts
/// with `{`, or the word `pop`.
pub open spec fn leading_pragma(c: Seq<u8>) -> Option<LeadingModel> {
    let t = crate::text::trim_seq(c);
    if t.len() == 0 || t[0] != 35u8 {
        None
    } else {
        let r1 = crate::text::trim_start_seq(t.subrange(1, t.len() as int));
        if !(r1.len() >= 9 && r1.subrange(0, 9) == "cmakefmt:".spec_bytes()) {
            None
        } else {
            let r2 = crate::text::trim_start_seq(r1.subrange(9, r1.len() as int));
            if r2.len() == 0 {
                None
            } else {
                let ae = crate::text::find_ws(r2, 0);
                let action = r2.subrange(0, ae);
                let rem = r2.subrange(ae, r2.len() as int);
                if action == "push".spec_bytes() {
                    let body = crate::text::trim_start_seq(rem);
                    if body.len() > 0 && body[0] == 123u8 {
                        Some(LeadingModel::Push(body))
                    } else {
                        None
                    }
                } else if action == "pop".spec_bytes() {
                    Some(LeadingModel::Pop)
                } else {
                    None
                }
            }
        }
    }
}

/// A directive at the start of a line.
pub enum LeadingPragmaDirective {
    /// `push` with its body.
    Push(String),
    Pop,
}

/// The directive marker has nine bytes.
proof fn lemma_marker_len()
    ensures
        "cmakefmt:".spec_bytes().len() == 9,
{
    reveal_strlit("cmakefmt:");
    let c = "cmakefmt:"@;
    assert(vstd::utf8::is_ascii_chars(c));
    vstd::utf8::is_ascii_chars_encode_utf8(c);
}

/// Valid UTF-8 starts at a character boundary.
proof fn lemma_bnd0(s: Seq<u8>)
    requires
        vstd::utf8::valid_utf8(s),
    ensures
        bnd(s, 0),
{
    vstd::utf8::is_char_boundary_start_end_of_seq(s);
    if s.len() > 0 {
        vstd::utf8::is_char_boundary_iff_not_is_continuation_byte(s, 0);
    }
}

/// Leading whitespace removed from valid UTF-8 leaves valid UTF-8.
proof fn lemma_trim_start_valid(s: Seq<u8>)
    requires
        vstd::utf8::valid_utf8(s),
    ensures
        vstd::utf8::valid_utf8(crate::text::trim_start_seq(s)),
{
    lemma_bnd0(s);
    crate::text::lemma_skip_ws_bnd(s, 0);
    crate::text::lemma_skip_ws_bounds(s, 0);
    lemma_valid_between(s, crate::text::skip_ws(s, 0), s.len() as int);
}

/// Valid UTF-8 after an ASCII prefix of length `k` is valid UTF-8.
proof fn lemma_after_ascii(s: Seq<u8>, k: int)
    requires
        vstd::utf8::valid_utf8(s),
        0 < k <= s.len(),
        forall|j: int| 0 <= j < k ==> s[j] < 0x80u8,
    ensures
        vstd::utf8::valid_utf8(s.subrange(k, s.len() as int)),
{
    assert(bnd(s, k - 1));
    lemma_bnd_step(s, k - 1);
    lemma_valid_between(s, k, s.len() as int);
}

/// The directive a comment line holds; see `leading_pragma`.
pub fn parse_leading_pragma(comment: &str) -> (r: Option<LeadingPragmaDirective>)
    ensures
        match (r, leading_pragma(comment.spec_bytes())) {
            (Some(LeadingPragmaDirective::Push(b)), Some(LeadingModel::Push(m))) => sbytes(b) == m,
            (Some(LeadingPragmaDirective::Pop), Some(LeadingModel::Pop)) => true,
            (None, None) => true,
            _ => false,
        },
{
    let c = comment.as_bytes();
    proof {
        lemma_str_valid(comment);
        crate::post_process::lemma_trim_valid(c@);
    }
    let t = crate::text::trim(c);
    if t.len() == 0 || t[0] != 35u8 {
        return None;
    }
    let after = &t[1..t.len()];
    proof {
        assert(after@ =~= t@.subrange(1, t@.len() as int));
        lemma_after_ascii(t@, 1);
    }
    let r1 = crate::text::trim_start(after);
    let marker = "cmakefmt:".as_bytes();
    proof {
        lemma_trim_start_valid(after@);
        crate::post_process::lemma_marker_ascii();
        lemma_marker_len();
        assert(marker@.len() == 9);
    }
    if !(r1.len() >= 9 && crate::text::has_at_exec(r1, 0, marker)) {
        proof {
            if r1@.len() >= 9 && r1@.subrange(0, 9) == "cmakefmt:".spec_bytes() {
                assert(crate::text::has_at(r1@, 0, marker@));
            }
        }
        return None;
    }
    let after2 = &r1[9..r1.len()];
    proof {
        assert(r1@.subrange(0, 9) =~= marker@);
        assert(marker@ == crate::post_process::pragma_marker());
        assert forall|j: int| 0 <= j < 9 implies r1@[j] < 0x80u8 by {
            assert(r1@[j] == marker@[j]);
            assert(crate::post_process::pragma_marker()[j] < 0x80u8);
        }
        lemma_after_ascii(r1@, 9);
        assert(after2@ =~= r1@.subrange(9, r1@.len() as int));
    }
    let r2 = crate::text::trim_start(after2);
    proof {
        lemma_trim_start_valid(after2@);
    }
    if r2.len() == 0 {
        return None;
    }
    let ae = crate::text::find_ws_exec(r2, 0);
    let action = &r2[0..ae];
    let rem = &r2[ae..r2.len()];
    proof {
        assert(action@ =~= r2@.subrange(0, ae as int));
        assert(rem@ =~= r2@.subrange(ae as int, r2@.len() as int));
    }
    if crate::text::eq_bytes(action, "push".as_bytes()) {
        let body = crate::text::trim_start(rem);
        if body.len() > 0 && body[0] == 123u8 {
            proof {
                crate::text::lemma_find_ws_bnd(r2@, 0);
                lemma_valid_between(r2@, ae as int, r2@.len() as int);
                lemma_trim_start_valid(rem@);
            }
            let b = string_of(body);
            Some(LeadingPragmaDirective::Push(b))
        } else {
            None
        }
    } else if crate::text::eq_bytes(action, "pop".as_bytes()) {
        Some(LeadingPragmaDirective::Pop)
    } else {
        None
    }
}

/// The configuration after a line's directive: a `push` saves it and applies
/// the body, a `pop` restores the last saved one (if any).
pub open spec fn after_directive(cur: ConfigModel, st: Seq<ConfigModel>, d: Option<LeadingModel>) -> (ConfigModel, Seq<ConfigModel>) {
    match d {
        Some(LeadingModel::Push(b)) => (crate::inline::inline_result(cur, vstd::utf8::decode_utf8(b)), st.push(cur)),
        Some(LeadingModel::Pop) => if st.len() > 0 {
            (st.last(), st.drop_last())
        } else {
            (cur, st)
        },
        None => (cur, st),
    }
}

pub open spec fn config_models(v: Seq<Configuration>) -> Seq<ConfigModel> {
    v.map_values(|c: Configuration| c.model())
}

/// Applies a line's directive to the configuration in force and the saved
/// ones; see `after_directive`.
fn apply_directive(d: Option<LeadingPragmaDirective>, current: &mut Configuration, stack: &mut Vec<Configuration>)
    ensures
        forall|m: Option<LeadingModel>|
            (match (d, m) {
                (Some(LeadingPragmaDirective::Push(b)), Some(LeadingModel::Push(x))) => sbytes(b) == x,
                (Some(LeadingPragmaDirective::Pop), Some(LeadingModel::Pop)) => true,
                (None, None) => true,
                _ => false,
            }) ==> (final(current).model(), config_models(final(stack)@)) == #[trigger] after_directive(old(current).model(), config_models(old(stack)@), m),
{
    match d {
        Some(LeadingPragmaDirective::Push(body)) => {
            let saved = current.copy();
            let ghost o = stack@;
            stack.push(saved);
            proof {
                assert(config_models(stack@) =~= config_models(o).push(saved.model()));
                vstd::utf8::encode_utf8_decode_utf8(body@);
            }
            let next = crate::inline::apply_inline_overrides(&*current, body.as_str());
            *current = next;
        },
        Some(LeadingPragmaDirective::Pop) => {
            if stack.len() > 0 {
                let ghost o = stack@;
                let prev = stack.pop().unwrap();
                proof {
                    assert(config_models(stack@) =~= config_models(o).drop_last());
                }
                *current = prev;
            }
        },
        None => {},
    }
}

/// The configuration that the directives at the top of the text leave in
/// force: blank lines are passed over, and the first line that is no comment
/// ends the search.
pub open spec fn print_config_from(ls: Seq<Seq<u8>>, i: int, cur: ConfigModel, st: Seq<ConfigModel>) -> ConfigModel
    decreases ls.len() - i,
{
    if i < 0 || i >= ls.len() {
        cur
    } else {
        let t = crate::text::trim_seq(ls[i]);
        if t.len() == 0 {
            print_config_from(ls, i + 1, cur, st)
        } else if t[0] != 35u8 {
            cur
        } else {
            let n = after_directive(cur, st, leading_pragma(t));
            print_config_from(ls, i + 1, n.0, n.1)
        }
    }
}

/// See `print_config_from`, over the lines of the text.
pub fn resolve_print_options_config(text: &str, base: &Configuration) -> (r: Configuration)
    ensures
        r.model() == print_config_from(split_from(text.spec_bytes(), "\n".spec_bytes(), 0, 0), 0, base.model(), seq![]),
{
    proof {
        crate::alignments::lemma_separators_ok();
    }
    let lines = split_lines(text, "\n");
    let ghost ls = string_views(lines@);
    let mut current = base.copy();
    let mut stack: Vec<Configuration> = Vec::new();
    let mut i: usize = 0;
    proof {
        assert(config_models(stack@) =~= Seq::<ConfigModel>::empty());
    }
    while i < lines.len()
        invariant
            i <= lines@.len(),
            ls == string_views(lines@),
            ls == split_from(text.spec_bytes(), "\n".spec_bytes(), 0, 0),
            print_config_from(ls, i as int, current.model(), config_models(stack@)) == print_config_from(ls, 0, base.model(), seq![]),
        ensures
            current.model() == print_config_from(ls, 0, base.model(), seq![]),
        decreases lines@.len() - i,
    {
        let t = crate::text::trim(lines[i].as_str().as_bytes());
        if t.len() == 0 {
            i = i + 1;
            continue;
        }
        if t[0] != 35u8 {
            break;
        }
        proof {
            lemma_string_valid(lines@[i as int]);
            crate::post_process::lemma_trim_valid(ls[i as int]);
        }
        let ts = string_of(t);
        let d = parse_leading_pragma(ts.as_str());
        apply_directive(d, &mut current, &mut stack);
        i = i + 1;
    }
    current
}

// ---------------------------------------------------------------------------
// Whitespace kept as written where `collapseSpaces` or
// `trimTrailingWhitespace` is off
// ---------------------------------------------------------------------------

/// Where the spaces and tabs that start `s[i..]` end.
pub open spec fn lead_blank(s: Seq<u8>, i: int) -> int
    decreases s.len() - i,
{
    if 0 <= i < s.len() && (s[i] == 32u8 || s[i] == 9u8) {
        lead_blank(s, i + 1)
    } else {
        i
    }
}

/// `s[i..]` with each run of spaces outside double quotes made one space; in
/// quotes a backslash keeps the byte after it.
pub open spec fn collapse_from(s: Seq<u8>, i: int, q: bool, prev: bool) -> Seq<u8>
    decreases s.len() - i,
{
    if i < 0 || i >= s.len() {
        seq![]
    } else if s[i] == 34u8 {
        seq![34u8] + collapse_from(s, i + 1, !q, false)
    } else if s[i] == 92u8 && q && i + 1 < s.len() {
        seq![s[i], s[i + 1]] + collapse_from(s, i + 2, q, false)
    } else if s[i] == 32u8 && !q {
        if prev {
            collapse_from(s, i + 1, q, true)
        } else {
            seq![32u8] + collapse_from(s, i + 1, q, true)
        }
    } else {
        seq![s[i]] + collapse_from(s, i + 1, q, false)
    }
}

/// The line with its leading indentation kept and each run of spaces after it
/// (outside double quotes) made one space.
pub open spec fn collapsed(s: Seq<u8>) -> Seq<u8> {
    let l = lead_blank(s, 0);
    s.subrange(0, l) + collapse_from(s, l, false, false)
}

proof fn lemma_lead_blank(s: Seq<u8>, i: int)
    requires
        0 <= i <= s.len(),
    ensures
        i <= lead_blank(s, i) <= s.len(),
    decreases s.len() - i,
{
    if i < s.len() && (s[i] == 32u8 || s[i] == 9u8) {
        lemma_lead_blank(s, i + 1);
    }
}

/// See `collapsed`; the bytes are compared, never shown.
pub fn collapse_inline_spaces(line: &[u8]) -> (r: Vec<u8>)
    ensures
        r@ == collapsed(line@),
{
    let s = line;
    let mut out: Vec<u8> = Vec::new();
    let mut i: usize = 0;
    proof {
        assert(s@.subrange(0, 0) =~= Seq::<u8>::empty());
    }
    while i < s.len() && (s[i] == 32u8 || s[i] == 9u8)
        invariant
            i <= s@.len(),
            lead_blank(s@, i as int) == lead_blank(s@, 0),
            out@ == s@.subrange(0, i as int),
        decreases s@.len() - i,
    {
        out.push(s[i]);
        i = i + 1;
        proof {
            assert(out@ =~= s@.subrange(0, i as int));
        }
    }
    let ghost total = collapsed(s@);
    let mut q = false;
    let mut prev = false;
    proof {
        assert(out@ + collapse_from(s@, i as int, q, prev) == total);
    }
    while i < s.len()
        invariant
            i <= s@.len(),
            out@ + collapse_from(s@, i as int, q, prev) == total,
        decreases s@.len() - i,
    {
        let ghost o = out@;
        let c = s[i];
        if c == 34u8 {
            q = !q;
            prev = false;
            out.push(34u8);
            proof {
                assert(o + collapse_from(s@, i as int, !q, false) =~= out@ + collapse_from(s@, i + 1, q, prev));
            }
            i = i + 1;
        } else if c == 92u8 && q && i + 1 < s.len() {
            out.push(c);
            out.push(s[i + 1]);
            prev = false;
            proof {
                assert(o + collapse_from(s@, i as int, q, !prev) =~= out@ + collapse_from(s@, i + 2, q, prev)) by {
                    assert(collapse_from(s@, i as int, q, true) == seq![s@[i as int], s@[i + 1]] + collapse_from(s@, i + 2, q, false));
                    assert(collapse_from(s@, i as int, q, false) == seq![s@[i as int], s@[i + 1]] + collapse_from(s@, i + 2, q, false));
                }
            }
            i = i + 2;
        } else if c == 32u8 && !q {
            if !prev {
                out.push(32u8);
            }
            proof {
                assert(o + collapse_from(s@, i as int, q, prev) =~= out@ + collapse_from(s@, i + 1, q, true));
            }
            prev = true;
            i = i + 1;
        } else {
            out.push(c);
            proof {
                assert(o + collapse_from(s@, i as int, q, prev) =~= out@ + collapse_from(s@, i + 1, q, false));
            }
            prev = false;
            i = i + 1;
        }
    }
    proof {
        assert(out@ =~= total);
    }
    out
}

/// A formatted line with what the input line had in its place, where the
/// configuration keeps spacing (`collapseSpaces` off and the lines equal once
/// collapsed) or trailing whitespace (`trimTrailingWhitespace` off and the
/// lines equal once trimmed at the end).
pub open spec fn restored_line(o: Seq<u8>, input: Option<Seq<u8>>, c: ConfigModel) -> Seq<u8> {
    match input {
        None => o,
        Some(inl) => {
            let l1 = if !c.collapse_spaces && collapsed(o) == collapsed(inl) { inl } else { o };
            if !c.trim_trailing_whitespace && crate::text::trim_end_seq(o) == crate::text::trim_end_seq(inl) {
                inl
            } else {
                l1
            }
        },
    }
}

/// The formatted lines `i..` restored (see `restored_line`) under the
/// configuration that the directives at their starts leave in force.
pub open spec fn ws_from(outs: Seq<Seq<u8>>, ins: Seq<Seq<u8>>, i: int, cur: ConfigModel, st: Seq<ConfigModel>) -> Seq<Seq<u8>>
    decreases outs.len() - i,
{
    if i < 0 || i >= outs.len() {
        seq![]
    } else {
        let t = crate::text::trim_seq(outs[i]);
        let n = if t.len() > 0 && t[0] == 35u8 { after_directive(cur, st, leading_pragma(t)) } else { (cur, st) };
        let input = if i < ins.len() { Some(ins[i]) } else { None };
        seq![restored_line(outs[i], input, n.0)] + ws_from(outs, ins, i + 1, n.0, n.1)
    }
}

/// Whitespace finishing: the text as it is when both options hold and no
/// directive could change them; else each line restored (see `ws_from`),
/// joined with the line ending.
pub open spec fn finalized(f: Seq<u8>, o: Seq<u8>, c: ConfigModel, nl: Seq<u8>) -> Seq<u8> {
    if c.trim_trailing_whitespace && c.collapse_spaces && !(exists|k: int| crate::bytes::occurs_at(f, crate::post_process::pragma_marker(), k)) {
        f
    } else {
        join_sep(ws_from(split_from(f, nl, 0, 0), split_from(o, nl, 0, 0), 0, c, seq![]), nl)
    }
}

/// See `finalized`.
pub fn finalize_whitespace(formatted: &str, original: &str, config: &Configuration, newline: &str) -> (r: String)
    requires
        separator_ok(newline.spec_bytes()),
    ensures
        sbytes(r) == finalized(formatted.spec_bytes(), original.spec_bytes(), config.model(), newline.spec_bytes()),
{
    let ghost f = formatted.spec_bytes();
    let ghost base = config.model();
    let marker = "cmakefmt:".as_bytes();
    let found = crate::bytes::find_subslice(formatted.as_bytes(), marker);
    proof {
        lemma_ws_fields(*config);
        assert(marker@ == crate::post_process::pragma_marker());
        if found is Some {
            assert(crate::bytes::occurs_at(f, crate::post_process::pragma_marker(), found->Some_0 as int));
        }
    }
    if config.trim_trailing_whitespace && config.collapse_spaces && found.is_none() {
        return String::from_str(formatted);
    }
    let out_lines = split_lines(formatted, newline);
    let in_lines = split_lines(original, newline);
    let ghost outs = string_views(out_lines@);
    let ghost ins = string_views(in_lines@);
    let ghost total = ws_from(outs, ins, 0, base, seq![]);
    let mut current = config.copy();
    let mut stack: Vec<Configuration> = Vec::new();
    let mut result: Vec<String> = Vec::new();
    let mut i: usize = 0;
    proof {
        assert(config_models(stack@) =~= Seq::<ConfigModel>::empty());
        assert(string_views(result@) =~= Seq::<Seq<u8>>::empty());
    }
    while i < out_lines.len()
        invariant
            i <= out_lines@.len(),
            outs == string_views(out_lines@),
            ins == string_views(in_lines@),
            string_views(result@) + ws_from(outs, ins, i as int, current.model(), config_models(stack@)) == total,
        decreases out_lines@.len() - i,
    {
        let ghost before = string_views(result@);
        let ghost cur0 = current.model();
        let ghost st0 = config_models(stack@);
        let ob = out_lines[i].as_str().as_bytes();
        let t = crate::text::trim(ob);
        if t.len() > 0 && t[0] == 35u8 {
            proof {
                lemma_string_valid(out_lines@[i as int]);
                crate::post_process::lemma_trim_valid(outs[i as int]);
            }
            let ts = string_of(t);
            let d = parse_leading_pragma(ts.as_str());
            apply_directive(d, &mut current, &mut stack);
        }
        proof {
            lemma_ws_fields(current);
        }
        let mut line = out_lines[i].clone();
        if i < in_lines.len() {
            let ib = in_lines[i].as_str().as_bytes();
            if !current.collapse_spaces {
                let oc = collapse_inline_spaces(ob);
                let ic = collapse_inline_spaces(ib);
                if crate::text::eq_bytes(oc.as_slice(), ic.as_slice()) {
                    line = in_lines[i].clone();
                }
            }
            if !current.trim_trailing_whitespace {
                let ot = crate::text::trim_end(ob);
                let it = crate::text::trim_end(ib);
                if crate::text::eq_bytes(ot, it) {
                    line = in_lines[i].clone();
                }
            }
        }
        let ghost lm = sbytes(line);
        result.push(line);
        proof {
            let input = if i < ins.len() { Some(ins[i as int]) } else { None::<Seq<u8>> };
            assert(lm == restored_line(outs[i as int], input, current.model()));
            assert(string_views(result@) =~= before.push(lm));
        }
        i = i + 1;
    }
    proof {
        assert(string_views(result@) =~= total);
    }
    crate::alignments::join_lines(result.as_slice(), newline)
}

/// The fields that whitespace finishing reads agree with the model.
proof fn lemma_ws_fields(c: Configuration)
    ensures
        c.model().trim_trailing_whitespace == c.trim_trailing_whitespace,
        c.model().collapse_spaces == c.collapse_spaces,
{
    reveal(Configuration::model);
}

// ---------------------------------------------------------------------------
// Paths left alone
// ---------------------------------------------------------------------------

/// Whether glob `pattern` compiles and matches `path`, as `glob` decides.
pub uninterp spec fn glob_match_text(pattern: Seq<char>, path: Seq<char>) -> bool;

/// Calls `glob::Pattern::new` on the pattern and, when it compiles,
/// `Pattern::matches` on the path (what `matches_path` does for a path that is
/// valid UTF-8); a pattern that does not compile matches nothing. The result
/// is named by `glob_match_text`.
#[verifier::external_body]
fn glob_matches(pattern: &str, path: &str) -> (r: bool)
    ensures
        r == glob_match_text(pattern@, path@),
{
    match glob::Pattern::new(pattern) {
        Ok(p) => p.matches(path),
        Err(_) => false,
    }
}

/// Some pattern matches the path as given or as made canonical.
pub open spec fn ignored_path(path: Seq<char>, canonical: Seq<char>, patterns: Seq<String>) -> bool {
    exists|k: int| 0 <= k < patterns.len() && (glob_match_text((#[trigger] patterns[k])@, path) || glob_match_text(patterns[k]@, canonical))
}

/// Whether an ignore pattern matches the path, or the canonical form of it.
pub fn should_ignore_path(path: &str, canonical_path: &str, ignore_patterns: &Vec<String>) -> (r: bool)
    ensures
        r == ignored_path(path@, canonical_path@, ignore_patterns@),
{
    let mut i: usize = 0;
    while i < ignore_patterns.len()
        invariant
            i <= ignore_patterns@.len(),
            forall|k: int| 0 <= k < i ==> !(glob_match_text((#[trigger] ignore_patterns@[k])@, path@) || glob_match_text(ignore_patterns@[k]@, canonical_path@)),
        decreases ignore_patterns@.len() - i,
    {
        let p = ignore_patterns[i].as_str();
        if glob_matches(p, path) || glob_matches(p, canonical_path) {
            proof {
                assert(glob_match_text(ignore_patterns@[i as int]@, path@) || glob_match_text(ignore_patterns@[i as int]@, canonical_path@));
            }
            return true;
        }
        i = i + 1;
    }
    false
}

/// A file is left alone when formatting is disabled or an ignore pattern
/// matches its path.
pub fn should_bypass_formatting(path: &str, canonical_path: &str, config: &Configuration) -> (r: bool)
    ensures
        r == (config.disable_formatting || ignored_path(path@, canonical_path@, config.ignore_patterns@)),
{
    config.disable_formatting || should_ignore_path(path, canonical_path, &config.ignore_patterns)
}


/// Ignore patterns apply to a path as given and as made canonical alike: a
/// pattern among them that matches either form leaves the file alone, none
/// matching either keeps it, and swapping the two forms changes nothing.
pub proof fn law_ignore_either_form(path: Seq<char>, canonical: Seq<char>, patterns: Seq<String>, k: int)
    requires
        0 <= k < patterns.len(),
    ensures
        glob_match_text(patterns[k]@, canonical) ==> ignored_path(path, canonical, patterns),
        glob_match_text(patterns[k]@, path) ==> ignored_path(path, canonical, patterns),
        ignored_path(path, canonical, patterns) == ignored_path(canonical, path, patterns),
{
    if ignored_path(path, canonical, patterns) {
        let j = choose|j: int| 0 <= j < patterns.len() && (glob_match_text((#[trigger] patterns[j])@, path) || glob_match_text(patterns[j]@, canonical));
        assert(glob_match_text(patterns[j]@, canonical) || glob_match_text(patterns[j]@, path));
    }
    if ignored_path(canonical, path, patterns) {
        let j = choose|j: int| 0 <= j < patterns.len() && (glob_match_text((#[trigger] patterns[j])@, canonical) || glob_match_text(patterns[j]@, path));
        assert(glob_match_text(patterns[j]@, canonical) || glob_match_text(patterns[j]@, path));
    }
}

/// A path that no pattern matches, in either form, is not ignored; with no
/// patterns nothing is.
pub proof fn law_ignore_needs_a_match(path: Seq<char>, canonical: Seq<char>, patterns: Seq<String>)
    requires
        forall|k: int| 0 <= k < patterns.len() ==> !glob_match_text((#[trigger] patterns[k])@, path) && !glob_match_text(patterns[k]@, canonical),
    ensures
        !ignored_path(path, canonical, patterns),
{
}

} // verus!
