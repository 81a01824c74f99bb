//! The post-processing driver: the text split into lines at its dominant line
//! ending, each line's settings from `push`/`pop` directives, then comment
//! reflow, `set()` value alignment and trailing comment alignment.
use vstd::prelude::*;
use vstd::string::StringSliceAdditionalSpecFns;

use crate::config::{CommentPreservation, ConfigModel, Configuration};
use crate::load::sbytes;
use crate::inline::{apply_inline_overrides, inline_result};
use crate::post_process::{
    align_consecutive_set_lines, align_sets_from, align_tcs_from, align_trailing_comment_lines,
    parse_push_body, pop_line, push_body, reflow_blocks_from, reflow_standalone_comment_blocks,
    set_safe, string_views, words_len, is_pop_directive, LineConfig,
};
use crate::text::{bnd, has_at, has_at_exec, string_of, trim_seq};

verus! {

/// Counts of `\n` and of `\r\n` line endings in `s[i..]`; a `\r` that no
/// `\n` follows is no line ending.
pub open spec fn ending_counts(s: Seq<u8>, i: int) -> (int, int)
    decreases s.len() - i,
{
    if i < 0 || i >= s.len() {
        (0, 0)
    } else if s[i] == 13u8 && i + 1 < s.len() && s[i + 1] == 10u8 {
        let r = ending_counts(s, i + 2);
        (r.0, r.1 + 1)
    } else if s[i] == 10u8 {
        let r = ending_counts(s, i + 1);
        (r.0 + 1, r.1)
    } else {
        ending_counts(s, i + 1)
    }
}

/// `\r\n` when the text has more of them than bare `\n`, else `\n`.
pub open spec fn dominant_ending(s: Seq<u8>) -> Seq<u8> {
    let c = ending_counts(s, 0);
    if c.1 > c.0 {
        "\r\n".spec_bytes()
    } else {
        "\n".spec_bytes()
    }
}

/// The line ending that the text mostly uses; see `dominant_ending`.
pub fn detect_dominant_line_ending(text: &str) -> (r: &'static str)
    ensures
        r.spec_bytes() == dominant_ending(text.spec_bytes()),
{
    let bytes = text.as_bytes();
    let len = bytes.len();
    let mut lf: usize = 0;
    let mut crlf: usize = 0;
    let mut i: usize = 0;
    while i < len
        invariant
            len == bytes@.len(),
            i <= len,
            lf + crlf <= i,
            (lf + ending_counts(bytes@, i as int).0, crlf + ending_counts(bytes@, i as int).1) == ending_counts(bytes@, 0),
        decreases len - i,
    {
        if bytes[i] == 13u8 {
            if i + 1 < len && bytes[i + 1] == 10u8 {
                crlf = crlf + 1;
                i = i + 2;
                continue;
            }
        } else if bytes[i] == 10u8 {
            lf = lf + 1;
        }
        i = i + 1;
    }
    if crlf > lf {
        "\r\n"
    } else {
        "\n"
    }
}

/// A separator that `split_lines` cuts at: not empty, all ASCII.
pub open spec fn separator_ok(sep: Seq<u8>) -> bool {
    sep.len() > 0 && forall|k: int| 0 <= k < sep.len() ==> sep[k] < 0x80u8
}

/// `str::split(sep)` on `s[start..]`, looking for `sep` from `i` on: the
/// pieces between its occurrences, left to right, the last one included even
/// when empty.
pub open spec fn split_from(s: Seq<u8>, sep: Seq<u8>, start: int, i: int) -> Seq<Seq<u8>>
    decreases s.len() - i,
{
    if sep.len() == 0 || i < 0 || i >= s.len() {
        seq![s.subrange(start, s.len() as int)]
    } else if has_at(s, i, sep) {
        seq![s.subrange(start, i)] + split_from(s, sep, i + sep.len(), i + sep.len())
    } else {
        split_from(s, sep, start, i + 1)
    }
}

/// An ASCII byte of valid UTF-8 has a character boundary on each side.
proof fn lemma_ascii_cut(s: Seq<u8>, p: int)
    requires
        vstd::utf8::valid_utf8(s),
        0 <= p < s.len(),
        s[p] < 0x80u8,
    ensures
        bnd(s, p),
        bnd(s, p + 1),
        !vstd::utf8::is_continuation_byte(s[p]),
{
    crate::text::lemma_bnd_step(s, p);
}

/// The text cut at each occurrence of the separator; see `split_from`.
pub fn split_lines(text: &str, newline: &str) -> (r: Vec<String>)
    requires
        separator_ok(newline.spec_bytes()),
    ensures
        string_views(r@) == split_from(text.spec_bytes(), newline.spec_bytes(), 0, 0),
{
    let s = text.as_bytes();
    let sep = newline.as_bytes();
    proof {
        crate::text::lemma_str_valid(text);
    }
    let mut out: Vec<String> = Vec::new();
    let mut start: usize = 0;
    let mut i: usize = 0;
    proof {
        assert(string_views(out@) + split_from(s@, sep@, 0, 0) =~= split_from(s@, sep@, 0, 0));
    }
    while i < s.len()
        invariant
            0 <= start <= i <= s@.len(),
            s@ == text.spec_bytes(),
            sep@ == newline.spec_bytes(),
            separator_ok(sep@),
            vstd::utf8::valid_utf8(s@),
            bnd(s@, start as int),
            string_views(out@) + split_from(s@, sep@, start as int, i as int) == split_from(s@, sep@, 0, 0),
        decreases s@.len() - i,
    {
        if has_at_exec(s, i, sep) {
            let e = i + sep.len();
            proof {
                assert(s@[i as int] == sep@[0]);
                assert(s@[e - 1] == sep@[sep@.len() - 1]);
                lemma_ascii_cut(s@, i as int);
                lemma_ascii_cut(s@, e - 1);
                crate::text::lemma_valid_subrange(s@, start as int, i as int);
            }
            let piece = string_of(&s[start..i]);
            let ghost o = string_views(out@);
            out.push(piece);
            proof {
                assert(string_views(out@) =~= o.push(s@.subrange(start as int, i as int)));
                assert(o + split_from(s@, sep@, start as int, i as int) =~= string_views(out@) + split_from(s@, sep@, e as int, e as int));
            }
            start = e;
            i = e;
        } else {
            i = i + 1;
        }
    }
    proof {
        crate::text::lemma_valid_subrange(s@, start as int, s@.len() as int);
    }
    let piece = string_of(&s[start..s.len()]);
    let ghost o = string_views(out@);
    out.push(piece);
    proof {
        assert(string_views(out@) =~= o.push(s@.subrange(start as int, s@.len() as int)));
        assert(o + split_from(s@, sep@, start as int, i as int) =~= string_views(out@));
    }
    out
}

/// The lines joined with the separator between each two.
pub open spec fn join_sep(ls: Seq<Seq<u8>>, sep: Seq<u8>) -> Seq<u8>
    decreases ls.len(),
{
    if ls.len() == 0 {
        seq![]
    } else if ls.len() == 1 {
        ls[0]
    } else {
        join_sep(ls.drop_last(), sep) + sep + ls.last()
    }
}

/// Putting a piece in front of a non-empty list of pieces puts it, and one
/// separator, in front of their join.
pub(crate) proof fn lemma_join_front(a: Seq<u8>, r: Seq<Seq<u8>>, sep: Seq<u8>)
    requires
        r.len() >= 1,
    ensures
        join_sep(seq![a] + r, sep) == a + sep + join_sep(r, sep),
    decreases r.len(),
{
    let l = seq![a] + r;
    if r.len() == 1 {
        assert(l.drop_last() =~= seq![a]);
        assert(l.last() == r[0]);
        assert(join_sep(l.drop_last(), sep) == a);
        assert(join_sep(r, sep) == r[0]);
        assert(join_sep(l, sep) == join_sep(l.drop_last(), sep) + sep + l.last());
    } else {
        assert(l.drop_last() =~= seq![a] + r.drop_last());
        lemma_join_front(a, r.drop_last(), sep);
        assert(l.last() == r.last());
        assert(join_sep(l, sep) =~= a + sep + join_sep(r, sep));
    }
}

/// Cutting always gives at least one piece.
pub(crate) proof fn lemma_split_len(s: Seq<u8>, sep: Seq<u8>, start: int, i: int)
    ensures
        split_from(s, sep, start, i).len() >= 1,
    decreases s.len() - i,
{
    if sep.len() == 0 || i < 0 || i >= s.len() {
    } else if has_at(s, i, sep) {
        lemma_split_len(s, sep, i + sep.len(), i + sep.len());
    } else {
        lemma_split_len(s, sep, start, i + 1);
    }
}

proof fn lemma_split_join(s: Seq<u8>, sep: Seq<u8>, start: int, i: int)
    requires
        sep.len() > 0,
        0 <= start <= i,
        start <= s.len(),
    ensures
        join_sep(split_from(s, sep, start, i), sep) == s.subrange(start, s.len() as int),
    decreases s.len() - i,
{
    if i >= s.len() {
    } else if has_at(s, i, sep) {
        let k = i + sep.len();
        lemma_split_join(s, sep, k, k);
        lemma_split_len(s, sep, k, k);
        lemma_join_front(s.subrange(start, i), split_from(s, sep, k, k), sep);
        assert(s.subrange(start, s.len() as int) =~= s.subrange(start, i) + sep + s.subrange(k, s.len() as int));
    } else {
        lemma_split_join(s, sep, start, i + 1);
    }
}

/// Cutting text at a separator and joining the pieces with that separator
/// gives the text back.
pub proof fn law_split_join(s: Seq<u8>, sep: Seq<u8>)
    requires
        sep.len() > 0,
    ensures
        join_sep(split_from(s, sep, 0, 0), sep) == s,
{
    lemma_split_join(s, sep, 0, 0);
    assert(s.subrange(0, s.len() as int) =~= s);
}

/// In the per-line settings, a `pop` line right after a `push` line has the
/// settings that held before the push.
pub proof fn law_pop_line_restores(ls: Seq<Seq<u8>>, i: int, cur: ConfigModel, st: Seq<ConfigModel>, has: bool)
    requires
        0 <= i,
        i + 1 < ls.len(),
        trim_seq(ls[i]).len() > 0,
        trim_seq(ls[i])[0] == 35u8,
        push_body(trim_seq(ls[i])) is Some,
        trim_seq(ls[i + 1]).len() > 0,
        trim_seq(ls[i + 1])[0] == 35u8,
        push_body(trim_seq(ls[i + 1])) is None,
        pop_line(trim_seq(ls[i + 1])),
    ensures
        resolve_from(ls, i, cur, st, has).0[1] == line_config_model(cur),
{
    let b = push_body(trim_seq(ls[i])).unwrap();
    let c1 = inline_result(cur, vstd::utf8::decode_utf8(b));
    let st1 = st.push(cur);
    let r1 = resolve_from(ls, i + 1, c1, st1, true);
    assert(st1.len() > 0 && st1.last() == cur);
    assert(r1.0[0] == line_config_model(cur));
    assert(resolve_from(ls, i, cur, st, has).0 == seq![line_config_model(c1)] + r1.0);
}

/// `[String]::join(newline)`.
pub fn join_lines(lines: &[String], newline: &str) -> (r: String)
    ensures
        sbytes(r) == join_sep(string_views(lines@), newline.spec_bytes()),
{
    let ghost ls = string_views(lines@);
    let mut out: Vec<u8> = Vec::new();
    let mut i: usize = 0;
    proof {
        crate::text::lemma_str_valid(newline);
        crate::text::lemma_ascii_valid_utf8(seq![]);
        assert(out@ =~= join_sep(ls.take(0), newline.spec_bytes()));
    }
    while i < lines.len()
        invariant
            i <= lines@.len(),
            ls == string_views(lines@),
            ls.len() == lines@.len(),
            out@ == join_sep(ls.take(i as int), newline.spec_bytes()),
            vstd::utf8::valid_utf8(out@),
            vstd::utf8::valid_utf8(newline.spec_bytes()),
        decreases lines@.len() - i,
    {
        let ghost o = out@;
        let line = lines[i].as_str().as_bytes();
        proof {
            crate::load::lemma_string_valid(lines@[i as int]);
            assert(ls.take(i + 1).drop_last() =~= ls.take(i as int));
            assert(ls[i as int] == line@);
        }
        if i > 0 {
            crate::post_process::push_bytes(&mut out, newline.as_bytes());
            proof {
                crate::text::lemma_valid_concat(o, newline.spec_bytes());
            }
        }
        let ghost o2 = out@;
        crate::post_process::push_bytes(&mut out, line);
        proof {
            crate::text::lemma_valid_concat(o2, line@);
            if i == 0 {
                assert(out@ =~= ls.take(1)[0]);
            }
        }
        i = i + 1;
    }
    proof {
        assert(ls.take(lines@.len() as int) =~= ls);
    }
    string_of(out.as_slice())
}

/// The settings of the post-processing passes in a configuration's value.
pub open spec fn line_config_model(c: ConfigModel) -> LineConfig {
    LineConfig {
        align_consecutive_set: c.align_consecutive_set,
        align_trailing_comments: c.align_trailing_comments,
        comment_gap: c.comment_gap,
        comment_preservation: c.comment_preservation,
        comment_width: match c.comment_width {
            Some(w) => w,
            None => c.line_width,
        },
    }
}

/// The settings of each line from `i` on, with `cur` the configuration in
/// force and `st` the saved ones: a `# cmakefmt: push {...}` line saves the
/// configuration and applies its body, a `# cmakefmt: pop` line restores the
/// last saved one (when there is one), and the line itself already has the
/// new settings. The flag says whether any directive took effect.
pub open spec fn resolve_from(ls: Seq<Seq<u8>>, i: int, cur: ConfigModel, st: Seq<ConfigModel>, has: bool) -> (Seq<LineConfig>, bool)
    decreases ls.len() - i,
{
    if i < 0 || i >= ls.len() {
        (seq![], has)
    } else {
        let t = trim_seq(ls[i]);
        let next = if t.len() > 0 && t[0] == 35u8 {
            match push_body(t) {
                Some(b) => (inline_result(cur, vstd::utf8::decode_utf8(b)), st.push(cur), true),
                None => if pop_line(t) && st.len() > 0 {
                    (st.last(), st.drop_last(), true)
                } else {
                    (cur, st, has)
                },
            }
        } else {
            (cur, st, has)
        };
        let r = resolve_from(ls, i + 1, next.0, next.1, next.2);
        (seq![line_config_model(next.0)] + r.0, r.1)
    }
}

/// One setting per line.
proof fn lemma_resolve_len(ls: Seq<Seq<u8>>, i: int, cur: ConfigModel, st: Seq<ConfigModel>, has: bool)
    requires
        0 <= i <= ls.len(),
    ensures
        resolve_from(ls, i, cur, st, has).0.len() == ls.len() - i,
    decreases ls.len() - i,
{
    if i < ls.len() {
        let t = trim_seq(ls[i]);
        let next = if t.len() > 0 && t[0] == 35u8 {
            match push_body(t) {
                Some(b) => (inline_result(cur, vstd::utf8::decode_utf8(b)), st.push(cur), true),
                None => if pop_line(t) && st.len() > 0 {
                    (st.last(), st.drop_last(), true)
                } else {
                    (cur, st, has)
                },
            }
        } else {
            (cur, st, has)
        };
        lemma_resolve_len(ls, i + 1, next.0, next.1, next.2);
    }
}

pub open spec fn config_models(v: Seq<Configuration>) -> Seq<ConfigModel> {
    v.map_values(|c: Configuration| c.model())
}

proof fn lemma_line_config(c: Configuration)
    ensures
        crate::post_process::line_config_of(c) == line_config_model(c.model()),
{
    reveal(Configuration::model);
}

/// Each line's settings after the `push`/`pop` directives above it, and
/// whether any directive took effect; see `resolve_from`.
#[verifier::spinoff_prover]
pub fn resolve_per_line_config(lines: &[String], base: &Configuration) -> (r: (Vec<LineConfig>, bool))
    ensures
        (r.0@, r.1) == resolve_from(string_views(lines@), 0, base.model(), seq![], false),
{
    let ghost ls = string_views(lines@);
    let ghost total = resolve_from(ls, 0, base.model(), seq![], false);
    let mut current = base.copy();
    let mut stack: Vec<Configuration> = Vec::new();
    let mut result: Vec<LineConfig> = Vec::new();
    let mut has_pragmas = false;
    let mut i: usize = 0;
    proof {
        assert(config_models(stack@) =~= Seq::<ConfigModel>::empty());
        assert(result@ + resolve_from(ls, 0, base.model(), seq![], false).0 =~= total.0);
    }
    while i < lines.len()
        invariant
            i <= lines@.len(),
            ls == string_views(lines@),
            ls.len() == lines@.len(),
            total == resolve_from(ls, 0, base.model(), seq![], false),
            result@ + resolve_from(ls, i as int, current.model(), config_models(stack@), has_pragmas).0 == total.0,
            resolve_from(ls, i as int, current.model(), config_models(stack@), has_pragmas).1 == total.1,
        decreases lines@.len() - i,
    {
        let ghost cur0 = current.model();
        let ghost st0 = config_models(stack@);
        let ghost h0 = has_pragmas;
        proof {
            crate::load::lemma_string_valid(lines@[i as int]);
            crate::post_process::lemma_trim_valid(ls[i as int]);
        }
        let tb = crate::text::trim(lines[i].as_str().as_bytes());
        if tb.len() > 0 && tb[0] == 35u8 {
            let trimmed = string_of(tb);
            match parse_push_body(trimmed.as_str()) {
                Some(body) => {
                    has_pragmas = true;
                    let saved = current.copy();
                    stack.push(saved);
                    proof {
                        vstd::utf8::encode_utf8_decode_utf8(body@);
                        assert(config_models(stack@) =~= st0.push(cur0));
                    }
                    current = apply_inline_overrides(&current, body.as_str());
                },
                None => {
                    if is_pop_directive(trimmed.as_str()) && stack.len() > 0 {
                        let prev = stack.pop().unwrap();
                        proof {
                            assert(config_models(stack@) =~= st0.drop_last());
                        }
                        has_pragmas = true;
                        current = prev;
                    }
                },
            }
        }
        let lc = LineConfig::from_config(&current);
        proof {
            lemma_line_config(current);
        }
        let ghost o = result@;
        result.push(lc);
        proof {
            assert(o + resolve_from(ls, i as int, cur0, st0, h0).0 =~= result@ + resolve_from(ls, i + 1, current.model(), config_models(stack@), has_pragmas).0);
        }
        i = i + 1;
    }
    (result, has_pragmas)
}

/// Text that the passes left as it was, or rewrote.
#[derive(Debug)]
pub enum Processed<'a> {
    Borrowed(&'a str),
    Owned(String),
}

impl<'a> Processed<'a> {
    /// The text.
    pub fn as_str(&self) -> (r: &str)
        ensures
            r@ == match self {
                Processed::Borrowed(s) => s@,
                Processed::Owned(o) => o@,
            },
    {
        match self {
            Processed::Borrowed(s) => s,
            Processed::Owned(o) => o.as_str(),
        }
    }
}

/// Some pass may change the text: comment reflow or one of the alignments is
/// on, or a directive (`cmakefmt:`) may turn one on.
pub open spec fn needs_passes(text: Seq<u8>, base: ConfigModel) -> bool {
    ||| base.comment_preservation == CommentPreservation::Reflow
    ||| base.align_consecutive_set
    ||| base.align_trailing_comments
    ||| exists|k: int| crate::bytes::occurs_at(text, crate::post_process::pragma_marker(), k)
}

/// The lines of the text (cut at its dominant line ending).
pub open spec fn pass_lines(text: Seq<u8>) -> Seq<Seq<u8>> {
    split_from(text, dominant_ending(text), 0, 0)
}

/// The lines once comment blocks are reflowed where a line's settings ask
/// for it.
pub open spec fn reflowed_lines(text: Seq<u8>, base: ConfigModel) -> Seq<Seq<u8>> {
    let ls = pass_lines(text);
    let cs = resolve_from(ls, 0, base, seq![], false).0;
    if exists|k: int| 0 <= k < cs.len() && (#[trigger] cs[k]).comment_preservation == CommentPreservation::Reflow {
        reflow_blocks_from(ls, cs, 0)
    } else {
        ls
    }
}

/// Each reflowed line's settings (all the base's when no directive took
/// effect).
pub open spec fn reflowed_configs(text: Seq<u8>, base: ConfigModel) -> Seq<LineConfig> {
    let ls = reflowed_lines(text, base);
    if resolve_from(pass_lines(text), 0, base, seq![], false).1 {
        resolve_from(ls, 0, base, seq![], false).0
    } else {
        Seq::new(ls.len(), |k: int| line_config_model(base))
    }
}

/// The lines after `set()` value alignment.
pub open spec fn set_aligned_lines(text: Seq<u8>, base: ConfigModel) -> Seq<Seq<u8>> {
    align_sets_from(reflowed_lines(text, base), reflowed_configs(text, base), 0)
}

/// The text after all passes: comment reflow, `set()` alignment, trailing
/// comment alignment, joined with the dominant line ending.
pub open spec fn post_processed(text: Seq<u8>, base: ConfigModel) -> Seq<u8> {
    join_sep(align_tcs_from(set_aligned_lines(text, base), reflowed_configs(text, base), 0), dominant_ending(text))
}

/// The passes run within the machine's limits and on lines they can read:
/// the words of the text fit the reflow's buffers, every line that `set()`
/// alignment looks at can be cut after its fourth byte, and aligned lines
/// fit with room for a comment column.
pub open spec fn passes_ok(text: Seq<u8>, base: ConfigModel) -> bool {
    let ls = reflowed_lines(text, base);
    let cs = reflowed_configs(text, base);
    &&& 3 * words_len(pass_lines(text)) + 8 < usize::MAX
    &&& forall|k: int| 0 <= k < ls.len() && (#[trigger] cs[k]).align_consecutive_set ==> set_safe(ls[k])
    &&& forall|k: int| 0 <= k < set_aligned_lines(text, base).len() ==> (#[trigger] set_aligned_lines(text, base)[k]).len() + 256 < usize::MAX
}

pub(crate) proof fn lemma_separators_ok()
    ensures
        separator_ok("\n".spec_bytes()),
        separator_ok("\r\n".spec_bytes()),
{
    reveal_strlit("\n");
    reveal_strlit("\r\n");
    let a = "\n"@;
    let b = "\r\n"@;
    assert(vstd::utf8::is_ascii_chars(a));
    assert(vstd::utf8::is_ascii_chars(b));
    vstd::utf8::is_ascii_chars_encode_utf8(a);
    vstd::utf8::is_ascii_chars_encode_utf8(b);
    vstd::utf8::is_ascii_chars_nat_bound(a);
    vstd::utf8::is_ascii_chars_nat_bound(b);
    assert forall|k: int| 0 <= k < "\n".spec_bytes().len() implies "\n".spec_bytes()[k] < 0x80u8 by {
        assert(a[k] as u8 == "\n".spec_bytes()[k]);
    }
    assert forall|k: int| 0 <= k < "\r\n".spec_bytes().len() implies "\r\n".spec_bytes()[k] < 0x80u8 by {
        assert(b[k] as u8 == "\r\n".spec_bytes()[k]);
    }
}

proof fn lemma_model_pass_fields(c: Configuration)
    ensures
        c.model().comment_preservation == c.comment_preservation,
        c.model().align_consecutive_set == c.align_consecutive_set,
        c.model().align_trailing_comments == c.align_trailing_comments,
        crate::post_process::line_config_of(c) == line_config_model(c.model()),
{
    reveal(Configuration::model);
}

/// Runs the post-processing passes on formatted text: comment reflow where
/// `commentPreservation` is `reflow`, `set()` value alignment where
/// `alignConsecutiveSet` holds, trailing comment alignment where
/// `alignTrailingComments` holds; directives in comments change these per
/// line. Text that no pass can change comes back as it is.
#[verifier::spinoff_prover]
pub fn post_process_alignments<'a>(text: &'a str, base_config: &Configuration) -> (r: Processed<'a>)
    requires
        needs_passes(text.spec_bytes(), base_config.model()) ==> passes_ok(text.spec_bytes(), base_config.model()),
    ensures
        r is Owned <==> needs_passes(text.spec_bytes(), base_config.model()),
        r is Borrowed ==> r->Borrowed_0 == text,
        r is Owned ==> sbytes(r->Owned_0) == post_processed(text.spec_bytes(), base_config.model()),
{
    proof {
        lemma_model_pass_fields(*base_config);
    }
    let needs_reflow = match base_config.comment_preservation {
        CommentPreservation::Reflow => true,
        CommentPreservation::Preserve => false,
    };
    let needs_set_align = base_config.align_consecutive_set;
    let needs_comment_align = base_config.align_trailing_comments;
    let marker = "cmakefmt:".as_bytes();
    let found = crate::bytes::find_subslice(text.as_bytes(), marker);
    let has_pragma_marker = found.is_some();
    let ghost tb = text.spec_bytes();
    let ghost base = base_config.model();
    proof {
        assert(marker@ == crate::post_process::pragma_marker());
        if found is Some {
            assert(crate::bytes::occurs_at(tb, crate::post_process::pragma_marker(), found->Some_0 as int));
        }
        assert(needs_passes(tb, base) == (needs_reflow || needs_set_align || needs_comment_align || has_pragma_marker));
    }
    if !needs_reflow && !needs_set_align && !needs_comment_align && !has_pragma_marker {
        return Processed::Borrowed(text);
    }
    proof {
        assert(passes_ok(tb, base));
    }
    let newline = detect_dominant_line_ending(text);
    proof {
        lemma_separators_ok();
    }
    let lines = split_lines(text, newline);
    let (initial_configs, has_pragmas) = resolve_per_line_config(lines.as_slice(), base_config);
    proof {
        assert(string_views(lines@) == pass_lines(tb));
        lemma_resolve_len(string_views(lines@), 0, base, seq![], false);
    }
    let mut any_reflow = false;
    let mut k: usize = 0;
    while k < initial_configs.len()
        invariant
            k <= initial_configs@.len(),
            any_reflow <==> exists|j: int| 0 <= j < k && (#[trigger] initial_configs@[j]).comment_preservation == CommentPreservation::Reflow,
        decreases initial_configs@.len() - k,
    {
        if initial_configs[k].comment_preservation == CommentPreservation::Reflow {
            any_reflow = true;
        }
        k = k + 1;
    }
    let mut lines = if any_reflow {
        reflow_standalone_comment_blocks(&lines, initial_configs.as_slice())
    } else {
        lines
    };
    let configs = if has_pragmas {
        resolve_per_line_config(lines.as_slice(), base_config).0
    } else {
        let lc = crate::post_process::LineConfig::from_config(base_config);
        let mut v: Vec<LineConfig> = Vec::new();
        let mut j: usize = 0;
        while j < lines.len()
            invariant
                j <= lines@.len(),
                v@ == Seq::new(j as nat, |x: int| lc),
            decreases lines@.len() - j,
        {
            v.push(lc);
            proof {
                assert(v@ =~= Seq::new((j + 1) as nat, |x: int| lc));
            }
            j = j + 1;
        }
        v
    };
    proof {
        assert(string_views(lines@) == reflowed_lines(tb, base));
        lemma_resolve_len(string_views(lines@), 0, base, seq![], false);
        assert(configs@ =~= reflowed_configs(tb, base));
    }
    align_consecutive_set_lines(&mut lines, configs.as_slice());
    proof {
        assert(string_views(lines@) == set_aligned_lines(tb, base));
    }
    align_trailing_comment_lines(&mut lines, configs.as_slice());
    Processed::Owned(join_lines(lines.as_slice(), newline))
}


/// The words of the lines fit the reflow's buffers.
fn words_fit(lines: &Vec<String>) -> (r: bool)
    ensures
        r == (3 * words_len(string_views(lines@)) + 8 < usize::MAX),
{
    let ghost ws = string_views(lines@);
    let mut w: u128 = 0;
    let mut k: usize = 0;
    while k < lines.len()
        invariant
            k <= lines@.len() == ws.len(),
            ws == string_views(lines@),
            w == words_len(ws.take(k as int)),
            w <= usize::MAX as u128,
        decreases lines@.len() - k,
    {
        proof {
            assert(ws.take(k + 1).drop_last() =~= ws.take(k as int));
            assert(ws[k as int] == sbytes(lines@[k as int]));
        }
        let len = lines[k].as_str().as_bytes().len();
        w = w + len as u128 + 1;
        k = k + 1;
        if w > usize::MAX as u128 {
            proof {
                crate::post_process::lemma_words_len_prefix(ws, k as int);
            }
            return false;
        }
    }
    proof {
        assert(ws.take(k as int) =~= ws);
    }
    3 * w + 8 < usize::MAX as u128
}

/// The first four bytes after indentation end on a character boundary.
fn set_safe_check(line: &String) -> (r: bool)
    ensures
        r == set_safe(sbytes(*line)),
{
    let t = crate::text::trim_start(line.as_str().as_bytes());
    t.len() < 4 || t.len() == 4 || !(0x80u8 <= t[4] && t[4] <= 0xbfu8)
}

/// Whether `post_process_alignments` can run on the text: see `passes_ok`.
pub fn passes_check(text: &str, base_config: &Configuration) -> (r: bool)
    ensures
        r == passes_ok(text.spec_bytes(), base_config.model()),
{
    let ghost tb = text.spec_bytes();
    let ghost base = base_config.model();
    proof {
        lemma_model_pass_fields(*base_config);
    }
    let newline = detect_dominant_line_ending(text);
    proof {
        lemma_separators_ok();
    }
    let lines = split_lines(text, newline);
    proof {
        assert(string_views(lines@) == pass_lines(tb));
    }
    if !words_fit(&lines) {
        return false;
    }
    let (initial_configs, has_pragmas) = resolve_per_line_config(lines.as_slice(), base_config);
    proof {
        lemma_resolve_len(string_views(lines@), 0, base, seq![], false);
    }
    let mut any_reflow = false;
    let mut k: usize = 0;
    while k < initial_configs.len()
        invariant
            k <= initial_configs@.len(),
            any_reflow <==> exists|j: int| 0 <= j < k && (#[trigger] initial_configs@[j]).comment_preservation == CommentPreservation::Reflow,
        decreases initial_configs@.len() - k,
    {
        if initial_configs[k].comment_preservation == CommentPreservation::Reflow {
            any_reflow = true;
        }
        k = k + 1;
    }
    let mut lines = if any_reflow {
        reflow_standalone_comment_blocks(&lines, initial_configs.as_slice())
    } else {
        lines
    };
    let configs = if has_pragmas {
        resolve_per_line_config(lines.as_slice(), base_config).0
    } else {
        let lc = crate::post_process::LineConfig::from_config(base_config);
        let mut v: Vec<LineConfig> = Vec::new();
        let mut j: usize = 0;
        while j < lines.len()
            invariant
                j <= lines@.len(),
                v@ == Seq::new(j as nat, |x: int| lc),
            decreases lines@.len() - j,
        {
            v.push(lc);
            proof {
                assert(v@ =~= Seq::new((j + 1) as nat, |x: int| lc));
            }
            j = j + 1;
        }
        v
    };
    proof {
        assert(string_views(lines@) == reflowed_lines(tb, base));
        lemma_resolve_len(string_views(lines@), 0, base, seq![], false);
        assert(configs@ =~= reflowed_configs(tb, base));
    }
    let ghost ls = reflowed_lines(tb, base);
    let ghost cs = reflowed_configs(tb, base);
    let mut i: usize = 0;
    while i < lines.len()
        invariant
            i <= lines@.len() == configs@.len(),
            string_views(lines@) == ls,
            configs@ == cs,
            ls == reflowed_lines(tb, base),
            tb == text.spec_bytes(),
            base == base_config.model(),
            cs == reflowed_configs(tb, base),
            forall|q: int| 0 <= q < i && (#[trigger] cs[q]).align_consecutive_set ==> set_safe(ls[q]),
        decreases lines@.len() - i,
    {
        proof {
            assert(ls[i as int] == sbytes(lines@[i as int]));
        }
        if configs[i].align_consecutive_set && !set_safe_check(&lines[i]) {
            proof {
                assert(cs[i as int].align_consecutive_set && !set_safe(ls[i as int]));
                assert(!passes_ok(tb, base));
            }
            return false;
        }
        i = i + 1;
    }
    align_consecutive_set_lines(&mut lines, configs.as_slice());
    let ghost al = set_aligned_lines(tb, base);
    proof {
        assert(string_views(lines@) == al);
    }
    let mut j: usize = 0;
    while j < lines.len()
        invariant
            j <= lines@.len(),
            string_views(lines@) == al,
            al == set_aligned_lines(tb, base),
            tb == text.spec_bytes(),
            base == base_config.model(),
            forall|q: int| 0 <= q < j ==> (#[trigger] al[q]).len() + 256 < usize::MAX,
        decreases lines@.len() - j,
    {
        proof {
            assert(al[j as int] == sbytes(lines@[j as int]));
        }
        let len = lines[j].as_str().as_bytes().len();
        if len >= usize::MAX - 256 {
            proof {
                assert(!(al[j as int].len() + 256 < usize::MAX));
                assert(!passes_ok(tb, base));
            }
            return false;
        }
        j = j + 1;
    }
    true
}

} // verus!
