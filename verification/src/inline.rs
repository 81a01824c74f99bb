//! Inline overrides: a directive's `key: value` pairs or relaxed TOML inline
//! table, applied on top of a configuration; the overrides sorted by key.
use vstd::prelude::*;
use vstd::string::StringSliceAdditionalSpecFns;

use crate::config::{
    CaseStyle, CmdModel, CommandConfiguration, CommentPreservation, ConfigModel, Configuration,
    EndCommandArgs, IndentStyle, NewLineKind, SortArguments, SpaceBeforeParen, SpaceInsideParen,
    WrapStyle,
};
use crate::load::{
    json_object_text, json_value_text, toml_table_text, parse_json_object, parse_json_value,
    parse_toml_table, opt_entries, toml_entries_model, trim_byte, ConfigLoadResult,
    CanonicalKey,
    ConfigDiagnostic,
    ConfigDiagnosticSeverity,
    JsonModel,
    JsonValue,
    RawConfigValue,
    RawModel,
    canonical,
    canonical_key,
    case_name,
    case_of,
    case_of_bytes,
    case_text,
    cp_name,
    cp_of,
    cp_of_bytes,
    cp_text,
    dec,
    dec_string,
    eca_name,
    eca_of,
    eca_of_bytes,
    eca_text,
    entries_model,
    indent_name,
    indent_of,
    indent_of_bytes,
    indent_text,
    invalid_type_msg,
    invalid_type_text,
    invalid_value_msg,
    invalid_value_text,
    join_text,
    joined,
    json_model,
    lemma_dec_ascii,
    lemma_entries_model,
    lemma_string_valid,
    list_string,
    list_text,
    nlk_name,
    nlk_of,
    nlk_of_bytes,
    nlk_text,
    raw_bool,
    raw_model,
    raw_null,
    raw_string,
    raw_strings,
    raw_u32,
    raw_u8,
    sbytes,
    sip_name,
    sip_of,
    sip_of_bytes,
    sip_text,
    strings_model,
    unknown_msg,
    wrap_name,
    wrap_of,
    wrap_of_bytes,
    wrap_text,
};
use crate::text::{eq_bytes, string_of, trim_seq, skip_ws, bnd};
use crate::post_process::byte_pos;
use crate::cmd_options::{apply_cmd, cmd_group};
use crate::settings::{key_index, lemma_key_index, lemma_strs_of, pcc_insert, pcc_merge, pcc_put};

use crate::loader::{apply_raw, LoadModel, Loader, pairs_text};

verus! {

// ---------------------------------------------------------------------------
// Inline overrides: `key: value` pairs, relaxed TOML inline tables
// ---------------------------------------------------------------------------

/// An ASCII byte of valid UTF-8 has a character boundary on each side.
proof fn lemma_ascii_bnd(s: Seq<u8>, p: int)
    requires
        vstd::utf8::valid_utf8(s),
        0 <= p < s.len(),
        s[p] < 0x80u8,
    ensures
        bnd(s, p),
        bnd(s, p + 1),
        !vstd::utf8::is_continuation_byte(s[p]),
{
    crate::text::lemma_bnd_step(s, p);
}

/// The pieces of `s` from position `i` on, cut at each comma outside square
/// brackets (`[` opens one, `]` closes one, and the depth may go below zero);
/// `start` is where the current piece began. A last empty piece is left out.
pub open spec fn bracket_pieces(s: Seq<u8>, i: int, depth: int, start: int) -> Seq<Seq<u8>>
    decreases s.len() - i,
{
    if i >= s.len() {
        if start < s.len() {
            seq![s.subrange(start, s.len() as int)]
        } else {
            seq![]
        }
    } else if s[i] == 91u8 {
        bracket_pieces(s, i + 1, depth + 1, start)
    } else if s[i] == 93u8 {
        bracket_pieces(s, i + 1, depth - 1, start)
    } else if s[i] == 44u8 && depth == 0 {
        seq![s.subrange(start, i)] + bracket_pieces(s, i + 1, depth, i + 1)
    } else {
        bracket_pieces(s, i + 1, depth, start)
    }
}

/// Cuts text at the commas that stand outside square brackets.
#[verifier::spinoff_prover]
#[verifier::rlimit(100)]
pub fn split_respecting_brackets(s: &[u8]) -> (r: Vec<String>)
    requires
        vstd::utf8::valid_utf8(s@),
    ensures
        strings_model(r@) == bracket_pieces(s@, 0, 0, 0),
{
    let mut out: Vec<String> = Vec::new();
    let mut depth: i128 = 0;
    let mut start: usize = 0;
    let mut i: usize = 0;
    proof {
        reveal(strings_model);
        assert(strings_model(out@) =~= Seq::<Seq<u8>>::empty());
        assert(strings_model(out@) + bracket_pieces(s@, 0, 0, 0) =~= bracket_pieces(s@, 0, 0, 0));
    }
    while i < s.len()
        invariant
            0 <= start <= i <= s@.len(),
            -(i as int) <= depth <= i as int,
            vstd::utf8::valid_utf8(s@),
            bnd(s@, start as int),
            strings_model(out@) + bracket_pieces(s@, i as int, depth as int, start as int) == bracket_pieces(s@, 0, 0, 0),
        decreases s@.len() - i,
    {
        let c = s[i];
        if c == 91u8 {
            depth = depth + 1;
        } else if c == 93u8 {
            depth = depth - 1;
        } else if c == 44u8 && depth == 0 {
            proof {
                lemma_ascii_bnd(s@, i as int);
                crate::text::lemma_valid_subrange(s@, start as int, i as int);
            }
            let piece = string_of(&s[start..i]);
            let ghost o = strings_model(out@);
            out.push(piece);
            proof {
                reveal(strings_model);
                assert(strings_model(out@) =~= o.push(s@.subrange(start as int, i as int)));
                assert(o + bracket_pieces(s@, i as int, depth as int, start as int) =~= strings_model(out@) + bracket_pieces(s@, i + 1, depth as int, i + 1));
            }
            start = i + 1;
        }
        i = i + 1;
    }
    let ghost o = strings_model(out@);
    if start < s.len() {
        proof {
            crate::text::lemma_valid_subrange(s@, start as int, s@.len() as int);
        }
        let piece = string_of(&s[start..s.len()]);
        out.push(piece);
        proof {
            reveal(strings_model);
            assert(strings_model(out@) =~= o.push(s@.subrange(start as int, s@.len() as int)));
            assert(o + bracket_pieces(s@, i as int, depth as int, start as int) =~= strings_model(out@));
        }
    } else {
        proof {
            assert(o + bracket_pieces(s@, i as int, depth as int, start as int) =~= o);
        }
    }
    out
}

/// A header's content: trimmed, without one `{` at its start and one `}` at
/// its end, and trimmed again.
pub open spec fn gersemi_content(h: Seq<u8>) -> Seq<u8> {
    let t = trim_seq(h);
    let a = if t.len() > 0 && t[0] == 123u8 {
        t.subrange(1, t.len() as int)
    } else {
        t
    };
    let b = if a.len() > 0 && a[a.len() - 1] == 125u8 {
        a.subrange(0, a.len() - 1)
    } else {
        a
    };
    trim_seq(b)
}

/// A `key: value` piece, cut at its first colon: the key trimmed and without
/// `"` at its ends, the value trimmed; none without a colon.
pub open spec fn pair_of(p: Seq<u8>) -> Option<(Seq<u8>, Seq<u8>)> {
    let t = trim_seq(p);
    let c = byte_pos(t, 58u8, 0);
    if c >= t.len() {
        None
    } else {
        Some((trim_byte(trim_seq(t.subrange(0, c)), 34u8), trim_seq(t.subrange(c + 1, t.len() as int))))
    }
}

/// The pairs of the pieces that hold a colon, in order.
pub open spec fn pairs_of(ps: Seq<Seq<u8>>) -> Seq<(Seq<u8>, Seq<u8>)>
    decreases ps.len(),
{
    if ps.len() == 0 {
        seq![]
    } else {
        match pair_of(ps.last()) {
            Some(x) => pairs_of(ps.drop_last()).push(x),
            None => pairs_of(ps.drop_last()),
        }
    }
}

/// The `key: value` pairs of a one-line header such as `{a: 1, b: [x, y]}`.
pub open spec fn gersemi_pairs(h: Seq<u8>) -> Seq<(Seq<u8>, Seq<u8>)> {
    let c = gersemi_content(h);
    if c.len() == 0 {
        seq![]
    } else {
        pairs_of(bracket_pieces(c, 0, 0, 0))
    }
}

/// The pair of one piece; see `pair_of`.
#[verifier::spinoff_prover]
#[verifier::rlimit(100)]
fn parse_pair(p: &str) -> (r: Option<(String, String)>)
    ensures
        match (r, pair_of(p.spec_bytes())) {
            (Some(x), Some(y)) => sbytes(x.0) == y.0 && sbytes(x.1) == y.1,
            (None, None) => true,
            _ => false,
        },
{
    proof {
        crate::text::lemma_str_valid(p);
        crate::post_process::lemma_trim_valid(p.spec_bytes());
    }
    let t = crate::text::trim(p.as_bytes());
    let c = crate::post_process::byte_pos_exec(t, 58u8);
    if c >= t.len() {
        return None;
    }
    proof {
        lemma_ascii_bnd(t@, c as int);
        crate::text::lemma_valid_subrange(t@, 0, c as int);
        crate::text::lemma_valid_subrange(t@, c + 1, t@.len() as int);
        crate::post_process::lemma_trim_valid(t@.subrange(0, c as int));
        crate::post_process::lemma_trim_valid(t@.subrange(c + 1, t@.len() as int));
        crate::load::lemma_trim_byte_valid(trim_seq(t@.subrange(0, c as int)), 34u8);
    }
    let k = crate::load::trim_byte_exec(crate::text::trim(&t[0..c]), 34u8);
    let v = crate::text::trim(&t[c + 1..t.len()]);
    Some((string_of(k), string_of(v)))
}

/// The `key: value` pairs of a one-line header; see `gersemi_pairs`.
#[verifier::spinoff_prover]
#[verifier::rlimit(100)]
pub fn parse_gersemi_pairs(header: &str) -> (r: Vec<(String, String)>)
    ensures
        pairs_text(r@) == gersemi_pairs(header.spec_bytes()),
{
    proof {
        crate::text::lemma_str_valid(header);
        crate::post_process::lemma_trim_valid(header.spec_bytes());
    }
    let t = crate::text::trim(header.as_bytes());
    let a: &[u8] = if t.len() > 0 && t[0] == 123u8 {
        proof {
            lemma_ascii_bnd(t@, 0);
            crate::text::lemma_valid_subrange(t@, 1, t@.len() as int);
        }
        &t[1..t.len()]
    } else {
        t
    };
    let b: &[u8] = if a.len() > 0 && a[a.len() - 1] == 125u8 {
        proof {
            lemma_ascii_bnd(a@, a@.len() - 1);
            crate::text::lemma_valid_subrange(a@, 0, a@.len() - 1);
        }
        &a[0..a.len() - 1]
    } else {
        a
    };
    proof {
        crate::post_process::lemma_trim_valid(b@);
    }
    let c = crate::text::trim(b);
    let mut out: Vec<(String, String)> = Vec::new();
    proof {
        reveal(pairs_text);
        assert(pairs_text(out@) =~= Seq::<(Seq<u8>, Seq<u8>)>::empty());
    }
    if c.len() == 0 {
        return out;
    }
    let pieces = split_respecting_brackets(c);
    let ghost pm = strings_model(pieces@);
    proof {
        reveal(strings_model);
        assert(pm.take(0) =~= Seq::<Seq<u8>>::empty());
    }
    let mut k: usize = 0;
    while k < pieces.len()
        invariant
            k <= pieces@.len(),
            pm == strings_model(pieces@),
            pm.len() == pieces@.len(),
            forall|j: int| 0 <= j < pieces@.len() ==> #[trigger] pm[j] == sbytes(pieces@[j]),
            pairs_text(out@) == pairs_of(pm.take(k as int)),
        decreases pieces@.len() - k,
    {
        let r = parse_pair(pieces[k].as_str());
        proof {
            assert(pm.take(k + 1).drop_last() =~= pm.take(k as int));
            assert(pm.take(k + 1).last() == pm[k as int]);
        }
        match r {
            Some(x) => {
                let ghost o = pairs_text(out@);
                out.push(x);
                proof {
                    reveal(pairs_text);
                    assert(pairs_text(out@) =~= o.push((sbytes(x.0), sbytes(x.1))));
                }
            },
            None => {},
        }
        k = k + 1;
    }
    proof {
        assert(pm.take(pieces@.len() as int) =~= pm);
    }
    out
}

/// JSON entries as the loader takes them.
pub open spec fn json_entries(m: Seq<(Seq<u8>, JsonModel)>) -> Seq<(Seq<u8>, RawModel)> {
    m.map_values(|e: (Seq<u8>, JsonModel)| (e.0, RawModel::Json(e.1)))
}

/// A header's pairs as the loader takes them: each value that parses as JSON
/// as that value, else as text.
pub open spec fn gersemi_entries(h: Seq<u8>) -> Seq<(Seq<u8>, RawModel)> {
    gersemi_pairs(h).map_values(|p: (Seq<u8>, Seq<u8>)| (p.0, match json_value_text(vstd::utf8::decode_utf8(p.1)) {
        Some(j) => RawModel::Json(j),
        None => RawModel::Text(p.1),
    }))
}

/// A header's pairs, each value as text.
pub open spec fn text_entries(h: Seq<u8>) -> Seq<(Seq<u8>, RawModel)> {
    gersemi_pairs(h).map_values(|p: (Seq<u8>, Seq<u8>)| (p.0, RawModel::Text(p.1)))
}

/// The entries applied in order.
pub open spec fn apply_all(st: LoadModel, es: Seq<(Seq<u8>, RawModel)>) -> LoadModel
    decreases es.len(),
{
    if es.len() == 0 {
        st
    } else {
        apply_raw(apply_all(st, es.drop_last()), es.last().0, es.last().1)
    }
}

/// A loading that starts from a configuration, with nothing recorded.
pub open spec fn start_from(c: ConfigModel) -> LoadModel {
    LoadModel { config: c, diagnostics: seq![], overrides: seq![] }
}

/// The options named by the keys of the entries, in order.
pub open spec fn entry_keys(es: Seq<(Seq<u8>, RawModel)>) -> Seq<CanonicalKey>
    decreases es.len(),
{
    if es.len() == 0 {
        seq![]
    } else {
        match canonical(es.last().0) {
            Some(ck) => entry_keys(es.drop_last()).push(ck),
            None => entry_keys(es.drop_last()),
        }
    }
}

/// A command's table with the options that the keys name set back to
/// "not given" (`indent` clears the width and the style, `sortKeywordSections`
/// also clears the sorting of arguments).
pub open spec fn suppress_cmd(t: CmdModel, ks: Seq<CanonicalKey>) -> CmdModel {
    CmdModel {
        line_width: if ks.contains(CanonicalKey::LineWidth) { None } else { t.line_width },
        wrap_style: if ks.contains(CanonicalKey::WrapStyle) { None } else { t.wrap_style },
        first_arg_same_line: if ks.contains(CanonicalKey::FirstArgSameLine) { None } else { t.first_arg_same_line },
        wrap_arg_threshold: if ks.contains(CanonicalKey::WrapArgThreshold) { None } else { t.wrap_arg_threshold },
        indent_width: if ks.contains(CanonicalKey::IndentWidth) || ks.contains(CanonicalKey::IndentMode) { None } else { t.indent_width },
        indent_style: if ks.contains(CanonicalKey::IndentStyle) || ks.contains(CanonicalKey::IndentMode) { None } else { t.indent_style },
        continuation_indent_width: if ks.contains(CanonicalKey::ContinuationIndentWidth) { None } else { t.continuation_indent_width },
        command_case: if ks.contains(CanonicalKey::CommandCase) { None } else { t.command_case },
        keyword_case: if ks.contains(CanonicalKey::KeywordCase) { None } else { t.keyword_case },
        custom_keywords: if ks.contains(CanonicalKey::CustomKeywords) { None } else { t.custom_keywords },
        literal_case: if ks.contains(CanonicalKey::LiteralCase) { None } else { t.literal_case },
        closing_paren_newline: if ks.contains(CanonicalKey::ClosingParenNewline) { None } else { t.closing_paren_newline },
        space_before_paren: if ks.contains(CanonicalKey::SpaceBeforeParen) { None } else { t.space_before_paren },
        space_inside_paren: if ks.contains(CanonicalKey::SpaceInsideParen) { None } else { t.space_inside_paren },
        comment_preservation: if ks.contains(CanonicalKey::CommentPreservation) { None } else { t.comment_preservation },
        comment_width: if ks.contains(CanonicalKey::CommentWidth) { None } else { t.comment_width },
        align_trailing_comments: if ks.contains(CanonicalKey::AlignTrailingComments) { None } else { t.align_trailing_comments },
        comment_gap: if ks.contains(CanonicalKey::CommentGap) { None } else { t.comment_gap },
        align_property_values: if ks.contains(CanonicalKey::AlignPropertyValues) { None } else { t.align_property_values },
        align_consecutive_set: if ks.contains(CanonicalKey::AlignConsecutiveSet) { None } else { t.align_consecutive_set },
        align_arg_groups: if ks.contains(CanonicalKey::AlignArgGroups) { None } else { t.align_arg_groups },
        sort_arguments: if ks.contains(CanonicalKey::SortArguments) || ks.contains(CanonicalKey::SortKeywordSections) { None } else { t.sort_arguments },
        sort_keyword_sections: if ks.contains(CanonicalKey::SortKeywordSections) { None } else { t.sort_keyword_sections },
    }
}

/// Every command's table suppressed; see `suppress_cmd`.
pub open spec fn suppress_tables(p: Seq<(Seq<u8>, CmdModel)>, ks: Seq<CanonicalKey>) -> Seq<(Seq<u8>, CmdModel)> {
    p.map_values(|e: (Seq<u8>, CmdModel)| (e.0, suppress_cmd(e.1, ks)))
}

/// The configuration that inline entries give on top of `base`: the entries
/// applied, then every command's own setting of an option they name dropped,
/// so that what the directive sets holds for every command.
pub open spec fn inline_config(base: ConfigModel, es: Seq<(Seq<u8>, RawModel)>) -> ConfigModel {
    let c = apply_all(start_from(base), es).config;
    ConfigModel { per_command_config: suppress_tables(c.per_command_config, entry_keys(es)), ..c }
}

/// A header made an inline table: trimmed; `{}` when empty; as it is when it
/// is braced; braced (with a space inside each brace) when it has none; none
/// when it opens a brace it does not close.
pub open spec fn normalized_table(h: Seq<u8>) -> Option<Seq<u8>> {
    let t = trim_seq(h);
    if t.len() == 0 {
        Some("{}".spec_bytes())
    } else if t[0] == 123u8 {
        if t[t.len() - 1] == 125u8 {
            Some(t)
        } else {
            None
        }
    } else {
        Some("{ ".spec_bytes() + t + " }".spec_bytes())
    }
}

/// A comma at `i` is trailing when only whitespace stands between it and a
/// closing `}` or `]`, or the end.
pub open spec fn trailing_comma(s: Seq<u8>, i: int) -> bool {
    let j = skip_ws(s, i + 1);
    j >= s.len() || s[j] == 125u8 || s[j] == 93u8
}

/// The text from `i` on without its trailing commas outside double-quoted
/// strings (a backslash in a string escapes the next character).
pub open spec fn strip_commas(s: Seq<u8>, i: int, in_string: bool, escaping: bool) -> Seq<u8>
    decreases s.len() - i,
{
    if i < 0 || i >= s.len() {
        seq![]
    } else if in_string {
        let rest = if escaping {
            strip_commas(s, i + 1, true, false)
        } else if s[i] == 92u8 {
            strip_commas(s, i + 1, true, true)
        } else if s[i] == 34u8 {
            strip_commas(s, i + 1, false, false)
        } else {
            strip_commas(s, i + 1, true, false)
        };
        seq![s[i]] + rest
    } else if s[i] == 34u8 {
        seq![s[i]] + strip_commas(s, i + 1, true, false)
    } else if s[i] == 44u8 && trailing_comma(s, i) {
        strip_commas(s, i + 1, false, false)
    } else {
        seq![s[i]] + strip_commas(s, i + 1, false, false)
    }
}

/// The name under which the relaxed form is parsed as a TOML document.
pub open spec fn inline_doc(n: Seq<u8>) -> Seq<u8> {
    "__cmakefmt_inline = ".spec_bytes() + strip_commas(n, 0, false, false)
}

/// The value of the first entry with key `k`.
pub open spec fn table_get(t: Seq<(Seq<u8>, Result<JsonModel, Seq<u8>>)>, k: Seq<u8>) -> Option<Result<JsonModel, Seq<u8>>>
    decreases t.len(),
{
    if t.len() == 0 {
        None
    } else if t[0].0 == k {
        Some(t[0].1)
    } else {
        table_get(t.subrange(1, t.len() as int), k)
    }
}

/// The entries of a header read as a TOML inline table (braces optional,
/// trailing commas allowed), when it is one.
pub open spec fn relaxed_entries(h: Seq<u8>) -> Option<Seq<(Seq<u8>, JsonModel)>> {
    match normalized_table(h) {
        None => None,
        Some(n) => match toml_table_text(vstd::utf8::decode_utf8(inline_doc(n))) {
            Err(_) => None,
            Ok(t) => match table_get(t, "__cmakefmt_inline".spec_bytes()) {
                Some(Ok(JsonModel::Object(m))) => Some(m),
                _ => None,
            },
        },
    }
}

/// What a `push` directive's body gives on top of `base`: a JSON object's
/// entries; else a relaxed TOML inline table's; else its `key: value` pairs,
/// each value that parses as JSON as that value and otherwise as text.
#[verifier::opaque]
pub open spec fn inline_result(base: ConfigModel, header: Seq<char>) -> ConfigModel {
    match json_object_text(header) {
        Some(m) => inline_config(base, json_entries(m)),
        None => match relaxed_entries(vstd::utf8::encode_utf8(header)) {
            Some(m) => inline_config(base, json_entries(m)),
            None => inline_config(base, gersemi_entries(vstd::utf8::encode_utf8(header))),
        },
    }
}

/// Replaces bytes taken from a `str` by the bytes of its relaxed inline table.
proof fn lemma_remove_ascii(t: Seq<u8>, p: int)
    requires
        vstd::utf8::valid_utf8(t),
        0 <= p < t.len(),
        t[p] < 0x80u8,
    ensures
        vstd::utf8::valid_utf8(t.subrange(0, p) + t.subrange(p + 1, t.len() as int)),
{
    lemma_ascii_bnd(t, p);
    crate::text::lemma_valid_subrange(t, 0, p);
    crate::text::lemma_valid_subrange(t, p + 1, t.len() as int);
    crate::text::lemma_valid_concat(t.subrange(0, p), t.subrange(p + 1, t.len() as int));
}

/// See `normalized_table`.
#[verifier::spinoff_prover]
#[verifier::rlimit(100)]
fn normalize_inline_table_literal(header: &[u8]) -> (r: Option<Vec<u8>>)
    requires
        vstd::utf8::valid_utf8(header@),
    ensures
        match (r, normalized_table(header@)) {
            (Some(x), Some(y)) => x@ == y && vstd::utf8::valid_utf8(x@),
            (None, None) => true,
            _ => false,
        },
{
    proof {
        crate::post_process::lemma_trim_valid(header@);
        crate::text::lemma_str_valid("{}");
        crate::text::lemma_str_valid("{ ");
        crate::text::lemma_str_valid(" }");
        crate::text::lemma_str_valid("");
    }
    let t = crate::text::trim(header);
    if t.len() == 0 {
        let r = join_text("{}".as_bytes(), "".as_bytes());
        proof {
            reveal_strlit("");
            assert("".spec_bytes() =~= Seq::<u8>::empty());
            assert(r@ =~= "{}".spec_bytes());
        }
        return Some(r);
    }
    if t[0] == 123u8 {
        if t[t.len() - 1] == 125u8 {
            let r = join_text(t, "".as_bytes());
            proof {
                reveal_strlit("");
                assert("".spec_bytes() =~= Seq::<u8>::empty());
                assert(r@ =~= t@);
            }
            return Some(r);
        }
        return None;
    }
    let a = join_text("{ ".as_bytes(), t);
    let r = join_text(a.as_slice(), " }".as_bytes());
    proof {
        crate::text::lemma_valid_concat("{ ".spec_bytes(), t@);
        crate::text::lemma_valid_concat(a@, " }".spec_bytes());
    }
    Some(r)
}

/// See `strip_commas`.
#[verifier::spinoff_prover]
#[verifier::rlimit(100)]
fn strip_relaxed_trailing_commas(s: &[u8]) -> (r: Vec<u8>)
    requires
        vstd::utf8::valid_utf8(s@),
    ensures
        r@ == strip_commas(s@, 0, false, false),
        vstd::utf8::valid_utf8(r@),
{
    let mut out: Vec<u8> = Vec::new();
    let mut in_string = false;
    let mut escaping = false;
    let mut i: usize = 0;
    proof {
        assert(out@ + strip_commas(s@, 0, false, false) =~= strip_commas(s@, 0, false, false));
        assert(out@ + s@.subrange(0, s@.len() as int) =~= s@);
    }
    while i < s.len()
        invariant
            i <= s@.len(),
            !in_string ==> !escaping,
            out@ + strip_commas(s@, i as int, in_string, escaping) == strip_commas(s@, 0, false, false),
            vstd::utf8::valid_utf8(out@ + s@.subrange(i as int, s@.len() as int)),
        decreases s@.len() - i,
    {
        let c = s[i];
        let ghost o = out@;
        proof {
            assert(o + s@.subrange(i as int, s@.len() as int) =~= o.push(c) + s@.subrange(i + 1, s@.len() as int));
        }
        if in_string {
            let ghost e0 = escaping;
            out.push(c);
            if escaping {
                escaping = false;
            } else if c == 92u8 {
                escaping = true;
            } else if c == 34u8 {
                in_string = false;
            }
            proof {
                assert(o + strip_commas(s@, i as int, true, e0) =~= out@ + strip_commas(s@, i + 1, in_string, escaping));
            }
        } else if c == 34u8 {
            out.push(c);
            in_string = true;
            proof {
                assert(o + strip_commas(s@, i as int, false, false) =~= out@ + strip_commas(s@, i + 1, true, false));
            }
        } else {
            let mut trailing = false;
            if c == 44u8 {
                let j = crate::text::skip_ws_exec(s, i + 1);
                trailing = j >= s.len() || s[j] == 125u8 || s[j] == 93u8;
            }
            if trailing {
                proof {
                    let t = o + s@.subrange(i as int, s@.len() as int);
                    assert(t[o.len() as int] == c);
                    lemma_remove_ascii(t, o.len() as int);
                    assert(t.subrange(0, o.len() as int) + t.subrange(o.len() as int + 1, t.len() as int) =~= o + s@.subrange(i + 1, s@.len() as int));
                    assert(o + strip_commas(s@, i as int, false, false) =~= out@ + strip_commas(s@, i + 1, false, false));
                }
            } else {
                out.push(c);
                proof {
                    assert(o + strip_commas(s@, i as int, false, false) =~= out@ + strip_commas(s@, i + 1, false, false));
                }
            }
        }
        i = i + 1;
    }
    proof {
        assert(out@ + s@.subrange(i as int, s@.len() as int) =~= out@);
        assert(out@ + strip_commas(s@, i as int, in_string, escaping) =~= out@);
    }
    out
}

/// A header read as a relaxed TOML inline table; see `relaxed_entries`.
#[verifier::spinoff_prover]
#[verifier::rlimit(100)]
fn parse_relaxed_inline_toml_map(header: &str) -> (r: Option<Vec<(String, JsonValue)>>)
    ensures
        opt_entries(r) == relaxed_entries(header.spec_bytes()),
{
    proof {
        crate::text::lemma_str_valid(header);
        crate::text::lemma_str_valid("__cmakefmt_inline = ");
    }
    let n = match normalize_inline_table_literal(header.as_bytes()) {
        None => return None,
        Some(n) => n,
    };
    let stripped = strip_relaxed_trailing_commas(n.as_slice());
    let doc = join_text("__cmakefmt_inline = ".as_bytes(), stripped.as_slice());
    proof {
        crate::text::lemma_valid_concat("__cmakefmt_inline = ".spec_bytes(), stripped@);
        assert(doc@ == inline_doc(n@));
    }
    let ds = string_of(doc.as_slice());
    let mut t = match parse_toml_table(ds.as_str()) {
        Err(_) => return None,
        Ok(t) => t,
    };
    let ghost tm = toml_entries_model(t);
    let ghost goal = match table_get(tm, "__cmakefmt_inline".spec_bytes()) {
        Some(Ok(JsonModel::Object(m))) => Some(m),
        _ => None,
    };
    let mut i: usize = 0;
    proof {
        assert(tm.subrange(0, tm.len() as int) =~= tm);
        assert(relaxed_entries(header.spec_bytes()) == goal);
    }
    while i < t.len()
        invariant
            tm == toml_entries_model(t),
            goal == match table_get(tm, "__cmakefmt_inline".spec_bytes()) {
                Some(Ok(JsonModel::Object(m))) => Some(m),
                _ => None,
            },
            relaxed_entries(header.spec_bytes()) == goal,
            i <= t@.len(),
            tm.len() == t@.len(),
            table_get(tm, "__cmakefmt_inline".spec_bytes()) == table_get(tm.subrange(i as int, tm.len() as int), "__cmakefmt_inline".spec_bytes()),
        decreases t@.len() - i,
    {
        proof {
            assert(tm.subrange(i as int, tm.len() as int)[0] == tm[i as int]);
            assert(tm.subrange(i as int, tm.len() as int).subrange(1, tm.len() - i) =~= tm.subrange(i + 1, tm.len() as int));
        }
        if eq_bytes(t[i].0.as_str().as_bytes(), "__cmakefmt_inline".as_bytes()) {
            let ghost ti = t@[i as int];
            let e = t.remove(i);
            proof {
                assert(e == ti);
                assert(tm[i as int].1 == match ti.1 {
                    Ok(j) => Ok::<JsonModel, Seq<u8>>(json_model(j)),
                    Err(m) => Err(sbytes(m)),
                });
            }
            return match e.1 {
                Ok(JsonValue::Object(m)) => Some(m),
                _ => None,
            };
        }
        i = i + 1;
    }
    None
}

/// Whether the options hold `ck`.
fn has_key(ks: &Vec<CanonicalKey>, ck: CanonicalKey) -> (r: bool)
    ensures
        r == ks@.contains(ck),
{
    let mut i: usize = 0;
    while i < ks.len()
        invariant
            i <= ks@.len(),
            forall|j: int| 0 <= j < i ==> ks@[j] != ck,
        decreases ks@.len() - i,
    {
        if ks[i] == ck {
            proof {
                assert(ks@[i as int] == ck);
            }
            return true;
        }
        i = i + 1;
    }
    false
}

/// A command's table with the options that `ks` names dropped; see
/// `suppress_cmd`.
#[verifier::spinoff_prover]
#[verifier::rlimit(100)]
fn suppressed(c: &CommandConfiguration, ks: &Vec<CanonicalKey>) -> (r: CommandConfiguration)
    ensures
        r.model() == suppress_cmd(c.model(), ks@),
{
    let indent_mode = has_key(ks, CanonicalKey::IndentMode);
    let sort_sections = has_key(ks, CanonicalKey::SortKeywordSections);
    CommandConfiguration {
        line_width: if has_key(ks, CanonicalKey::LineWidth) { None } else { c.line_width },
        wrap_style: if has_key(ks, CanonicalKey::WrapStyle) { None } else { c.wrap_style },
        first_arg_same_line: if has_key(ks, CanonicalKey::FirstArgSameLine) { None } else { c.first_arg_same_line },
        wrap_arg_threshold: if has_key(ks, CanonicalKey::WrapArgThreshold) { None } else { c.wrap_arg_threshold },
        indent_width: if has_key(ks, CanonicalKey::IndentWidth) || indent_mode { None } else { c.indent_width },
        indent_style: if has_key(ks, CanonicalKey::IndentStyle) || indent_mode { None } else { c.indent_style },
        continuation_indent_width: if has_key(ks, CanonicalKey::ContinuationIndentWidth) { None } else { c.continuation_indent_width },
        command_case: if has_key(ks, CanonicalKey::CommandCase) { None } else { c.command_case },
        keyword_case: if has_key(ks, CanonicalKey::KeywordCase) { None } else { c.keyword_case },
        custom_keywords: if has_key(ks, CanonicalKey::CustomKeywords) {
            None
        } else {
            match &c.custom_keywords {
                Some(v) => Some(crate::config::copy_strings(v)),
                None => None,
            }
        },
        literal_case: if has_key(ks, CanonicalKey::LiteralCase) { None } else { c.literal_case },
        closing_paren_newline: if has_key(ks, CanonicalKey::ClosingParenNewline) { None } else { c.closing_paren_newline },
        space_before_paren: if has_key(ks, CanonicalKey::SpaceBeforeParen) {
            None
        } else {
            match &c.space_before_paren {
                Some(v) => Some(crate::config::copy_space(v)),
                None => None,
            }
        },
        space_inside_paren: if has_key(ks, CanonicalKey::SpaceInsideParen) { None } else { c.space_inside_paren },
        comment_preservation: if has_key(ks, CanonicalKey::CommentPreservation) { None } else { c.comment_preservation },
        comment_width: if has_key(ks, CanonicalKey::CommentWidth) { None } else { c.comment_width },
        align_trailing_comments: if has_key(ks, CanonicalKey::AlignTrailingComments) { None } else { c.align_trailing_comments },
        comment_gap: if has_key(ks, CanonicalKey::CommentGap) { None } else { c.comment_gap },
        align_property_values: if has_key(ks, CanonicalKey::AlignPropertyValues) { None } else { c.align_property_values },
        align_consecutive_set: if has_key(ks, CanonicalKey::AlignConsecutiveSet) { None } else { c.align_consecutive_set },
        align_arg_groups: if has_key(ks, CanonicalKey::AlignArgGroups) { None } else { c.align_arg_groups },
        sort_arguments: if has_key(ks, CanonicalKey::SortArguments) || sort_sections {
            None
        } else {
            match &c.sort_arguments {
                Some(v) => Some(crate::config::copy_sort(v)),
                None => None,
            }
        },
        sort_keyword_sections: if sort_sections { None } else { c.sort_keyword_sections },
    }
}

/// Every command's table with the options that `ks` names dropped.
#[verifier::spinoff_prover]
fn suppressed_tables(v: &Vec<(String, CommandConfiguration)>, ks: &Vec<CanonicalKey>) -> (r: Vec<(String, CommandConfiguration)>)
    ensures
        crate::config::pcc_model(r@) == suppress_tables(crate::config::pcc_model(v@), ks@),
{
    let ghost pm = crate::config::pcc_model(v@);
    let mut out: Vec<(String, CommandConfiguration)> = Vec::new();
    let mut i: usize = 0;
    proof {
        reveal(crate::config::pcc_model);
        assert(crate::config::pcc_model(out@) =~= suppress_tables(pm, ks@).take(0));
    }
    while i < v.len()
        invariant
            i <= v@.len(),
            pm == crate::config::pcc_model(v@),
            crate::config::pcc_model(out@) == suppress_tables(pm, ks@).take(i as int),
        decreases v@.len() - i,
    {
        let name = v[i].0.clone();
        let t = suppressed(&v[i].1, ks);
        let ghost o = crate::config::pcc_model(out@);
        out.push((name, t));
        proof {
            reveal(crate::config::pcc_model);
            assert(crate::config::pcc_model(out@) =~= o.push((sbytes(name), t.model())));
            assert(suppress_tables(pm, ks@).take(i + 1) =~= suppress_tables(pm, ks@).take(i as int).push((sbytes(name), t.model())));
        }
        i = i + 1;
    }
    proof {
        reveal(crate::config::pcc_model);
        assert(suppress_tables(pm, ks@).take(i as int) =~= suppress_tables(pm, ks@));
    }
    out
}

/// Drops, from every command's table, the options that a `push` directive
/// set, so that the directive wins over per-command settings.
#[verifier::spinoff_prover]
pub fn suppress_per_command_overrides_for_push_keys(config: &mut Configuration, ks: &Vec<CanonicalKey>)
    ensures
        final(config).model() == (ConfigModel { per_command_config: suppress_tables(old(config).model().per_command_config, ks@), ..old(config).model() }),
{
    let out = suppressed_tables(&config.per_command_config, ks);
    proof {
        config.lemma_model_tables();
    }
    config.set_per_command_config(out);
}

impl Loader {
    /// Applies JSON entries in order, collecting the options their keys name.
    #[verifier::spinoff_prover]
    #[verifier::rlimit(100)]
    pub(crate) fn apply_json_entries(&mut self, m: &Vec<(String, JsonValue)>, ks: &mut Vec<CanonicalKey>)
        ensures
            final(self).model() == apply_all(old(self).model(), json_entries(entries_model(*m, 0))),
            final(ks)@ == old(ks)@ + entry_keys(json_entries(entries_model(*m, 0))),
    {
        let ghost es = json_entries(entries_model(*m, 0));
        proof {
            lemma_entries_model(*m, 0);
            assert(es.take(0) =~= Seq::<(Seq<u8>, RawModel)>::empty());
            assert(old(ks)@ + entry_keys(es.take(0)) =~= old(ks)@);
        }
        let mut i: usize = 0;
        while i < m.len()
            invariant
                i <= m@.len(),
                es == json_entries(entries_model(*m, 0)),
                es.len() == m@.len(),
                forall|j: int| 0 <= j < m@.len() ==> #[trigger] es[j] == (sbytes(m@[j].0), RawModel::Json(json_model(m@[j].1))),
                self.model() == apply_all(old(self).model(), es.take(i as int)),
                ks@ == old(ks)@ + entry_keys(es.take(i as int)),
            decreases m@.len() - i,
        {
            let k = m[i].0.as_str();
            proof {
                assert(es.take(i + 1).drop_last() =~= es.take(i as int));
                assert(es.take(i + 1).last() == es[i as int]);
            }
            match canonical_key(k) {
                Some(ck) => {
                    ks.push(ck);
                    proof {
                        assert(ks@ =~= old(ks)@ + entry_keys(es.take(i + 1)));
                    }
                },
                None => {},
            }
            self.apply_raw_value(k, &RawConfigValue::Json(&m[i].1));
            i = i + 1;
        }
        proof {
            assert(es.take(m@.len() as int) =~= es);
        }
    }

    /// Applies a header's `key: value` pairs in order, each value that parses
    /// as JSON as that value (when `try_json`) and otherwise as text,
    /// collecting the options their keys name.
    #[verifier::spinoff_prover]
    #[verifier::rlimit(100)]
    pub(crate) fn apply_pairs(&mut self, header: &str, try_json: bool, ks: &mut Vec<CanonicalKey>)
        ensures
            final(self).model() == apply_all(old(self).model(), if try_json { gersemi_entries(header.spec_bytes()) } else { text_entries(header.spec_bytes()) }),
            final(ks)@ == old(ks)@ + entry_keys(if try_json { gersemi_entries(header.spec_bytes()) } else { text_entries(header.spec_bytes()) }),
    {
        let pairs = parse_gersemi_pairs(header);
        let ghost es = if try_json { gersemi_entries(header.spec_bytes()) } else { text_entries(header.spec_bytes()) };
        let ghost pm = pairs_text(pairs@);
        proof {
            reveal(pairs_text);
            assert(es.take(0) =~= Seq::<(Seq<u8>, RawModel)>::empty());
            assert(old(ks)@ + entry_keys(es.take(0)) =~= old(ks)@);
        }
        let mut i: usize = 0;
        while i < pairs.len()
            invariant
                i <= pairs@.len(),
                pm == pairs_text(pairs@),
                pm == gersemi_pairs(header.spec_bytes()),
                pm.len() == pairs@.len(),
                forall|j: int| 0 <= j < pairs@.len() ==> #[trigger] pm[j] == (sbytes(pairs@[j].0), sbytes(pairs@[j].1)),
                es == (if try_json { gersemi_entries(header.spec_bytes()) } else { text_entries(header.spec_bytes()) }),
                es.len() == pairs@.len(),
                self.model() == apply_all(old(self).model(), es.take(i as int)),
                ks@ == old(ks)@ + entry_keys(es.take(i as int)),
            decreases pairs@.len() - i,
        {
            let k = pairs[i].0.as_str();
            let v = pairs[i].1.as_str();
            proof {
                assert(es.take(i + 1).drop_last() =~= es.take(i as int));
                assert(es.take(i + 1).last() == es[i as int]);
                vstd::utf8::encode_utf8_decode_utf8(pairs@[i as int].1@);
            }
            match canonical_key(k) {
                Some(ck) => {
                    ks.push(ck);
                    proof {
                        assert(ks@ =~= old(ks)@ + entry_keys(es.take(i + 1)));
                    }
                },
                None => {},
            }
            if try_json {
                match parse_json_value(v) {
                    Some(j) => self.apply_raw_value(k, &RawConfigValue::Json(&j)),
                    None => self.apply_raw_value(k, &RawConfigValue::Text(v)),
                }
            } else {
                self.apply_raw_value(k, &RawConfigValue::Text(v));
            }
            i = i + 1;
        }
        proof {
            assert(es.take(pairs@.len() as int) =~= es);
        }
    }
}

/// Applies the body of a `# cmakefmt: push { ... }` directive on top of a
/// configuration: a JSON object, a TOML inline table (braces optional,
/// trailing commas allowed) or `key: value` pairs; see `inline_result`.
/// JSON entries applied on top of `base`; see `inline_config`.
#[verifier::spinoff_prover]
#[verifier::rlimit(100)]
fn inline_from_json(base: &Configuration, m: &Vec<(String, JsonValue)>) -> (r: Configuration)
    ensures
        r.model() == inline_config(base.model(), json_entries(entries_model(*m, 0))),
{
    let mut loader = Loader::new(base.copy());
    let mut ks: Vec<CanonicalKey> = Vec::new();
    proof {
        assert(ks@ =~= Seq::<CanonicalKey>::empty());
    }
    loader.apply_json_entries(m, &mut ks);
    proof {
        assert(ks@ =~= entry_keys(json_entries(entries_model(*m, 0))));
    }
    finish_inline_overrides(loader, &ks)
}

/// A header's `key: value` pairs applied on top of `base`; see
/// `inline_config`.
#[verifier::spinoff_prover]
#[verifier::rlimit(100)]
fn inline_from_pairs(base: &Configuration, header: &str) -> (r: Configuration)
    ensures
        r.model() == inline_config(base.model(), gersemi_entries(header.spec_bytes())),
{
    let mut loader = Loader::new(base.copy());
    let mut ks: Vec<CanonicalKey> = Vec::new();
    proof {
        assert(ks@ =~= Seq::<CanonicalKey>::empty());
    }
    loader.apply_pairs(header, true, &mut ks);
    proof {
        assert(ks@ =~= entry_keys(gersemi_entries(header.spec_bytes())));
    }
    finish_inline_overrides(loader, &ks)
}

/// Applies the body of a `# cmakefmt: push { ... }` directive on top of a
/// configuration: a JSON object, a TOML inline table (braces optional,
/// trailing commas allowed) or `key: value` pairs; see `inline_result`.
pub fn apply_inline_overrides(base: &Configuration, header: &str) -> (r: Configuration)
    ensures
        r.model() == inline_result(base.model(), header@),
{
    proof {
        reveal(inline_result);
    }
    if let Some(m) = parse_json_object(header) {
        return inline_from_json(base, &m);
    }
    if let Some(m) = parse_relaxed_inline_toml_map(header) {
        return inline_from_json(base, &m);
    }
    inline_from_pairs(base, header)
}

/// The loader's configuration with the directive's options dropped from the
/// command tables.
fn finish_inline_overrides(loader: Loader, ks: &Vec<CanonicalKey>) -> (r: Configuration)
    ensures
        r.model() == (ConfigModel { per_command_config: suppress_tables(loader.model().config.per_command_config, ks@), ..loader.model().config }),
{
    let mut c = loader.config;
    suppress_per_command_overrides_for_push_keys(&mut c, ks);
    c
}

// ---------------------------------------------------------------------------
// Finishing: overrides sorted by key
// ---------------------------------------------------------------------------

/// `a` comes before `b` in byte order (which is `String`'s order).
pub open spec fn key_lt(a: Seq<u8>, b: Seq<u8>) -> bool
    decreases a.len(),
{
    if b.len() == 0 {
        false
    } else if a.len() == 0 {
        true
    } else if a[0] != b[0] {
        a[0] < b[0]
    } else {
        key_lt(a.subrange(1, a.len() as int), b.subrange(1, b.len() as int))
    }
}

/// Where `x` goes among pairs sorted by key: after every pair whose key is
/// not greater than its own.
pub open spec fn insert_pos(s: Seq<(Seq<u8>, Seq<u8>)>, x: (Seq<u8>, Seq<u8>)) -> int
    decreases s.len(),
{
    if s.len() == 0 {
        0
    } else if key_lt(x.0, s.last().0) {
        insert_pos(s.drop_last(), x)
    } else {
        s.len() as int
    }
}

/// The pairs stably sorted by key: each inserted in turn at `insert_pos`.
pub open spec fn sorted_by_key(s: Seq<(Seq<u8>, Seq<u8>)>) -> Seq<(Seq<u8>, Seq<u8>)>
    decreases s.len(),
{
    if s.len() == 0 {
        seq![]
    } else {
        let r = sorted_by_key(s.drop_last());
        r.insert(insert_pos(r, s.last()), s.last())
    }
}

proof fn lemma_insert_pos(s: Seq<(Seq<u8>, Seq<u8>)>, x: (Seq<u8>, Seq<u8>))
    ensures
        0 <= insert_pos(s, x) <= s.len(),
    decreases s.len(),
{
    if s.len() > 0 && key_lt(x.0, s.last().0) {
        lemma_insert_pos(s.drop_last(), x);
    }
}

/// `str::cmp` on bytes: whether `a` sorts before `b`.
fn bytes_lt(a: &[u8], b: &[u8]) -> (r: bool)
    ensures
        r == key_lt(a@, b@),
{
    let mut i: usize = 0;
    proof {
        assert(a@.subrange(0, a@.len() as int) =~= a@);
        assert(b@.subrange(0, b@.len() as int) =~= b@);
    }
    while i < a.len() && i < b.len() && a[i] == b[i]
        invariant
            i <= a@.len(),
            i <= b@.len(),
            key_lt(a@, b@) == key_lt(a@.subrange(i as int, a@.len() as int), b@.subrange(i as int, b@.len() as int)),
        decreases a@.len() - i,
    {
        proof {
            let sa = a@.subrange(i as int, a@.len() as int);
            let sb = b@.subrange(i as int, b@.len() as int);
            assert(sa.subrange(1, sa.len() as int) =~= a@.subrange(i + 1, a@.len() as int));
            assert(sb.subrange(1, sb.len() as int) =~= b@.subrange(i + 1, b@.len() as int));
        }
        i = i + 1;
    }
    if i >= b.len() {
        false
    } else if i >= a.len() {
        true
    } else {
        a[i] < b[i]
    }
}

/// Inserts a pair at its place among pairs sorted by key.
fn insert_by_key(v: &mut Vec<(String, String)>, x: (String, String))
    ensures
        pairs_text(final(v)@) == pairs_text(old(v)@).insert(insert_pos(pairs_text(old(v)@), (sbytes(x.0), sbytes(x.1))), (sbytes(x.0), sbytes(x.1))),
{
    let ghost s = pairs_text(v@);
    let ghost xm = (sbytes(x.0), sbytes(x.1));
    proof {
        reveal(pairs_text);
    }
    let mut p: usize = v.len();
    proof {
        assert(s.take(v@.len() as int) =~= s);
    }
    let mut done = false;
    while p > 0 && !done
        invariant
            p <= v@.len(),
            s == pairs_text(v@),
            s.len() == v@.len(),
            forall|j: int| 0 <= j < v@.len() ==> #[trigger] s[j] == (sbytes(v@[j].0), sbytes(v@[j].1)),
            xm == (sbytes(x.0), sbytes(x.1)),
            insert_pos(s, xm) == insert_pos(s.take(p as int), xm),
            done ==> p > 0 && !key_lt(xm.0, s[p - 1].0),
        decreases 2 * p + if done { 0int } else { 1int },
    {
        let lt = bytes_lt(x.0.as_str().as_bytes(), v[p - 1].0.as_str().as_bytes());
        proof {
            assert(s[p - 1] == (sbytes(v@[p - 1].0), sbytes(v@[p - 1].1)));
            assert(s.take(p as int).drop_last() =~= s.take(p - 1));
            assert(s.take(p as int).last() == s[p - 1]);
        }
        if lt {
            p = p - 1;
        } else {
            done = true;
        }
    }
    proof {
        if p > 0 {
            assert(s.take(p as int).last() == s[p - 1]);
        }
        assert(insert_pos(s.take(p as int), xm) == p);
    }
    v.insert(p, x);
    proof {
        reveal(pairs_text);
        assert(pairs_text(v@) =~= s.insert(p as int, xm));
    }
}

/// The pairs stably sorted by key; see `sorted_by_key`.
pub(crate) fn sort_overrides(v: Vec<(String, String)>) -> (r: Vec<(String, String)>)
    ensures
        pairs_text(r@) == sorted_by_key(pairs_text(v@)),
{
    let ghost s = pairs_text(v@);
    let mut out: Vec<(String, String)> = Vec::new();
    let mut src = v;
    let mut rest: Vec<(String, String)> = Vec::new();
    proof {
        reveal(pairs_text);
    }
    // take the pairs out from the back, then insert them front to back
    while src.len() > 0
        invariant
            pairs_text(src@) + pairs_text(rest@).reverse() == s,
        decreases src@.len(),
    {
        let ghost a = pairs_text(src@);
        let ghost b = pairs_text(rest@);
        let x = src.pop().unwrap();
        rest.push(x);
        proof {
            reveal(pairs_text);
            assert(pairs_text(src@) =~= a.drop_last());
            assert(pairs_text(rest@) =~= b.push(a.last()));
            assert(pairs_text(rest@).reverse() =~= seq![a.last()] + b.reverse());
            assert(pairs_text(src@) + pairs_text(rest@).reverse() =~= a + b.reverse());
        }
    }
    proof {
        reveal(pairs_text);
        assert(pairs_text(src@) =~= Seq::<(Seq<u8>, Seq<u8>)>::empty());
        assert(pairs_text(rest@).reverse() =~= s);
        assert(pairs_text(out@) =~= sorted_by_key(s.take(0)));
    }
    let ghost n = rest@.len();
    while rest.len() > 0
        invariant
            rest@.len() <= n,
            n == s.len(),
            pairs_text(rest@).reverse() == s.subrange(n - rest@.len(), n as int),
            pairs_text(out@) == sorted_by_key(s.take(n - rest@.len())),
        decreases rest@.len(),
    {
        let ghost b = pairs_text(rest@);
        let ghost k = n - rest@.len();
        let x = rest.pop().unwrap();
        proof {
            reveal(pairs_text);
            assert(b.last() == (sbytes(x.0), sbytes(x.1)));
            assert(b.reverse()[0] == b.last());
            assert(s[k] == b.last());
            assert(s.take(k + 1).drop_last() =~= s.take(k));
            assert(pairs_text(rest@) =~= b.drop_last());
            assert(b.drop_last().reverse() =~= b.reverse().subrange(1, b.len() as int));
            assert(pairs_text(rest@).reverse() =~= s.subrange(k + 1, n as int));
        }
        insert_by_key(&mut out, x);
    }
    proof {
        assert(s.take(n as int) =~= s);
    }
    out
}


} // verus!
