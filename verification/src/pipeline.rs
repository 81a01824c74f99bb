//! The formatting pipeline around the printer: bypass, BOM, bare carriage
//! returns, the alignment passes, whitespace restoration, the final newline,
//! and the decision whether the file changed.
use vstd::prelude::*;
use vstd::string::StringSliceAdditionalSpecFns;

use crate::alignments::{needs_passes, passes_ok, post_process_alignments, post_processed, separator_ok};
use crate::config::{ConfigModel, Configuration, NewLineKind};
use crate::format_text::{
    apply_final_newline, bare_cr, finalize_whitespace, finalized, has_bare_cr, ignored_path, newline_of,
    normalize_bare_crs, normalized, resolve_new_line_kind, restore_bare_crs, restored, should_bypass_formatting,
    strip_bom, with_final_newline, without_bom,
};
use crate::load::sbytes;
use crate::text::eq_bytes;

verus! {

/// Printed text after the comment and alignment passes: rewritten where some
/// pass may change it, else as it was.
pub open spec fn after_passes(printed: Seq<u8>, c: ConfigModel) -> Seq<u8> {
    if needs_passes(printed, c) {
        post_processed(printed, c)
    } else {
        printed
    }
}

/// Whether the text holds a bare `\r`.
pub open spec fn holds_bare_cr(text: Seq<u8>) -> bool {
    exists|i: int| bare_cr(text, i)
}

/// The text that the parser reads: each bare `\r` made a `\n`.
pub open spec fn parse_text_of(text: Seq<u8>) -> Seq<u8> {
    if holds_bare_cr(text) {
        normalized(text)
    } else {
        text
    }
}

/// What the stages after the printer make of its output `printed` for the
/// source `text`: the passes, the whitespace that the configuration keeps from
/// the source, the final newline, and the bare `\r`s put back in place.
pub open spec fn finished(text: Seq<u8>, printed: Seq<u8>, config: Configuration) -> Seq<u8> {
    let nl = newline_of(text, config.new_line_kind);
    let c = config.model();
    let w = finalized(after_passes(printed, c), parse_text_of(text), c, nl);
    let f = with_final_newline(w, text, config.final_newline, config.max_blank_lines, nl);
    if holds_bare_cr(text) {
        restored(f, text)
    } else {
        f
    }
}

/// Whether formatting is skipped for this path: it is switched off, or an
/// ignore pattern matches the path or its canonical form.
pub open spec fn bypassed(path: Seq<char>, canonical_path: Seq<char>, config: Configuration) -> bool {
    config.disable_formatting || ignored_path(path, canonical_path, config.ignore_patterns@)
}

proof fn lemma_newline_ok(text: Seq<u8>, kind: NewLineKind)
    ensures
        separator_ok(newline_of(text, kind)),
{
    crate::alignments::lemma_separators_ok();
}

/// The stages that follow the printer, on its output `printed` for the source
/// `text` (whose byte-order mark is already gone).
pub fn finish_printed(text: &str, printed: &str, config: &Configuration) -> (r: String)
    requires
        needs_passes(printed.spec_bytes(), config.model()) ==> passes_ok(printed.spec_bytes(), config.model()),
    ensures
        sbytes(r) == finished(text.spec_bytes(), printed.spec_bytes(), *config),
{
    let bare = has_bare_cr(text);
    let parse_text: String = if bare {
        normalize_bare_crs(text)
    } else {
        String::from_str(text)
    };
    let newline = resolve_new_line_kind(text, config.new_line_kind);
    proof {
        lemma_newline_ok(text.spec_bytes(), config.new_line_kind);
    }
    let processed = post_process_alignments(printed, config);
    let after = processed.as_str();
    let ws = finalize_whitespace(after, parse_text.as_str(), config, newline);
    let with_newline = apply_final_newline(ws.as_str(), text, config, newline);
    if bare {
        restore_bare_crs(with_newline.as_str(), text)
    } else {
        with_newline
    }
}

/// Formatting a file whose BOM-stripped text the printer rendered as
/// `printed`: nothing when the path is bypassed or the result equals the
/// input, else the new text.
pub fn format_printed(
    path: &str,
    canonical_path: &str,
    input: &str,
    config: &Configuration,
    printed: &str,
) -> (r: Option<String>)
    requires
        needs_passes(printed.spec_bytes(), config.model()) ==> passes_ok(printed.spec_bytes(), config.model()),
    ensures
        r is None <==> (bypassed(path@, canonical_path@, *config) || finished(
            without_bom(input.spec_bytes()),
            printed.spec_bytes(),
            *config,
        ) == input.spec_bytes()),
        r is Some ==> sbytes(r->Some_0) == finished(without_bom(input.spec_bytes()), printed.spec_bytes(), *config),
{
    if should_bypass_formatting(path, canonical_path, config) {
        return None;
    }
    let text = strip_bom(input);
    let result = finish_printed(text.as_str(), printed, config);
    if eq_bytes(result.as_str().as_bytes(), input.as_bytes()) {
        None
    } else {
        Some(result)
    }
}

} // verus!
