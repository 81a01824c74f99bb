//! The renderer's intermediate form: text and layout signals, how they print,
//! and the helpers that turn source text into them.
use vstd::prelude::*;

use crate::casing::visual_indent_prefix;
use crate::config::Configuration;
use crate::load::sbytes;
use crate::ast::{args_model, arg_model, command_model, lemma_args_model_len, ArgModel, Argument, CommandInvocation, CommandModel};
use vstd::string::StringSliceAdditionalSpecFns;

verus! {

/// One piece of printed output: text, or a signal to the printer.
#[derive(Debug, PartialEq, Eq)]
pub enum PrintItem {
    /// Bytes printed as they are.
    Text(Vec<u8>),
    /// One space.
    Space,
    /// A tab.
    Tab,
    /// A line break; the next text on the new line is indented.
    NewLine,
    /// One more level of indentation for the lines that follow.
    StartIndent,
    /// One level of indentation less.
    FinishIndent,
    /// Lines that follow are not indented (verbatim text).
    StartIgnoringIndent,
    /// Lines are indented again.
    FinishIgnoringIndent,
}

/// A print item as a value.
pub ghost enum PrintModel {
    Text(Seq<u8>),
    Space,
    Tab,
    NewLine,
    StartIndent,
    FinishIndent,
    StartIgnoringIndent,
    FinishIgnoringIndent,
}

pub open spec fn item_model(p: PrintItem) -> PrintModel {
    match p {
        PrintItem::Text(t) => PrintModel::Text(t@),
        PrintItem::Space => PrintModel::Space,
        PrintItem::Tab => PrintModel::Tab,
        PrintItem::NewLine => PrintModel::NewLine,
        PrintItem::StartIndent => PrintModel::StartIndent,
        PrintItem::FinishIndent => PrintModel::FinishIndent,
        PrintItem::StartIgnoringIndent => PrintModel::StartIgnoringIndent,
        PrintItem::FinishIgnoringIndent => PrintModel::FinishIgnoringIndent,
    }
}

pub open spec fn items_model(v: Seq<PrintItem>) -> Seq<PrintModel> {
    v.map_values(|p: PrintItem| item_model(p))
}

/// Where printing stands: the indentation level, how many verbatim regions
/// are open, and whether the current line has no text yet.
pub ghost struct PrintState {
    pub indent: int,
    pub ignoring: int,
    pub fresh: bool,
}

/// Text printed at the current position: a line's first text is preceded by
/// its indentation (`unit` per level) unless indentation is ignored.
pub open spec fn put(t: Seq<u8>, st: PrintState, unit: Seq<u8>) -> Seq<u8> {
    if st.fresh && st.ignoring <= 0 {
        repeat_seq(unit, if st.indent > 0 { st.indent as nat } else { 0 }) + t
    } else {
        t
    }
}

/// `n` copies of `u`.
pub open spec fn repeat_seq(u: Seq<u8>, n: nat) -> Seq<u8>
    decreases n,
{
    if n == 0 {
        seq![]
    } else {
        repeat_seq(u, (n - 1) as nat) + u
    }
}

/// The state after an item.
pub open spec fn after(p: PrintModel, st: PrintState) -> PrintState {
    match p {
        PrintModel::NewLine => PrintState { fresh: true, ..st },
        PrintModel::StartIndent => PrintState { indent: st.indent + 1, ..st },
        PrintModel::FinishIndent => PrintState { indent: st.indent - 1, ..st },
        PrintModel::StartIgnoringIndent => PrintState { ignoring: st.ignoring + 1, ..st },
        PrintModel::FinishIgnoringIndent => PrintState { ignoring: st.ignoring - 1, ..st },
        _ => PrintState { fresh: false, ..st },
    }
}

/// The bytes an item prints.
pub open spec fn printed(p: PrintModel, st: PrintState, unit: Seq<u8>) -> Seq<u8> {
    match p {
        PrintModel::Text(t) => put(t, st, unit),
        PrintModel::Space => put(seq![32u8], st, unit),
        PrintModel::Tab => put(seq![9u8], st, unit),
        PrintModel::NewLine => seq![10u8],
        _ => seq![],
    }
}

/// The output of the items from `k` on, printed from state `st` with `unit`
/// as one level of indentation.
pub open spec fn render_from(items: Seq<PrintModel>, k: int, st: PrintState, unit: Seq<u8>) -> Seq<u8>
    decreases items.len() - k,
{
    if k < 0 || k >= items.len() {
        seq![]
    } else {
        printed(items[k], st, unit) + render_from(items, k + 1, after(items[k], st), unit)
    }
}

/// The output of the items, starting at column 0 at no indentation.
pub open spec fn render(items: Seq<PrintModel>, unit: Seq<u8>) -> Seq<u8> {
    render_from(items, 0, PrintState { indent: 0, ignoring: 0, fresh: true }, unit)
}

/// The items of one line of text: its parts between tabs (empty parts left
/// out), with a tab item for each tab; scanning from `i` with the current
/// part starting at `start`.
pub open spec fn tab_scan(t: Seq<u8>, start: int, i: int) -> Seq<PrintModel>
    decreases t.len() - i,
{
    if i < 0 || i >= t.len() {
        if 0 <= start < t.len() { seq![PrintModel::Text(t.subrange(start, t.len() as int))] } else { seq![] }
    } else if t[i] == 9u8 {
        (if start < i { seq![PrintModel::Text(t.subrange(start, i))] } else { seq![] }) + seq![PrintModel::Tab] + tab_scan(t, i + 1, i + 1)
    } else {
        tab_scan(t, start, i + 1)
    }
}

/// A piece cut at a line feed, without the carriage return before it.
pub open spec fn strip_cr(p: Seq<u8>) -> Seq<u8> {
    if p.len() > 0 && p.last() == 13u8 { p.drop_last() } else { p }
}

/// The lines of the text from `start` (as `str::lines` gives them: cut at
/// line feeds, a carriage return before one removed, no empty last line),
/// each as `tab_scan` items, with a new line between two lines; `first` says
/// no line came before.
pub open spec fn lines_scan(t: Seq<u8>, start: int, i: int, first: bool) -> Seq<PrintModel>
    decreases t.len() - i,
{
    if i < 0 || i >= t.len() {
        if 0 <= start < t.len() {
            (if first { seq![] } else { seq![PrintModel::NewLine] }) + tab_scan(t.subrange(start, t.len() as int), 0, 0)
        } else {
            seq![]
        }
    } else if t[i] == 10u8 {
        (if first { seq![] } else { seq![PrintModel::NewLine] }) + tab_scan(strip_cr(t.subrange(start, i)), 0, 0)
            + lines_scan(t, i + 1, i + 1, false)
    } else {
        lines_scan(t, start, i + 1, first)
    }
}

/// Raw source text as items: a text without line feeds as its line's items;
/// otherwise its lines with new lines between them (and after the last when
/// it ends with a line feed), with indentation ignored around them.
pub open spec fn raw_items(t: Seq<u8>) -> Seq<PrintModel> {
    if t.contains(10u8) {
        seq![PrintModel::StartIgnoringIndent] + lines_scan(t, 0, 0, true)
            + (if t.last() == 10u8 { seq![PrintModel::NewLine] } else { seq![] }) + seq![PrintModel::FinishIgnoringIndent]
    } else {
        tab_scan(t, 0, 0)
    }
}

fn push_text(items: &mut Vec<PrintItem>, t: &[u8], a: usize, b: usize)
    requires
        a <= b <= t@.len(),
    ensures
        items_model(final(items)@) == items_model(old(items)@).push(PrintModel::Text(t@.subrange(a as int, b as int))),
{
    let v = vstd::slice::slice_to_vec(vstd::slice::slice_subrange(t, a, b));
    items.push(PrintItem::Text(v));
    proof {
        assert(items_model(items@) =~= items_model(old(items)@).push(PrintModel::Text(t@.subrange(a as int, b as int))));
    }
}

fn push_signal(items: &mut Vec<PrintItem>, p: PrintItem)
    requires
        !(p is Text),
    ensures
        items_model(final(items)@) == items_model(old(items)@).push(item_model(p)),
{
    items.push(p);
    proof {
        assert(items_model(items@) =~= items_model(old(items)@).push(item_model(p)));
    }
}

/// See `tab_scan`.
fn push_line_items(items: &mut Vec<PrintItem>, t: &[u8])
    ensures
        items_model(final(items)@) == items_model(old(items)@) + tab_scan(t@, 0, 0),
{
    let ghost m0 = items_model(items@);
    let mut start: usize = 0;
    let mut i: usize = 0;
    while i < t.len()
        invariant
            start <= i <= t@.len(),
            items_model(items@) + tab_scan(t@, start as int, i as int) == m0 + tab_scan(t@, 0, 0),
        decreases t@.len() - i,
    {
        if t[i] == 9u8 {
            let ghost before = items_model(items@);
            if start < i {
                push_text(items, t, start, i);
            }
            push_signal(items, PrintItem::Tab);
            proof {
                let piece = if start < i { seq![PrintModel::Text(t@.subrange(start as int, i as int))] } else { seq![] };
                assert(items_model(items@) =~= before + piece + seq![PrintModel::Tab]);
                assert(before + tab_scan(t@, start as int, i as int) =~= before + (piece + seq![PrintModel::Tab] + tab_scan(t@, i + 1, i + 1)));
                assert(items_model(items@) + tab_scan(t@, i + 1, i + 1) =~= before + (piece + seq![PrintModel::Tab] + tab_scan(t@, i + 1, i + 1)));
            }
            start = i + 1;
        }
        i = i + 1;
    }
    let ghost before = items_model(items@);
    if start < t.len() {
        push_text(items, t, start, t.len());
        proof {
            assert(before + tab_scan(t@, start as int, i as int) =~= items_model(items@));
        }
    } else {
        proof {
            assert(before + tab_scan(t@, start as int, i as int) =~= before);
        }
    }
}


pub(crate) fn contains_byte(t: &[u8], b: u8) -> (r: bool)
    ensures
        r == t@.contains(b),
{
    let mut i: usize = 0;
    while i < t.len()
        invariant
            i <= t@.len(),
            forall|k: int| 0 <= k < i ==> t@[k] != b,
        decreases t@.len() - i,
    {
        if t[i] == b {
            assert(t@[i as int] == b);
            return true;
        }
        i = i + 1;
    }
    false
}

/// The piece `t[a..b]` without a carriage return at its end.
fn strip_cr_end(t: &[u8], a: usize, b: usize) -> (r: usize)
    requires
        a <= b <= t@.len(),
    ensures
        a <= r <= b,
        t@.subrange(a as int, r as int) == strip_cr(t@.subrange(a as int, b as int)),
{
    if b > a && t[b - 1] == 13u8 {
        proof {
            assert(t@.subrange(a as int, b - 1) =~= t@.subrange(a as int, b as int).drop_last());
        }
        b - 1
    } else {
        b
    }
}

/// See `raw_items`: source text as printed items (`gen_from_raw_string`).
pub fn gen_from_raw_string(items: &mut Vec<PrintItem>, t: &[u8])
    ensures
        items_model(final(items)@) == items_model(old(items)@) + raw_items(t@),
{
    if !contains_byte(t, 10u8) {
        push_line_items(items, t);
        return;
    }
    let ghost m0 = items_model(items@);
    push_signal(items, PrintItem::StartIgnoringIndent);
    let ghost m1 = items_model(items@);
    let mut start: usize = 0;
    let mut i: usize = 0;
    let mut first = true;
    while i < t.len()
        invariant
            start <= i <= t@.len(),
            items_model(items@) + lines_scan(t@, start as int, i as int, first) == m1 + lines_scan(t@, 0, 0, true),
        decreases t@.len() - i,
    {
        if t[i] == 10u8 {
            let ghost before = items_model(items@);
            let ghost f0 = first;
            let ghost s0 = start as int;
            if !first {
                push_signal(items, PrintItem::NewLine);
            }
            let e = strip_cr_end(t, start, i);
            let piece = vstd::slice::slice_subrange(t, start, e);
            let ghost mid = items_model(items@);
            push_line_items(items, piece);
            proof {
                let nl = if f0 { seq![] } else { seq![PrintModel::NewLine] };
                assert(mid == before + nl);
                assert(items_model(items@) == before + nl + tab_scan(strip_cr(t@.subrange(s0, i as int)), 0, 0));
                assert(lines_scan(t@, s0, i as int, f0) == nl + tab_scan(strip_cr(t@.subrange(s0, i as int)), 0, 0) + lines_scan(t@, i + 1, i + 1, false));
                assert(items_model(items@) + lines_scan(t@, i + 1, i + 1, false) =~= before + lines_scan(t@, s0, i as int, f0));
            }
            first = false;
            start = i + 1;
        }
        i = i + 1;
    }
    let ghost before = items_model(items@);
    if start < t.len() {
        if !first {
            push_signal(items, PrintItem::NewLine);
        }
        let piece = vstd::slice::slice_subrange(t, start, t.len());
        push_line_items(items, piece);
    }
    proof {
        assert(items_model(items@) =~= before + lines_scan(t@, start as int, i as int, first));
    }
    if t[t.len() - 1] == 10u8 {
        push_signal(items, PrintItem::NewLine);
    }
    push_signal(items, PrintItem::FinishIgnoringIndent);
    proof {
        assert(items_model(items@) =~= m0 + raw_items(t@));
    }
}


/// The items of a multi-line text kept as written: each line's bytes (a
/// carriage return before a line feed kept as its own text) and a new line
/// after it, scanning from `i` with the current line starting at `start`.
pub open spec fn ple_scan(t: Seq<u8>, start: int, i: int) -> Seq<PrintModel>
    decreases t.len() - i,
{
    if i < 0 || i >= t.len() {
        if 0 <= start < t.len() { seq![PrintModel::Text(t.subrange(start, t.len() as int))] } else { seq![] }
    } else if t[i] == 10u8 {
        let cr = i > start && t[i - 1] == 13u8;
        let end = if cr { i - 1 } else { i };
        (if end > start { seq![PrintModel::Text(t.subrange(start, end))] } else { seq![] })
            + (if cr { seq![PrintModel::Text(seq![13u8])] } else { seq![] }) + seq![PrintModel::NewLine] + ple_scan(t, i + 1, i + 1)
    } else {
        ple_scan(t, start, i + 1)
    }
}

/// A text that keeps its own line endings: as `raw_items` when it has no line
/// feed, else its lines as `ple_scan` gives them with indentation ignored.
pub open spec fn preserving_items(t: Seq<u8>) -> Seq<PrintModel> {
    if t.contains(10u8) {
        seq![PrintModel::StartIgnoringIndent] + ple_scan(t, 0, 0) + seq![PrintModel::FinishIgnoringIndent]
    } else {
        raw_items(t)
    }
}

/// See `preserving_items`.
pub fn emit_text_preserving_line_endings(items: &mut Vec<PrintItem>, t: &[u8])
    ensures
        items_model(final(items)@) == items_model(old(items)@) + preserving_items(t@),
{
    if !contains_byte(t, 10u8) {
        gen_from_raw_string(items, t);
        return;
    }
    let ghost m0 = items_model(items@);
    push_signal(items, PrintItem::StartIgnoringIndent);
    let ghost m1 = items_model(items@);
    let mut start: usize = 0;
    let mut i: usize = 0;
    while i < t.len()
        invariant
            start <= i <= t@.len(),
            items_model(items@) + ple_scan(t@, start as int, i as int) == m1 + ple_scan(t@, 0, 0),
        decreases t@.len() - i,
    {
        if t[i] == 10u8 {
            let ghost before = items_model(items@);
            let cr = i > start && t[i - 1] == 13u8;
            let end = if cr { i - 1 } else { i };
            if end > start {
                push_text(items, t, start, end);
            }
            if cr {
                let cr_bytes: Vec<u8> = vec![13u8];
                let ghost m = items_model(items@);
                proof {
                    assert(cr_bytes@ =~= seq![13u8]);
                }
                items.push(PrintItem::Text(cr_bytes));
                proof {
                    assert(items_model(items@) =~= m.push(PrintModel::Text(seq![13u8])));
                }
            }
            push_signal(items, PrintItem::NewLine);
            proof {
                let a = if end > start { seq![PrintModel::Text(t@.subrange(start as int, end as int))] } else { seq![] };
                let b = if cr { seq![PrintModel::Text(seq![13u8])] } else { seq![] };
                assert(items_model(items@) =~= before + a + b + seq![PrintModel::NewLine]);
                assert(items_model(items@) + ple_scan(t@, i + 1, i + 1) =~= before + ple_scan(t@, start as int, i as int));
            }
            start = i + 1;
        }
        i = i + 1;
    }
    let ghost before = items_model(items@);
    if start < t.len() {
        push_text(items, t, start, t.len());
    }
    proof {
        assert(items_model(items@) =~= before + ple_scan(t@, start as int, i as int));
    }
    push_signal(items, PrintItem::FinishIgnoringIndent);
    proof {
        assert(items_model(items@) =~= m0 + preserving_items(t@));
    }
}

/// The index of the first `b` from `i` on, or the length.
pub open spec fn first_byte(t: Seq<u8>, b: u8, i: int) -> int
    decreases t.len() - i,
{
    if i < 0 || i >= t.len() || t[i] == b { i } else { first_byte(t, b, i + 1) }
}

/// The lines of a bracket argument after its first: each after a new line,
/// its text (without a carriage return before a line feed) unless empty.
pub open spec fn verbatim_lines(t: Seq<u8>, start: int, i: int) -> Seq<PrintModel>
    decreases t.len() - i,
{
    if i < 0 || i >= t.len() {
        if 0 <= start < t.len() {
            seq![PrintModel::NewLine, PrintModel::Text(t.subrange(start, t.len() as int))]
        } else {
            seq![]
        }
    } else if t[i] == 10u8 {
        let p = strip_cr(t.subrange(start, i));
        seq![PrintModel::NewLine] + (if p.len() > 0 { seq![PrintModel::Text(p)] } else { seq![] }) + verbatim_lines(t, i + 1, i + 1)
    } else {
        verbatim_lines(t, start, i + 1)
    }
}

/// A bracket argument printed as written: its first line as text, the rest
/// line by line with indentation ignored (and a new line after the last when
/// it ends with a line feed); a one-line argument as one text.
pub open spec fn bracket_items(t: Seq<u8>) -> Seq<PrintModel> {
    let f = first_byte(t, 10u8, 0);
    if f < t.len() {
        let rest = t.subrange(f + 1, t.len() as int);
        seq![PrintModel::Text(t.subrange(0, f)), PrintModel::StartIgnoringIndent] + verbatim_lines(rest, 0, 0)
            + (if rest.len() > 0 && rest.last() == 10u8 { seq![PrintModel::NewLine] } else { seq![] })
            + seq![PrintModel::FinishIgnoringIndent]
    } else {
        seq![PrintModel::Text(t)]
    }
}

/// See `bracket_items`.
pub fn emit_bracket_verbatim(items: &mut Vec<PrintItem>, t: &[u8])
    ensures
        items_model(final(items)@) == items_model(old(items)@) + bracket_items(t@),
{
    let ghost m0 = items_model(items@);
    let mut f: usize = 0;
    while f < t.len() && t[f] != 10u8
        invariant
            f <= t@.len(),
            first_byte(t@, 10u8, 0) == first_byte(t@, 10u8, f as int),
        decreases t@.len() - f,
    {
        f = f + 1;
    }
    if f == t.len() {
        push_text(items, t, 0, t.len());
        proof {
            assert(t@.subrange(0, t@.len() as int) =~= t@);
        }
        return;
    }
    push_text(items, t, 0, f);
    push_signal(items, PrintItem::StartIgnoringIndent);
    let rest = vstd::slice::slice_subrange(t, f + 1, t.len());
    let ghost m1 = items_model(items@);
    let mut start: usize = 0;
    let mut i: usize = 0;
    while i < rest.len()
        invariant
            start <= i <= rest@.len(),
            items_model(items@) + verbatim_lines(rest@, start as int, i as int) == m1 + verbatim_lines(rest@, 0, 0),
        decreases rest@.len() - i,
    {
        if rest[i] == 10u8 {
            let ghost before = items_model(items@);
            push_signal(items, PrintItem::NewLine);
            let e = strip_cr_end(rest, start, i);
            if e > start {
                push_text(items, rest, start, e);
            }
            proof {
                let p = strip_cr(rest@.subrange(start as int, i as int));
                assert(p == rest@.subrange(start as int, e as int));
                let a = if p.len() > 0 { seq![PrintModel::Text(p)] } else { seq![] };
                assert(items_model(items@) =~= before + seq![PrintModel::NewLine] + a);
                assert(items_model(items@) + verbatim_lines(rest@, i + 1, i + 1) =~= before + verbatim_lines(rest@, start as int, i as int));
            }
            start = i + 1;
        }
        i = i + 1;
    }
    let ghost before = items_model(items@);
    if start < rest.len() {
        push_signal(items, PrintItem::NewLine);
        push_text(items, rest, start, rest.len());
    }
    proof {
        assert(items_model(items@) =~= before + verbatim_lines(rest@, start as int, i as int));
    }
    if rest.len() > 0 && rest[rest.len() - 1] == 10u8 {
        push_signal(items, PrintItem::NewLine);
    }
    push_signal(items, PrintItem::FinishIgnoringIndent);
    proof {
        assert(items_model(items@) =~= m0 + bracket_items(t@));
    }
}

/// `n` spaces.
pub open spec fn spaces(n: nat) -> Seq<PrintModel> {
    Seq::new(n, |k: int| PrintModel::Space)
}

/// The gap before a trailing comment: `gap` spaces.
pub fn push_comment_gap(items: &mut Vec<PrintItem>, gap: u8)
    ensures
        items_model(final(items)@) == items_model(old(items)@) + spaces(gap as nat),
{
    let ghost m0 = items_model(items@);
    let mut k: u8 = 0;
    while k < gap
        invariant
            k <= gap,
            items_model(items@) == m0 + spaces(k as nat),
        decreases gap - k,
    {
        push_signal(items, PrintItem::Space);
        k = k + 1;
        proof {
            assert(items_model(items@) =~= m0 + spaces(k as nat));
        }
    }
}

/// The visual indent of a continued line as items: none for width 0,
/// else its text (see `indent_prefix`).
pub open spec fn visual_indent_items(width: nat, config: Configuration) -> Seq<PrintModel> {
    let p = crate::casing::indent_prefix(width, config.indent_style, config.indent_width as nat);
    if p.len() > 0 { raw_items(p) } else { seq![] }
}

/// See `visual_indent_items`.
pub fn push_visual_indent(items: &mut Vec<PrintItem>, width: usize, config: &Configuration)
    requires
        width > 0 && config.indent_style == crate::config::IndentStyle::Tab ==> config.indent_width > 0,
    ensures
        items_model(final(items)@) == items_model(old(items)@) + visual_indent_items(width as nat, *config),
{
    let prefix = visual_indent_prefix(width, config);
    let b = prefix.as_str().as_bytes();
    proof {
        assert(b@ == sbytes(prefix));
    }
    if b.len() > 0 {
        gen_from_raw_string(items, b);
    } else {
        proof {
            assert(items_model(items@) =~= items_model(old(items)@) + seq![]);
        }
    }
}

/// A new line, then the visual indent.
pub fn push_newline_with_visual_indent(items: &mut Vec<PrintItem>, width: usize, config: &Configuration)
    requires
        width > 0 && config.indent_style == crate::config::IndentStyle::Tab ==> config.indent_width > 0,
    ensures
        items_model(final(items)@) == items_model(old(items)@) + seq![PrintModel::NewLine] + visual_indent_items(width as nat, *config),
{
    push_signal(items, PrintItem::NewLine);
    push_visual_indent(items, width, config);
}

/// A new line for a wrapped line: with the visual indent when wrapped lines
/// are indented that way, else a plain new line.
pub fn push_wrapped_newline(items: &mut Vec<PrintItem>, wrap_indent: bool, visual_indent: usize, config: &Configuration)
    requires
        visual_indent > 0 && config.indent_style == crate::config::IndentStyle::Tab ==> config.indent_width > 0,
    ensures
        items_model(final(items)@) == items_model(old(items)@) + seq![PrintModel::NewLine]
            + (if wrap_indent { visual_indent_items(visual_indent as nat, *config) } else { seq![] }),
{
    if wrap_indent {
        push_newline_with_visual_indent(items, visual_indent, config);
    } else {
        push_signal(items, PrintItem::NewLine);
        proof {
            assert(items_model(items@) =~= items_model(old(items)@) + seq![PrintModel::NewLine] + seq![]);
        }
    }
}


/// The largest end of a span within the argument, one more per level of
/// parentheses around it.
pub open spec fn max_end(a: ArgModel) -> int
    decreases a, 0int,
{
    match a {
        ArgModel::Group(v) => 1 + max_ends(v, 0),
        ArgModel::Quoted(s) => s.end as int,
        ArgModel::Unquoted(s) => s.end as int,
        ArgModel::Bracket(s) => s.end as int,
        ArgModel::LineComment(s) => s.end as int,
        ArgModel::BracketComment(s) => s.end as int,
    }
}

pub open spec fn max_ends(v: Seq<ArgModel>, i: int) -> int
    decreases v, v.len() - i,
{
    if i < 0 || i >= v.len() {
        0
    } else {
        let a = max_end(v[i]);
        let b = max_ends(v, i + 1);
        if a > b { a } else { b }
    }
}

proof fn lemma_max_ends(v: Seq<ArgModel>, i: int, k: int)
    requires
        0 <= i <= k < v.len(),
    ensures
        max_end(v[k]) <= max_ends(v, i),
    decreases k - i,
{
    if i < k {
        lemma_max_ends(v, i + 1, k);
    }
}

/// Where an argument stands in the source: its span, or for a group from just
/// before its first argument to just after its last (an empty group gives
/// `(0, 0)`).
pub open spec fn range_of(a: ArgModel) -> (int, int)
    decreases a,
{
    match a {
        ArgModel::Group(v) => if v.len() == 0 {
            (0, 0)
        } else {
            let f = range_of(v[0]);
            let l = range_of(v.last());
            (if f.0 >= 1 { f.0 - 1 } else { 0 }, l.1 + 1)
        },
        ArgModel::Quoted(s) => (s.start as int, s.end as int),
        ArgModel::Unquoted(s) => (s.start as int, s.end as int),
        ArgModel::Bracket(s) => (s.start as int, s.end as int),
        ArgModel::LineComment(s) => (s.start as int, s.end as int),
        ArgModel::BracketComment(s) => (s.start as int, s.end as int),
    }
}

proof fn lemma_range_bound(a: ArgModel)
    ensures
        range_of(a).1 <= max_end(a),
        0 <= range_of(a).0,
    decreases a,
{
    match a {
        ArgModel::Group(v) => {
            if v.len() > 0 {
                lemma_range_bound(v[0]);
                lemma_range_bound(v.last());
                lemma_max_ends(v, 0, v.len() - 1);
            }
        },
        _ => {},
    }
}

/// See `range_of`.
pub fn arg_source_range(a: &Argument) -> (r: (usize, usize))
    requires
        max_end(arg_model(*a)) < usize::MAX,
    ensures
        (r.0 as int, r.1 as int) == range_of(arg_model(*a)),
    decreases *a,
{
    match a {
        Argument::Bracket(s) => (s.start, s.end),
        Argument::Quoted(s) => (s.start, s.end),
        Argument::Unquoted(s) => (s.start, s.end),
        Argument::LineComment(s) => (s.start, s.end),
        Argument::BracketComment(s) => (s.start, s.end),
        Argument::ParenGroup { arguments } => {
            let n = arguments.len();
            proof {
                lemma_args_model_len(*arguments, 0);
            }
            if n == 0 {
                (0, 0)
            } else {
                let ghost v = args_model(*arguments, 0);
                proof {
                    assert(v[0] == arg_model(arguments@[0]));
                    assert(v.last() == arg_model(arguments@[n - 1]));
                    lemma_max_ends(v, 0, 0);
                    lemma_max_ends(v, 0, n - 1);
                    lemma_range_bound(v.last());
                    assert(decreases_to!(*a => *arguments));
                    assert(decreases_to!(*arguments => arguments@));
                    assert(decreases_to!(arguments@ => arguments@[0]));
                    assert(decreases_to!(arguments@ => arguments@[n - 1]));
                }
                let first = arg_source_range(&arguments[0]);
                let last = arg_source_range(&arguments[n - 1]);
                let start = if first.0 >= 1 { first.0 - 1 } else { 0 };
                (start, last.1 + 1)
            }
        },
    }
}

/// A line without the first `n` bytes when they are all spaces or tabs.
pub open spec fn strip_indent(l: Seq<u8>, n: int) -> Seq<u8> {
    if l.len() >= n && forall|k: int| 0 <= k < n ==> (#[trigger] l[k] == 32u8 || l[k] == 9u8) {
        l.subrange(n, l.len() as int)
    } else {
        l
    }
}

/// See `strip_indent`; the result is where the kept part starts.
pub fn strip_base_indent(line: &[u8], n: usize) -> (r: usize)
    ensures
        r <= line@.len(),
        line@.subrange(r as int, line@.len() as int) == strip_indent(line@, n as int),
{
    if line.len() < n {
        proof {
            assert(line@.subrange(0, line@.len() as int) =~= line@);
        }
        return 0;
    }
    let mut k: usize = 0;
    while k < n
        invariant
            k <= n <= line@.len(),
            forall|q: int| 0 <= q < k ==> (#[trigger] line@[q] == 32u8 || line@[q] == 9u8),
        decreases n - k,
    {
        if !(line[k] == 32u8 || line[k] == 9u8) {
            proof {
                assert(line@.subrange(0, line@.len() as int) =~= line@);
                assert(!(line@[k as int] == 32u8 || line@[k as int] == 9u8));
            }
            return 0;
        }
        k = k + 1;
    }
    n
}

/// The kept part of a line after the base indent, as raw items (none when
/// empty).
pub open spec fn stripped_items(l: Seq<u8>, n: int) -> Seq<PrintModel> {
    let s = strip_indent(l, n);
    if s.len() > 0 { raw_items(s) } else { seq![] }
}

/// The lines of a gap after its first line feed: each after a new line, with
/// the base indent stripped.
pub open spec fn gap_lines(t: Seq<u8>, start: int, i: int, n: int) -> Seq<PrintModel>
    decreases t.len() - i,
{
    if i < 0 || i >= t.len() {
        seq![PrintModel::NewLine] + stripped_items(t.subrange(start, t.len() as int), n)
    } else if t[i] == 10u8 {
        seq![PrintModel::NewLine] + stripped_items(t.subrange(start, i), n) + gap_lines(t, i + 1, i + 1, n)
    } else {
        gap_lines(t, start, i + 1, n)
    }
}

/// The whitespace between two arguments: on one line, as it is; across lines,
/// each further line after a new line with the base indent stripped.
pub open spec fn gap_items(g: Seq<u8>, n: int) -> Seq<PrintModel> {
    if g.contains(10u8) {
        let f = first_byte(g, 10u8, 0);
        gap_lines(g.subrange(f + 1, g.len() as int), 0, 0, n)
    } else if g.len() > 0 {
        raw_items(g)
    } else {
        seq![]
    }
}

fn push_stripped(items: &mut Vec<PrintItem>, l: &[u8], n: usize)
    ensures
        items_model(final(items)@) == items_model(old(items)@) + stripped_items(l@, n as int),
{
    let r = strip_base_indent(l, n);
    if r < l.len() {
        gen_from_raw_string(items, vstd::slice::slice_subrange(l, r, l.len()));
    } else {
        proof {
            assert(items_model(items@) =~= items_model(old(items)@) + seq![]);
        }
    }
}

/// See `gap_items`.
fn push_gap(items: &mut Vec<PrintItem>, g: &[u8], n: usize)
    ensures
        items_model(final(items)@) == items_model(old(items)@) + gap_items(g@, n as int),
{
    let ghost m0 = items_model(items@);
    let mut f: usize = 0;
    while f < g.len() && g[f] != 10u8
        invariant
            f <= g@.len(),
            first_byte(g@, 10u8, 0) == first_byte(g@, 10u8, f as int),
            forall|q: int| 0 <= q < f ==> g@[q] != 10u8,
        decreases g@.len() - f,
    {
        f = f + 1;
    }
    if f == g.len() {
        proof {
            assert(!g@.contains(10u8));
        }
        if g.len() > 0 {
            gen_from_raw_string(items, g);
        } else {
            proof {
                assert(items_model(items@) =~= m0 + seq![]);
            }
        }
        return;
    }
    proof {
        assert(g@.contains(10u8)) by {
            assert(g@[f as int] == 10u8);
        }
    }
    let t = vstd::slice::slice_subrange(g, f + 1, g.len());
    let ghost m1 = items_model(items@);
    let mut start: usize = 0;
    let mut i: usize = 0;
    while i < t.len()
        invariant
            start <= i <= t@.len(),
            items_model(items@) + gap_lines(t@, start as int, i as int, n as int) == m1 + gap_lines(t@, 0, 0, n as int),
        decreases t@.len() - i,
    {
        if t[i] == 10u8 {
            let ghost before = items_model(items@);
            push_signal(items, PrintItem::NewLine);
            push_stripped(items, vstd::slice::slice_subrange(t, start, i), n);
            proof {
                assert(items_model(items@) + gap_lines(t@, i + 1, i + 1, n as int) =~= before + gap_lines(t@, start as int, i as int, n as int));
            }
            start = i + 1;
        }
        i = i + 1;
    }
    let ghost before = items_model(items@);
    push_signal(items, PrintItem::NewLine);
    push_stripped(items, vstd::slice::slice_subrange(t, start, t.len()), n);
    proof {
        assert(items_model(items@) =~= before + gap_lines(t@, start as int, i as int, n as int));
    }
}

/// An argument's own text: bracket and quoted arguments that span lines keep
/// their line endings; any other as raw text.
pub open spec fn arg_text_items(a: ArgModel, t: Seq<u8>) -> Seq<PrintModel> {
    if (a is Bracket || a is Quoted) && t.contains(10u8) { preserving_items(t) } else { raw_items(t) }
}

/// The arguments from `k` on stand in order after `pos` and before `hi`.
pub open spec fn chain_from(v: Seq<ArgModel>, k: int, pos: int, hi: int) -> bool
    decreases v.len() - k,
{
    if k < 0 || k >= v.len() {
        pos <= hi
    } else {
        let r = range_of(v[k]);
        pos <= r.0 <= r.1 && max_end(v[k]) < usize::MAX && chain_from(v, k + 1, r.1, hi)
    }
}

/// The arguments of an unknown command as written: from `k` on, each gap
/// before an argument (see `gap_items`) and the argument's text, then a new
/// line when a line feed stands before the closing parenthesis.
pub open spec fn unknown_from(v: Seq<ArgModel>, k: int, pos: int, src: Seq<u8>, hi: int, n: int) -> Seq<PrintModel>
    decreases v.len() - k,
{
    if k < 0 || k >= v.len() {
        if src.subrange(pos, hi).contains(10u8) { seq![PrintModel::NewLine] } else { seq![] }
    } else {
        let r = range_of(v[k]);
        gap_items(src.subrange(pos, r.0), n) + arg_text_items(v[k], src.subrange(r.0, r.1))
            + unknown_from(v, k + 1, r.1, src, hi, n)
    }
}

/// See `unknown_from`: an unknown command's arguments between
/// `content_start` and `content_end`, keeping their layout, with the base
/// indent of `base_indent_len` bytes taken off continued lines.
pub fn emit_unknown_args_raw(
    items: &mut Vec<PrintItem>,
    args: &Vec<Argument>,
    source: &[u8],
    content_start: usize,
    content_end: usize,
    base_indent_len: usize,
)
    requires
        content_end <= source@.len(),
        chain_from(args_model(*args, 0), 0, content_start as int, content_end as int),
    ensures
        items_model(final(items)@) == items_model(old(items)@)
            + unknown_from(args_model(*args, 0), 0, content_start as int, source@, content_end as int, base_indent_len as int),
{
    let ghost v = args_model(*args, 0);
    let ghost m0 = items_model(items@);
    proof {
        lemma_args_model_len(*args, 0);
    }
    let mut pos = content_start;
    let mut k: usize = 0;
    while k < args.len()
        invariant
            k <= args@.len() == v.len(),
            v == args_model(*args, 0),
            content_end <= source@.len(),
            chain_from(v, k as int, pos as int, content_end as int),
            items_model(items@) + unknown_from(v, k as int, pos as int, source@, content_end as int, base_indent_len as int)
                == m0 + unknown_from(v, 0, content_start as int, source@, content_end as int, base_indent_len as int),
        decreases args@.len() - k,
    {
        proof {
            lemma_args_model_len(*args, 0);
            assert(v[k as int] == arg_model(args@[0 + k]));
        }
        let r = arg_source_range(&args[k]);
        proof {
            lemma_chain_bound(v, k as int, pos as int, content_end as int);
        }
        let ghost before = items_model(items@);
        push_gap(items, vstd::slice::slice_subrange(source, pos, r.0), base_indent_len);
        let t = vstd::slice::slice_subrange(source, r.0, r.1);
        let keep = match &args[k] {
            Argument::Bracket(_) => true,
            Argument::Quoted(_) => true,
            _ => false,
        };
        if keep && contains_byte(t, 10u8) {
            emit_text_preserving_line_endings(items, t);
        } else {
            gen_from_raw_string(items, t);
        }
        proof {
            assert(items_model(items@) + unknown_from(v, k + 1, r.1 as int, source@, content_end as int, base_indent_len as int)
                =~= before + unknown_from(v, k as int, pos as int, source@, content_end as int, base_indent_len as int));
        }
        pos = r.1;
        k = k + 1;
    }
    let ghost before = items_model(items@);
    if contains_byte(vstd::slice::slice_subrange(source, pos, content_end), 10u8) {
        push_signal(items, PrintItem::NewLine);
    }
    proof {
        assert(items_model(items@) =~= before + unknown_from(v, k as int, pos as int, source@, content_end as int, base_indent_len as int));
    }
}

/// An argument's range in the chain ends before `hi`.
proof fn lemma_chain_bound(v: Seq<ArgModel>, k: int, pos: int, hi: int)
    requires
        0 <= k < v.len(),
        chain_from(v, k, pos, hi),
    ensures
        range_of(v[k]).1 <= hi,
    decreases v.len() - k,
{
    let r = range_of(v[k]);
    lemma_chain_end(v, k + 1, r.1, hi);
}

proof fn lemma_chain_end(v: Seq<ArgModel>, k: int, pos: int, hi: int)
    requires
        0 <= k,
        chain_from(v, k, pos, hi),
    ensures
        pos <= hi,
    decreases v.len() - k,
{
    if k < v.len() {
        let r = range_of(v[k]);
        lemma_chain_end(v, k + 1, r.1, hi);
    }
}


/// Where the line holding position `p` starts.
pub open spec fn line_start(src: Seq<u8>, p: int) -> int
    decreases p,
{
    if p <= 0 {
        0
    } else if src[p - 1] == 10u8 {
        p
    } else {
        line_start(src, p - 1)
    }
}

/// The arguments of an unknown command: one line's content as raw text;
/// across lines, argument by argument (see `unknown_from`) with the indent of
/// the command's line as the base indent.
pub open spec fn unknown_content(cmd: CommandModel, src: Seq<u8>) -> Seq<PrintModel> {
    let raw = src.subrange(cmd.open_paren.end as int, cmd.close_paren.start as int);
    if !raw.contains(10u8) {
        if raw.len() > 0 { raw_items(raw) } else { seq![] }
    } else {
        let base = cmd.name.start - line_start(src, cmd.name.start as int);
        unknown_from(cmd.arguments, 0, cmd.open_paren.end as int, src, cmd.close_paren.start as int, base)
    }
}

/// An unknown command printed as written: its name (already cased), a space
/// when one goes before the parenthesis, the arguments as `unknown_content`
/// gives them between parentheses, then the trailing comment after the
/// configured gap.
pub open spec fn unknown_command_items(cmd: CommandModel, src: Seq<u8>, name: Seq<u8>, space: bool, gap: nat) -> Seq<PrintModel> {
    seq![PrintModel::Text(name)] + (if space { seq![PrintModel::Space] } else { seq![] }) + seq![PrintModel::Text(seq![40u8])]
        + unknown_content(cmd, src) + seq![PrintModel::Text(seq![41u8])]
        + match cmd.trailing_comment {
            Some(c) => spaces(gap) + seq![PrintModel::Text(src.subrange(c.start as int, c.end as int))],
            None => seq![],
        }
}

/// See `unknown_command_items`. Whether a space goes before the parenthesis
/// is the configuration's decision for the command, made by the caller.
pub fn gen_unknown_command(cmd: &CommandInvocation, source: &str, config: &Configuration, formatted_name: &str, space_before_paren: bool) -> (r: Vec<PrintItem>)
    requires
        cmd.open_paren.end <= cmd.close_paren.start <= source.spec_bytes().len(),
        source.spec_bytes().subrange(cmd.open_paren.end as int, cmd.close_paren.start as int).contains(10u8)
            ==> chain_from(args_model(cmd.arguments, 0), 0, cmd.open_paren.end as int, cmd.close_paren.start as int),
        cmd.trailing_comment matches Some(c) ==> c.start <= c.end <= source.spec_bytes().len(),
        cmd.name.start <= source.spec_bytes().len(),
    ensures
        items_model(r@) == unknown_command_items(command_model(*cmd), source.spec_bytes(), formatted_name.spec_bytes(),
            space_before_paren, config.comment_gap as nat),
{
    let src = source.as_bytes();
    let mut items: Vec<PrintItem> = Vec::new();
    let name = formatted_name.as_bytes();
    push_text(&mut items, name, 0, name.len());
    if space_before_paren {
        push_signal(&mut items, PrintItem::Space);
    }
    let open: Vec<u8> = vec![40u8];
    let close: Vec<u8> = vec![41u8];
    push_text(&mut items, open.as_slice(), 0, 1);
    let ghost m1 = items_model(items@);
    let content_start = cmd.open_paren.end;
    let content_end = cmd.close_paren.start;
    let raw = vstd::slice::slice_subrange(src, content_start, content_end);
    if !contains_byte(raw, 10u8) {
        if raw.len() > 0 {
            gen_from_raw_string(&mut items, raw);
        }
    } else {
        let mut ls: usize = cmd.name.start;
        while ls > 0 && src[ls - 1] != 10u8
            invariant
                ls <= cmd.name.start <= src@.len(),
                line_start(src@, cmd.name.start as int) == line_start(src@, ls as int),
            decreases ls,
        {
            ls = ls - 1;
        }
        let base = cmd.name.start - ls;
        emit_unknown_args_raw(&mut items, &cmd.arguments, src, content_start, content_end, base);
    }
    proof {
        assert(items_model(items@) == m1 + unknown_content(command_model(*cmd), src@));
    }
    push_text(&mut items, close.as_slice(), 0, 1);
    match &cmd.trailing_comment {
        Some(c) => {
            push_comment_gap(&mut items, config.comment_gap);
            push_text(&mut items, src, c.start, c.end);
        },
        None => {},
    }
    proof {
        assert(name@.subrange(0, name@.len() as int) =~= name@);
        assert(open@.subrange(0, 1) =~= seq![40u8]);
        assert(close@.subrange(0, 1) =~= seq![41u8]);
        assert(items_model(items@) =~= unknown_command_items(command_model(*cmd), src@, name@, space_before_paren, config.comment_gap as nat));
    }
    items
}


/// The arguments from `k` on stand in order after `pos`, each within `hi`
/// (its parentheses included).
pub open spec fn ordered(v: Seq<ArgModel>, k: int, pos: int, hi: int) -> bool
    decreases v.len() - k,
{
    if k < 0 || k >= v.len() {
        pos <= hi
    } else {
        let r = range_of(v[k]);
        pos <= r.0 <= r.1 && max_end(v[k]) <= hi && ordered(v, k + 1, r.1, hi)
    }
}

/// No parenthesized group within the argument is empty.
pub open spec fn no_empty_group(a: ArgModel) -> bool
    decreases a, 0int,
{
    match a {
        ArgModel::Group(v) => v.len() > 0 && no_empty_groups(v, 0),
        _ => true,
    }
}

pub open spec fn no_empty_groups(v: Seq<ArgModel>, i: int) -> bool
    decreases v, v.len() - i,
{
    if i < 0 || i >= v.len() {
        true
    } else {
        no_empty_group(v[i]) && no_empty_groups(v, i + 1)
    }
}

/// Ordered arguments within a bound below the machine's limit chain.
pub proof fn lemma_ordered_chain(v: Seq<ArgModel>, k: int, pos: int, hi: int)
    requires
        0 <= k,
        ordered(v, k, pos, hi),
        hi < usize::MAX,
    ensures
        chain_from(v, k, pos, hi),
    decreases v.len() - k,
{
    if k < v.len() {
        lemma_ordered_chain(v, k + 1, range_of(v[k]).1, hi);
    }
}


fn push_bytes(out: &mut Vec<u8>, t: &[u8])
    ensures
        final(out)@ == old(out)@ + t@,
{
    let ghost o = out@;
    let mut k: usize = 0;
    while k < t.len()
        invariant
            k <= t@.len(),
            out@ == o + t@.subrange(0, k as int),
        decreases t@.len() - k,
    {
        out.push(t[k]);
        k = k + 1;
        proof {
            assert(out@ =~= o + t@.subrange(0, k as int));
        }
    }
    proof {
        assert(t@.subrange(0, t@.len() as int) =~= t@);
    }
}

/// See `put`.
fn put_exec(out: &mut Vec<u8>, t: &[u8], indent: i128, ignoring: i128, fresh: bool, unit: &[u8])
    ensures
        final(out)@ == old(out)@ + put(t@, PrintState { indent: indent as int, ignoring: ignoring as int, fresh }, unit@),
{
    if fresh && ignoring <= 0 {
        let ghost o = out@;
        let n: i128 = if indent > 0 { indent } else { 0 };
        let mut j: i128 = 0;
        proof {
            assert(repeat_seq(unit@, 0) =~= Seq::<u8>::empty());
            assert(out@ =~= o + repeat_seq(unit@, 0));
        }
        while j < n
            invariant
                0 <= j <= n,
                out@ == o + repeat_seq(unit@, j as nat),
            decreases n - j,
        {
            push_bytes(out, unit);
            j = j + 1;
            proof {
                assert(repeat_seq(unit@, j as nat) == repeat_seq(unit@, (j - 1) as nat) + unit@);
                assert(out@ =~= o + repeat_seq(unit@, j as nat));
            }
        }
        push_bytes(out, t);
        proof {
            assert(out@ =~= o + (repeat_seq(unit@, n as nat) + t@));
        }
    } else {
        push_bytes(out, t);
    }
}

/// The printed output of the items (see `render`), `unit` being one level of
/// indentation.
pub fn print_items(items: &Vec<PrintItem>, unit: &[u8]) -> (r: Vec<u8>)
    ensures
        r@ == render(items_model(items@), unit@),
{
    let ghost m = items_model(items@);
    let ghost target = render(m, unit@);
    let mut out: Vec<u8> = Vec::new();
    let mut indent: i128 = 0;
    let mut ignoring: i128 = 0;
    let mut fresh = true;
    let mut k: usize = 0;
    while k < items.len()
        invariant
            k <= items@.len(),
            m == items_model(items@),
            -(k as int) <= indent <= k,
            -(k as int) <= ignoring <= k,
            out@ + render_from(m, k as int, PrintState { indent: indent as int, ignoring: ignoring as int, fresh }, unit@) == target,
        decreases items@.len() - k,
    {
        let ghost st = PrintState { indent: indent as int, ignoring: ignoring as int, fresh };
        let ghost before = out@;
        proof {
            assert(m[k as int] == item_model(items@[k as int]));
        }
        match &items[k] {
            PrintItem::Text(t) => {
                put_exec(&mut out, t.as_slice(), indent, ignoring, fresh, unit);
                fresh = false;
            },
            PrintItem::Space => {
                let sp: Vec<u8> = vec![32u8];
                proof {
                    assert(sp@ =~= seq![32u8]);
                }
                put_exec(&mut out, sp.as_slice(), indent, ignoring, fresh, unit);
                fresh = false;
            },
            PrintItem::Tab => {
                let tb: Vec<u8> = vec![9u8];
                proof {
                    assert(tb@ =~= seq![9u8]);
                }
                put_exec(&mut out, tb.as_slice(), indent, ignoring, fresh, unit);
                fresh = false;
            },
            PrintItem::NewLine => {
                out.push(10u8);
                fresh = true;
            },
            PrintItem::StartIndent => {
                indent = indent + 1;
            },
            PrintItem::FinishIndent => {
                indent = indent - 1;
            },
            PrintItem::StartIgnoringIndent => {
                ignoring = ignoring + 1;
            },
            PrintItem::FinishIgnoringIndent => {
                ignoring = ignoring - 1;
            },
        }
        proof {
            let st2 = PrintState { indent: indent as int, ignoring: ignoring as int, fresh };
            assert(after(m[k as int], st) == st2);
            assert(out@ == before + printed(m[k as int], st, unit@));
            assert(out@ + render_from(m, k + 1, st2, unit@) =~= before + render_from(m, k as int, st, unit@));
        }
        k = k + 1;
    }
    out
}

} // verus!
