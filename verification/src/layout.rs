//! The layout of a file: blank lines, indentation, directives and regions
//! kept as written, as a state machine over the file's elements.
use vstd::prelude::*;
use vstd::string::StringSliceAdditionalSpecFns;

use crate::ast::{
    arg_model, args_model, copy_arguments, elem_model, lemma_args_model_len, lemma_args_model_push,
    ArgModel, Argument, CommandInvocation, ElemModel, File, FileElement, Span, file_model,
};
use crate::config::{ConfigModel, Configuration, EndCommandArgs};
use crate::text::{
    ci_eq, eq_bytes, eq_ci, find_ws, find_ws_exec, has_at, has_at_exec, lower_seq, skip_ws,
    skip_ws_exec, string_of, to_lower_vec, trim, trim_seq,
};

use crate::gen_file::{
    apply_end_command_args, block_role, block_role_of, command_source_range, end_args, ignored,
    indent_bytes, indent_prefix_bytes, is_ignored_bytes, line_begin, line_finish, non_comment_args,
    pragma_of, pragma_of_bytes, sbytes, span_bytes, should_insert_min_blank_lines_before, wants_block_separation,
    without_comments, BlockRole, BlockStack, PragmaModel, PragmaModelTag, StackModel,
};

verus! {

/// One item of a file's layout.
#[derive(Debug)]
pub enum FileItem {
    /// A line break.
    NewLine,
    /// Text written as it is: a command or comment kept verbatim, or a
    /// comment after its indentation.
    Raw(Vec<u8>),
    /// A command to lay out: the index of its element, its indentation level,
    /// its arguments when `endCommandArgs` replaces them, and the
    /// configuration in force.
    Command { index: usize, indent_level: u32, arguments: Option<Vec<Argument>>, config: Configuration },
}

/// The value of a layout item.
pub ghost enum ItemModel {
    NewLine,
    Raw(Seq<u8>),
    Command { index: int, indent_level: int, arguments: Option<Seq<ArgModel>>, config: ConfigModel },
}

pub open spec fn item_model(i: FileItem) -> ItemModel {
    match i {
        FileItem::NewLine => ItemModel::NewLine,
        FileItem::Raw(b) => ItemModel::Raw(b@),
        FileItem::Command { index, indent_level, arguments, config } => ItemModel::Command {
            index: index as int,
            indent_level: indent_level as int,
            arguments: match arguments {
                Some(a) => Some(args_model(a, 0)),
                None => None,
            },
            config: config.model(),
        },
    }
}

pub open spec fn items_model(v: Seq<FileItem>) -> Seq<ItemModel> {
    v.map_values(|i: FileItem| item_model(i))
}

/// One level of indentation under a configuration's value.
pub open spec fn indent_unit_m(c: ConfigModel) -> Seq<u8> {
    if c.use_tabs {
        seq![9u8]
    } else {
        Seq::new(c.indent_width as nat, |i: int| 32u8)
    }
}

/// `level` levels of indentation under a configuration's value.
pub open spec fn indent_m(level: nat, c: ConfigModel) -> Seq<u8>
    decreases level,
{
    if level == 0 {
        Seq::empty()
    } else {
        indent_m((level - 1) as nat, c) + indent_unit_m(c)
    }
}

/// The command name is in a configuration value's `ignore_commands`,
/// without regard to ASCII case.
pub open spec fn ignored_m(c: ConfigModel, n: Seq<u8>) -> bool {
    exists|i: int| #![trigger c.ignore_commands[i]] 0 <= i < c.ignore_commands.len() && ci_eq(c.ignore_commands[i], n)
}

proof fn lemma_indent_m(level: nat, c: Configuration)
    ensures
        indent_bytes(level, c) == indent_m(level, c.model()),
    decreases level,
{
    reveal(Configuration::model);
    if level > 0 {
        lemma_indent_m((level - 1) as nat, c);
    }
}

proof fn lemma_ignored_m(c: Configuration, n: Seq<u8>)
    ensures
        ignored(c.ignore_commands@, n) == ignored_m(c.model(), n),
{
    reveal(Configuration::model);
    reveal(crate::config::strs_of);
    if ignored(c.ignore_commands@, n) {
        let i = choose|i: int| #![trigger c.ignore_commands@[i]] 0 <= i < c.ignore_commands@.len() && ci_eq(sbytes(c.ignore_commands@[i]), n);
        assert(c.model().ignore_commands[i] == sbytes(c.ignore_commands@[i]));
    }
    if ignored_m(c.model(), n) {
        let i = choose|i: int| #![trigger c.model().ignore_commands[i]] 0 <= i < c.model().ignore_commands.len() && ci_eq(c.model().ignore_commands[i], n);
        assert(c.model().ignore_commands[i] == sbytes(c.ignore_commands@[i]));
    }
}

proof fn lemma_fields_m(c: Configuration)
    ensures
        c.model().max_blank_lines == c.max_blank_lines,
        c.model().min_blank_lines_between_blocks == c.min_blank_lines_between_blocks,
        c.model().indent_block_body == c.indent_block_body,
        c.model().end_command_args == c.end_command_args,
{
    reveal(Configuration::model);
}

/// Where the layout stands before an element.
pub ghost struct LayoutState {
    pub blanks: int,
    pub indent: int,
    pub first: bool,
    pub opened: bool,
    pub saved: Seq<ConfigModel>,
    pub cur: ConfigModel,
    pub blocks: StackModel,
    pub skip: bool,
    pub off: bool,
}

/// The source bytes of a span, when it lies in the source.
pub open spec fn text_of(s: Seq<u8>, sp: Span) -> Seq<u8> {
    s.subrange(sp.start as int, sp.end as int)
}

/// The spans of the element lie in the source and are ordered.
pub open spec fn elem_fits(e: ElemModel, s: Seq<u8>) -> bool {
    match e {
        ElemModel::Command(c) => c.name.start <= c.name.end <= s.len() && c.close_paren.end <= s.len() && c.name.start <= c.close_paren.end,
        ElemModel::LineComment(sp) => sp.start <= sp.end <= s.len() && crate::text::bnd(s, sp.start as int) && crate::text::bnd(s, sp.end as int),
        ElemModel::BracketComment(sp) => sp.start <= sp.end <= s.len(),
        ElemModel::BlankLine => true,
    }
}

/// A line break unless nothing was written yet.
pub open spec fn sep_nl(first: bool) -> Seq<ItemModel> {
    if first {
        seq![]
    } else {
        seq![ItemModel::NewLine]
    }
}

/// A command as written: the lines from its name to its closing parenthesis.
pub open spec fn command_lines(s: Seq<u8>, c: crate::ast::CommandModel) -> Seq<u8> {
    s.subrange(line_begin(s, c.name.start as int), line_finish(s, c.close_paren.end as int))
}

/// The layout of element `i` in a region where formatting is off: every
/// element as written, each on its own line, until a `cmakefmt: on` comment.
#[verifier::opaque]
pub open spec fn step_off(es: Seq<ElemModel>, s: Seq<u8>, i: int, st: LayoutState) -> (LayoutState, Seq<ItemModel>) {
    match es[i] {
        ElemModel::BlankLine => (LayoutState { first: false, ..st }, sep_nl(st.first)),
        ElemModel::Command(c) => (LayoutState { first: false, ..st }, sep_nl(st.first).push(ItemModel::Raw(command_lines(s, c)))),
        ElemModel::LineComment(sp) => {
            let t = text_of(s, sp);
            (LayoutState { first: false, off: pragma_of(t) != Some(PragmaModel::On), ..st }, sep_nl(st.first).push(ItemModel::Raw(t)))
        },
        ElemModel::BracketComment(sp) => (LayoutState { first: false, ..st }, sep_nl(st.first).push(ItemModel::Raw(text_of(s, sp)))),
    }
}

/// The blank lines written before element `i` (formatting on): those pending,
/// raised to `minBlankLinesBetweenBlocks` where a block wants separation, none
/// before a block's middle or closer.
pub open spec fn blanks_before(es: Seq<ElemModel>, s: Seq<u8>, i: int, st: LayoutState) -> int {
    let b = if st.cur.min_blank_lines_between_blocks > 0 && wants_block_separation(es, i, s, st.first, st.opened) {
        if st.blanks >= st.cur.min_blank_lines_between_blocks { st.blanks } else { st.cur.min_blank_lines_between_blocks as int }
    } else {
        st.blanks
    };
    match es[i] {
        ElemModel::Command(c) => {
            let r = block_role(text_of(s, c.name));
            if r == BlockRole::Closer || r == BlockRole::Middle { 0 } else { b }
        },
        _ => b,
    }
}

/// The layout of a command (formatting on): after the pending blank lines and
/// a line break, the command as written (after a `skip` directive, or when
/// its name is ignored) or laid out at its level; a closer or middle is one
/// level out, and an opener or middle opens a level when block bodies are
/// indented.
#[verifier::opaque]
pub open spec fn step_command(s: Seq<u8>, i: int, c: crate::ast::CommandModel, st: LayoutState, lead: Seq<ItemModel>) -> (LayoutState, Seq<ItemModel>) {
    let name = text_of(s, c.name);
    let role = block_role(name);
    let was_in = st.indent > 0;
    let ind1 = if (role == BlockRole::Closer || role == BlockRole::Middle) && st.indent > 0 { st.indent - 1 } else { st.indent };
    let blocks1 = if role == BlockRole::Opener { st.blocks.push((lower_seq(name), without_comments(c.arguments))) } else { st.blocks };
    let verbatim = st.skip || ignored_m(st.cur, name);
    let item = if verbatim {
        ItemModel::Raw(command_lines(s, c))
    } else {
        ItemModel::Command { index: i, indent_level: ind1, arguments: end_args(name, c.arguments, st.cur.end_command_args, blocks1), config: st.cur }
    };
    let opens = role == BlockRole::Opener || (role == BlockRole::Middle && was_in);
    let ind2 = if opens && st.cur.indent_block_body { ind1 + 1 } else { ind1 };
    let blocks2 = if role == BlockRole::Closer && blocks1.len() > 0 { blocks1.drop_last() } else { blocks1 };
    (LayoutState { blanks: 0, indent: ind2, first: false, opened: opens, blocks: blocks2, skip: false, ..st }, lead + sep_nl(st.first).push(item))
}

/// The layout of a line comment (formatting on): a `push` directive saves the
/// configuration and applies its body before the comment is written, a `pop`
/// restores the saved one after; `skip` marks the next command, `off` starts a
/// region kept as written.
#[verifier::opaque]
pub open spec fn step_line_comment(s: Seq<u8>, sp: Span, st: LayoutState, lead: Seq<ItemModel>) -> (LayoutState, Seq<ItemModel>) {
    let t = crate::text::trim_end_seq(text_of(s, sp));
    let d = pragma_of(t);
    let st1 = pushed(LayoutState { blanks: 0, opened: false, ..st }, d);
    let item = ItemModel::Raw(indent_m(st.indent as nat, st1.cur) + t);
    (directive_after(LayoutState { first: false, ..st1 }, d), lead + sep_nl(st.first).push(item))
}

/// Before a comment is written: a `push` directive saves the configuration
/// and applies its body.
#[verifier::opaque]
pub open spec fn pushed(st: LayoutState, d: Option<PragmaModel>) -> LayoutState {
    match d {
        Some(PragmaModel::Push(body)) => LayoutState {
            saved: st.saved.push(st.cur),
            cur: crate::inline::inline_result(st.cur, vstd::utf8::decode_utf8(body)),
            ..st
        },
        _ => st,
    }
}

/// After a comment is written: `skip` marks the next command, `off` starts a
/// region kept as written (and clears `skip`), `pop` restores the saved
/// configuration when there is one.
#[verifier::opaque]
pub open spec fn directive_after(st: LayoutState, d: Option<PragmaModel>) -> LayoutState {
    let skip1 = if d == Some(PragmaModel::Skip) { true } else if d == Some(PragmaModel::Off) { false } else { st.skip };
    let off1 = d == Some(PragmaModel::Off);
    if d == Some(PragmaModel::Pop) && st.saved.len() > 0 {
        LayoutState { skip: skip1, off: off1, saved: st.saved.drop_last(), cur: st.saved.last(), ..st }
    } else {
        LayoutState { skip: skip1, off: off1, ..st }
    }
}

/// The directive's kind.
pub open spec fn tag_of(d: Option<PragmaModel>) -> Option<PragmaModelTag> {
    match d {
        Some(PragmaModel::Off) => Some(PragmaModelTag::Off),
        Some(PragmaModel::On) => Some(PragmaModelTag::On),
        Some(PragmaModel::Skip) => Some(PragmaModelTag::Skip),
        Some(PragmaModel::Pop) => Some(PragmaModelTag::Pop),
        Some(PragmaModel::Push(_)) => Some(PragmaModelTag::Push),
        None => None,
    }
}

/// A `pop` directive right after a `push` directive gives back the
/// configuration in force, and the saved ones, as they were before the push.
pub proof fn law_pop_restores_push(s: Seq<u8>, sp1: Span, sp2: Span, st: LayoutState, l1: Seq<ItemModel>, l2: Seq<ItemModel>)
    requires
        pragma_of(crate::text::trim_end_seq(text_of(s, sp1))) is Some,
        pragma_of(crate::text::trim_end_seq(text_of(s, sp1))).unwrap() is Push,
        pragma_of(crate::text::trim_end_seq(text_of(s, sp2))) == Some(PragmaModel::Pop),
    ensures
        step_line_comment(s, sp2, step_line_comment(s, sp1, st, l1).0, l2).0.cur == st.cur,
        step_line_comment(s, sp2, step_line_comment(s, sp1, st, l1).0, l2).0.saved == st.saved,
{
    reveal(step_line_comment);
    reveal(pushed);
    reveal(directive_after);
    let st1 = step_line_comment(s, sp1, st, l1).0;
    assert(st1.saved == st.saved.push(st.cur));
    assert(st1.saved.drop_last() =~= st.saved);
}

/// The layout of element `i`.
pub open spec fn step(es: Seq<ElemModel>, s: Seq<u8>, i: int, st: LayoutState) -> (LayoutState, Seq<ItemModel>) {
    if st.off {
        step_off(es, s, i, st)
    } else {
        match es[i] {
            ElemModel::BlankLine => {
                if !st.first && !st.opened {
                    let b = if st.blanks + 1 <= st.cur.max_blank_lines { st.blanks + 1 } else { st.cur.max_blank_lines as int };
                    (LayoutState { blanks: b, ..st }, seq![])
                } else {
                    (st, seq![])
                }
            },
            _ => {
                let lead = Seq::new(blanks_before(es, s, i, st) as nat, |k: int| ItemModel::NewLine);
                match es[i] {
                    ElemModel::Command(c) => step_command(s, i, c, st, lead),
                    ElemModel::LineComment(sp) => step_line_comment(s, sp, st, lead),
                    ElemModel::BracketComment(sp) => (
                        LayoutState { blanks: 0, opened: false, first: false, ..st },
                        lead + sep_nl(st.first).push(ItemModel::Raw(indent_m(st.indent as nat, st.cur) + text_of(s, sp))),
                    ),
                    ElemModel::BlankLine => (st, seq![]),
                }
            },
        }
    }
}

/// The layout of elements `i..n`.
pub open spec fn run(es: Seq<ElemModel>, s: Seq<u8>, n: int, i: int, st: LayoutState) -> Seq<ItemModel>
    decreases n - i,
{
    if i < 0 || i >= n {
        seq![]
    } else {
        let r = step(es, s, i, st);
        r.1 + run(es, s, n, i + 1, r.0)
    }
}

/// The state before element `k` of a run that started at `i` from `st`.
pub open spec fn state_at(es: Seq<ElemModel>, s: Seq<u8>, i: int, k: int, st: LayoutState) -> LayoutState
    decreases k - i,
{
    if k <= i {
        st
    } else {
        step(es, s, k - 1, state_at(es, s, i, k - 1, st)).0
    }
}

/// Pending blank lines never exceed `maxBlankLines` of the configuration in
/// force, and none are pending right after a block opened.
pub open spec fn blanks_ok(st: LayoutState) -> bool {
    0 <= st.blanks <= st.cur.max_blank_lines && (st.opened ==> st.blanks == 0)
}

proof fn lemma_step_blanks(es: Seq<ElemModel>, s: Seq<u8>, i: int, st: LayoutState)
    requires
        blanks_ok(st),
        0 <= i < es.len(),
    ensures
        blanks_ok(step(es, s, i, st).0),
{
    reveal(step_off);
    reveal(step_command);
    reveal(step_line_comment);
    reveal(pushed);
    reveal(directive_after);
}

proof fn lemma_state_at_blanks(es: Seq<ElemModel>, s: Seq<u8>, i: int, k: int, st: LayoutState)
    requires
        blanks_ok(st),
        0 <= i <= k <= es.len(),
    ensures
        blanks_ok(state_at(es, s, i, k, st)),
    decreases k - i,
{
    if k > i {
        lemma_state_at_blanks(es, s, i, k - 1, st);
        lemma_step_blanks(es, s, k - 1, state_at(es, s, i, k - 1, st));
    }
}

/// Blank lines in a file's layout: before each element (formatting on, the
/// element not itself a blank line) the layout writes at most
/// `maxBlankLines` blank lines, or `minBlankLinesBetweenBlocks` where a block
/// wants separation, of the configuration in force there; none before a
/// block's middle or closer, and none right after a block opened.
pub proof fn law_blank_lines_bounded(es: Seq<ElemModel>, s: Seq<u8>, c: ConfigModel, k: int)
    requires
        0 <= k < es.len(),
    ensures
        ({
            let st0 = LayoutState { blanks: 0, indent: 0, first: true, opened: false, saved: seq![], cur: c, blocks: seq![], skip: false, off: false };
            let st = state_at(es, s, 0, k, st0);
            let b = blanks_before(es, s, k, st);
            &&& b <= (if st.cur.max_blank_lines >= st.cur.min_blank_lines_between_blocks { st.cur.max_blank_lines } else { st.cur.min_blank_lines_between_blocks })
            &&& st.opened ==> b == 0
            &&& (es[k] matches ElemModel::Command(cm) && (block_role(text_of(s, cm.name)) == BlockRole::Closer
                || block_role(text_of(s, cm.name)) == BlockRole::Middle)) ==> b == 0
        }),
{
    let st0 = LayoutState { blanks: 0, indent: 0, first: true, opened: false, saved: seq![], cur: c, blocks: seq![], skip: false, off: false };
    lemma_state_at_blanks(es, s, 0, k, st0);
}

/// Number of elements once the trailing blank lines are left out.
pub open spec fn content_len(es: Seq<ElemModel>) -> int
    decreases es.len(),
{
    if es.len() == 0 {
        0
    } else if es.last() is BlankLine {
        content_len(es.drop_last())
    } else {
        es.len() as int
    }
}

/// The layout of a file: its elements up to the last that is not a blank
/// line, from a state with nothing written, then a final line break.
pub open spec fn layout(es: Seq<ElemModel>, s: Seq<u8>, c: ConfigModel) -> Seq<ItemModel> {
    let st = LayoutState { blanks: 0, indent: 0, first: true, opened: false, saved: seq![], cur: c, blocks: seq![], skip: false, off: false };
    run(es, s, content_len(es), 0, st).push(ItemModel::NewLine)
}

/// The layout being built: the items so far and where it stands.
pub struct Layout {
    pub items: Vec<FileItem>,
    pub pending_blanks: u8,
    pub indent_level: u32,
    pub first: bool,
    pub just_opened_block: bool,
    pub config_stack: Vec<Configuration>,
    pub current: Configuration,
    pub block_stack: BlockStack,
    pub skip_next_command: bool,
    pub formatting_disabled: bool,
}

pub open spec fn saved_models(v: Seq<Configuration>) -> Seq<ConfigModel> {
    v.map_values(|c: Configuration| c.model())
}

impl Layout {
    pub open spec fn state(&self) -> LayoutState {
        LayoutState {
            blanks: self.pending_blanks as int,
            indent: self.indent_level as int,
            first: self.first,
            opened: self.just_opened_block,
            saved: saved_models(self.config_stack@),
            cur: self.current.model(),
            blocks: self.block_stack.model(),
            skip: self.skip_next_command,
            off: self.formatting_disabled,
        }
    }

    /// A line break unless nothing was written yet; then something was.
    fn break_line(&mut self)
        ensures
            items_model(final(self).items@) == items_model(old(self).items@) + sep_nl(old(self).first),
            final(self).state() == (LayoutState { first: false, ..old(self).state() }),
    {
        let ghost o = items_model(self.items@);
        if !self.first {
            self.items.push(FileItem::NewLine);
        }
        self.first = false;
        proof {
            assert(items_model(self.items@) =~= o + sep_nl(old(self).first));
        }
    }

    /// Writes bytes as they are.
    fn raw(&mut self, b: Vec<u8>)
        ensures
            items_model(final(self).items@) == items_model(old(self).items@).push(ItemModel::Raw(b@)),
            final(self).state() == old(self).state(),
    {
        let ghost o = items_model(self.items@);
        self.items.push(FileItem::Raw(b));
        proof {
            assert(items_model(self.items@) =~= o.push(ItemModel::Raw(b@)));
        }
    }

    /// Writes `n` line breaks.
    fn blank_lines(&mut self, n: u8)
        ensures
            items_model(final(self).items@) == items_model(old(self).items@) + Seq::new(n as nat, |k: int| ItemModel::NewLine),
            final(self).state() == old(self).state(),
    {
        let ghost o = items_model(self.items@);
        let mut k: u8 = 0;
        while k < n
            invariant
                k <= n,
                self.state() == old(self).state(),
                items_model(self.items@) == o + Seq::new(k as nat, |j: int| ItemModel::NewLine),
            decreases n - k,
        {
            let ghost before = items_model(self.items@);
            self.items.push(FileItem::NewLine);
            proof {
                assert(items_model(self.items@) =~= before.push(ItemModel::NewLine));
                assert(o + Seq::new((k + 1) as nat, |j: int| ItemModel::NewLine) =~= (o + Seq::new(k as nat, |j: int| ItemModel::NewLine)).push(ItemModel::NewLine));
            }
            k = k + 1;
        }
    }
}

proof fn lemma_line_range(s: Seq<u8>, p: int, q: int)
    requires
        0 <= p <= q <= s.len(),
    ensures
        0 <= line_begin(s, p) <= p,
        q <= line_finish(s, q) <= s.len(),
    decreases s.len() - q + p,
{
    if p > 0 && s[p - 1] != 10u8 {
        lemma_line_range(s, p - 1, q);
    } else if q < s.len() && s[q] != 10u8 && s[q] != 13u8 {
        lemma_line_range(s, p, q + 1);
    }
}

/// The bytes from `a` to `b` of the source.
pub(crate) fn slice_vec(s: &[u8], a: usize, b: usize) -> (r: Vec<u8>)
    requires
        a <= b <= s@.len(),
    ensures
        r@ == s@.subrange(a as int, b as int),
{
    let mut out: Vec<u8> = Vec::new();
    crate::post_process::push_bytes(&mut out, &s[a..b]);
    proof {
        assert(out@ =~= s@.subrange(a as int, b as int));
    }
    out
}

impl Layout {
    /// An element in a region where formatting is off; see `step_off`.
    #[verifier::spinoff_prover]
    fn element_off(&mut self, es: &[FileElement], i: usize, source: &[u8])
        requires
            old(self).formatting_disabled,
            i < es@.len(),
            elem_fits(elem_model(es@[i as int]), source@),
        ensures
            final(self).state() == step_off(es@.map_values(|e: FileElement| elem_model(e)), source@, i as int, old(self).state()).0,
            items_model(final(self).items@) == items_model(old(self).items@) + step_off(es@.map_values(|e: FileElement| elem_model(e)), source@, i as int, old(self).state()).1,
            final(self).indent_level == old(self).indent_level,
    {
        proof {
            reveal(step_off);
            assert(es@.map_values(|e: FileElement| elem_model(e))[i as int] == elem_model(es@[i as int]));
        }
        match &es[i] {
            FileElement::BlankLine => {
                self.break_line();
            },
            FileElement::Command(cmd) => {
                self.break_line();
                let (a, b) = command_source_range(cmd, source);
                proof {
                    lemma_line_range(source@, cmd.name.start as int, cmd.close_paren.end as int);
                }
                let v = slice_vec(source, a, b);
                self.raw(v);
            },
            FileElement::LineComment(sp) => {
                self.break_line();
                let t = &source[sp.start..sp.end];
                proof {
                    assert(t@ == text_of(source@, *sp));
                }
                let on = match pragma_of_bytes(t) {
                    Some((PragmaModelTag::On, _)) => true,
                    _ => false,
                };
                let v = slice_vec(source, sp.start, sp.end);
                self.raw(v);
                if on {
                    self.formatting_disabled = false;
                }
            },
            FileElement::BracketComment(sp) => {
                self.break_line();
                let v = slice_vec(source, sp.start, sp.end);
                self.raw(v);
            },
        }
    }
}

impl Layout {
    /// A command where formatting is on; see `step_command`.
    #[verifier::spinoff_prover]
    fn element_command(&mut self, index: usize, cmd: &CommandInvocation, source: &[u8], lead: u8)
        requires
            elem_fits(ElemModel::Command(crate::ast::command_model(*cmd)), source@),
            old(self).indent_level < u32::MAX,
        ensures
            final(self).state() == step_command(source@, index as int, crate::ast::command_model(*cmd), old(self).state(), Seq::new(lead as nat, |k: int| ItemModel::NewLine)).0,
            items_model(final(self).items@) == items_model(old(self).items@) + step_command(source@, index as int, crate::ast::command_model(*cmd), old(self).state(), Seq::new(lead as nat, |k: int| ItemModel::NewLine)).1,
            final(self).indent_level <= old(self).indent_level + 1,
    {
        let ghost st = self.state();
        let ghost cm = crate::ast::command_model(*cmd);
        let ghost leadm = Seq::new(lead as nat, |k: int| ItemModel::NewLine);
        let ghost items0 = items_model(self.items@);
        self.blank_lines(lead);
        self.pending_blanks = 0;
        self.just_opened_block = false;
        let name = &source[cmd.name.start..cmd.name.end];
        proof {
            assert(name@ == text_of(source@, cm.name));
        }
        let role = block_role_of(name);
        let was_in_block = self.indent_level > 0;
        if (role == BlockRole::Closer || role == BlockRole::Middle) && self.indent_level > 0 {
            self.indent_level = self.indent_level - 1;
        }
        if role == BlockRole::Opener {
            self.block_stack.push_opener_bytes(name, non_comment_args(&cmd.arguments));
        }
        let ghost ind1 = self.indent_level as int;
        let ghost blocks1 = self.block_stack.model();
        proof {
            lemma_ignored_m(self.current, name@);
            lemma_fields_m(self.current);
            assert(self.current.model() == st.cur);
        }
        let verbatim = self.skip_next_command || is_ignored_bytes(name, &self.current);
        self.skip_next_command = false;
        self.break_line();
        let ghost items1 = items_model(self.items@);
        proof {
            assert(items1 == items0 + leadm + sep_nl(st.first));
        }
        if verbatim {
            let (a, b) = command_source_range(cmd, source);
            proof {
                lemma_line_range(source@, cmd.name.start as int, cmd.close_paren.end as int);
            }
            let v = slice_vec(source, a, b);
            proof {
                assert(v@ == command_lines(source@, cm));
            }
            self.raw(v);
        } else {
            let args = apply_end_command_args(cmd, source, &self.current, &self.block_stack);
            let c = self.current.copy();
            proof {
                let e = end_args(name@, cm.arguments, st.cur.end_command_args, blocks1);
                assert(span_bytes(source@, cmd.name) == name@);
                lemma_fields_m(self.current);
                assert(self.current.end_command_args == st.cur.end_command_args);
                assert(c.model() == st.cur);
                if args is Some {
                    assert(e == Some(args_model(args->Some_0, 0)));
                } else {
                    assert(e is None);
                }
            }
            let ghost e = end_args(name@, cm.arguments, st.cur.end_command_args, blocks1);
            let it = FileItem::Command { index, indent_level: self.indent_level, arguments: args, config: c };
            proof {
                assert(item_model(it) == ItemModel::Command { index: index as int, indent_level: ind1, arguments: e, config: st.cur });
            }
            self.items.push(it);
            proof {
                assert(items_model(self.items@) =~= items1.push(item_model(it)));
            }
        }
        let ghost st_mid = self.state();
        if role == BlockRole::Opener || (role == BlockRole::Middle && was_in_block) {
            if self.current.indent_block_body {
                self.indent_level = self.indent_level + 1;
            }
            self.just_opened_block = true;
        }
        if role == BlockRole::Closer {
            self.block_stack.pop_opener();
        }
        proof {
            reveal(step_command);
            lemma_fields_m(self.current);
            let r = step_command(source@, index as int, cm, st, leadm);
            let f = self.state();
            assert(f.blanks == r.0.blanks);
            assert(f.indent == r.0.indent);
            assert(f.first == r.0.first);
            assert(f.opened == r.0.opened);
            assert(f.saved == r.0.saved);
            assert(f.cur == r.0.cur);
            assert(f.blocks == r.0.blocks);
            assert(f.skip == r.0.skip);
            assert(f.off == r.0.off);
            assert(self.state() == r.0);
            assert(items_model(self.items@) =~= items0 + r.1);
        }
    }

    /// A line comment where formatting is on; see `step_line_comment`.
    #[verifier::spinoff_prover]
    fn element_line_comment(&mut self, sp: Span, source: &[u8], lead: u8)
        requires
            elem_fits(ElemModel::LineComment(sp), source@),
            vstd::utf8::valid_utf8(source@),
            !old(self).formatting_disabled,
        ensures
            final(self).state() == step_line_comment(source@, sp, old(self).state(), Seq::new(lead as nat, |k: int| ItemModel::NewLine)).0,
            items_model(final(self).items@) == items_model(old(self).items@) + step_line_comment(source@, sp, old(self).state(), Seq::new(lead as nat, |k: int| ItemModel::NewLine)).1,
            final(self).indent_level == old(self).indent_level,
    {
        let ghost st = self.state();
        let ghost items0 = items_model(self.items@);
        let ghost leadm = Seq::new(lead as nat, |k: int| ItemModel::NewLine);
        self.blank_lines(lead);
        self.pending_blanks = 0;
        self.just_opened_block = false;
        let t = crate::text::trim_end(&source[sp.start..sp.end]);
        proof {
            crate::text::lemma_valid_between(source@, sp.start as int, sp.end as int);
            crate::post_process::lemma_trim_valid(source@.subrange(sp.start as int, sp.end as int));
        }
        let ghost d = pragma_of(t@);
        let tag = self.comment_directive(t);
        let ghost st1 = self.state();
        self.break_line();
        let mut v = indent_prefix_bytes(self.indent_level, &self.current);
        proof {
            lemma_indent_m(self.indent_level as nat, self.current);
        }
        crate::post_process::push_bytes(&mut v, t);
        let ghost vm = v@;
        self.raw(v);
        proof {
            assert(vm == indent_m(st.indent as nat, st1.cur) + t@);
        }
        self.directive_done(tag);
        proof {
            reveal(step_line_comment);
            let r = step_line_comment(source@, sp, st, leadm);
            assert(self.state() == r.0);
            assert(items_model(self.items@) =~= items0 + r.1);
        }
    }

    /// A comment's directive before the comment is written; see `pushed`.
    #[verifier::spinoff_prover]
    fn comment_directive(&mut self, t: &[u8]) -> (tag: Option<PragmaModelTag>)
        requires
            vstd::utf8::valid_utf8(t@),
        ensures
            tag == tag_of(pragma_of(t@)),
            final(self).state() == pushed(old(self).state(), pragma_of(t@)),
            final(self).items@ == old(self).items@,
            final(self).indent_level == old(self).indent_level,
            final(self).formatting_disabled == old(self).formatting_disabled,
            final(self).first == old(self).first,
    {
        proof {
            reveal(pushed);
        }
        match pragma_of_bytes(t) {
            Some((PragmaModelTag::Push, body)) => {
                proof {
                    crate::post_process::lemma_push_body_valid(t@);
                }
                let b = string_of(body);
                let saved = self.current.copy();
                let ghost o = self.config_stack@;
                self.config_stack.push(saved);
                proof {
                    assert(saved_models(self.config_stack@) =~= saved_models(o).push(saved.model()));
                }
                self.current = crate::inline::apply_inline_overrides(&self.current, b.as_str());
                Some(PragmaModelTag::Push)
            },
            Some((k, _)) => Some(k),
            None => None,
        }
    }

    /// A comment's directive after the comment is written; see
    /// `directive_after`.
    #[verifier::spinoff_prover]
    fn directive_done(&mut self, tag: Option<PragmaModelTag>)
        requires
            !old(self).formatting_disabled,
        ensures
            forall|d: Option<PragmaModel>| tag == tag_of(d) ==> final(self).state() == #[trigger] directive_after(old(self).state(), d),
            final(self).items@ == old(self).items@,
            final(self).indent_level == old(self).indent_level,
    {
        proof {
            reveal(directive_after);
        }
        match tag {
            Some(PragmaModelTag::Skip) => {
                self.skip_next_command = true;
            },
            Some(PragmaModelTag::Off) => {
                self.formatting_disabled = true;
                self.skip_next_command = false;
            },
            Some(PragmaModelTag::Pop) => {
                if self.config_stack.len() > 0 {
                    let ghost o = self.config_stack@;
                    let prev = self.config_stack.pop().unwrap();
                    proof {
                        assert(saved_models(self.config_stack@) =~= saved_models(o).drop_last());
                        assert(prev.model() == saved_models(o).last());
                    }
                    self.current = prev;
                }
            },
            _ => {},
        }
    }

    /// A bracket comment where formatting is on.
    #[verifier::spinoff_prover]
    fn element_bracket_comment(&mut self, sp: Span, source: &[u8], lead: u8)
        requires
            sp.start <= sp.end <= source@.len(),
        ensures
            final(self).state() == (LayoutState { blanks: 0, opened: false, first: false, ..old(self).state() }),
            items_model(final(self).items@) == items_model(old(self).items@) + Seq::new(lead as nat, |k: int| ItemModel::NewLine) + sep_nl(old(self).first).push(ItemModel::Raw(indent_m(old(self).indent_level as nat, old(self).current.model()) + text_of(source@, sp))),
    {
        self.blank_lines(lead);
        self.pending_blanks = 0;
        self.just_opened_block = false;
        self.break_line();
        let mut v = indent_prefix_bytes(self.indent_level, &self.current);
        proof {
            lemma_indent_m(self.indent_level as nat, self.current);
        }
        crate::post_process::push_bytes(&mut v, &source[sp.start..sp.end]);
        self.raw(v);
    }
}

impl Layout {
    /// Element `i` of the file; see `step`.
    #[verifier::spinoff_prover]
    pub(crate) fn element(&mut self, es: &[FileElement], i: usize, source: &[u8])
        requires
            i < es@.len(),
            elem_fits(elem_model(es@[i as int]), source@),
            vstd::utf8::valid_utf8(source@),
            old(self).indent_level < u32::MAX,
        ensures
            final(self).state() == step(es@.map_values(|e: FileElement| elem_model(e)), source@, i as int, old(self).state()).0,
            items_model(final(self).items@) == items_model(old(self).items@) + step(es@.map_values(|e: FileElement| elem_model(e)), source@, i as int, old(self).state()).1,
            final(self).indent_level <= old(self).indent_level + 1,
    {
        let ghost ems = es@.map_values(|e: FileElement| elem_model(e));
        proof {
            assert(ems[i as int] == elem_model(es@[i as int]));
            lemma_fields_m(self.current);
        }
        if self.formatting_disabled {
            self.element_off(es, i, source);
            return;
        }
        match &es[i] {
            FileElement::BlankLine => {
                if !self.first && !self.just_opened_block {
                    if self.pending_blanks < self.current.max_blank_lines {
                        self.pending_blanks = self.pending_blanks + 1;
                    } else {
                        self.pending_blanks = self.current.max_blank_lines;
                    }
                }
                proof {
                    assert(items_model(self.items@) =~= items_model(old(self).items@) + Seq::<ItemModel>::empty());
                }
            },
            FileElement::Command(cmd) => {
                let lead = self.lead_blanks(es, i, source);
                let name = &source[cmd.name.start..cmd.name.end];
                let role = block_role_of(name);
                let lead = if role == BlockRole::Closer || role == BlockRole::Middle { 0 } else { lead };
                self.element_command(i, cmd, source, lead);
            },
            FileElement::LineComment(sp) => {
                let lead = self.lead_blanks(es, i, source);
                self.element_line_comment(*sp, source, lead);
            },
            FileElement::BracketComment(sp) => {
                let lead = self.lead_blanks(es, i, source);
                self.element_bracket_comment(*sp, source, lead);
            },
        }
    }

    /// The pending blank lines, raised where a block wants separation.
    fn lead_blanks(&self, es: &[FileElement], i: usize, source: &[u8]) -> (r: u8)
        requires
            i < es@.len(),
            !(es@[i as int] is BlankLine),
        ensures
            r as int == (if self.current.model().min_blank_lines_between_blocks > 0 && wants_block_separation(es@.map_values(|e: FileElement| elem_model(e)), i as int, source@, self.first, self.just_opened_block) {
                if self.pending_blanks >= self.current.model().min_blank_lines_between_blocks { self.pending_blanks as int } else { self.current.model().min_blank_lines_between_blocks as int }
            } else {
                self.pending_blanks as int
            }),
    {
        proof {
            lemma_fields_m(self.current);
        }
        let mut b = self.pending_blanks;
        if self.current.min_blank_lines_between_blocks > 0 && should_insert_min_blank_lines_before(es, i, source, self.first, self.just_opened_block) {
            if b < self.current.min_blank_lines_between_blocks {
                b = self.current.min_blank_lines_between_blocks;
            }
        }
        b
    }
}


} // verus!
