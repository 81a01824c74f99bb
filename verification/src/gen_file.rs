//! File-level structure: block nesting, formatter pragmas, closer arguments
//! and blank-line separation between blocks.
use vstd::prelude::*;
use vstd::string::StringSliceAdditionalSpecFns;

use crate::ast::{
    arg_model, args_model, copy_arguments, elem_model, lemma_args_model_len, lemma_args_model_push,
    ArgModel, Argument, CommandInvocation, ElemModel, File, FileElement, Span, file_model,
};
use crate::config::{ConfigModel, Configuration, EndCommandArgs};
use crate::text::{
    ci_eq, eq_bytes, eq_ci, find_ws, find_ws_exec, has_at, has_at_exec, lower_seq, skip_ws,
    skip_ws_exec, string_of, to_lower_vec, trim, trim_seq,
};

pub use crate::layout::FileItem;
use crate::layout::{content_len, elem_fits, items_model, layout, run, saved_models, ItemModel, Layout};

verus! {

/// The bytes of a `String`.
pub open spec fn sbytes(s: String) -> Seq<u8> {
    vstd::utf8::encode_utf8(s@)
}

pub fn string_bytes(s: &String) -> (b: &[u8])
    ensures
        b@ == sbytes(*s),
{
    s.as_str().as_bytes()
}

/// The part a command plays in block structure.
#[derive(Debug, Clone, Copy, PartialEq, Eq, Structural)]
pub enum BlockRole {
    Opener,
    Middle,
    Closer,
    /// Not part of block structure.
    NotBlock,
}

/// Block role of a command name, compared without regard to ASCII case.
pub open spec fn block_role(n: Seq<u8>) -> BlockRole {
    if ci_eq(n, "if".spec_bytes()) || ci_eq(n, "while".spec_bytes()) || ci_eq(
        n,
        "macro".spec_bytes(),
    ) || ci_eq(n, "block".spec_bytes()) || ci_eq(n, "foreach".spec_bytes()) || ci_eq(
        n,
        "function".spec_bytes(),
    ) {
        BlockRole::Opener
    } else if ci_eq(n, "else".spec_bytes()) || ci_eq(n, "elseif".spec_bytes()) {
        BlockRole::Middle
    } else if ci_eq(n, "endif".spec_bytes()) || ci_eq(n, "endwhile".spec_bytes()) || ci_eq(
        n,
        "endmacro".spec_bytes(),
    ) || ci_eq(n, "endblock".spec_bytes()) || ci_eq(n, "endforeach".spec_bytes()) || ci_eq(
        n,
        "endfunction".spec_bytes(),
    ) {
        BlockRole::Closer
    } else {
        BlockRole::NotBlock
    }
}

pub fn block_role_of(n: &[u8]) -> (r: BlockRole)
    ensures
        r == block_role(n@),
{
    if eq_ci(n, "if".as_bytes()) || eq_ci(n, "while".as_bytes()) || eq_ci(n, "macro".as_bytes())
        || eq_ci(n, "block".as_bytes()) || eq_ci(n, "foreach".as_bytes()) || eq_ci(
        n,
        "function".as_bytes(),
    ) {
        BlockRole::Opener
    } else if eq_ci(n, "else".as_bytes()) || eq_ci(n, "elseif".as_bytes()) {
        BlockRole::Middle
    } else if eq_ci(n, "endif".as_bytes()) || eq_ci(n, "endwhile".as_bytes()) || eq_ci(
        n,
        "endmacro".as_bytes(),
    ) || eq_ci(n, "endblock".as_bytes()) || eq_ci(n, "endforeach".as_bytes()) || eq_ci(
        n,
        "endfunction".as_bytes(),
    ) {
        BlockRole::Closer
    } else {
        BlockRole::NotBlock
    }
}

pub fn classify_block_role(name: &str) -> (r: BlockRole)
    ensures
        r == block_role(name.spec_bytes()),
{
    block_role_of(name.as_bytes())
}

pub fn is_block_opener(name: &str) -> (r: bool)
    ensures
        r == (block_role(name.spec_bytes()) == BlockRole::Opener),
{
    classify_block_role(name) == BlockRole::Opener
}

pub fn is_block_middle(name: &str) -> (r: bool)
    ensures
        r == (block_role(name.spec_bytes()) == BlockRole::Middle),
{
    classify_block_role(name) == BlockRole::Middle
}

pub fn is_block_closer(name: &str) -> (r: bool)
    ensures
        r == (block_role(name.spec_bytes()) == BlockRole::Closer),
{
    classify_block_role(name) == BlockRole::Closer
}

/// The opener that a block closer ends: `endif` ends `if`, and so on.
pub open spec fn closer_opener(n: Seq<u8>) -> Option<Seq<u8>> {
    if ci_eq(n, "endif".spec_bytes()) {
        Some("if".spec_bytes())
    } else if ci_eq(n, "endwhile".spec_bytes()) {
        Some("while".spec_bytes())
    } else if ci_eq(n, "endmacro".spec_bytes()) {
        Some("macro".spec_bytes())
    } else if ci_eq(n, "endblock".spec_bytes()) {
        Some("block".spec_bytes())
    } else if ci_eq(n, "endforeach".spec_bytes()) {
        Some("foreach".spec_bytes())
    } else if ci_eq(n, "endfunction".spec_bytes()) {
        Some("function".spec_bytes())
    } else {
        None
    }
}

fn closer_opener_of(n: &[u8]) -> (r: Option<&'static str>)
    ensures
        r is Some == closer_opener(n@) is Some,
        r matches Some(o) ==> Some(o.spec_bytes()) == closer_opener(n@),
{
    if eq_ci(n, "endif".as_bytes()) {
        Some("if")
    } else if eq_ci(n, "endwhile".as_bytes()) {
        Some("while")
    } else if eq_ci(n, "endmacro".as_bytes()) {
        Some("macro")
    } else if eq_ci(n, "endblock".as_bytes()) {
        Some("block")
    } else if eq_ci(n, "endforeach".as_bytes()) {
        Some("foreach")
    } else if eq_ci(n, "endfunction".as_bytes()) {
        Some("function")
    } else {
        None
    }
}

/// The opener name for a block closer, compared without regard to ASCII case.
pub fn closer_to_opener(name: &str) -> (r: Option<&'static str>)
    ensures
        r is Some == closer_opener(name.spec_bytes()) is Some,
        r matches Some(o) ==> Some(o.spec_bytes()) == closer_opener(name.spec_bytes()),
{
    closer_opener_of(name.as_bytes())
}

/// A formatter directive in a comment: `# cmakefmt: off|on|skip|pop|push {..}`.
#[derive(Debug, Clone, PartialEq, Eq)]
pub enum PragmaDirective {
    Off,
    On,
    Skip,
    Pop,
    /// The override table, from its `{` to the end of the trimmed comment.
    Push(String),
}

/// The directive of a comment, with the body of `push` as bytes.
pub ghost enum PragmaModel {
    Off,
    On,
    Skip,
    Pop,
    Push(Seq<u8>),
}

/// The text after `# cmakefmt:` with leading whitespace removed, if the trimmed
/// comment starts that way.
pub open spec fn pragma_rest(c: Seq<u8>) -> Option<Seq<u8>> {
    let t = trim_seq(c);
    if t.len() == 0 || t[0] != 35u8 {
        None
    } else {
        let a = t.subrange(1, t.len() as int);
        let b = a.subrange(skip_ws(a, 0), a.len() as int);
        let p = "cmakefmt:".spec_bytes();
        if !has_at(b, 0, p) {
            None
        } else {
            let d = b.subrange(p.len() as int, b.len() as int);
            Some(d.subrange(skip_ws(d, 0), d.len() as int))
        }
    }
}

/// The directive that a comment holds, if any.
pub open spec fn pragma_of(c: Seq<u8>) -> Option<PragmaModel> {
    match pragma_rest(c) {
        None => None,
        Some(d) => {
            if d.len() == 0 {
                None
            } else {
                let ae = find_ws(d, 0);
                let action = d.subrange(0, ae);
                let rem = d.subrange(ae, d.len() as int);
                if action == "off".spec_bytes() {
                    Some(PragmaModel::Off)
                } else if action == "on".spec_bytes() {
                    Some(PragmaModel::On)
                } else if action == "skip".spec_bytes() {
                    Some(PragmaModel::Skip)
                } else if action == "pop".spec_bytes() {
                    Some(PragmaModel::Pop)
                } else if action == "push".spec_bytes() {
                    let body = rem.subrange(skip_ws(rem, 0), rem.len() as int);
                    if body.len() > 0 && body[0] == 123u8 {
                        Some(PragmaModel::Push(body))
                    } else {
                        None
                    }
                } else {
                    None
                }
            }
        },
    }
}

/// The bytes after `# cmakefmt:` (see `pragma_rest`).
pub fn pragma_rest_bytes(c: &[u8]) -> (r: Option<&[u8]>)
    ensures
        match (r, pragma_rest(c@)) {
            (Some(x), Some(y)) => x@ == y,
            (None, None) => true,
            _ => false,
        },
{
    let t = trim(c);
    if t.len() == 0 || t[0] != 35u8 {
        return None;
    }
    let a = &t[1..t.len()];
    let i = skip_ws_exec(a, 0);
    let b = &a[i..a.len()];
    let p = "cmakefmt:".as_bytes();
    if !has_at_exec(b, 0, p) {
        return None;
    }
    let d = &b[p.len()..b.len()];
    let j = skip_ws_exec(d, 0);
    Some(&d[j..d.len()])
}

/// The directive of a comment, with the `push` body as a byte range of the
/// comment's bytes.
pub fn pragma_of_bytes(c: &[u8]) -> (r: Option<(PragmaModelTag, &[u8])>)
    ensures
        match (r, pragma_of(c@)) {
            (Some((PragmaModelTag::Off, _)), Some(PragmaModel::Off)) => true,
            (Some((PragmaModelTag::On, _)), Some(PragmaModel::On)) => true,
            (Some((PragmaModelTag::Skip, _)), Some(PragmaModel::Skip)) => true,
            (Some((PragmaModelTag::Pop, _)), Some(PragmaModel::Pop)) => true,
            (Some((PragmaModelTag::Push, b)), Some(PragmaModel::Push(m))) => b@ == m,
            (None, None) => true,
            _ => false,
        },
{
    let d = match pragma_rest_bytes(c) {
        None => {
            return None;
        },
        Some(d) => d,
    };
    if d.len() == 0 {
        return None;
    }
    let ae = find_ws_exec(d, 0);
    let action = &d[0..ae];
    let rem = &d[ae..d.len()];
    if eq_bytes(action, "off".as_bytes()) {
        Some((PragmaModelTag::Off, rem))
    } else if eq_bytes(action, "on".as_bytes()) {
        Some((PragmaModelTag::On, rem))
    } else if eq_bytes(action, "skip".as_bytes()) {
        Some((PragmaModelTag::Skip, rem))
    } else if eq_bytes(action, "pop".as_bytes()) {
        Some((PragmaModelTag::Pop, rem))
    } else if eq_bytes(action, "push".as_bytes()) {
        let k = skip_ws_exec(rem, 0);
        let body = &rem[k..rem.len()];
        if body.len() > 0 && body[0] == 123u8 {
            Some((PragmaModelTag::Push, body))
        } else {
            None
        }
    } else {
        None
    }
}

/// Which directive a comment holds, without its payload.
#[derive(Debug, Clone, Copy, PartialEq, Eq, Structural)]
pub enum PragmaModelTag {
    Off,
    On,
    Skip,
    Pop,
    Push,
}

/// The formatter directive in a comment, if it holds one.
pub fn parse_pragma_directive(comment: &str) -> (r: Option<PragmaDirective>)
    ensures
        match (r, pragma_of(comment.spec_bytes())) {
            (Some(PragmaDirective::Off), Some(PragmaModel::Off)) => true,
            (Some(PragmaDirective::On), Some(PragmaModel::On)) => true,
            (Some(PragmaDirective::Skip), Some(PragmaModel::Skip)) => true,
            (Some(PragmaDirective::Pop), Some(PragmaModel::Pop)) => true,
            (Some(PragmaDirective::Push(s)), Some(PragmaModel::Push(m))) => vstd::utf8::valid_utf8(m)
                ==> s@ == vstd::utf8::decode_utf8(m),
            (None, None) => true,
            _ => false,
        },
{
    match pragma_of_bytes(comment.as_bytes()) {
        None => None,
        Some((PragmaModelTag::Off, _)) => Some(PragmaDirective::Off),
        Some((PragmaModelTag::On, _)) => Some(PragmaDirective::On),
        Some((PragmaModelTag::Skip, _)) => Some(PragmaDirective::Skip),
        Some((PragmaModelTag::Pop, _)) => Some(PragmaDirective::Pop),
        Some((PragmaModelTag::Push, body)) => Some(
            PragmaDirective::Push(crate::text::string_from_bytes(body)),
        ),
    }
}

/// The command name is listed in `ignore_commands`, compared without regard to
/// ASCII case.
pub open spec fn ignored(names: Seq<String>, n: Seq<u8>) -> bool {
    exists|i: int| #![trigger names[i]] 0 <= i < names.len() && ci_eq(sbytes(names[i]), n)
}

pub fn is_ignored_bytes(name: &[u8], config: &Configuration) -> (r: bool)
    ensures
        r == ignored(config.ignore_commands@, name@),
{
    let v = &config.ignore_commands;
    let mut i: usize = 0;
    while i < v.len()
        invariant
            v == &config.ignore_commands,
            i <= v@.len(),
            forall|k: int| 0 <= k < i ==> !ci_eq(sbytes(#[trigger] v@[k]), name@),
        decreases v@.len() - i,
    {
        if eq_ci(string_bytes(&v[i]), name) {
            assert(ci_eq(sbytes(v@[i as int]), name@));
            return true;
        }
        i = i + 1;
    }
    false
}

pub fn is_ignored_command(command_name: &str, config: &Configuration) -> (r: bool)
    ensures
        r == ignored(config.ignore_commands@, command_name.spec_bytes()),
{
    is_ignored_bytes(command_name.as_bytes(), config)
}

/// One level of indentation: a tab, or `indent_width` spaces.
pub open spec fn indent_unit(config: Configuration) -> Seq<u8> {
    if config.use_tabs {
        seq![9u8]
    } else {
        Seq::new(config.indent_width as nat, |i: int| 32u8)
    }
}

/// `level` repetitions of the indentation unit.
pub open spec fn indent_bytes(level: nat, config: Configuration) -> Seq<u8>
    decreases level,
{
    if level == 0 {
        Seq::empty()
    } else {
        indent_bytes((level - 1) as nat, config) + indent_unit(config)
    }
}

pub proof fn lemma_indent_bytes_ascii(level: nat, config: Configuration)
    ensures
        forall|i: int| 0 <= i < indent_bytes(level, config).len() ==> (#[trigger] indent_bytes(
            level,
            config,
        )[i] == 32u8 || indent_bytes(level, config)[i] == 9u8),
    decreases level,
{
    if level > 0 {
        lemma_indent_bytes_ascii((level - 1) as nat, config);
        let a = indent_bytes((level - 1) as nat, config);
        let u = indent_unit(config);
        assert forall|i: int| 0 <= i < indent_bytes(level, config).len() implies (
        #[trigger] indent_bytes(level, config)[i] == 32u8 || indent_bytes(level, config)[i]
            == 9u8) by {
            if i >= a.len() {
                assert(indent_bytes(level, config)[i] == u[i - a.len()]);
            } else {
                assert(indent_bytes(level, config)[i] == a[i]);
            }
        }
    }
}

pub fn indent_prefix_bytes(level: u32, config: &Configuration) -> (r: Vec<u8>)
    ensures
        r@ == indent_bytes(level as nat, *config),
{
    let mut out: Vec<u8> = Vec::new();
    let mut k: u32 = 0;
    while k < level
        invariant
            k <= level,
            out@ == indent_bytes(k as nat, *config),
        decreases level - k,
    {
        let ghost before = out@;
        if config.use_tabs {
            out.push(9u8);
        } else {
            let mut j: u8 = 0;
            while j < config.indent_width
                invariant
                    j <= config.indent_width,
                    !config.use_tabs,
                    out@ == before + Seq::new(j as nat, |i: int| 32u8),
                decreases config.indent_width - j,
            {
                out.push(32u8);
                j = j + 1;
                assert(out@ =~= before + Seq::new(j as nat, |i: int| 32u8));
            }
        }
        k = k + 1;
        assert(out@ =~= indent_bytes(k as nat, *config));
    }
    out
}

/// The indentation text for `indent_level` levels.
pub fn indent_prefix(indent_level: u32, config: &Configuration) -> (r: String)
    ensures
        r@ == vstd::utf8::decode_utf8(indent_bytes(indent_level as nat, *config)),
{
    let b = indent_prefix_bytes(indent_level, config);
    proof {
        lemma_indent_bytes_ascii(indent_level as nat, *config);
        crate::text::lemma_ascii_valid_utf8(b@);
    }
    crate::text::string_from_bytes(b.as_slice())
}


/// Opener name (lower-cased) and arguments of each open block, innermost last.
pub type StackModel = Seq<(Seq<u8>, Seq<ArgModel>)>;

/// Index of the innermost entry whose name is `key`.
pub open spec fn last_with_key(m: StackModel, key: Seq<u8>) -> Option<int>
    decreases m.len(),
{
    if m.len() == 0 {
        None
    } else if m[m.len() - 1].0 == key {
        Some(m.len() - 1)
    } else {
        last_with_key(m.drop_last(), key)
    }
}

/// The arguments of the opener that a closer (or `else`) refers to: `else`
/// refers to the innermost open `if`, a block closer to the innermost open
/// block of its kind.
pub open spec fn opener_lookup(m: StackModel, name: Seq<u8>) -> Option<Seq<ArgModel>> {
    let key = if ci_eq(name, "else".spec_bytes()) {
        Some("if".spec_bytes())
    } else {
        closer_opener(name)
    };
    match key {
        None => None,
        Some(k) => match last_with_key(m, k) {
            Some(i) => Some(m[i].1),
            None => None,
        },
    }
}

/// Tracks the open blocks of a file so that closers can repeat their opener's
/// arguments.
pub struct BlockStack {
    entries: Vec<(Vec<u8>, Vec<Argument>)>,
}

impl BlockStack {
    pub closed spec fn model(&self) -> StackModel {
        self.entries@.map_values(|e: (Vec<u8>, Vec<Argument>)| (e.0@, args_model(e.1, 0)))
    }

    pub fn new() -> (b: Self)
        ensures
            b.model() == Seq::<(Seq<u8>, Seq<ArgModel>)>::empty(),
    {
        let b = BlockStack { entries: Vec::new() };
        assert(b.model() =~= Seq::<(Seq<u8>, Seq<ArgModel>)>::empty());
        b
    }

    pub fn push_opener_bytes(&mut self, name: &[u8], args: Vec<Argument>)
        ensures
            final(self).model() == old(self).model().push((lower_seq(name@), args_model(args, 0))),
    {
        let key = to_lower_vec(name);
        let ghost am = args_model(args, 0);
        self.entries.push((key, args));
        assert(self.model() =~= old(self).model().push((lower_seq(name@), am)));
    }

    /// Records an opener: its lower-cased name and its arguments.
    pub fn push_opener(&mut self, name: &str, args: Vec<Argument>)
        ensures
            final(self).model() == old(self).model().push(
                (lower_seq(name.spec_bytes()), args_model(args, 0)),
            ),
    {
        self.push_opener_bytes(name.as_bytes(), args);
    }

    /// Forgets the innermost opener.
    pub fn pop_opener(&mut self)
        ensures
            final(self).model() == if old(self).model().len() == 0 {
                old(self).model()
            } else {
                old(self).model().drop_last()
            },
    {
        let _ = self.entries.pop();
        assert(self.model() =~= if old(self).model().len() == 0 {
            old(self).model()
        } else {
            old(self).model().drop_last()
        });
    }

    fn find_last(&self, key: &[u8]) -> (r: Option<usize>)
        ensures
            match (r, last_with_key(self.model(), key@)) {
                (Some(i), Some(j)) => i as int == j && i < self.entries@.len(),
                (None, None) => true,
                _ => false,
            },
    {
        let mut n = self.entries.len();
        proof {
            assert(self.model().subrange(0, n as int) =~= self.model());
        }
        while n > 0
            invariant
                n <= self.entries@.len(),
                self.model().len() == self.entries@.len(),
                last_with_key(self.model(), key@) == last_with_key(
                    self.model().subrange(0, n as int),
                    key@,
                ),
            decreases n,
        {
            let ghost m = self.model().subrange(0, n as int);
            assert(m[m.len() - 1].0 == self.entries@[n - 1].0@);
            if eq_bytes(self.entries[n - 1].0.as_slice(), key) {
                return Some(n - 1);
            }
            assert(m.drop_last() =~= self.model().subrange(0, n - 1));
            n = n - 1;
        }
        None
    }

    pub fn opener_args_bytes(&self, name: &[u8]) -> (r: Option<&Vec<Argument>>)
        ensures
            match (r, opener_lookup(self.model(), name@)) {
                (Some(a), Some(m)) => args_model(*a, 0) == m,
                (None, None) => true,
                _ => false,
            },
    {
        let key: Option<&'static str> = if eq_ci(name, "else".as_bytes()) {
            Some("if")
        } else {
            closer_opener_of(name)
        };
        match key {
            None => None,
            Some(k) => match self.find_last(k.as_bytes()) {
                Some(i) => Some(&self.entries[i].1),
                None => None,
            },
        }
    }

    /// The arguments of the opener that a closer (or `else`) belongs to.
    pub fn get_opener_args(&self, closer_name: &str) -> (r: Option<&Vec<Argument>>)
        ensures
            match (r, opener_lookup(self.model(), closer_name.spec_bytes())) {
                (Some(a), Some(m)) => args_model(*a, 0) == m,
                (None, None) => true,
                _ => false,
            },
    {
        self.opener_args_bytes(closer_name.as_bytes())
    }
}

/// A closer finds what its opener pushed: after pushing `opener` with
/// arguments `a`, a closer whose opener name is `opener` gets `a` back.
pub proof fn law_closer_reads_pushed_opener(
    m: StackModel,
    opener: Seq<u8>,
    a: Seq<ArgModel>,
    closer: Seq<u8>,
)
    requires
        closer_opener(closer) == Some(lower_seq(opener)),
        !ci_eq(closer, "else".spec_bytes()),
    ensures
        opener_lookup(m.push((lower_seq(opener), a)), closer) == Some(a),
{
    let m2 = m.push((lower_seq(opener), a));
    assert(m2[m2.len() - 1].0 == lower_seq(opener));
}

/// Pushing an opener and popping it again leaves the stack as it was.
pub proof fn law_pop_undoes_push(m: StackModel, opener: Seq<u8>, a: Seq<ArgModel>)
    ensures
        m.push((lower_seq(opener), a)).drop_last() == m,
{
    assert(m.push((lower_seq(opener), a)).drop_last() =~= m);
}

pub open spec fn is_comment_model(a: ArgModel) -> bool {
    a is LineComment || a is BracketComment
}

/// The arguments that are not comments, in order.
pub open spec fn without_comments(s: Seq<ArgModel>) -> Seq<ArgModel>
    decreases s.len(),
{
    if s.len() == 0 {
        Seq::empty()
    } else {
        without_comments(s.drop_last()) + if is_comment_model(s.last()) {
            Seq::<ArgModel>::empty()
        } else {
            seq![s.last()]
        }
    }
}

/// Copies of the arguments that are not comments.
pub fn non_comment_args(args: &Vec<Argument>) -> (r: Vec<Argument>)
    ensures
        args_model(r, 0) == without_comments(args_model(*args, 0)),
{
    let mut out: Vec<Argument> = Vec::new();
    let mut i: usize = 0;
    proof {
        lemma_args_model_len(*args, 0);
        lemma_args_model_len(out, 0);
        assert(args_model(*args, 0).subrange(0, 0) =~= Seq::<ArgModel>::empty());
        assert(args_model(out, 0) =~= Seq::<ArgModel>::empty());
    }
    while i < args.len()
        invariant
            i <= args@.len(),
            args_model(*args, 0).len() == args@.len(),
            forall|k: int| 0 <= k < args@.len() ==> #[trigger] args_model(*args, 0)[k] == arg_model(
                args@[k],
            ),
            args_model(out, 0) == without_comments(args_model(*args, 0).subrange(0, i as int)),
        decreases args@.len() - i,
    {
        let ghost before = out;
        let ghost pre = args_model(*args, 0).subrange(0, i as int);
        let ghost post = args_model(*args, 0).subrange(0, i + 1);
        assert(post.drop_last() =~= pre);
        assert(post.last() == arg_model(args@[i as int]));
        match &args[i] {
            Argument::LineComment(_) | Argument::BracketComment(_) => {
                assert(without_comments(post) =~= without_comments(pre));
            },
            _ => {
                let c = crate::ast::copy_argument(&args[i]);
                out.push(c);
                proof {
                    lemma_args_model_push(before, out, c, 0);
                    assert(without_comments(post) =~= without_comments(pre).push(
                        arg_model(args@[i as int]),
                    ));
                }
            },
        }
        i = i + 1;
    }
    proof {
        assert(args_model(*args, 0).subrange(0, args@.len() as int) =~= args_model(*args, 0));
    }
    out
}

/// The bytes of a span of the source.
pub open spec fn span_bytes(s: Seq<u8>, sp: Span) -> Seq<u8> {
    s.subrange(sp.start as int, sp.end as int)
}

/// Replacement arguments for a closer (or `else`) under `endCommandArgs`, or
/// `None` to keep the command as written. `elseif` is never changed.
pub open spec fn end_args(
    name: Seq<u8>,
    args: Seq<ArgModel>,
    mode: EndCommandArgs,
    m: StackModel,
) -> Option<Seq<ArgModel>> {
    if ci_eq(name, "elseif".spec_bytes()) {
        None
    } else if block_role(name) != BlockRole::Closer && !ci_eq(name, "else".spec_bytes()) {
        None
    } else {
        match mode {
            EndCommandArgs::Remove => if args.len() == 0 {
                None
            } else {
                Some(Seq::empty())
            },
            EndCommandArgs::Preserve => None,
            EndCommandArgs::Match => {
                if ci_eq(name, "endblock".spec_bytes()) {
                    if args.len() == 0 {
                        None
                    } else {
                        Some(Seq::empty())
                    }
                } else {
                    match opener_lookup(m, name) {
                        Some(oa) => if oa.len() == 0 {
                            if args.len() == 0 {
                                None
                            } else {
                                Some(Seq::empty())
                            }
                        } else {
                            Some(oa)
                        },
                        None => None,
                    }
                }
            },
        }
    }
}

/// Applies the `endCommandArgs` policy to a command: replacement arguments, or
/// `None` to keep it as it is.
pub fn apply_end_command_args(
    cmd: &CommandInvocation,
    source: &[u8],
    config: &Configuration,
    block_stack: &BlockStack,
) -> (r: Option<Vec<Argument>>)
    requires
        cmd.name.start <= cmd.name.end <= source@.len(),
    ensures
        match (
            r,
            end_args(
                span_bytes(source@, cmd.name),
                args_model(cmd.arguments, 0),
                config.end_command_args,
                block_stack.model(),
            ),
        ) {
            (Some(v), Some(m)) => args_model(v, 0) == m,
            (None, None) => true,
            _ => false,
        },
{
    let name = &source[cmd.name.start..cmd.name.end];
    if eq_ci(name, "elseif".as_bytes()) {
        return None;
    }
    let is_else = eq_ci(name, "else".as_bytes());
    if block_role_of(name) != BlockRole::Closer && !is_else {
        return None;
    }
    let empty: Vec<Argument> = Vec::new();
    proof {
        lemma_args_model_len(empty, 0);
        assert(args_model(empty, 0) =~= Seq::<ArgModel>::empty());
        lemma_args_model_len(cmd.arguments, 0);
    }
    match config.end_command_args {
        EndCommandArgs::Remove => {
            if cmd.arguments.len() == 0 {
                None
            } else {
                Some(empty)
            }
        },
        EndCommandArgs::Preserve => None,
        EndCommandArgs::Match => {
            if eq_ci(name, "endblock".as_bytes()) {
                if cmd.arguments.len() == 0 {
                    return None;
                }
                return Some(empty);
            }
            match block_stack.opener_args_bytes(name) {
                Some(oa) => {
                    proof {
                        lemma_args_model_len(*oa, 0);
                    }
                    if oa.len() == 0 {
                        if cmd.arguments.len() == 0 {
                            None
                        } else {
                            Some(empty)
                        }
                    } else {
                        Some(copy_arguments(oa))
                    }
                },
                None => None,
            }
        },
    }
}

pub open spec fn is_comment_elem(e: ElemModel) -> bool {
    e is LineComment || e is BracketComment
}

pub fn is_comment_element(element: &FileElement) -> (r: bool)
    ensures
        r == is_comment_elem(elem_model(*element)),
{
    match element {
        FileElement::LineComment(_) | FileElement::BracketComment(_) => true,
        _ => false,
    }
}

/// The element is a command that opens a block.
pub open spec fn is_opener_elem(e: ElemModel, s: Seq<u8>) -> bool {
    match e {
        ElemModel::Command(c) => c.name.start <= c.name.end <= s.len() && block_role(
            span_bytes(s, c.name),
        ) == BlockRole::Opener,
        _ => false,
    }
}

pub fn is_command_block_opener(element: &FileElement, source: &[u8]) -> (r: bool)
    ensures
        r == is_opener_elem(elem_model(*element), source@),
{
    match element {
        FileElement::Command(cmd) => {
            if cmd.name.start <= cmd.name.end && cmd.name.end <= source.len() {
                block_role_of(&source[cmd.name.start..cmd.name.end]) == BlockRole::Opener
            } else {
                false
            }
        },
        _ => false,
    }
}

/// Index of the first element at or after `i` that is not a comment.
pub open spec fn after_comments(es: Seq<ElemModel>, i: int) -> int
    decreases es.len() - i,
{
    if 0 <= i < es.len() && is_comment_elem(es[i]) {
        after_comments(es, i + 1)
    } else {
        i
    }
}

/// Whether `minBlankLinesBetweenBlocks` asks for separation before element
/// `index`: before a block opener, or before the topmost comment of a group
/// that is attached to a block opener; never first in the file or right after
/// a block opened.
pub open spec fn wants_block_separation(
    es: Seq<ElemModel>,
    index: int,
    s: Seq<u8>,
    first: bool,
    just_opened_block: bool,
) -> bool {
    if first || just_opened_block {
        false
    } else {
        match es[index] {
            ElemModel::Command(c) => {
                is_opener_elem(es[index], s) && !(index > 0 && is_comment_elem(es[index - 1]))
            },
            ElemModel::LineComment(_) | ElemModel::BracketComment(_) => {
                if index > 0 && is_comment_elem(es[index - 1]) {
                    false
                } else {
                    let c = after_comments(es, index);
                    c < es.len() && is_opener_elem(es[c], s)
                }
            },
            ElemModel::BlankLine => false,
        }
    }
}

pub fn should_insert_min_blank_lines_before(
    elements: &[FileElement],
    index: usize,
    source: &[u8],
    first: bool,
    just_opened_block: bool,
) -> (r: bool)
    requires
        index < elements@.len(),
    ensures
        r == wants_block_separation(
            elements@.map_values(|e: FileElement| elem_model(e)),
            index as int,
            source@,
            first,
            just_opened_block,
        ),
{
    let ghost es = elements@.map_values(|e: FileElement| elem_model(e));
    if first || just_opened_block {
        return false;
    }
    assert(es[index as int] == elem_model(elements@[index as int]));
    if index > 0 {
        assert(es[index - 1] == elem_model(elements@[index - 1]));
    }
    match &elements[index] {
        FileElement::Command(_) => {
            if !is_command_block_opener(&elements[index], source) {
                return false;
            }
            if index > 0 && is_comment_element(&elements[index - 1]) {
                return false;
            }
            true
        },
        FileElement::LineComment(_) | FileElement::BracketComment(_) => {
            if index > 0 && is_comment_element(&elements[index - 1]) {
                return false;
            }
            let mut cursor = index;
            while cursor < elements.len() && is_comment_element(&elements[cursor])
                invariant
                    index <= cursor <= elements@.len(),
                    es == elements@.map_values(|e: FileElement| elem_model(e)),
                    after_comments(es, cursor as int) == after_comments(es, index as int),
                decreases elements@.len() - cursor,
            {
                assert(es[cursor as int] == elem_model(elements@[cursor as int]));
                cursor = cursor + 1;
            }
            if cursor < elements.len() {
                assert(es[cursor as int] == elem_model(elements@[cursor as int]));
                assert(!is_comment_elem(es[cursor as int]));
            }
            cursor < elements.len() && is_command_block_opener(&elements[cursor], source)
        },
        FileElement::BlankLine => false,
    }
}

/// Start of the line holding `pos`: just after the last newline before it.
pub open spec fn line_begin(s: Seq<u8>, pos: int) -> int
    decreases pos,
{
    if pos <= 0 || pos > s.len() {
        0
    } else if s[pos - 1] == 10u8 {
        pos
    } else {
        line_begin(s, pos - 1)
    }
}

/// First newline or carriage return at or after `pos`, or the end of `s`.
pub open spec fn line_finish(s: Seq<u8>, pos: int) -> int
    decreases s.len() - pos,
{
    if pos < 0 || pos >= s.len() {
        s.len() as int
    } else if s[pos] == 10u8 || s[pos] == 13u8 {
        pos
    } else {
        line_finish(s, pos + 1)
    }
}

/// The byte range of a command as written: from the start of the line holding
/// its name to the end of the line holding its closing parenthesis.
pub fn command_source_range(cmd: &CommandInvocation, source: &[u8]) -> (r: (usize, usize))
    requires
        cmd.name.start <= source@.len(),
        cmd.close_paren.end <= source@.len(),
    ensures
        r.0 as int == line_begin(source@, cmd.name.start as int),
        r.1 as int == line_finish(source@, cmd.close_paren.end as int),
{
    let mut a = cmd.name.start;
    while a > 0 && source[a - 1] != 10u8
        invariant
            a <= cmd.name.start <= source@.len(),
            line_begin(source@, a as int) == line_begin(source@, cmd.name.start as int),
        decreases a,
    {
        a = a - 1;
    }
    let mut b = cmd.close_paren.end;
    while b < source.len() && source[b] != 10u8 && source[b] != 13u8
        invariant
            cmd.close_paren.end <= b <= source@.len(),
            line_finish(source@, b as int) == line_finish(source@, cmd.close_paren.end as int),
        decreases source@.len() - b,
    {
        b = b + 1;
    }
    (a, b)
}


/// The layout of a parsed file: blank lines (at most `maxBlankLines` in a
/// row, at least `minBlankLinesBetweenBlocks` before a block, none after an
/// opener or before a closer), block indentation, `endCommandArgs`, ignored
/// commands and the `cmakefmt:` directives (`off`/`on` regions kept as
/// written, `skip`, `push`/`pop` of configuration overrides); see `layout`.
#[verifier::spinoff_prover]
pub fn gen_file(file: &File, source: &str, config: &Configuration) -> (r: Vec<FileItem>)
    requires
        forall|k: int| 0 <= k < file.elements@.len() ==> elem_fits(#[trigger] elem_model(file.elements@[k]), source.spec_bytes()),
        file.elements@.len() < u32::MAX,
    ensures
        items_model(r@) == layout(file_model(*file), source.spec_bytes(), config.model()),
{
    let s = source.as_bytes();
    proof {
        crate::text::lemma_str_valid(source);
    }
    let es = file.elements.as_slice();
    let ghost ems = file_model(*file);
    let mut n: usize = es.len();
    proof {
        assert(ems.take(n as int) =~= ems);
    }
    while n > 0 && matches!(es[n - 1], FileElement::BlankLine)
        invariant
            n <= es@.len(),
            es@ == file.elements@,
            ems == file_model(*file),
            content_len(ems) == content_len(ems.take(n as int)),
        decreases n,
    {
        proof {
            assert(ems.take(n as int).drop_last() =~= ems.take(n - 1));
            assert(ems.take(n as int).last() == elem_model(es@[n - 1]));
        }
        n = n - 1;
    }
    proof {
        if n > 0 {
            assert(ems.take(n as int).last() == elem_model(es@[n - 1]));
        }
        assert(content_len(ems.take(n as int)) == n);
    }
    let mut lay = Layout {
        items: Vec::new(),
        pending_blanks: 0,
        indent_level: 0,
        first: true,
        just_opened_block: false,
        config_stack: Vec::new(),
        current: config.copy(),
        block_stack: BlockStack::new(),
        skip_next_command: false,
        formatting_disabled: false,
    };
    let ghost st0 = lay.state();
    proof {
        assert(saved_models(lay.config_stack@) =~= Seq::<ConfigModel>::empty());
        assert(items_model(lay.items@) =~= Seq::<ItemModel>::empty());
        assert(items_model(lay.items@) + run(ems, s@, n as int, 0, st0) =~= run(ems, s@, n as int, 0, st0));
    }
    let mut i: usize = 0;
    while i < n
        invariant
            i <= n <= es@.len(),
            es@ == file.elements@,
            ems == file_model(*file),
            ems == es@.map_values(|e: FileElement| elem_model(e)),
            s@ == source.spec_bytes(),
            vstd::utf8::valid_utf8(s@),
            forall|k: int| 0 <= k < es@.len() ==> elem_fits(#[trigger] elem_model(es@[k]), s@),
            es@.len() < u32::MAX,
            lay.indent_level <= i,
            items_model(lay.items@) + run(ems, s@, n as int, i as int, lay.state()) == run(ems, s@, n as int, 0, st0),
        decreases n - i,
    {
        let ghost before = items_model(lay.items@);
        let ghost stb = lay.state();
        lay.element(es, i, s);
        proof {
            assert(before + run(ems, s@, n as int, i as int, stb) =~= items_model(lay.items@) + run(ems, s@, n as int, i + 1, lay.state()));
        }
        i = i + 1;
    }
    let ghost o = items_model(lay.items@);
    lay.items.push(FileItem::NewLine);
    proof {
        assert(o + run(ems, s@, n as int, n as int, lay.state()) =~= o);
        assert(items_model(lay.items@) =~= o.push(ItemModel::NewLine));
    }
    lay.items
}

} // verus!
