//! The syntax tree of a CMake file. Every node refers back to the source text
//! through byte spans.
use vstd::prelude::*;
use vstd::string::StringSliceAdditionalSpecFns;

verus! {

/// A half-open byte range `start..end` of the source text.
#[derive(Debug, Clone, Copy, PartialEq, Eq, Structural)]
pub struct Span {
    pub start: usize,
    pub end: usize,
}

impl Span {
    pub fn new(start: usize, end: usize) -> (s: Span)
        ensures
            s.start == start,
            s.end == end,
    {
        Span { start, end }
    }

    /// The span lies within a text of `len` bytes.
    pub open spec fn within(self, len: int) -> bool {
        self.start <= self.end <= len
    }

    /// The source text that the span covers.
    pub fn text<'a>(&self, source: &'a str) -> (t: &'a str)
        requires
            self.start <= self.end <= source.spec_bytes().len(),
            vstd::utf8::is_char_boundary(source.spec_bytes(), self.start as int),
            vstd::utf8::is_char_boundary(source.spec_bytes(), self.end as int),
        ensures
            t.spec_bytes() == source.spec_bytes().subrange(self.start as int, self.end as int),
    {
        str_range(source, self.start, self.end)
    }
}

/// Calls `str`'s range indexing `&source[start..end]`, which panics unless both
/// ends are character boundaries within the text; returns the bytes in between.
#[verifier::external_body]
pub(crate) fn str_range<'a>(source: &'a str, start: usize, end: usize) -> (t: &'a str)
    requires
        start <= end <= source.spec_bytes().len(),
        vstd::utf8::is_char_boundary(source.spec_bytes(), start as int),
        vstd::utf8::is_char_boundary(source.spec_bytes(), end as int),
    ensures
        t.spec_bytes() == source.spec_bytes().subrange(start as int, end as int),
{
    &source[start..end]
}

/// One argument of a command invocation.
#[derive(Debug)]
pub enum Argument {
    Quoted(Span),
    Unquoted(Span),
    Bracket(Span),
    LineComment(Span),
    BracketComment(Span),
    /// A parenthesized group of arguments, as in `if((A OR B) AND C)`.
    ParenGroup { arguments: Vec<Argument> },
}

/// The mathematical value of an argument: groups hold sequences.
pub ghost enum ArgModel {
    Quoted(Span),
    Unquoted(Span),
    Bracket(Span),
    LineComment(Span),
    BracketComment(Span),
    Group(Seq<ArgModel>),
}

pub open spec fn arg_model(a: Argument) -> ArgModel
    decreases a, 0int,
{
    match a {
        Argument::Quoted(s) => ArgModel::Quoted(s),
        Argument::Unquoted(s) => ArgModel::Unquoted(s),
        Argument::Bracket(s) => ArgModel::Bracket(s),
        Argument::LineComment(s) => ArgModel::LineComment(s),
        Argument::BracketComment(s) => ArgModel::BracketComment(s),
        Argument::ParenGroup { arguments } => ArgModel::Group(args_model(arguments, 0)),
    }
}

pub open spec fn args_model(v: Vec<Argument>, i: int) -> Seq<ArgModel>
    decreases v, v@.len() - i,
{
    if i < 0 || i >= v@.len() {
        Seq::empty()
    } else {
        seq![arg_model(v@[i])] + args_model(v, i + 1)
    }
}


/// `args_model` of a vector that grew by one argument.
pub proof fn lemma_args_model_push(v1: Vec<Argument>, v2: Vec<Argument>, a: Argument, i: int)
    requires
        v2@ == v1@.push(a),
        0 <= i <= v1@.len(),
    ensures
        args_model(v2, i) == args_model(v1, i).push(arg_model(a)),
    decreases v1@.len() - i,
{
    if i < v1@.len() {
        lemma_args_model_push(v1, v2, a, i + 1);
        assert(v2@[i] == v1@[i]);
        assert(args_model(v2, i) =~= args_model(v1, i).push(arg_model(a)));
    } else {
        assert(v2@[i] == a);
        assert(args_model(v2, i + 1) =~= Seq::<ArgModel>::empty());
        assert(args_model(v1, i) =~= Seq::<ArgModel>::empty());
        assert(args_model(v2, i) =~= seq![arg_model(a)]);
    }
}

pub proof fn lemma_args_model_len(v: Vec<Argument>, i: int)
    requires
        0 <= i <= v@.len(),
    ensures
        args_model(v, i).len() == v@.len() - i,
        forall|k: int| 0 <= k < v@.len() - i ==> #[trigger] args_model(v, i)[k] == arg_model(v@[i + k]),
    decreases v@.len() - i,
{
    if i < v@.len() {
        lemma_args_model_len(v, i + 1);
        assert forall|k: int| 0 <= k < v@.len() - i implies #[trigger] args_model(v, i)[k]
            == arg_model(v@[i + k]) by {
            if k > 0 {
                assert(args_model(v, i)[k] == args_model(v, i + 1)[k - 1]);
            }
        }
    }
}

/// A copy of an argument with the same value.
pub fn copy_argument(a: &Argument) -> (r: Argument)
    ensures
        arg_model(r) == arg_model(*a),
    decreases a, 0int,
{
    match a {
        Argument::Quoted(s) => Argument::Quoted(*s),
        Argument::Unquoted(s) => Argument::Unquoted(*s),
        Argument::Bracket(s) => Argument::Bracket(*s),
        Argument::LineComment(s) => Argument::LineComment(*s),
        Argument::BracketComment(s) => Argument::BracketComment(*s),
        Argument::ParenGroup { arguments } => {
            let c = copy_arguments(arguments);
            Argument::ParenGroup { arguments: c }
        },
    }
}

/// A copy of a list of arguments with the same values.
pub fn copy_arguments(v: &Vec<Argument>) -> (r: Vec<Argument>)
    ensures
        args_model(r, 0) == args_model(*v, 0),
    decreases v, 1int,
{
    let mut out: Vec<Argument> = Vec::new();
    let mut i: usize = 0;
    proof {
        lemma_args_model_len(out, 0);
        assert(args_model(out, 0) =~= args_model(*v, 0).subrange(0, 0));
    }
    while i < v.len()
        invariant
            i <= v@.len(),
            args_model(out, 0) == args_model(*v, 0).subrange(0, i as int),
        decreases v@.len() - i,
    {
        let a = copy_argument(&v[i]);
        let ghost before = out;
        out.push(a);
        proof {
            lemma_args_model_push(before, out, a, 0);
            lemma_args_model_len(*v, 0);
            assert(args_model(out, 0) =~= args_model(*v, 0).subrange(0, i + 1));
        }
        i = i + 1;
    }
    proof {
        lemma_args_model_len(*v, 0);
        assert(args_model(*v, 0).subrange(0, v@.len() as int) =~= args_model(*v, 0));
    }
    out
}

/// A command invocation `name(arguments) # trailing comment`.
#[derive(Debug)]
pub struct CommandInvocation {
    pub name: Span,
    pub open_paren: Span,
    pub close_paren: Span,
    pub arguments: Vec<Argument>,
    pub trailing_comment: Option<Span>,
}

pub ghost struct CommandModel {
    pub name: Span,
    pub open_paren: Span,
    pub close_paren: Span,
    pub arguments: Seq<ArgModel>,
    pub trailing_comment: Option<Span>,
}

pub open spec fn command_model(c: CommandInvocation) -> CommandModel {
    CommandModel {
        name: c.name,
        open_paren: c.open_paren,
        close_paren: c.close_paren,
        arguments: args_model(c.arguments, 0),
        trailing_comment: c.trailing_comment,
    }
}

/// A top-level element of a CMake file.
#[derive(Debug)]
pub enum FileElement {
    Command(CommandInvocation),
    BracketComment(Span),
    LineComment(Span),
    BlankLine,
}

pub ghost enum ElemModel {
    Command(CommandModel),
    BracketComment(Span),
    LineComment(Span),
    BlankLine,
}

pub open spec fn elem_model(e: FileElement) -> ElemModel {
    match e {
        FileElement::Command(c) => ElemModel::Command(command_model(c)),
        FileElement::BracketComment(s) => ElemModel::BracketComment(s),
        FileElement::LineComment(s) => ElemModel::LineComment(s),
        FileElement::BlankLine => ElemModel::BlankLine,
    }
}

/// A parsed CMake file.
#[derive(Debug)]
pub struct File {
    pub elements: Vec<FileElement>,
}

pub open spec fn file_model(f: File) -> Seq<ElemModel> {
    f.elements@.map_values(|e: FileElement| elem_model(e))
}

} // verus!
