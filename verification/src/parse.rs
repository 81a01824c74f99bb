//! Recursive-descent parser from the token stream to the syntax tree.
use vstd::prelude::*;
use vstd::string::StringSliceAdditionalSpecFns;

use crate::ast::{
    arg_model, args_model, command_model, elem_model, file_model, lemma_args_model_push, ArgModel,
    Argument, CommandInvocation, CommandModel, ElemModel, File, FileElement, Span,
};
use crate::token::{token_seq, Token};

verus! {

/// A token with its byte span.
pub type Tok = (Result<Token, ()>, usize, usize);

/// Bytes that match no token are read as unquoted text.
pub open spec fn kind_of(t: Tok) -> Token {
    match t.0 {
        Ok(k) => k,
        Err(_) => Token::UnquotedText,
    }
}

pub open spec fn kind_at(toks: Seq<Tok>, p: int) -> Option<Token> {
    if 0 <= p < toks.len() {
        Some(kind_of(toks[p]))
    } else {
        None
    }
}

pub open spec fn span_at(toks: Seq<Tok>, p: int) -> Span {
    Span { start: toks[p].1, end: toks[p].2 }
}

pub open spec fn skip_spaces(toks: Seq<Tok>, p: int) -> int
    decreases toks.len() - p,
{
    if 0 <= p < toks.len() && kind_of(toks[p]) == Token::Space {
        skip_spaces(toks, p + 1)
    } else {
        p
    }
}

/// Number of newlines among the first `n` bytes.
pub open spec fn newlines_before(s: Seq<u8>, n: int) -> int
    decreases n,
{
    if n <= 0 || n > s.len() {
        0
    } else {
        newlines_before(s, n - 1) + if s[n - 1] == 10u8 {
            1int
        } else {
            0int
        }
    }
}

/// Start of the line that contains offset `n`: just after the last newline
/// among the first `n` bytes, or 0.
pub open spec fn line_start(s: Seq<u8>, n: int) -> int
    decreases n,
{
    if n <= 0 || n > s.len() {
        0
    } else if s[n - 1] == 10u8 {
        n
    } else {
        line_start(s, n - 1)
    }
}

/// 1-based line and byte column of `offset`, clamped to the end of the text.
pub open spec fn line_col(s: Seq<u8>, offset: int) -> (int, int) {
    let o = if offset < s.len() {
        offset
    } else {
        s.len() as int
    };
    (newlines_before(s, o) + 1, o - line_start(s, o) + 1)
}

/// Why a text could not be parsed, and where (1-based line and column).
#[derive(Debug, Clone, Copy, PartialEq, Eq, Structural)]
pub enum ParseError {
    /// A token that cannot start a file element.
    UnexpectedToken { token: Token, line: usize, column: usize },
    /// A command name not followed by `(`; `found` is what came instead.
    MissingOpenParen { name: Span, found: Option<Token>, line: usize, column: usize },
    /// A command whose argument list is not closed by `)`.
    MissingCloseParen { name: Span, found: Option<Token>, line: usize, column: usize },
    /// A parenthesized argument group that is not closed.
    UnclosedGroup { found: Option<Token>, line: usize, column: usize },
}

/// Extent of an unquoted argument: directly adjacent quoted or unquoted tokens
/// (as in `-Da="b c"`) are merged into it.
pub open spec fn merge_end(toks: Seq<Tok>, p: int, end: usize) -> (int, usize)
    decreases toks.len() - p,
{
    if 0 <= p < toks.len() && (kind_of(toks[p]) == Token::QuotedArgument || kind_of(toks[p])
        == Token::UnquotedText) && toks[p].1 == end {
        merge_end(toks, p + 1, toks[p].2)
    } else {
        (p, end)
    }
}

/// The arguments from token `p` up to the `)` that closes the list (or the end),
/// appended to `acc`, with the index where parsing stopped.
pub open spec fn parse_args(s: Seq<u8>, toks: Seq<Tok>, p: int, acc: Seq<ArgModel>) -> Result<
    (Seq<ArgModel>, int),
    ParseError,
>
    decreases toks.len() - p,
{
    if p < 0 || p >= toks.len() {
        Ok((acc, p))
    } else {
        let k = kind_of(toks[p]);
        if k == Token::Space || k == Token::Newline {
            parse_args(s, toks, p + 1, acc)
        } else if k == Token::RParen {
            Ok((acc, p))
        } else if k == Token::LineComment {
            parse_args(s, toks, p + 1, acc.push(ArgModel::LineComment(span_at(toks, p))))
        } else if k == Token::LParen {
            match parse_args(s, toks, p + 1, Seq::empty()) {
                Err(e) => Err(e),
                Ok(inner) => {
                    let r = inner.1;
                    if p < r < toks.len() && kind_of(toks[r]) == Token::RParen {
                        parse_args(s, toks, r + 1, acc.push(ArgModel::Group(inner.0)))
                    } else {
                        let off = if 0 <= r < toks.len() {
                            toks[r].1 as int
                        } else {
                            0
                        };
                        let lc = line_col(s, off);
                        Err(
                            ParseError::UnclosedGroup {
                                found: kind_at(toks, r),
                                line: lc.0 as usize,
                                column: lc.1 as usize,
                            },
                        )
                    }
                },
            }
        } else if k == Token::BracketArgument {
            parse_args(s, toks, p + 1, acc.push(ArgModel::Bracket(span_at(toks, p))))
        } else if k == Token::QuotedArgument {
            parse_args(s, toks, p + 1, acc.push(ArgModel::Quoted(span_at(toks, p))))
        } else if k == Token::BracketComment {
            parse_args(s, toks, p + 1, acc.push(ArgModel::BracketComment(span_at(toks, p))))
        } else {
            let m = merge_end(toks, p + 1, toks[p].2);
            if p < m.0 <= toks.len() {
                parse_args(
                    s,
                    toks,
                    m.0,
                    acc.push(ArgModel::Unquoted(Span { start: toks[p].1, end: m.1 })),
                )
            } else {
                Ok((acc, p))
            }
        }
    }
}

/// The command invocation whose name is token `p`, and the index after it
/// (its trailing comment and newline included).
pub open spec fn parse_command(s: Seq<u8>, toks: Seq<Tok>, p: int) -> Result<
    (CommandModel, int),
    ParseError,
> {
    let name = span_at(toks, p);
    let q = skip_spaces(toks, p + 1);
    if kind_at(toks, q) == Some(Token::LParen) {
        match parse_args(s, toks, q + 1, Seq::empty()) {
            Err(e) => Err(e),
            Ok(res) => {
                let r = res.1;
                if kind_at(toks, r) == Some(Token::RParen) {
                    let r2 = skip_spaces(toks, r + 1);
                    let tc = if kind_at(toks, r2) == Some(Token::LineComment) {
                        Some(span_at(toks, r2))
                    } else {
                        None
                    };
                    let r3 = if tc is Some {
                        r2 + 1
                    } else {
                        r2
                    };
                    let r4 = if kind_at(toks, r3) == Some(Token::Newline) {
                        r3 + 1
                    } else {
                        r3
                    };
                    Ok(
                        (
                            CommandModel {
                                name,
                                open_paren: span_at(toks, q),
                                close_paren: span_at(toks, r),
                                arguments: res.0,
                                trailing_comment: tc,
                            },
                            r4,
                        ),
                    )
                } else {
                    let lc = line_col(s, name.start as int);
                    Err(
                        ParseError::MissingCloseParen {
                            name,
                            found: kind_at(toks, r),
                            line: lc.0 as usize,
                            column: lc.1 as usize,
                        },
                    )
                }
            },
        }
    } else {
        let lc = line_col(s, name.end as int);
        Err(
            ParseError::MissingOpenParen {
                name,
                found: kind_at(toks, q),
                line: lc.0 as usize,
                column: lc.1 as usize,
            },
        )
    }
}

/// The file elements from token `p` on, appended to `acc`.
pub open spec fn parse_elems(s: Seq<u8>, toks: Seq<Tok>, p: int, acc: Seq<ElemModel>) -> Result<
    Seq<ElemModel>,
    ParseError,
>
    decreases toks.len() - p,
{
    if p < 0 || p >= toks.len() {
        Ok(acc)
    } else {
        let k = kind_of(toks[p]);
        if k == Token::Space {
            parse_elems(s, toks, p + 1, acc)
        } else if k == Token::Newline {
            parse_elems(s, toks, p + 1, acc.push(ElemModel::BlankLine))
        } else if k == Token::BracketComment || k == Token::LineComment {
            let e = if k == Token::BracketComment {
                ElemModel::BracketComment(span_at(toks, p))
            } else {
                ElemModel::LineComment(span_at(toks, p))
            };
            let q = if kind_at(toks, p + 1) == Some(Token::Newline) {
                p + 2
            } else {
                p + 1
            };
            parse_elems(s, toks, q, acc.push(e))
        } else if k == Token::UnquotedText {
            match parse_command(s, toks, p) {
                Err(e) => Err(e),
                Ok(res) => {
                    if p < res.1 <= toks.len() {
                        parse_elems(s, toks, res.1, acc.push(ElemModel::Command(res.0)))
                    } else {
                        Ok(acc)
                    }
                },
            }
        } else {
            let lc = line_col(s, toks[p].1 as int);
            Err(ParseError::UnexpectedToken { token: k, line: lc.0 as usize, column: lc.1 as usize })
        }
    }
}

/// What parsing `s` yields.
pub open spec fn spec_parse(s: Seq<u8>) -> Result<Seq<ElemModel>, ParseError> {
    parse_elems(s, token_seq(s), 0, Seq::empty())
}

/// 1-based line and byte column of `offset` in `source`; offsets past the end
/// are clamped to the end.
pub fn byte_offset_to_line_col(source: &str, offset: usize) -> (r: (usize, usize))
    requires
        source.spec_bytes().len() < usize::MAX,
    ensures
        r.0 as int == line_col(source.spec_bytes(), offset as int).0,
        r.1 as int == line_col(source.spec_bytes(), offset as int).1,
{
    line_col_bytes(source.as_bytes(), offset)
}

fn line_col_bytes(s: &[u8], offset: usize) -> (r: (usize, usize))
    requires
        s@.len() < usize::MAX,
    ensures
        r.0 as int == line_col(s@, offset as int).0,
        r.1 as int == line_col(s@, offset as int).1,
{
    let o = if offset < s.len() {
        offset
    } else {
        s.len()
    };
    let mut i: usize = 0;
    let mut count: usize = 0;
    let mut start: usize = 0;
    while i < o
        invariant
            o <= s@.len(),
            i <= o,
            count as int == newlines_before(s@, i as int),
            start as int == line_start(s@, i as int),
            count <= i,
            start <= i,
        decreases o - i,
    {
        if s[i] == 10u8 {
            count = count + 1;
            start = i + 1;
        }
        i = i + 1;
    }
    (count + 1, o - start + 1)
}

fn kind_of_exec(t: &Tok) -> (k: Token)
    ensures
        k == kind_of(*t),
{
    match t.0 {
        Ok(k) => k,
        Err(_) => Token::UnquotedText,
    }
}

fn kind_at_exec(toks: &Vec<Tok>, p: usize) -> (k: Option<Token>)
    ensures
        k == kind_at(toks@, p as int),
{
    if p < toks.len() {
        Some(kind_of_exec(&toks[p]))
    } else {
        None
    }
}

fn skip_spaces_exec(toks: &Vec<Tok>, p: usize) -> (r: usize)
    requires
        p <= toks@.len(),
    ensures
        r as int == skip_spaces(toks@, p as int),
        p <= r <= toks@.len(),
{
    let mut i = p;
    while i < toks.len() && kind_of_exec(&toks[i]) == Token::Space
        invariant
            p <= i <= toks@.len(),
            skip_spaces(toks@, i as int) == skip_spaces(toks@, p as int),
        decreases toks@.len() - i,
    {
        i = i + 1;
    }
    i
}

fn merge_end_exec(toks: &Vec<Tok>, p: usize, end: usize) -> (r: (usize, usize))
    requires
        p <= toks@.len(),
    ensures
        r.0 as int == merge_end(toks@, p as int, end).0,
        r.1 == merge_end(toks@, p as int, end).1,
        p <= r.0 <= toks@.len(),
{
    let mut i = p;
    let mut e = end;
    while i < toks.len() && (kind_of_exec(&toks[i]) == Token::QuotedArgument || kind_of_exec(
        &toks[i],
    ) == Token::UnquotedText) && toks[i].1 == e
        invariant
            p <= i <= toks@.len(),
            merge_end(toks@, i as int, e) == merge_end(toks@, p as int, end),
        decreases toks@.len() - i,
    {
        e = toks[i].2;
        i = i + 1;
    }
    (i, e)
}

fn parse_arguments(s: &[u8], toks: &Vec<Tok>, p0: usize) -> (r: Result<(Vec<Argument>, usize), ParseError>)
    requires
        s@.len() < usize::MAX,
        p0 <= toks@.len(),
    ensures
        match (r, parse_args(s@, toks@, p0 as int, Seq::empty())) {
            (Ok(x), Ok(y)) => args_model(x.0, 0) == y.0 && x.1 as int == y.1 && p0 <= x.1
                <= toks@.len(),
            (Err(x), Err(y)) => x == y,
            _ => false,
        },
    decreases toks@.len() - p0,
{
    let mut out: Vec<Argument> = Vec::new();
    let mut p = p0;
    loop
        invariant
            s@.len() < usize::MAX,
            p0 <= p <= toks@.len(),
            parse_args(s@, toks@, p0 as int, Seq::empty()) == parse_args(
                s@,
                toks@,
                p as int,
                args_model(out, 0),
            ),
        decreases toks@.len() - p,
    {
        if p >= toks.len() {
            return Ok((out, p));
        }
        let k = kind_of_exec(&toks[p]);
        let sp = Span { start: toks[p].1, end: toks[p].2 };
        let ghost old_out = out;
        match k {
            Token::Space | Token::Newline => {
                p = p + 1;
            },
            Token::RParen => {
                return Ok((out, p));
            },
            Token::LineComment => {
                out.push(Argument::LineComment(sp));
                proof {
                    lemma_args_model_push(old_out, out, Argument::LineComment(sp), 0);
                }
                p = p + 1;
            },
            Token::LParen => {
                let (inner, r) = match parse_arguments(s, toks, p + 1) {
                    Ok(x) => x,
                    Err(e) => {
                        return Err(e);
                    },
                };
                if r < toks.len() && kind_of_exec(&toks[r]) == Token::RParen {
                    let ghost inner_model = args_model(inner, 0);
                    let g = Argument::ParenGroup { arguments: inner };
                    proof {
                        assert(arg_model(g) == ArgModel::Group(inner_model));
                    }
                    out.push(g);
                    proof {
                        lemma_args_model_push(old_out, out, g, 0);
                    }
                    p = r + 1;
                } else {
                    let off = if r < toks.len() {
                        toks[r].1
                    } else {
                        0
                    };
                    let (line, column) = line_col_bytes(s, off);
                    return Err(
                        ParseError::UnclosedGroup {
                            found: kind_at_exec(toks, r),
                            line,
                            column,
                        },
                    );
                }
            },
            Token::BracketArgument => {
                out.push(Argument::Bracket(sp));
                proof {
                    lemma_args_model_push(old_out, out, Argument::Bracket(sp), 0);
                }
                p = p + 1;
            },
            Token::QuotedArgument => {
                out.push(Argument::Quoted(sp));
                proof {
                    lemma_args_model_push(old_out, out, Argument::Quoted(sp), 0);
                }
                p = p + 1;
            },
            Token::BracketComment => {
                out.push(Argument::BracketComment(sp));
                proof {
                    lemma_args_model_push(old_out, out, Argument::BracketComment(sp), 0);
                }
                p = p + 1;
            },
            Token::UnquotedText => {
                let (q, e) = merge_end_exec(toks, p + 1, toks[p].2);
                let a = Argument::Unquoted(Span { start: toks[p].1, end: e });
                out.push(a);
                proof {
                    lemma_args_model_push(old_out, out, a, 0);
                }
                p = q;
            },
        }
    }
}

fn parse_command_exec(s: &[u8], toks: &Vec<Tok>, p: usize) -> (r: Result<
    (CommandInvocation, usize),
    ParseError,
>)
    requires
        s@.len() < usize::MAX,
        p < toks@.len(),
    ensures
        match (r, parse_command(s@, toks@, p as int)) {
            (Ok(x), Ok(y)) => command_model(x.0) == y.0 && x.1 as int == y.1 && p < x.1
                <= toks@.len(),
            (Err(x), Err(y)) => x == y,
            _ => false,
        },
{
    let n = toks.len();
    let name = Span { start: toks[p].1, end: toks[p].2 };
    let q = skip_spaces_exec(toks, p + 1);
    if kind_at_exec(toks, q) != Some(Token::LParen) {
        let (line, column) = line_col_bytes(s, name.end);
        return Err(
            ParseError::MissingOpenParen { name, found: kind_at_exec(toks, q), line, column },
        );
    }
    let open_paren = Span { start: toks[q].1, end: toks[q].2 };
    let (arguments, r) = match parse_arguments(s, toks, q + 1) {
        Ok(x) => x,
        Err(e) => {
            return Err(e);
        },
    };
    if kind_at_exec(toks, r) != Some(Token::RParen) {
        let (line, column) = line_col_bytes(s, name.start);
        return Err(
            ParseError::MissingCloseParen { name, found: kind_at_exec(toks, r), line, column },
        );
    }
    let close_paren = Span { start: toks[r].1, end: toks[r].2 };
    let r2 = skip_spaces_exec(toks, r + 1);
    let trailing_comment = if kind_at_exec(toks, r2) == Some(Token::LineComment) {
        Some(Span { start: toks[r2].1, end: toks[r2].2 })
    } else {
        None
    };
    let r3 = if trailing_comment.is_some() {
        r2 + 1
    } else {
        r2
    };
    let r4 = if kind_at_exec(toks, r3) == Some(Token::Newline) {
        r3 + 1
    } else {
        r3
    };
    Ok((CommandInvocation { name, open_paren, close_paren, arguments, trailing_comment }, r4))
}

/// Parses CMake source text into its syntax tree.
pub fn parse(source: &str) -> (r: Result<File, ParseError>)
    requires
        source.spec_bytes().len() < usize::MAX,
    ensures
        match (r, spec_parse(source.spec_bytes())) {
            (Ok(f), Ok(m)) => file_model(f) == m,
            (Err(x), Err(y)) => x == y,
            _ => false,
        },
{
    let s = source.as_bytes();
    let toks = crate::token::tokenize(source);
    let mut elements: Vec<FileElement> = Vec::new();
    let mut p: usize = 0;
    proof {
        assert(elements@.map_values(|e: FileElement| elem_model(e)) =~= Seq::<ElemModel>::empty());
    }
    loop
        invariant
            p <= toks@.len(),
            s@ == source.spec_bytes(),
            s@.len() < usize::MAX,
            toks@ == token_seq(s@),
            spec_parse(s@) == parse_elems(
                s@,
                toks@,
                p as int,
                elements@.map_values(|e: FileElement| elem_model(e)),
            ),
        decreases toks@.len() - p,
    {
        if p >= toks.len() {
            return Ok(File { elements });
        }
        let k = kind_of_exec(&toks[p]);
        let sp = Span { start: toks[p].1, end: toks[p].2 };
        let ghost old_elems = elements@;
        if k == Token::Space {
            p = p + 1;
        } else if k == Token::Newline {
            elements.push(FileElement::BlankLine);
            proof {
                assert(elements@.map_values(|e: FileElement| elem_model(e)) =~= old_elems.map_values(
                    |e: FileElement| elem_model(e),
                ).push(ElemModel::BlankLine));
            }
            p = p + 1;
        } else if k == Token::BracketComment || k == Token::LineComment {
            let e = if k == Token::BracketComment {
                FileElement::BracketComment(sp)
            } else {
                FileElement::LineComment(sp)
            };
            elements.push(e);
            proof {
                assert(elements@.map_values(|e: FileElement| elem_model(e)) =~= old_elems.map_values(
                    |e: FileElement| elem_model(e),
                ).push(elem_model(e)));
            }
            if kind_at_exec(&toks, p + 1) == Some(Token::Newline) {
                p = p + 2;
            } else {
                p = p + 1;
            }
        } else if k == Token::UnquotedText {
            let (cmd, r) = match parse_command_exec(s, &toks, p) {
                Ok(x) => x,
                Err(e) => {
                    return Err(e);
                },
            };
            let ghost cm = command_model(cmd);
            let e = FileElement::Command(cmd);
            elements.push(e);
            proof {
                assert(elem_model(e) == ElemModel::Command(cm));
                assert(elements@.map_values(|e: FileElement| elem_model(e)) =~= old_elems.map_values(
                    |e: FileElement| elem_model(e),
                ).push(ElemModel::Command(cm)));
            }
            p = r;
        } else {
            let (line, column) = line_col_bytes(s, toks[p].1);
            return Err(ParseError::UnexpectedToken { token: k, line, column });
        }
    }
}

} // verus!
