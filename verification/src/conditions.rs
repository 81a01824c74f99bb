//! Condition syntax (`if`, `elseif`, `while` and their closers) laid out over
//! several lines: the arguments read as a list of expressions joined by `AND`
//! and `OR`, each expression kept on one line where it fits and broken at its
//! operator where it does not.
use vstd::prelude::*;
use vstd::string::StringSliceAdditionalSpecFns;

use crate::arg_groups::{any_name, names_hold, text_bytes, FormattedArg};
use crate::casing::{cased, literal_list, literal_tokens, unary_test_list};
use crate::config::{CaseStyle, Configuration};
use crate::emit_args::{arg_items, emit_kw_arg, starts};
use crate::load::sbytes;
use crate::print_items::{gen_from_raw_string, item_model, items_model, raw_items, PrintItem, PrintModel};
use crate::text::{ci_eq, to_lower_vec, to_upper_vec};
use crate::widths::{arg_inline_text, inline_text};

verus! {

/// The binary operators of conditions.
pub open spec fn binary_op_list() -> Seq<&'static str> {
    seq![
        "IS_NEWER_THAN", "MATCHES", "LESS", "GREATER", "EQUAL", "LESS_EQUAL", "GREATER_EQUAL", "STRLESS",
        "STRGREATER", "STREQUAL", "STRLESS_EQUAL", "STRGREATER_EQUAL", "VERSION_LESS", "VERSION_GREATER",
        "VERSION_EQUAL", "VERSION_LESS_EQUAL", "VERSION_GREATER_EQUAL", "IN_LIST", "PATH_EQUAL",
    ]
}

/// `AND` or `OR`, in any ASCII case.
pub open spec fn logical_op(t: Seq<u8>) -> bool {
    names_hold(seq!["AND", "OR"], t)
}

/// `NOT`, in any ASCII case.
pub open spec fn not_op(t: Seq<u8>) -> bool {
    names_hold(seq!["NOT"], t)
}

/// A unary test of conditions (`DEFINED`, `EXISTS`, ...), in any ASCII case.
pub fn is_condition_unary_test(text: &str) -> (r: bool)
    ensures
        r == names_hold(unary_test_list(), text.spec_bytes()),
{
    let v = vec![
        "COMMAND", "POLICY", "TARGET", "TEST", "EXISTS", "IS_DIRECTORY", "IS_SYMLINK", "IS_ABSOLUTE",
        "DEFINED", "IS_READABLE", "IS_WRITABLE", "IS_EXECUTABLE",
    ];
    proof {
        assert(v@ =~= unary_test_list());
    }
    any_name(&v, text.as_bytes())
}

/// A binary operator of conditions (`STREQUAL`, `IN_LIST`, ...), in any
/// ASCII case.
pub fn is_condition_binary_op(text: &str) -> (r: bool)
    ensures
        r == names_hold(binary_op_list(), text.spec_bytes()),
{
    let v = vec![
        "IS_NEWER_THAN", "MATCHES", "LESS", "GREATER", "EQUAL", "LESS_EQUAL", "GREATER_EQUAL", "STRLESS",
        "STRGREATER", "STREQUAL", "STRLESS_EQUAL", "STRGREATER_EQUAL", "VERSION_LESS", "VERSION_GREATER",
        "VERSION_EQUAL", "VERSION_LESS_EQUAL", "VERSION_GREATER_EQUAL", "IN_LIST", "PATH_EQUAL",
    ];
    proof {
        assert(v@ =~= binary_op_list());
    }
    any_name(&v, text.as_bytes())
}

/// See `logical_op`.
pub fn is_logical_op(text: &str) -> (r: bool)
    ensures
        r == logical_op(text.spec_bytes()),
{
    let v = vec!["AND", "OR"];
    proof {
        assert(v@ =~= seq!["AND", "OR"]);
    }
    any_name(&v, text.as_bytes())
}

/// See `not_op`.
pub fn is_not_op(text: &str) -> (r: bool)
    ensures
        r == not_op(text.spec_bytes()),
{
    let v = vec!["NOT"];
    proof {
        assert(v@ =~= seq!["NOT"]);
    }
    any_name(&v, text.as_bytes())
}

/// A line comment standing as an argument: its text starts with `#` but not
/// with `#[`.
pub open spec fn standalone_comment(a: FormattedArg) -> bool {
    let t = text_bytes(a);
    starts(t, 35u8) && !(t.len() > 1 && t[1] == 91u8)
}

fn is_standalone_comment(a: &FormattedArg) -> (r: bool)
    ensures
        r == standalone_comment(*a),
{
    let t = a.text.as_str().as_bytes();
    proof {
        assert(t@ == text_bytes(*a));
    }
    t.len() > 0 && t[0] == 35u8 && !(t.len() > 1 && t[1] == 91u8)
}

/// A condition expression over argument positions.
#[derive(Debug, PartialEq, Eq)]
pub enum CondExpr {
    /// A single argument.
    Atom(usize),
    /// A parenthesized group.
    ParenGroup(usize),
    /// `OP expr` (`NOT`, or a unary test and its argument).
    Unary { op: usize, operand: Box<CondExpr> },
    /// `lhs OP rhs`.
    Binary { lhs: Box<CondExpr>, op: usize, rhs: Box<CondExpr> },
}

/// A top-level entry of a condition.
#[derive(Debug, PartialEq, Eq)]
pub enum CondItem {
    /// An expression on its own.
    Expr(CondExpr),
    /// `AND expr` or `OR expr`; the comments standing between the operator
    /// and the expression are the arguments from `op + 1` up to `comments_end`.
    LogicalOp { op: usize, comments_end: usize, expr: CondExpr },
    /// A line comment on its own.
    Comment(usize),
}

/// One expression read from position `i`, and how many arguments it takes:
/// `NOT` and what follows it; a unary test and its argument (unless that is a
/// group); a group; `a OP b` with a binary operator between two non-groups;
/// else the argument alone.
pub open spec fn parse_one(args: Seq<FormattedArg>, i: int) -> (CondExpr, int)
    decreases args.len() - i,
{
    if i < 0 || i >= args.len() {
        (CondExpr::Atom(i as usize), 1)
    } else if not_op(text_bytes(args[i])) && i + 1 < args.len() {
        let (o, c) = parse_one(args, i + 1);
        (CondExpr::Unary { op: i as usize, operand: Box::new(o) }, 1 + c)
    } else if names_hold(unary_test_list(), text_bytes(args[i])) && i + 1 < args.len() && !args[i + 1].is_paren_group {
        (CondExpr::Unary { op: i as usize, operand: Box::new(CondExpr::Atom((i + 1) as usize)) }, 2)
    } else if args[i].is_paren_group {
        (CondExpr::ParenGroup(i as usize), 1)
    } else if i + 3 <= args.len() && names_hold(binary_op_list(), text_bytes(args[i + 1])) && !args[i + 2].is_paren_group {
        (
            CondExpr::Binary {
                lhs: Box::new(CondExpr::Atom(i as usize)),
                op: (i + 1) as usize,
                rhs: Box::new(CondExpr::Atom((i + 2) as usize)),
            },
            3,
        )
    } else {
        (CondExpr::Atom(i as usize), 1)
    }
}

/// Every position the expression names lies in `lo..hi`.
pub open spec fn expr_in(e: CondExpr, lo: int, hi: int) -> bool
    decreases e,
{
    match e {
        CondExpr::Atom(i) => lo <= i < hi,
        CondExpr::ParenGroup(i) => lo <= i < hi,
        CondExpr::Unary { op, operand } => lo <= op < hi && expr_in(*operand, lo, hi),
        CondExpr::Binary { lhs, op, rhs } => lo <= op < hi && expr_in(*lhs, lo, hi) && expr_in(*rhs, lo, hi),
    }
}

pub proof fn lemma_expr_in_widen(e: CondExpr, lo: int, hi: int, lo2: int, hi2: int)
    requires
        expr_in(e, lo, hi),
        lo2 <= lo,
        hi <= hi2,
    ensures
        expr_in(e, lo2, hi2),
    decreases e,
{
    match e {
        CondExpr::Unary { op, operand } => lemma_expr_in_widen(*operand, lo, hi, lo2, hi2),
        CondExpr::Binary { lhs, op, rhs } => {
            lemma_expr_in_widen(*lhs, lo, hi, lo2, hi2);
            lemma_expr_in_widen(*rhs, lo, hi, lo2, hi2);
        },
        _ => {},
    }
}

/// An expression read from a position takes at least that argument and no
/// more than there are, and names only the arguments it takes.
pub proof fn lemma_parse_one(args: Seq<FormattedArg>, i: int)
    requires
        0 <= i < args.len(),
    ensures
        1 <= parse_one(args, i).1,
        i + parse_one(args, i).1 <= args.len(),
        args.len() <= usize::MAX ==> expr_in(parse_one(args, i).0, i, i + parse_one(args, i).1),
    decreases args.len() - i,
{
    reveal_with_fuel(expr_in, 2);
    if not_op(text_bytes(args[i])) && i + 1 < args.len() {
        lemma_parse_one(args, i + 1);
        let (o, c) = parse_one(args, i + 1);
        if args.len() <= usize::MAX {
            lemma_expr_in_widen(o, i + 1, i + 1 + c, i, i + 1 + c);
            assert(parse_one(args, i).0 == CondExpr::Unary { op: i as usize, operand: Box::new(o) });
        }
    }
}

/// The first position from `j` on that is not a standalone comment.
pub open spec fn first_non_comment(args: Seq<FormattedArg>, j: int) -> int
    decreases args.len() - j,
{
    if j < 0 || j >= args.len() {
        j
    } else if standalone_comment(args[j]) {
        first_non_comment(args, j + 1)
    } else {
        j
    }
}

pub proof fn lemma_first_non_comment(args: Seq<FormattedArg>, j: int)
    requires
        0 <= j <= args.len(),
    ensures
        j <= first_non_comment(args, j) <= args.len(),
        forall|k: int| j <= k < first_non_comment(args, j) ==> standalone_comment(#[trigger] args[k]),
    decreases args.len() - j,
{
    if j < args.len() && standalone_comment(args[j]) {
        lemma_first_non_comment(args, j + 1);
    }
}

/// Comments on their own for the positions `lo..hi`.
pub open spec fn comment_items(lo: int, hi: int) -> Seq<CondItem>
    decreases hi - lo,
{
    if lo >= hi {
        seq![]
    } else {
        seq![CondItem::Comment(lo as usize)] + comment_items(lo + 1, hi)
    }
}

/// The entries of a condition from position `i` on: a standalone comment on
/// its own; after the first position, `AND`/`OR` with the comments that
/// follow it and the next expression (or, with nothing after it, the
/// comments and then the operator as an expression); else an expression.
pub open spec fn parse_list(args: Seq<FormattedArg>, i: int) -> Seq<CondItem>
    decreases args.len() - i,
{
    if i < 0 || i >= args.len() {
        seq![]
    } else if standalone_comment(args[i]) {
        seq![CondItem::Comment(i as usize)] + parse_list(args, i + 1)
    } else if i > 0 && logical_op(text_bytes(args[i])) {
        let j = first_non_comment(args, i + 1);
        proof {
            lemma_first_non_comment(args, i + 1);
        }
        if j < args.len() {
            let (e, c) = parse_one(args, j);
            proof {
                lemma_parse_one(args, j);
            }
            seq![CondItem::LogicalOp { op: i as usize, comments_end: j as usize, expr: e }] + parse_list(args, j + c)
        } else {
            comment_items(i + 1, args.len() as int) + seq![CondItem::Expr(CondExpr::Atom(i as usize))]
        }
    } else {
        let (e, c) = parse_one(args, i);
        proof {
            lemma_parse_one(args, i);
        }
        seq![CondItem::Expr(e)] + parse_list(args, i + c)
    }
}

/// The positions an entry names lie in `0..n`, and a logical operator's
/// comments lie after it.
pub open spec fn item_in(it: CondItem, n: int) -> bool {
    match it {
        CondItem::Expr(e) => expr_in(e, 0, n),
        CondItem::LogicalOp { op, comments_end, expr } => op < comments_end <= n && expr_in(expr, 0, n),
        CondItem::Comment(i) => i < n,
    }
}

proof fn lemma_comment_items(lo: int, hi: int, n: int)
    requires
        0 <= lo,
        hi <= n,
    ensures
        forall|k: int| 0 <= k < comment_items(lo, hi).len() ==> item_in(#[trigger] comment_items(lo, hi)[k], n),
        comment_items(lo, hi).len() == if lo < hi { hi - lo } else { 0 },
    decreases hi - lo,
{
    if lo < hi {
        lemma_comment_items(lo + 1, hi, n);
    }
}

/// Every entry read from position `i` names positions of the arguments.
pub proof fn lemma_parse_list(args: Seq<FormattedArg>, i: int)
    requires
        0 <= i,
        args.len() <= usize::MAX,
    ensures
        forall|k: int| 0 <= k < parse_list(args, i).len() ==> item_in(#[trigger] parse_list(args, i)[k], args.len() as int),
    decreases args.len() - i,
{
    let n = args.len() as int;
    if i >= n {
    } else if standalone_comment(args[i]) {
        lemma_parse_list(args, i + 1);
        assert forall|k: int| 0 <= k < parse_list(args, i).len() implies item_in(#[trigger] parse_list(args, i)[k], n) by {
            if k > 0 {
                assert(parse_list(args, i)[k] == parse_list(args, i + 1)[k - 1]);
            }
        }
    } else if i > 0 && logical_op(text_bytes(args[i])) {
        let j = first_non_comment(args, i + 1);
        lemma_first_non_comment(args, i + 1);
        if j < n {
            let (e, c) = parse_one(args, j);
            lemma_parse_one(args, j);
            lemma_expr_in_widen(e, j, j + c, 0, n);
            lemma_parse_list(args, j + c);
            assert forall|k: int| 0 <= k < parse_list(args, i).len() implies item_in(#[trigger] parse_list(args, i)[k], n) by {
                if k > 0 {
                    assert(parse_list(args, i)[k] == parse_list(args, j + c)[k - 1]);
                }
            }
        } else {
            lemma_comment_items(i + 1, n, n);
            let ci = comment_items(i + 1, n);
            assert forall|k: int| 0 <= k < parse_list(args, i).len() implies item_in(#[trigger] parse_list(args, i)[k], n) by {
                if k < ci.len() {
                    assert(parse_list(args, i)[k] == ci[k]);
                }
            }
        }
    } else {
        let (e, c) = parse_one(args, i);
        lemma_parse_one(args, i);
        lemma_expr_in_widen(e, i, i + c, 0, n);
        lemma_parse_list(args, i + c);
        assert forall|k: int| 0 <= k < parse_list(args, i).len() implies item_in(#[trigger] parse_list(args, i)[k], n) by {
            if k > 0 {
                assert(parse_list(args, i)[k] == parse_list(args, i + c)[k - 1]);
            }
        }
    }
}

/// See `parse_one`.
pub fn parse_one_expression(args: &Vec<FormattedArg>, i: usize) -> (r: (CondExpr, usize))
    requires
        i < args@.len(),
    ensures
        r.0 == parse_one(args@, i as int).0,
        r.1 == parse_one(args@, i as int).1,
    decreases args@.len() - i,
{
    proof {
        lemma_parse_one(args@, i as int);
    }
    let t = args[i].text.as_str();
    if is_not_op(t) && args.len() - i > 1 {
        let (o, c) = parse_one_expression(args, i + 1);
        proof {
            lemma_parse_one(args@, i + 1);
        }
        return (CondExpr::Unary { op: i, operand: Box::new(o) }, 1 + c);
    }
    if is_condition_unary_test(t) && args.len() - i > 1 && !args[i + 1].is_paren_group {
        return (CondExpr::Unary { op: i, operand: Box::new(CondExpr::Atom(i + 1)) }, 2);
    }
    if args[i].is_paren_group {
        return (CondExpr::ParenGroup(i), 1);
    }
    if args.len() >= 3 && i <= args.len() - 3 && is_condition_binary_op(args[i + 1].text.as_str())
        && !args[i + 2].is_paren_group {
        return (
            CondExpr::Binary { lhs: Box::new(CondExpr::Atom(i)), op: i + 1, rhs: Box::new(CondExpr::Atom(i + 2)) },
            3,
        );
    }
    (CondExpr::Atom(i), 1)
}

/// See `parse_list`: the entries of a condition.
#[verifier::rlimit(100)]
pub fn parse_condition_items(args: &Vec<FormattedArg>) -> (r: Vec<CondItem>)
    ensures
        r@ == parse_list(args@, 0),
{
    let mut out: Vec<CondItem> = Vec::new();
    let mut i: usize = 0;
    while i < args.len()
        invariant
            i <= args@.len(),
            out@ + parse_list(args@, i as int) == parse_list(args@, 0),
        decreases args@.len() - i,
    {
        let ghost before = out@;
        if is_standalone_comment(&args[i]) {
            out.push(CondItem::Comment(i));
            proof {
                assert(out@ + parse_list(args@, i + 1) =~= before + parse_list(args@, i as int));
            }
            i = i + 1;
        } else if i > 0 && is_logical_op(args[i].text.as_str()) {
            let op = i;
            let mut j: usize = i + 1;
            proof {
                lemma_first_non_comment(args@, i + 1);
            }
            while j < args.len() && is_standalone_comment(&args[j])
                invariant
                    op + 1 <= j <= args@.len(),
                    first_non_comment(args@, j as int) == first_non_comment(args@, op + 1),
                decreases args@.len() - j,
            {
                j = j + 1;
            }
            proof {
                assert(first_non_comment(args@, op + 1) == j);
            }
            if j < args.len() {
                let (e, c) = parse_one_expression(args, j);
                proof {
                    lemma_parse_one(args@, j as int);
                }
                out.push(CondItem::LogicalOp { op, comments_end: j, expr: e });
                proof {
                    assert(out@ + parse_list(args@, (j + c) as int) =~= before + parse_list(args@, op as int));
                }
                i = j + c;
            } else {
                let mut k: usize = op + 1;
                while k < args.len()
                    invariant
                        op + 1 <= k <= args@.len(),
                        out@ + comment_items(k as int, args@.len() as int) == before + comment_items(op + 1, args@.len() as int),
                    decreases args@.len() - k,
                {
                    let ghost b2 = out@;
                    out.push(CondItem::Comment(k));
                    proof {
                        assert(out@ + comment_items(k + 1, args@.len() as int) =~= b2 + comment_items(k as int, args@.len() as int));
                    }
                    k = k + 1;
                }
                out.push(CondItem::Expr(CondExpr::Atom(op)));
                proof {
                    assert(comment_items(k as int, args@.len() as int) =~= seq![]);
                    assert(out@ + parse_list(args@, args@.len() as int) =~= before + parse_list(args@, op as int));
                }
                i = args.len();
            }
        } else {
            let (e, c) = parse_one_expression(args, i);
            proof {
                lemma_parse_one(args@, i as int);
            }
            out.push(CondItem::Expr(e));
            proof {
                assert(out@ + parse_list(args@, (i + c) as int) =~= before + parse_list(args@, i as int));
            }
            i = i + c;
        }
    }
    proof {
        assert(out@ =~= out@ + parse_list(args@, i as int));
    }
    out
}


// ---------------------------------------------------------------------------
// Widths and comments
// ---------------------------------------------------------------------------

/// A count held at the largest `u64` once it passes it.
pub open spec fn sat(x: int) -> int {
    if x > u64::MAX {
        u64::MAX as int
    } else {
        x
    }
}

fn sadd(a: u64, b: u64) -> (r: u64)
    ensures
        r == sat(a + b),
{
    a.saturating_add(b)
}

proof fn lemma_sat_add(x: int, y: int)
    requires
        0 <= x,
        0 <= y,
    ensures
        sat(sat(x) + sat(y)) == sat(x + y),
{
}

/// The width a trailing comment adds on the line: a space and the comment.
pub open spec fn comment_len(a: FormattedArg) -> int {
    match a.trailing_comment {
        Some(c) => 1 + sbytes(c).len() as int,
        None => 0,
    }
}

/// The size of an expression.
pub open spec fn esize(e: CondExpr) -> nat
    decreases e,
{
    match e {
        CondExpr::Atom(_) => 1,
        CondExpr::ParenGroup(_) => 1,
        CondExpr::Unary { op, operand } => 1 + esize(*operand),
        CondExpr::Binary { lhs, op, rhs } => 1 + esize(*lhs) + esize(*rhs),
    }
}

/// The width of an expression on one line: the arguments inline, single
/// spaces between them, and the operators' trailing comments.
pub open spec fn cond_width(args: Seq<FormattedArg>, e: CondExpr) -> int
    decreases e,
{
    match e {
        CondExpr::Atom(i) => inline_text(args[i as int]).len() + comment_len(args[i as int]),
        CondExpr::ParenGroup(i) => inline_text(args[i as int]).len() + comment_len(args[i as int]),
        CondExpr::Unary { op, operand } => text_bytes(args[op as int]).len() + 1 + cond_width(args, *operand)
            + comment_len(args[op as int]),
        CondExpr::Binary { lhs, op, rhs } => cond_width(args, *lhs) + 1 + text_bytes(args[op as int]).len() + 1
            + cond_width(args, *rhs) + comment_len(args[op as int]),
    }
}

proof fn lemma_cond_width_nonneg(args: Seq<FormattedArg>, e: CondExpr)
    ensures
        cond_width(args, e) >= 0,
    decreases e,
{
    match e {
        CondExpr::Unary { op, operand } => lemma_cond_width_nonneg(args, *operand),
        CondExpr::Binary { lhs, op, rhs } => {
            lemma_cond_width_nonneg(args, *lhs);
            lemma_cond_width_nonneg(args, *rhs);
        },
        _ => {},
    }
}

/// A trailing line comment (not a bracket comment) follows the argument.
pub open spec fn line_commented(a: FormattedArg) -> bool {
    a.trailing_comment is Some && !a.trailing_is_bracket
}

/// Some argument or operator of the expression has a trailing line comment.
pub open spec fn has_lc(args: Seq<FormattedArg>, e: CondExpr) -> bool
    decreases e,
{
    match e {
        CondExpr::Atom(i) => line_commented(args[i as int]),
        CondExpr::ParenGroup(i) => line_commented(args[i as int]),
        CondExpr::Unary { op, operand } => line_commented(args[op as int]) || has_lc(args, *operand),
        CondExpr::Binary { lhs, op, rhs } => has_lc(args, *lhs) || line_commented(args[op as int]) || has_lc(args, *rhs),
    }
}

/// Inside the group some argument is a comment or has a trailing line comment.
pub open spec fn paren_lc(a: FormattedArg) -> bool {
    exists|k: int| 0 <= k < a.paren_inner@.len()
        && (line_commented(#[trigger] a.paren_inner@[k]) || starts(text_bytes(a.paren_inner@[k]), 35u8))
}

fn arg_sat_width(a: &FormattedArg) -> (r: u64)
    ensures
        r == sat(inline_text(*a).len() + comment_len(*a)),
{
    let v = arg_inline_text(a);
    let w = v.len() as u64;
    match &a.trailing_comment {
        Some(c) => {
            let cb = c.as_str().as_bytes();
            proof {
                assert(cb@ == sbytes(*c));
            }
            let cl = cb.len() as u64;
            sadd(w, sadd(1, cl))
        },
        None => w,
    }
}

fn text_len(a: &FormattedArg) -> (r: u64)
    ensures
        r == text_bytes(*a).len(),
{
    let t = a.text.as_str().as_bytes();
    proof {
        assert(t@ == text_bytes(*a));
    }
    t.len() as u64
}

fn comment_sat_len(a: &FormattedArg) -> (r: u64)
    ensures
        r == sat(comment_len(*a)),
{
    match &a.trailing_comment {
        Some(c) => {
            let cb = c.as_str().as_bytes();
            proof {
                assert(cb@ == sbytes(*c));
            }
            let cl = cb.len() as u64;
            sadd(1, cl)
        },
        None => 0,
    }
}

/// See `cond_width`; held at the largest `u64`.
pub fn cond_expr_inline_width(args: &Vec<FormattedArg>, e: &CondExpr) -> (r: u64)
    requires
        expr_in(*e, 0, args@.len() as int),
    ensures
        r == sat(cond_width(args@, *e)),
    decreases *e,
{
    match e {
        CondExpr::Atom(i) => arg_sat_width(&args[*i]),
        CondExpr::ParenGroup(i) => arg_sat_width(&args[*i]),
        CondExpr::Unary { op, operand } => {
            let w = cond_expr_inline_width(args, operand);
            let o = &args[*op];
            proof {
                lemma_cond_width_nonneg(args@, **operand);
                lemma_sat_add(text_bytes(*o).len() + 1int, cond_width(args@, **operand));
                lemma_sat_add(text_bytes(*o).len() + 1 + cond_width(args@, **operand), comment_len(*o));
            }
            sadd(sadd(sadd(text_len(o), 1), w), comment_sat_len(o))
        },
        CondExpr::Binary { lhs, op, rhs } => {
            let wl = cond_expr_inline_width(args, lhs);
            let wr = cond_expr_inline_width(args, rhs);
            let o = &args[*op];
            proof {
                lemma_cond_width_nonneg(args@, **lhs);
                lemma_cond_width_nonneg(args@, **rhs);
                let a = cond_width(args@, **lhs) + 1 + text_bytes(*o).len() + 1;
                lemma_sat_add(cond_width(args@, **lhs), 1int + text_bytes(*o).len() + 1);
                lemma_sat_add(a, cond_width(args@, **rhs));
                lemma_sat_add(a + cond_width(args@, **rhs), comment_len(*o));
            }
            sadd(sadd(sadd(wl, sadd(sadd(1, text_len(o)), 1)), wr), comment_sat_len(o))
        },
    }
}

fn is_line_commented(a: &FormattedArg) -> (r: bool)
    ensures
        r == line_commented(*a),
{
    a.trailing_comment.is_some() && !a.trailing_is_bracket
}

/// See `has_lc`.
fn cond_expr_has_line_comment(args: &Vec<FormattedArg>, e: &CondExpr) -> (r: bool)
    requires
        expr_in(*e, 0, args@.len() as int),
    ensures
        r == has_lc(args@, *e),
    decreases *e,
{
    match e {
        CondExpr::Atom(i) => is_line_commented(&args[*i]),
        CondExpr::ParenGroup(i) => is_line_commented(&args[*i]),
        CondExpr::Unary { op, operand } => is_line_commented(&args[*op]) || cond_expr_has_line_comment(args, operand),
        CondExpr::Binary { lhs, op, rhs } => cond_expr_has_line_comment(args, lhs) || is_line_commented(&args[*op])
            || cond_expr_has_line_comment(args, rhs),
    }
}

/// See `paren_lc`.
pub fn has_line_comment_in_paren(a: &FormattedArg) -> (r: bool)
    ensures
        r == paren_lc(*a),
{
    let mut k: usize = 0;
    while k < a.paren_inner.len()
        invariant
            k <= a.paren_inner@.len(),
            forall|j: int| 0 <= j < k ==> !(line_commented(#[trigger] a.paren_inner@[j]) || starts(text_bytes(a.paren_inner@[j]), 35u8)),
        decreases a.paren_inner@.len() - k,
    {
        let inner = &a.paren_inner[k];
        let t = inner.text.as_str().as_bytes();
        proof {
            assert(t@ == text_bytes(*inner));
        }
        if is_line_commented(inner) || (t.len() > 0 && t[0] == 35u8) {
            return true;
        }
        k = k + 1;
    }
    false
}


// ---------------------------------------------------------------------------
// Items
// ---------------------------------------------------------------------------

/// An operator's text: in the keyword case when it is a keyword.
pub open spec fn op_text(a: FormattedArg, kc: CaseStyle) -> Seq<u8> {
    if a.is_keyword {
        cased(text_bytes(a), kc)
    } else {
        text_bytes(a)
    }
}

/// A trailing comment after a space, as raw text.
pub open spec fn raw_comment(a: FormattedArg) -> Seq<PrintModel> {
    match a.trailing_comment {
        Some(c) => seq![PrintModel::Space] + raw_items(sbytes(c)),
        None => seq![],
    }
}

/// Items on a new line, one level further in.
pub open spec fn sub_indented(s: Seq<PrintModel>) -> Seq<PrintModel> {
    seq![PrintModel::StartIndent, PrintModel::NewLine] + s + seq![PrintModel::FinishIndent]
}

/// An expression on one line: an argument inline (a keyword in the keyword
/// case), operators in their case, single spaces, trailing comments.
pub open spec fn inline_items(args: Seq<FormattedArg>, e: CondExpr, config: Configuration) -> Seq<PrintModel>
    decreases e,
{
    match e {
        CondExpr::Atom(i) => {
            let a = args[i as int];
            let t = inline_text(a);
            raw_items(if a.is_keyword { cased(t, config.keyword_case) } else { t }) + raw_comment(a)
        },
        CondExpr::ParenGroup(i) => raw_items(inline_text(args[i as int])) + raw_comment(args[i as int]),
        CondExpr::Unary { op, operand } => seq![PrintModel::Text(op_text(args[op as int], config.keyword_case))]
            + raw_comment(args[op as int]) + seq![PrintModel::Space] + inline_items(args, *operand, config),
        CondExpr::Binary { lhs, op, rhs } => inline_items(args, *lhs, config) + seq![
            PrintModel::Space,
            PrintModel::Text(op_text(args[op as int], config.keyword_case)),
        ] + raw_comment(args[op as int]) + seq![PrintModel::Space] + inline_items(args, *rhs, config),
    }
}

/// Standalone comments at positions `lo..hi`, each on a line of its own.
pub open spec fn comment_lines(args: Seq<FormattedArg>, lo: int, hi: int) -> Seq<PrintModel>
    decreases hi - lo,
{
    if lo >= hi {
        seq![]
    } else {
        seq![PrintModel::NewLine] + raw_items(text_bytes(args[lo])) + comment_lines(args, lo + 1, hi)
    }
}

/// An expression laid out from indentation `base`:
/// - an argument as a keyword argument;
/// - a group inline when it fits within the line width, holds no line break
///   and no comment; else its entries one per line, one level in, between
///   its parentheses;
/// - `OP x` on one line when it fits and no line comment forces a break;
///   else the operator, then `x` after a space when the operator is shorter
///   than the indent width and has no line comment, or on the next line one
///   level in;
/// - `a OP b` on one line when it fits and no line comment forces a break;
///   else `a`, then the operator and `b` on lines of their own, one level in.
pub open spec fn expr_items(args: Vec<FormattedArg>, e: CondExpr, config: Configuration, base: int) -> Seq<PrintModel>
    decreases args, 0int, esize(e),
{
    let s = args@;
    let lw = config.line_width as int;
    let kc = config.keyword_case;
    match e {
        CondExpr::Atom(i) => if i < s.len() {
            arg_items(s[i as int], Some(kc), config.literal_case)
        } else {
            seq![]
        },
        CondExpr::ParenGroup(i) => if i < s.len() {
            let a = s[i as int];
            let inl = inline_text(a);
            if base + inl.len() <= lw && !inl.contains(10u8) && !paren_lc(a) {
                raw_items(inl) + raw_comment(a)
            } else {
                seq![PrintModel::Text(seq![40u8]), PrintModel::StartIndent]
                    + list_items(a.paren_inner, parse_list(a.paren_inner@, 0), 0, config, sat(base + config.indent_width))
                    + seq![PrintModel::NewLine, PrintModel::FinishIndent, PrintModel::Text(seq![41u8])]
                    + raw_comment(a)
            }
        } else {
            seq![]
        },
        CondExpr::Unary { op, operand } => {
            let o = s[op as int];
            let ohc = line_commented(o);
            let head = seq![PrintModel::Text(op_text(o, kc))] + raw_comment(o);
            if base + text_bytes(o).len() + 1 + cond_width(s, *operand) <= lw && !has_lc(s, *operand) && !ohc {
                head + seq![PrintModel::Space] + inline_items(s, *operand, config)
            } else if !ohc && text_bytes(o).len() < config.indent_width {
                head + seq![PrintModel::Space] + expr_items(args, *operand, config, base)
            } else {
                head + sub_indented(expr_items(args, *operand, config, sat(base + config.indent_width)))
            }
        },
        CondExpr::Binary { lhs, op, rhs } => {
            let o = s[op as int];
            let ohc = line_commented(o);
            let w = cond_width(s, *lhs) + 1 + text_bytes(o).len() + 1 + cond_width(s, *rhs);
            if base + w <= lw && !has_lc(s, *lhs) && !has_lc(s, *rhs) && !ohc {
                inline_items(s, *lhs, config) + seq![PrintModel::Space, PrintModel::Text(op_text(o, kc))] + raw_comment(o)
                    + seq![PrintModel::Space] + inline_items(s, *rhs, config)
            } else {
                expr_items(args, *lhs, config, base) + seq![
                    PrintModel::StartIndent,
                    PrintModel::NewLine,
                    PrintModel::Text(op_text(o, kc)),
                ] + raw_comment(o) + seq![PrintModel::NewLine] + expr_items(args, *rhs, config, sat(base + config.indent_width))
                    + seq![PrintModel::FinishIndent]
            }
        },
    }
}

/// `AND expr` or `OR expr` from indentation `base`: on one line when it fits
/// and no comment forces a break; else the operator, the standalone
/// comments on lines of their own, and the expression after a space or,
/// when a comment came between, on the next line one level in.
pub open spec fn logical_items(args: Vec<FormattedArg>, op: int, cend: int, e: CondExpr, config: Configuration, base: int) -> Seq<PrintModel>
    decreases args, 1int, 0nat,
{
    let s = args@;
    let o = s[op];
    let ohc = line_commented(o);
    let inter = cend > op + 1;
    let head = seq![PrintModel::Text(op_text(o, config.keyword_case))] + raw_comment(o);
    if base + text_bytes(o).len() + 1 + cond_width(s, e) <= config.line_width && !has_lc(s, e) && !ohc && !inter {
        head + seq![PrintModel::Space] + inline_items(s, e, config)
    } else if ohc || inter {
        head + comment_lines(s, op + 1, cend) + sub_indented(expr_items(args, e, config, sat(base + config.indent_width)))
    } else {
        head + comment_lines(s, op + 1, cend) + seq![PrintModel::Space] + expr_items(args, e, config, base)
    }
}

/// The entries from `k` on, each on a new line.
pub open spec fn list_items(args: Vec<FormattedArg>, items: Seq<CondItem>, k: int, config: Configuration, base: int) -> Seq<PrintModel>
    decreases args, 2int, items.len() - k,
{
    if k < 0 || k >= items.len() {
        seq![]
    } else {
        seq![PrintModel::NewLine] + match items[k] {
            CondItem::Expr(e) => expr_items(args, e, config, base),
            CondItem::LogicalOp { op, comments_end, expr } => if op < args@.len() {
                logical_items(args, op as int, comments_end as int, expr, config, base)
            } else {
                seq![]
            },
            CondItem::Comment(i) => raw_items(text_bytes(args@[i as int])),
        } + list_items(args, items, k + 1, config, base)
    }
}

/// A condition over several lines: each entry on a line of its own, one
/// level in from the command (at `(indent_depth + 1)` indent widths), a line
/// break before the closing parenthesis when the configuration asks for one.
pub open spec fn condition_items(args: Vec<FormattedArg>, config: Configuration, indent_depth: int) -> Seq<PrintModel> {
    seq![PrintModel::StartIndent] + list_items(args, parse_list(args@, 0), 0, config, (indent_depth + 1) * config.indent_width)
        + (if config.closing_paren_newline { seq![PrintModel::NewLine] } else { seq![] }) + seq![PrintModel::FinishIndent]
}

fn push_model(items: &mut Vec<PrintItem>, p: PrintItem)
    ensures
        items_model(final(items)@) == items_model(old(items)@).push(item_model(p)),
{
    items.push(p);
    proof {
        assert(items_model(items@) =~= items_model(old(items)@).push(item_model(p)));
    }
}

fn case_vec(b: &[u8], style: CaseStyle) -> (r: Vec<u8>)
    ensures
        r@ == cased(b@, style),
{
    match style {
        CaseStyle::Lower => to_lower_vec(b),
        CaseStyle::Upper => to_upper_vec(b),
        CaseStyle::Preserve => vstd::slice::slice_to_vec(b),
    }
}

fn push_op_text(items: &mut Vec<PrintItem>, a: &FormattedArg, kc: CaseStyle)
    ensures
        items_model(final(items)@) == items_model(old(items)@).push(PrintModel::Text(op_text(*a, kc))),
{
    let t = a.text.as_str().as_bytes();
    proof {
        assert(t@ == text_bytes(*a));
    }
    let v = if a.is_keyword {
        case_vec(t, kc)
    } else {
        vstd::slice::slice_to_vec(t)
    };
    push_model(items, PrintItem::Text(v));
}

fn push_raw_comment(items: &mut Vec<PrintItem>, a: &FormattedArg)
    ensures
        items_model(final(items)@) == items_model(old(items)@) + raw_comment(*a),
{
    match &a.trailing_comment {
        Some(c) => {
            push_model(items, PrintItem::Space);
            let cb = c.as_str().as_bytes();
            proof {
                assert(cb@ == sbytes(*c));
            }
            gen_from_raw_string(items, cb);
        },
        None => {
            proof {
                assert(items_model(items@) =~= items_model(old(items)@) + seq![]);
            }
        },
    }
}

fn push_text_bytes(items: &mut Vec<PrintItem>, b: u8)
    ensures
        items_model(final(items)@) == items_model(old(items)@).push(PrintModel::Text(seq![b])),
{
    let v: Vec<u8> = vec![b];
    proof {
        assert(v@ =~= seq![b]);
    }
    push_model(items, PrintItem::Text(v));
}

/// See `inline_items`.
pub fn emit_cond_expr_inline(items: &mut Vec<PrintItem>, args: &Vec<FormattedArg>, e: &CondExpr, config: &Configuration)
    requires
        expr_in(*e, 0, args@.len() as int),
    ensures
        items_model(final(items)@) == items_model(old(items)@) + inline_items(args@, *e, *config),
    decreases *e,
{
    let ghost m0 = items_model(items@);
    match e {
        CondExpr::Atom(i) => {
            let a = &args[*i];
            let t = arg_inline_text(a);
            let t2 = if a.is_keyword {
                case_vec(t.as_slice(), config.keyword_case)
            } else {
                t
            };
            gen_from_raw_string(items, t2.as_slice());
            push_raw_comment(items, a);
        },
        CondExpr::ParenGroup(i) => {
            let a = &args[*i];
            let t = arg_inline_text(a);
            gen_from_raw_string(items, t.as_slice());
            push_raw_comment(items, a);
        },
        CondExpr::Unary { op, operand } => {
            let o = &args[*op];
            push_op_text(items, o, config.keyword_case);
            push_raw_comment(items, o);
            push_model(items, PrintItem::Space);
            emit_cond_expr_inline(items, args, operand, config);
        },
        CondExpr::Binary { lhs, op, rhs } => {
            let o = &args[*op];
            emit_cond_expr_inline(items, args, lhs, config);
            push_model(items, PrintItem::Space);
            push_op_text(items, o, config.keyword_case);
            push_raw_comment(items, o);
            push_model(items, PrintItem::Space);
            emit_cond_expr_inline(items, args, rhs, config);
        },
    }
    proof {
        assert(items_model(items@) =~= m0 + inline_items(args@, *e, *config));
    }
}

proof fn lemma_fits(base: int, w: int, lw: int)
    requires
        0 <= base,
        0 <= w,
        0 <= lw < u64::MAX,
    ensures
        (sat(base + sat(w)) <= lw) == (base + w <= lw),
{
}


fn has_newline(t: &[u8]) -> (r: bool)
    ensures
        r == t@.contains(10u8),
{
    let mut i: usize = 0;
    while i < t.len()
        invariant
            i <= t@.len(),
            forall|k: int| 0 <= k < i ==> t@[k] != 10u8,
        decreases t@.len() - i,
    {
        if t[i] == 10u8 {
            proof {
                assert(t@[i as int] == 10u8);
            }
            return true;
        }
        i = i + 1;
    }
    false
}

fn emit_comment_lines(items: &mut Vec<PrintItem>, args: &Vec<FormattedArg>, lo: usize, hi: usize)
    requires
        lo <= hi <= args@.len(),
    ensures
        items_model(final(items)@) == items_model(old(items)@) + comment_lines(args@, lo as int, hi as int),
{
    let ghost m0 = items_model(items@);
    let mut k: usize = lo;
    while k < hi
        invariant
            lo <= k <= hi <= args@.len(),
            items_model(items@) + comment_lines(args@, k as int, hi as int) == m0 + comment_lines(args@, lo as int, hi as int),
        decreases hi - k,
    {
        let ghost before = items_model(items@);
        push_model(items, PrintItem::NewLine);
        let t = args[k].text.as_str().as_bytes();
        proof {
            assert(t@ == text_bytes(args@[k as int]));
        }
        gen_from_raw_string(items, t);
        proof {
            assert(items_model(items@) + comment_lines(args@, k + 1, hi as int) =~= before + comment_lines(args@, k as int, hi as int));
        }
        k = k + 1;
    }
    proof {
        assert(items_model(items@) =~= items_model(items@) + comment_lines(args@, k as int, hi as int));
    }
}

/// Whether `OP x` fits on one line from `base` with no line comment forcing
/// a break.
fn unary_inline(args: &Vec<FormattedArg>, op: usize, operand: &CondExpr, config: &Configuration, base: u64) -> (r: bool)
    requires
        op < args@.len(),
        expr_in(*operand, 0, args@.len() as int),
    ensures
        r == (base + text_bytes(args@[op as int]).len() + 1 + cond_width(args@, *operand) <= config.line_width
            && !has_lc(args@, *operand) && !line_commented(args@[op as int])),
{
    let o = &args[op];
    let lw = config.line_width as u64;
    let w = sadd(sadd(text_len(o), 1), cond_expr_inline_width(args, operand));
    proof {
        lemma_cond_width_nonneg(args@, *operand);
        lemma_sat_add(text_bytes(*o).len() + 1int, cond_width(args@, *operand));
        lemma_fits(base as int, text_bytes(*o).len() + 1 + cond_width(args@, *operand), lw as int);
    }
    sadd(base, w) <= lw && !cond_expr_has_line_comment(args, operand) && !is_line_commented(o)
}

/// Whether `a OP b` fits on one line from `base` with no line comment
/// forcing a break.
fn binary_inline(args: &Vec<FormattedArg>, lhs: &CondExpr, op: usize, rhs: &CondExpr, config: &Configuration, base: u64) -> (r: bool)
    requires
        op < args@.len(),
        expr_in(*lhs, 0, args@.len() as int),
        expr_in(*rhs, 0, args@.len() as int),
    ensures
        r == (base + (cond_width(args@, *lhs) + 1 + text_bytes(args@[op as int]).len() + 1 + cond_width(args@, *rhs))
            <= config.line_width && !has_lc(args@, *lhs) && !has_lc(args@, *rhs) && !line_commented(args@[op as int])),
{
    let o = &args[op];
    let lw = config.line_width as u64;
    let w = sadd(sadd(cond_expr_inline_width(args, lhs), sadd(sadd(1, text_len(o)), 1)), cond_expr_inline_width(args, rhs));
    proof {
        lemma_cond_width_nonneg(args@, *lhs);
        lemma_cond_width_nonneg(args@, *rhs);
        let a = cond_width(args@, *lhs) + 1 + text_bytes(*o).len() + 1;
        lemma_sat_add(cond_width(args@, *lhs), 1int + text_bytes(*o).len() + 1);
        lemma_sat_add(a, cond_width(args@, *rhs));
        lemma_fits(base as int, a + cond_width(args@, *rhs), lw as int);
    }
    sadd(base, w) <= lw && !cond_expr_has_line_comment(args, lhs) && !cond_expr_has_line_comment(args, rhs)
        && !is_line_commented(o)
}

/// A group's inline text, and whether it stays inline from `base`.
fn paren_inline(a: &FormattedArg, config: &Configuration, base: u64) -> (r: (Vec<u8>, bool))
    ensures
        r.0@ == inline_text(*a),
        r.1 == (base + inline_text(*a).len() <= config.line_width && !inline_text(*a).contains(10u8) && !paren_lc(*a)),
{
    let lw = config.line_width as u64;
    let inl = arg_inline_text(a);
    proof {
        lemma_fits(base as int, inl@.len() as int, lw as int);
    }
    let fits = sadd(base, inl.len() as u64) <= lw && !has_newline(inl.as_slice()) && !has_line_comment_in_paren(a);
    (inl, fits)
}

/// See `expr_items`.
#[verifier::rlimit(60)]
pub fn emit_cond_expr(items: &mut Vec<PrintItem>, args: &Vec<FormattedArg>, e: &CondExpr, config: &Configuration, base: u64)
    requires
        expr_in(*e, 0, args@.len() as int),
    ensures
        items_model(final(items)@) == items_model(old(items)@) + expr_items(*args, *e, *config, base as int),
    decreases *args, 0int, esize(*e),
{
    let ghost m0 = items_model(items@);
    let iw = config.indent_width as u64;
    match e {
        CondExpr::Atom(i) => {
            emit_kw_arg(items, &args[*i], config);
        },
        CondExpr::ParenGroup(i) => {
            let a = &args[*i];
            let (inl, fits) = paren_inline(a, config, base);
            if fits {
                gen_from_raw_string(items, inl.as_slice());
                push_raw_comment(items, a);
            } else {
                push_text_bytes(items, 40u8);
                push_model(items, PrintItem::StartIndent);
                let list = parse_condition_items(&a.paren_inner);
                let _n = a.paren_inner.len();
                proof {
                    lemma_parse_list(a.paren_inner@, 0);
                    assert(decreases_to!(*args => args@));
                    assert(decreases_to!(args@ => args@[*i as int]));
                    assert(decreases_to!(args@[*i as int] => args@[*i as int].paren_inner));
                }
                emit_cond_list(items, &a.paren_inner, &list, config, sadd(base, iw));
                push_model(items, PrintItem::NewLine);
                push_model(items, PrintItem::FinishIndent);
                push_text_bytes(items, 41u8);
                push_raw_comment(items, a);
            }
        },
        CondExpr::Unary { op, operand } => {
            let o = &args[*op];
            let can_inline = unary_inline(args, *op, operand, config, base);
            push_op_text(items, o, config.keyword_case);
            push_raw_comment(items, o);
            if can_inline {
                push_model(items, PrintItem::Space);
                emit_cond_expr_inline(items, args, operand, config);
            } else if !is_line_commented(o) && text_len(o) < iw {
                push_model(items, PrintItem::Space);
                emit_cond_expr(items, args, operand, config, base);
            } else {
                push_model(items, PrintItem::StartIndent);
                push_model(items, PrintItem::NewLine);
                emit_cond_expr(items, args, operand, config, sadd(base, iw));
                push_model(items, PrintItem::FinishIndent);
            }
        },
        CondExpr::Binary { lhs, op, rhs } => {
            let o = &args[*op];
            if binary_inline(args, lhs, *op, rhs, config, base) {
                emit_cond_expr_inline(items, args, lhs, config);
                push_model(items, PrintItem::Space);
                push_op_text(items, o, config.keyword_case);
                push_raw_comment(items, o);
                push_model(items, PrintItem::Space);
                emit_cond_expr_inline(items, args, rhs, config);
            } else {
                emit_cond_expr(items, args, lhs, config, base);
                push_model(items, PrintItem::StartIndent);
                push_model(items, PrintItem::NewLine);
                push_op_text(items, o, config.keyword_case);
                push_raw_comment(items, o);
                push_model(items, PrintItem::NewLine);
                emit_cond_expr(items, args, rhs, config, sadd(base, iw));
                push_model(items, PrintItem::FinishIndent);
            }
        },
    }
    proof {
        assert(items_model(items@) =~= m0 + expr_items(*args, *e, *config, base as int));
    }
}

/// See `logical_items`.
#[verifier::rlimit(100)]
pub fn emit_cond_logical_op(
    items: &mut Vec<PrintItem>,
    args: &Vec<FormattedArg>,
    op: usize,
    comments_end: usize,
    e: &CondExpr,
    config: &Configuration,
    base: u64,
)
    requires
        op < comments_end <= args@.len(),
        expr_in(*e, 0, args@.len() as int),
    ensures
        items_model(final(items)@) == items_model(old(items)@) + logical_items(*args, op as int, comments_end as int, *e, *config, base as int),
    decreases *args, 1int, 0nat,
{
    let ghost m0 = items_model(items@);
    let iw = config.indent_width as u64;
    let o = &args[op];
    let ohc = is_line_commented(o);
    let inter = comments_end > op + 1;
    let can_inline = unary_inline(args, op, e, config, base) && !inter;
    push_op_text(items, o, config.keyword_case);
    push_raw_comment(items, o);
    if can_inline {
        push_model(items, PrintItem::Space);
        emit_cond_expr_inline(items, args, e, config);
    } else {
        emit_comment_lines(items, args, op + 1, comments_end);
        if ohc || inter {
            push_model(items, PrintItem::StartIndent);
            push_model(items, PrintItem::NewLine);
            emit_cond_expr(items, args, e, config, sadd(base, iw));
            push_model(items, PrintItem::FinishIndent);
        } else {
            push_model(items, PrintItem::Space);
            emit_cond_expr(items, args, e, config, base);
        }
    }
    proof {
        assert(items_model(items@) =~= m0 + logical_items(*args, op as int, comments_end as int, *e, *config, base as int));
    }
}

/// See `list_items`: the entries, each on a new line.
#[verifier::rlimit(100)]
pub fn emit_cond_list(items: &mut Vec<PrintItem>, args: &Vec<FormattedArg>, list: &Vec<CondItem>, config: &Configuration, base: u64)
    requires
        forall|k: int| 0 <= k < list@.len() ==> item_in(#[trigger] list@[k], args@.len() as int),
    ensures
        items_model(final(items)@) == items_model(old(items)@) + list_items(*args, list@, 0, *config, base as int),
    decreases *args, 2int, 0nat,
{
    let ghost m0 = items_model(items@);
    let mut k: usize = 0;
    while k < list.len()
        invariant
            k <= list@.len(),
            forall|q: int| 0 <= q < list@.len() ==> item_in(#[trigger] list@[q], args@.len() as int),
            items_model(items@) + list_items(*args, list@, k as int, *config, base as int) == m0 + list_items(*args, list@, 0, *config, base as int),
        decreases list@.len() - k,
    {
        let ghost before = items_model(items@);
        push_model(items, PrintItem::NewLine);
        proof {
            assert(item_in(list@[k as int], args@.len() as int));
        }
        match &list[k] {
            CondItem::Expr(e) => {
                emit_cond_expr(items, args, e, config, base);
            },
            CondItem::LogicalOp { op, comments_end, expr } => {
                emit_cond_logical_op(items, args, *op, *comments_end, expr, config, base);
            },
            CondItem::Comment(i) => {
                let t = args[*i].text.as_str().as_bytes();
                proof {
                    assert(t@ == text_bytes(args@[*i as int]));
                }
                gen_from_raw_string(items, t);
            },
        }
        proof {
            assert(items_model(items@) + list_items(*args, list@, k + 1, *config, base as int)
                =~= before + list_items(*args, list@, k as int, *config, base as int));
        }
        k = k + 1;
    }
    proof {
        assert(items_model(items@) =~= items_model(items@) + list_items(*args, list@, k as int, *config, base as int));
    }
}

/// See `condition_items`: `if`, `elseif` or `while` with its condition over
/// several lines.
#[verifier::rlimit(100)]
pub fn gen_condition_multi_line(_cmd_name: &str, args: &Vec<FormattedArg>, config: &Configuration, indent_depth: u32) -> (r: Vec<PrintItem>)
    ensures
        items_model(r@) == condition_items(*args, *config, indent_depth as int),
{
    let list = parse_condition_items(args);
    let _n = args.len();
    let d: u64 = indent_depth as u64 + 1;
    let w: u64 = config.indent_width as u64;
    proof {
        lemma_parse_list(args@, 0);
        assert(d * w <= 0x1_0000_0000 * 255) by (nonlinear_arith)
            requires
                d <= 0x1_0000_0000,
                w <= 255,
        ;
    }
    let base: u64 = d * w;
    let mut inner: Vec<PrintItem> = Vec::new();
    push_model(&mut inner, PrintItem::StartIndent);
    emit_cond_list(&mut inner, args, &list, config, base);
    if config.closing_paren_newline {
        push_model(&mut inner, PrintItem::NewLine);
    }
    push_model(&mut inner, PrintItem::FinishIndent);
    proof {
        assert(items_model(inner@) =~= condition_items(*args, *config, indent_depth as int));
    }
    inner
}


// ---------------------------------------------------------------------------
// Closers (`endif`, `endwhile`, `else`)
// ---------------------------------------------------------------------------

/// An argument of a closer as a token: its inline text, a keyword in the
/// keyword case, an unquoted literal (not a bracket argument or comment) in
/// the literal case.
pub open spec fn closer_token(a: FormattedArg, config: Configuration) -> Seq<u8> {
    let raw = inline_text(a);
    if a.is_keyword {
        cased(raw, config.keyword_case)
    } else if !a.is_bracket && !starts(raw, 34u8) && !starts(raw, 35u8) && names_hold(literal_list(), raw) {
        cased(raw, config.literal_case)
    } else {
        raw
    }
}

/// The tokens from `i` on, packed after a first one: each after a space
/// while it fits within the line width `lw`, else on a new line; an `AND`
/// or `OR` that does not fit with the token after it starts a new line with
/// that token. `cur` is the width of the current line, `base` the width a
/// new line starts at (both held at the largest `u64`).
pub open spec fn closer_scan(toks: Seq<Seq<u8>>, i: int, cur: int, base: int, lw: int) -> Seq<PrintModel>
    decreases toks.len() - i,
{
    if i < 0 || i >= toks.len() {
        seq![]
    } else {
        let t = toks[i];
        if logical_op(t) && i + 1 < toks.len() && cur + 1 + t.len() + 1 + toks[i + 1].len() > lw {
            seq![PrintModel::NewLine] + raw_items(t) + seq![PrintModel::Space] + raw_items(toks[i + 1])
                + closer_scan(toks, i + 2, sat(base + t.len() + 1 + toks[i + 1].len()), base, lw)
        } else if cur + 1 + t.len() > lw {
            seq![PrintModel::NewLine] + raw_items(t) + closer_scan(toks, i + 1, sat(base + t.len()), base, lw)
        } else {
            seq![PrintModel::Space] + raw_items(t) + closer_scan(toks, i + 1, sat(cur + 1 + t.len()), base, lw)
        }
    }
}

/// A closer's arguments over several lines, one level in from the command:
/// the tokens packed to the line width (see `closer_scan`), a line break
/// before the closing parenthesis when the configuration asks for one.
pub open spec fn closer_items(args: Seq<FormattedArg>, config: Configuration, indent_depth: int) -> Seq<PrintModel> {
    let toks = Seq::new(args.len(), |k: int| closer_token(args[k], config));
    let base = (indent_depth + 1) * config.indent_width;
    seq![PrintModel::StartIndent] + (if toks.len() > 0 {
        raw_items(toks[0]) + closer_scan(toks, 1, sat(base + toks[0].len()), base, config.line_width as int)
    } else {
        seq![]
    }) + (if config.closing_paren_newline { seq![PrintModel::NewLine] } else { seq![] }) + seq![PrintModel::FinishIndent]
}

fn closer_token_vec(a: &FormattedArg, config: &Configuration) -> (r: Vec<u8>)
    ensures
        r@ == closer_token(*a, *config),
{
    let raw = arg_inline_text(a);
    if a.is_keyword {
        case_vec(raw.as_slice(), config.keyword_case)
    } else if !a.is_bracket && !(raw.len() > 0 && raw[0] == 34u8) && !(raw.len() > 0 && raw[0] == 35u8)
        && any_name(&literal_tokens(), raw.as_slice()) {
        case_vec(raw.as_slice(), config.literal_case)
    } else {
        raw
    }
}

fn bytes_logical(t: &[u8]) -> (r: bool)
    ensures
        r == logical_op(t@),
{
    let v = vec!["AND", "OR"];
    proof {
        assert(v@ =~= seq!["AND", "OR"]);
    }
    any_name(&v, t)
}

/// See `closer_items`: `endif`, `endwhile` or `else` with arguments over
/// several lines.
#[verifier::rlimit(100)]
pub fn gen_condition_closer_multi_line(args: &Vec<FormattedArg>, config: &Configuration, indent_depth: u32) -> (r: Vec<PrintItem>)
    ensures
        items_model(r@) == closer_items(args@, *config, indent_depth as int),
{
    let ghost toks = Seq::new(args@.len(), |k: int| closer_token(args@[k], *config));
    let d: u64 = indent_depth as u64 + 1;
    let w: u64 = config.indent_width as u64;
    proof {
        assert(d * w <= 0x1_0000_0000 * 255) by (nonlinear_arith)
            requires
                d <= 0x1_0000_0000,
                w <= 255,
        ;
    }
    let base: u64 = d * w;
    let lw: u64 = config.line_width as u64;
    let mut tokens: Vec<Vec<u8>> = Vec::new();
    let mut k: usize = 0;
    while k < args.len()
        invariant
            k <= args@.len(),
            tokens@.len() == k,
            toks == Seq::new(args@.len(), |j: int| closer_token(args@[j], *config)),
            forall|q: int| 0 <= q < k ==> (#[trigger] tokens@[q])@ == toks[q],
        decreases args@.len() - k,
    {
        let t = closer_token_vec(&args[k], config);
        tokens.push(t);
        k = k + 1;
    }
    let mut inner: Vec<PrintItem> = Vec::new();
    push_model(&mut inner, PrintItem::StartIndent);
    let ghost m1 = items_model(inner@);
    if tokens.len() > 0 {
        gen_from_raw_string(&mut inner, tokens[0].as_slice());
        let ghost start = items_model(inner@);
        let mut cur: u64 = sadd(base, tokens[0].len() as u64);
        let mut i: usize = 1;
        while i < tokens.len()
            invariant
                1 <= i <= tokens@.len(),
                tokens@.len() == toks.len(),
                forall|q: int| 0 <= q < tokens@.len() ==> (#[trigger] tokens@[q])@ == toks[q],
                lw < u64::MAX,
                items_model(inner@) + closer_scan(toks, i as int, cur as int, base as int, lw as int)
                    == start + closer_scan(toks, 1, sat(base + toks[0].len()), base as int, lw as int),
            decreases tokens@.len() - i,
        {
            let ghost before = items_model(inner@);
            let ghost c0 = cur as int;
            let t = tokens[i].as_slice();
            let tl = t.len() as u64;
            let mut paired = false;
            if bytes_logical(t) && tokens.len() - i > 1 {
                let nx = tokens[i + 1].as_slice();
                let nl = nx.len() as u64;
                let needed = sadd(sadd(sadd(1, tl), 1), nl);
                proof {
                    lemma_fits(c0, 1 + tl + 1 + nl, lw as int);
                }
                if sadd(cur, needed) > lw {
                    push_model(&mut inner, PrintItem::NewLine);
                    gen_from_raw_string(&mut inner, t);
                    push_model(&mut inner, PrintItem::Space);
                    gen_from_raw_string(&mut inner, nx);
                    proof {
                        lemma_sat_add(base + tl + 1, nl as int);
                        lemma_sat_add(base + tl as int, 1);
                    }
                    cur = sadd(sadd(sadd(base, tl), 1), nl);
                    proof {
                        assert(items_model(inner@) + closer_scan(toks, i + 2, cur as int, base as int, lw as int)
                            =~= before + closer_scan(toks, i as int, c0, base as int, lw as int));
                    }
                    i = i + 2;
                    paired = true;
                }
            }
            if !paired {
                proof {
                    lemma_fits(c0, 1 + tl, lw as int);
                    lemma_sat_add(c0 + 1, tl as int);
                }
                if sadd(cur, sadd(1, tl)) > lw {
                    push_model(&mut inner, PrintItem::NewLine);
                    gen_from_raw_string(&mut inner, t);
                    cur = sadd(base, tl);
                } else {
                    push_model(&mut inner, PrintItem::Space);
                    gen_from_raw_string(&mut inner, t);
                    cur = sadd(sadd(cur, 1), tl);
                }
                proof {
                    assert(items_model(inner@) + closer_scan(toks, i + 1, cur as int, base as int, lw as int)
                        =~= before + closer_scan(toks, i as int, c0, base as int, lw as int));
                }
                i = i + 1;
            }
        }
        proof {
            assert(items_model(inner@) =~= items_model(inner@) + closer_scan(toks, i as int, cur as int, base as int, lw as int));
            assert(items_model(inner@) == m1 + raw_items(toks[0]) + closer_scan(toks, 1, sat(base + toks[0].len()), base as int, lw as int));
        }
    } else {
        proof {
            assert(items_model(inner@) =~= m1 + seq![]);
        }
    }
    let ghost m2 = items_model(inner@);
    if config.closing_paren_newline {
        push_model(&mut inner, PrintItem::NewLine);
    }
    push_model(&mut inner, PrintItem::FinishIndent);
    proof {
        assert(items_model(inner@) =~= closer_items(args@, *config, indent_depth as int));
    }
    inner
}


/// The binary operators of CMake's `if()` command: `IS_NEWER_THAN`,
/// `MATCHES`, the numeric, string, version and path comparisons, and
/// `IN_LIST` (in any ASCII case).
pub open spec fn cmake_binary_operator(t: Seq<u8>) -> bool {
    ||| ci_eq(t, "IS_NEWER_THAN".spec_bytes())
    ||| ci_eq(t, "MATCHES".spec_bytes())
    ||| ci_eq(t, "LESS".spec_bytes())
    ||| ci_eq(t, "GREATER".spec_bytes())
    ||| ci_eq(t, "EQUAL".spec_bytes())
    ||| ci_eq(t, "LESS_EQUAL".spec_bytes())
    ||| ci_eq(t, "GREATER_EQUAL".spec_bytes())
    ||| ci_eq(t, "STRLESS".spec_bytes())
    ||| ci_eq(t, "STRGREATER".spec_bytes())
    ||| ci_eq(t, "STREQUAL".spec_bytes())
    ||| ci_eq(t, "STRLESS_EQUAL".spec_bytes())
    ||| ci_eq(t, "STRGREATER_EQUAL".spec_bytes())
    ||| ci_eq(t, "VERSION_LESS".spec_bytes())
    ||| ci_eq(t, "VERSION_GREATER".spec_bytes())
    ||| ci_eq(t, "VERSION_EQUAL".spec_bytes())
    ||| ci_eq(t, "VERSION_LESS_EQUAL".spec_bytes())
    ||| ci_eq(t, "VERSION_GREATER_EQUAL".spec_bytes())
    ||| ci_eq(t, "IN_LIST".spec_bytes())
    ||| ci_eq(t, "PATH_EQUAL".spec_bytes())
}

proof fn lemma_binary_operator_listed(t: Seq<u8>)
    requires
        cmake_binary_operator(t),
    ensures
        names_hold(binary_op_list(), t),
{
    if ci_eq(t, "IS_NEWER_THAN".spec_bytes()) {
        assert(binary_op_list()[0] == "IS_NEWER_THAN");
        assert(ci_eq(binary_op_list()[0].spec_bytes(), t));
    }
    if ci_eq(t, "MATCHES".spec_bytes()) {
        assert(binary_op_list()[1] == "MATCHES");
        assert(ci_eq(binary_op_list()[1].spec_bytes(), t));
    }
    if ci_eq(t, "LESS".spec_bytes()) {
        assert(binary_op_list()[2] == "LESS");
        assert(ci_eq(binary_op_list()[2].spec_bytes(), t));
    }
    if ci_eq(t, "GREATER".spec_bytes()) {
        assert(binary_op_list()[3] == "GREATER");
        assert(ci_eq(binary_op_list()[3].spec_bytes(), t));
    }
    if ci_eq(t, "EQUAL".spec_bytes()) {
        assert(binary_op_list()[4] == "EQUAL");
        assert(ci_eq(binary_op_list()[4].spec_bytes(), t));
    }
    if ci_eq(t, "LESS_EQUAL".spec_bytes()) {
        assert(binary_op_list()[5] == "LESS_EQUAL");
        assert(ci_eq(binary_op_list()[5].spec_bytes(), t));
    }
    if ci_eq(t, "GREATER_EQUAL".spec_bytes()) {
        assert(binary_op_list()[6] == "GREATER_EQUAL");
        assert(ci_eq(binary_op_list()[6].spec_bytes(), t));
    }
    if ci_eq(t, "STRLESS".spec_bytes()) {
        assert(binary_op_list()[7] == "STRLESS");
        assert(ci_eq(binary_op_list()[7].spec_bytes(), t));
    }
    if ci_eq(t, "STRGREATER".spec_bytes()) {
        assert(binary_op_list()[8] == "STRGREATER");
        assert(ci_eq(binary_op_list()[8].spec_bytes(), t));
    }
    if ci_eq(t, "STREQUAL".spec_bytes()) {
        assert(binary_op_list()[9] == "STREQUAL");
        assert(ci_eq(binary_op_list()[9].spec_bytes(), t));
    }
    if ci_eq(t, "STRLESS_EQUAL".spec_bytes()) {
        assert(binary_op_list()[10] == "STRLESS_EQUAL");
        assert(ci_eq(binary_op_list()[10].spec_bytes(), t));
    }
    if ci_eq(t, "STRGREATER_EQUAL".spec_bytes()) {
        assert(binary_op_list()[11] == "STRGREATER_EQUAL");
        assert(ci_eq(binary_op_list()[11].spec_bytes(), t));
    }
    if ci_eq(t, "VERSION_LESS".spec_bytes()) {
        assert(binary_op_list()[12] == "VERSION_LESS");
        assert(ci_eq(binary_op_list()[12].spec_bytes(), t));
    }
    if ci_eq(t, "VERSION_GREATER".spec_bytes()) {
        assert(binary_op_list()[13] == "VERSION_GREATER");
        assert(ci_eq(binary_op_list()[13].spec_bytes(), t));
    }
    if ci_eq(t, "VERSION_EQUAL".spec_bytes()) {
        assert(binary_op_list()[14] == "VERSION_EQUAL");
        assert(ci_eq(binary_op_list()[14].spec_bytes(), t));
    }
    if ci_eq(t, "VERSION_LESS_EQUAL".spec_bytes()) {
        assert(binary_op_list()[15] == "VERSION_LESS_EQUAL");
        assert(ci_eq(binary_op_list()[15].spec_bytes(), t));
    }
    if ci_eq(t, "VERSION_GREATER_EQUAL".spec_bytes()) {
        assert(binary_op_list()[16] == "VERSION_GREATER_EQUAL");
        assert(ci_eq(binary_op_list()[16].spec_bytes(), t));
    }
    if ci_eq(t, "IN_LIST".spec_bytes()) {
        assert(binary_op_list()[17] == "IN_LIST");
        assert(ci_eq(binary_op_list()[17].spec_bytes(), t));
    }
    if ci_eq(t, "PATH_EQUAL".spec_bytes()) {
        assert(binary_op_list()[18] == "PATH_EQUAL");
        assert(ci_eq(binary_op_list()[18].spec_bytes(), t));
    }
}

/// Every binary operator of CMake conditions is recognised, and `a OP b`
/// (neither side a group, `a` not `NOT` nor a unary test) is read as one
/// binary expression of three arguments.
pub proof fn law_binary_operators(args: Seq<FormattedArg>, i: int)
    requires
        0 <= i,
        i + 3 <= args.len(),
        cmake_binary_operator(text_bytes(args[i + 1])),
        !args[i].is_paren_group,
        !args[i + 2].is_paren_group,
        !not_op(text_bytes(args[i])),
        !names_hold(unary_test_list(), text_bytes(args[i])),
    ensures
        names_hold(binary_op_list(), text_bytes(args[i + 1])),
        parse_one(args, i) == (
            CondExpr::Binary {
                lhs: Box::new(CondExpr::Atom(i as usize)),
                op: (i + 1) as usize,
                rhs: Box::new(CondExpr::Atom((i + 2) as usize)),
            },
            3int,
        ),
{
    lemma_binary_operator_listed(text_bytes(args[i + 1]));
}


/// The unary tests of CMake's `if()` command: `COMMAND`, `POLICY`,
/// `TARGET`, `TEST`, `EXISTS`, `IS_DIRECTORY`, `IS_SYMLINK`, `IS_ABSOLUTE`,
/// `DEFINED`, `IS_READABLE`, `IS_WRITABLE`, `IS_EXECUTABLE` (any ASCII case).
pub open spec fn cmake_unary_test(t: Seq<u8>) -> bool {
    ||| ci_eq(t, "COMMAND".spec_bytes())
    ||| ci_eq(t, "POLICY".spec_bytes())
    ||| ci_eq(t, "TARGET".spec_bytes())
    ||| ci_eq(t, "TEST".spec_bytes())
    ||| ci_eq(t, "EXISTS".spec_bytes())
    ||| ci_eq(t, "IS_DIRECTORY".spec_bytes())
    ||| ci_eq(t, "IS_SYMLINK".spec_bytes())
    ||| ci_eq(t, "IS_ABSOLUTE".spec_bytes())
    ||| ci_eq(t, "DEFINED".spec_bytes())
    ||| ci_eq(t, "IS_READABLE".spec_bytes())
    ||| ci_eq(t, "IS_WRITABLE".spec_bytes())
    ||| ci_eq(t, "IS_EXECUTABLE".spec_bytes())
}

proof fn lemma_unary_test_listed(t: Seq<u8>)
    requires
        cmake_unary_test(t),
    ensures
        names_hold(unary_test_list(), t),
{
    if ci_eq(t, "COMMAND".spec_bytes()) {
        assert(unary_test_list()[0] == "COMMAND");
        assert(ci_eq(unary_test_list()[0].spec_bytes(), t));
    }
    if ci_eq(t, "POLICY".spec_bytes()) {
        assert(unary_test_list()[1] == "POLICY");
        assert(ci_eq(unary_test_list()[1].spec_bytes(), t));
    }
    if ci_eq(t, "TARGET".spec_bytes()) {
        assert(unary_test_list()[2] == "TARGET");
        assert(ci_eq(unary_test_list()[2].spec_bytes(), t));
    }
    if ci_eq(t, "TEST".spec_bytes()) {
        assert(unary_test_list()[3] == "TEST");
        assert(ci_eq(unary_test_list()[3].spec_bytes(), t));
    }
    if ci_eq(t, "EXISTS".spec_bytes()) {
        assert(unary_test_list()[4] == "EXISTS");
        assert(ci_eq(unary_test_list()[4].spec_bytes(), t));
    }
    if ci_eq(t, "IS_DIRECTORY".spec_bytes()) {
        assert(unary_test_list()[5] == "IS_DIRECTORY");
        assert(ci_eq(unary_test_list()[5].spec_bytes(), t));
    }
    if ci_eq(t, "IS_SYMLINK".spec_bytes()) {
        assert(unary_test_list()[6] == "IS_SYMLINK");
        assert(ci_eq(unary_test_list()[6].spec_bytes(), t));
    }
    if ci_eq(t, "IS_ABSOLUTE".spec_bytes()) {
        assert(unary_test_list()[7] == "IS_ABSOLUTE");
        assert(ci_eq(unary_test_list()[7].spec_bytes(), t));
    }
    if ci_eq(t, "DEFINED".spec_bytes()) {
        assert(unary_test_list()[8] == "DEFINED");
        assert(ci_eq(unary_test_list()[8].spec_bytes(), t));
    }
    if ci_eq(t, "IS_READABLE".spec_bytes()) {
        assert(unary_test_list()[9] == "IS_READABLE");
        assert(ci_eq(unary_test_list()[9].spec_bytes(), t));
    }
    if ci_eq(t, "IS_WRITABLE".spec_bytes()) {
        assert(unary_test_list()[10] == "IS_WRITABLE");
        assert(ci_eq(unary_test_list()[10].spec_bytes(), t));
    }
    if ci_eq(t, "IS_EXECUTABLE".spec_bytes()) {
        assert(unary_test_list()[11] == "IS_EXECUTABLE");
        assert(ci_eq(unary_test_list()[11].spec_bytes(), t));
    }
}

/// Every unary test of CMake conditions takes the argument after it (unless
/// that is a group) as one expression of two arguments; `NOT` takes the
/// expression that follows it.
pub proof fn law_unary_operators(args: Seq<FormattedArg>, i: int)
    requires
        0 <= i,
        i + 2 <= args.len(),
    ensures
        cmake_unary_test(text_bytes(args[i])) && !not_op(text_bytes(args[i]))
            && !args[i + 1].is_paren_group ==> parse_one(args, i) == (
                CondExpr::Unary { op: i as usize, operand: Box::new(CondExpr::Atom((i + 1) as usize)) },
                2int,
            ),
        ci_eq(text_bytes(args[i]), "NOT".spec_bytes()) ==> parse_one(args, i) == (
            CondExpr::Unary { op: i as usize, operand: Box::new(parse_one(args, i + 1).0) },
            1 + parse_one(args, i + 1).1,
        ),
{
    if cmake_unary_test(text_bytes(args[i])) {
        lemma_unary_test_listed(text_bytes(args[i]));
    }
    if ci_eq(text_bytes(args[i]), "NOT".spec_bytes()) {
        assert(seq!["NOT"][0] == "NOT");
        assert(ci_eq(seq!["NOT"][0].spec_bytes(), text_bytes(args[i])));
    }
}

/// `AND` and `OR` (any ASCII case) join the expressions of a condition.
pub proof fn law_logical_operators(t: Seq<u8>)
    ensures
        ci_eq(t, "AND".spec_bytes()) || ci_eq(t, "OR".spec_bytes()) ==> logical_op(t),
{
    if ci_eq(t, "AND".spec_bytes()) {
        assert(seq!["AND", "OR"][0] == "AND");
        assert(ci_eq(seq!["AND", "OR"][0].spec_bytes(), t));
    }
    if ci_eq(t, "OR".spec_bytes()) {
        assert(seq!["AND", "OR"][1] == "OR");
        assert(ci_eq(seq!["AND", "OR"][1].spec_bytes(), t));
    }
}

} // verus!
