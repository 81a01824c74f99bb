//! Generator expressions read as trees: `$<NAME>`, `$<NAME:a,b>` and
//! `$<$<COND>:v1 v2>`, each possibly after plain text, with their inline text
//! and whether they stay on one line.
use vstd::prelude::*;

use crate::config::Configuration;
use crate::genex::{
    colon_d0, condition_values, find_depth0_colon, lemma_split_d0_len, split_at_depth0, split_condition_values, split_d0,
    trimmed_nonempty, values_of,
};
use crate::text::{back_ws, lemma_back_ws_bounds, lemma_skip_ws_bounds, skip_ws, trim, trim_end_seq, trim_seq, trim_start_seq};

verus! {

/// A generator expression, or text, read as a tree.
#[derive(Debug, PartialEq, Eq)]
pub enum GenexNode {
    /// Plain text with no generator expression.
    Text(Vec<u8>),
    /// `prefix$<NAME>`.
    SimpleGenex { prefix: Vec<u8>, name: Vec<u8> },
    /// `prefix$<NAME:child,child,...>`.
    NamedGenex { prefix: Vec<u8>, name: Vec<u8>, children: Vec<GenexNode> },
    /// `$<$<COND>:value value ...>`.
    ConditionGenex { condition: Box<GenexNode>, values: Vec<GenexNode> },
}

/// The value of a tree, its texts as bytes.
pub ghost enum GenexModel {
    Text(Seq<u8>),
    Simple { prefix: Seq<u8>, name: Seq<u8> },
    Named { prefix: Seq<u8>, name: Seq<u8>, children: Seq<GenexModel> },
    Condition { condition: Box<GenexModel>, values: Seq<GenexModel> },
}

pub open spec fn node_model(n: GenexNode) -> GenexModel
    decreases n, 0int,
{
    match n {
        GenexNode::Text(t) => GenexModel::Text(t@),
        GenexNode::SimpleGenex { prefix, name } => GenexModel::Simple { prefix: prefix@, name: name@ },
        GenexNode::NamedGenex { prefix, name, children } => GenexModel::Named {
            prefix: prefix@,
            name: name@,
            children: nodes_model(children, 0),
        },
        GenexNode::ConditionGenex { condition, values } => GenexModel::Condition {
            condition: Box::new(node_model(*condition)),
            values: nodes_model(values, 0),
        },
    }
}

pub open spec fn nodes_model(v: Vec<GenexNode>, i: int) -> Seq<GenexModel>
    decreases v, v@.len() - i,
{
    if i < 0 || i >= v@.len() {
        seq![]
    } else {
        seq![node_model(v@[i])] + nodes_model(v, i + 1)
    }
}

pub proof fn lemma_nodes_model(v: Vec<GenexNode>, i: int)
    requires
        0 <= i <= v@.len(),
    ensures
        nodes_model(v, i).len() == v@.len() - i,
        forall|k: int| 0 <= k < v@.len() - i ==> #[trigger] nodes_model(v, i)[k] == node_model(v@[i + k]),
    decreases v@.len() - i,
{
    if i < v@.len() {
        lemma_nodes_model(v, i + 1);
        assert forall|k: int| 0 <= k < v@.len() - i implies #[trigger] nodes_model(v, i)[k] == node_model(v@[i + k]) by {
            if k > 0 {
                assert(nodes_model(v, i)[k] == nodes_model(v, i + 1)[k - 1]);
            }
        }
    }
}

fn push_node(v: &mut Vec<GenexNode>, n: GenexNode)
    ensures
        nodes_model(*final(v), 0) == nodes_model(*old(v), 0).push(node_model(n)),
{
    let ghost before = *v;
    v.push(n);
    proof {
        lemma_nodes_model(before, 0);
        lemma_nodes_model(*v, 0);
        assert(nodes_model(*v, 0) =~= nodes_model(before, 0).push(node_model(n)));
    }
}

/// The first position from `k` on where `$<` starts.
pub open spec fn first_open(t: Seq<u8>, k: int) -> Option<int>
    decreases t.len() - k,
{
    if k < 0 || k + 1 >= t.len() {
        None
    } else if t[k] == 36u8 && t[k + 1] == 60u8 {
        Some(k)
    } else {
        first_open(t, k + 1)
    }
}

fn find_open(t: &[u8]) -> (r: Option<usize>)
    ensures
        match r {
            Some(p) => first_open(t@, 0) == Some(p as int) && p + 1 < t@.len(),
            None => first_open(t@, 0) is None,
        },
{
    let mut k: usize = 0;
    while t.len() > 0 && k < t.len() - 1
        invariant
            k <= t@.len(),
            first_open(t@, 0) == first_open(t@, k as int),
        decreases t@.len() - k,
    {
        if t[k] == 36u8 && t[k + 1] == 60u8 {
            return Some(k);
        }
        k = k + 1;
    }
    None
}

pub proof fn lemma_trim_len(s: Seq<u8>)
    ensures
        trim_seq(s).len() <= s.len(),
{
    lemma_skip_ws_bounds(s, 0);
    let t = trim_start_seq(s);
    lemma_back_ws_bounds(t, 0, t.len() as int);
}

proof fn lemma_trimmed_len(ps: Seq<Seq<u8>>, b: int)
    requires
        forall|k: int| 0 <= k < ps.len() ==> (#[trigger] ps[k]).len() <= b,
    ensures
        forall|k: int| 0 <= k < trimmed_nonempty(ps).len() ==> (#[trigger] trimmed_nonempty(ps)[k]).len() <= b,
    decreases ps.len(),
{
    if ps.len() > 0 {
        let init = ps.drop_last();
        assert forall|k: int| 0 <= k < init.len() implies (#[trigger] init[k]).len() <= b by {
            assert(init[k] == ps[k]);
        }
        lemma_trimmed_len(init, b);
        lemma_trim_len(ps.last());
        let r = trimmed_nonempty(ps);
        let a = trimmed_nonempty(init);
        assert forall|k: int| 0 <= k < r.len() implies (#[trigger] r[k]).len() <= b by {
            if k < a.len() {
                assert(r[k] == a[k]);
            }
        }
    }
}

proof fn lemma_values_len(parts: Seq<Seq<u8>>, b: int)
    requires
        0 <= b,
        forall|k: int| 0 <= k < parts.len() ==> (#[trigger] parts[k]).len() <= b,
    ensures
        forall|k: int| 0 <= k < values_of(parts).len() ==> (#[trigger] values_of(parts)[k]).len() <= b,
    decreases parts.len(),
{
    if parts.len() > 0 {
        let init = parts.drop_last();
        assert forall|k: int| 0 <= k < init.len() implies (#[trigger] init[k]).len() <= b by {
            assert(init[k] == parts[k]);
        }
        lemma_values_len(init, b);
        let p = parts.last();
        lemma_split_d0_len(p, 59u8, 0, 0, 0);
        let pieces = split_d0(p, 59u8, 0, 0, 0);
        assert forall|k: int| 0 <= k < pieces.len() implies (#[trigger] pieces[k]).len() <= b by {}
        lemma_trimmed_len(pieces, b);
        let r = values_of(parts);
        let a = values_of(init);
        let t = trimmed_nonempty(pieces);
        assert forall|k: int| 0 <= k < r.len() implies (#[trigger] r[k]).len() <= b by {
            if k < a.len() {
                assert(r[k] == a[k]);
            } else {
                assert(r[k] == t[k - a.len()]);
            }
        }
    }
}

/// A named expression's children: its text after the colon cut at commas
/// outside nested expressions, trimmed, empty ones left out.
pub open spec fn child_parts(after: Seq<u8>) -> Seq<Seq<u8>> {
    trimmed_nonempty(split_d0(after, 44u8, 0, 0, 0))
}

/// A text read as a tree: trimmed; plain text when it holds no `$<`; the
/// expression at its start; or the expression after a prefix, which a simple
/// or named expression keeps (any other reading leaves the whole text plain).
pub open spec fn parse_g(t0: Seq<u8>) -> GenexModel
    decreases t0.len(), 1int, 0int,
{
    let t = trim_seq(t0);
    proof {
        lemma_trim_len(t0);
    }
    match first_open(t, 0) {
        None => GenexModel::Text(t),
        Some(p) => if 0 <= p < t.len() {
            let node = parse_inner(t.subrange(p, t.len() as int));
            if p == 0 {
                node
            } else {
                match node {
                    GenexModel::Simple { prefix, name } => GenexModel::Simple { prefix: t.subrange(0, p), name },
                    GenexModel::Named { prefix, name, children } => GenexModel::Named {
                        prefix: t.subrange(0, p),
                        name,
                        children,
                    },
                    _ => GenexModel::Text(t),
                }
            }
        } else {
            GenexModel::Text(t)
        },
    }
}

/// A text that should be one expression, read as a tree: trimmed, it must
/// start with `$<` and end with `>` (else it is plain text); without a colon
/// outside nested expressions it is simple; with one, the part before it is
/// the condition when it starts with `$<` (the part after giving the values,
/// see `condition_values`), else the name (the part after giving the
/// children, see `child_parts`).
pub open spec fn parse_inner(t0: Seq<u8>) -> GenexModel
    decreases t0.len(), 0int, 0int,
{
    let t = trim_seq(t0);
    proof {
        lemma_trim_len(t0);
    }
    if !(t.len() >= 3 && t[0] == 36u8 && t[1] == 60u8 && t[t.len() - 1] == 62u8) {
        GenexModel::Text(t)
    } else {
        let inner = t.subrange(2, t.len() - 1);
        match colon_d0(inner, 0, 0) {
            None => GenexModel::Simple { prefix: seq![], name: trim_seq(inner) },
            Some(c) => if 0 <= c < inner.len() {
                let before = trim_seq(inner.subrange(0, c));
                let after = trim_seq(inner.subrange(c + 1, inner.len() as int));
                proof {
                    lemma_trim_len(inner.subrange(0, c));
                }
                if before.len() >= 2 && before[0] == 36u8 && before[1] == 60u8 {
                    GenexModel::Condition {
                        condition: Box::new(parse_g(before)),
                        values: parse_all(condition_values(after), 0, t0.len() - 1),
                    }
                } else {
                    GenexModel::Named { prefix: seq![], name: before, children: parse_all(child_parts(after), 0, t0.len() - 1) }
                }
            } else {
                GenexModel::Text(t)
            },
        }
    }
}

/// The parts from `k` on read as trees (each part no longer than `bound`).
pub open spec fn parse_all(parts: Seq<Seq<u8>>, k: int, bound: int) -> Seq<GenexModel>
    decreases bound, 2int, parts.len() - k,
{
    if k < 0 || k >= parts.len() || bound < 0 {
        seq![]
    } else {
        seq![if parts[k].len() <= bound { parse_g(parts[k]) } else { GenexModel::Text(parts[k]) }]
            + parse_all(parts, k + 1, bound)
    }
}


fn bytes_vec(t: &[u8]) -> (r: Vec<u8>)
    ensures
        r@ == t@,
{
    vstd::slice::slice_to_vec(t)
}

/// The pieces trimmed, the empty ones left out (see `trimmed_nonempty`).
fn trimmed_parts(pieces: &Vec<Vec<u8>>) -> (r: Vec<Vec<u8>>)
    ensures
        r@.map_values(|v: Vec<u8>| v@) == trimmed_nonempty(pieces@.map_values(|v: Vec<u8>| v@)),
{
    let ghost pm = pieces@.map_values(|v: Vec<u8>| v@);
    let mut out: Vec<Vec<u8>> = Vec::new();
    let mut k: usize = 0;
    proof {
        assert(trimmed_nonempty(pm.take(0)) =~= Seq::<Seq<u8>>::empty());
        assert(out@.map_values(|v: Vec<u8>| v@) =~= Seq::<Seq<u8>>::empty());
    }
    while k < pieces.len()
        invariant
            k <= pieces@.len(),
            pm == pieces@.map_values(|v: Vec<u8>| v@),
            out@.map_values(|v: Vec<u8>| v@) == trimmed_nonempty(pm.take(k as int)),
        decreases pieces@.len() - k,
    {
        let t = trim(pieces[k].as_slice());
        let ghost before = out@.map_values(|v: Vec<u8>| v@);
        proof {
            assert(pm[k as int] == pieces@[k as int]@);
            assert(pm.take(k + 1).drop_last() =~= pm.take(k as int));
            assert(pm.take(k + 1).last() == pm[k as int]);
        }
        if t.len() > 0 {
            out.push(bytes_vec(t));
            proof {
                assert(out@.map_values(|v: Vec<u8>| v@) =~= before.push(t@));
            }
        } else {
            proof {
                assert(trimmed_nonempty(pm.take(k + 1)) =~= before);
            }
        }
        k = k + 1;
    }
    proof {
        assert(pm.take(pieces@.len() as int) =~= pm);
    }
    out
}

/// See `parse_all`.
fn parse_parts(parts: &Vec<Vec<u8>>, bound: usize) -> (r: Vec<GenexNode>)
    requires
        forall|k: int| 0 <= k < parts@.len() ==> (#[trigger] parts@[k])@.len() <= bound,
    ensures
        nodes_model(r, 0) == parse_all(parts@.map_values(|v: Vec<u8>| v@), 0, bound as int),
    decreases bound, 2int, 0int,
{
    let ghost pm = parts@.map_values(|v: Vec<u8>| v@);
    let ghost target = parse_all(pm, 0, bound as int);
    let mut out: Vec<GenexNode> = Vec::new();
    let mut k: usize = 0;
    proof {
        assert(nodes_model(out, 0) =~= seq![]);
    }
    while k < parts.len()
        invariant
            k <= parts@.len() == pm.len(),
            pm == parts@.map_values(|v: Vec<u8>| v@),
            forall|q: int| 0 <= q < parts@.len() ==> (#[trigger] parts@[q])@.len() <= bound,
            nodes_model(out, 0) + parse_all(pm, k as int, bound as int) == target,
        decreases parts@.len() - k,
    {
        proof {
            assert(pm[k as int] == parts@[k as int]@);
            assert(parts@[k as int]@.len() <= bound);
        }
        let n = parse_genex(parts[k].as_slice());
        let ghost before = nodes_model(out, 0);
        push_node(&mut out, n);
        proof {
            assert(nodes_model(out, 0) + parse_all(pm, k + 1, bound as int) =~= before + parse_all(pm, k as int, bound as int));
        }
        k = k + 1;
    }
    proof {
        assert(nodes_model(out, 0) =~= nodes_model(out, 0) + parse_all(pm, k as int, bound as int));
    }
    out
}

/// See `parse_g`: a text read as a generator-expression tree.
pub fn parse_genex(text: &[u8]) -> (r: GenexNode)
    ensures
        node_model(r) == parse_g(text@),
    decreases text@.len(), 1int, 0int,
{
    proof {
        lemma_trim_len(text@);
    }
    let t = trim(text);
    match find_open(t) {
        None => GenexNode::Text(bytes_vec(t)),
        Some(p) => {
            let rest = vstd::slice::slice_subrange(t, p, t.len());
            let node = parse_genex_inner(rest);
            if p == 0 {
                proof {
                    assert(rest@ =~= t@.subrange(0, t@.len() as int));
                }
                node
            } else {
                let prefix = bytes_vec(vstd::slice::slice_subrange(t, 0, p));
                match node {
                    GenexNode::SimpleGenex { prefix: _, name } => GenexNode::SimpleGenex { prefix, name },
                    GenexNode::NamedGenex { prefix: _, name, children } => GenexNode::NamedGenex { prefix, name, children },
                    _ => GenexNode::Text(bytes_vec(t)),
                }
            }
        },
    }
}

/// See `parse_inner`: a text that should be one generator expression, read
/// as a tree.
#[verifier::rlimit(100)]
pub fn parse_genex_inner(text: &[u8]) -> (r: GenexNode)
    ensures
        node_model(r) == parse_inner(text@),
    decreases text@.len(), 0int, 0int,
{
    proof {
        lemma_trim_len(text@);
    }
    let t = trim(text);
    let n = t.len();
    if !(n >= 3 && t[0] == 36u8 && t[1] == 60u8 && t[n - 1] == 62u8) {
        return GenexNode::Text(bytes_vec(t));
    }
    let inner = vstd::slice::slice_subrange(t, 2, n - 1);
    match find_depth0_colon(inner) {
        None => GenexNode::SimpleGenex { prefix: Vec::new(), name: bytes_vec(trim(inner)) },
        Some(c) => {
            proof {
                crate::genex::lemma_colon_d0(inner@, 0, 0);
            }
            let b0 = vstd::slice::slice_subrange(inner, 0, c);
            let before = trim(b0);
            let after = trim(vstd::slice::slice_subrange(inner, c + 1, inner.len()));
            proof {
                lemma_trim_len(b0@);
                lemma_trim_len(inner@.subrange(c + 1, inner@.len() as int));
            }
            if before.len() >= 2 && before[0] == 36u8 && before[1] == 60u8 {
                let cond = parse_genex(before);
                let vals = split_condition_values(after);
                proof {
                    lemma_split_d0_len(after@, 32u8, 0, 0, 0);
                    let ps = split_d0(after@, 32u8, 0, 0, 0);
                    assert forall|k: int| 0 <= k < ps.len() implies (#[trigger] ps[k]).len() <= after@.len() by {}
                    lemma_values_len(ps, after@.len() as int);
                    let vm = vals@.map_values(|v: Vec<u8>| v@);
                    assert forall|k: int| 0 <= k < vals@.len() implies (#[trigger] vals@[k])@.len() <= (text@.len() - 1) by {
                        assert(vm[k] == vals@[k]@);
                    }
                }
                let values = parse_parts(&vals, text.len() - 1);
                GenexNode::ConditionGenex { condition: Box::new(cond), values }
            } else {
                let pieces = split_at_depth0(after, 44u8);
                let parts = trimmed_parts(&pieces);
                proof {
                    lemma_split_d0_len(after@, 44u8, 0, 0, 0);
                    let ps = split_d0(after@, 44u8, 0, 0, 0);
                    assert forall|k: int| 0 <= k < ps.len() implies (#[trigger] ps[k]).len() <= after@.len() by {}
                    lemma_trimmed_len(ps, after@.len() as int);
                    let vm = parts@.map_values(|v: Vec<u8>| v@);
                    assert forall|k: int| 0 <= k < parts@.len() implies (#[trigger] parts@[k])@.len() <= (text@.len() - 1) by {
                        assert(vm[k] == parts@[k]@);
                    }
                }
                let children = parse_parts(&parts, text.len() - 1);
                GenexNode::NamedGenex { prefix: Vec::new(), name: bytes_vec(before), children }
            }
        },
    }
}


// ---------------------------------------------------------------------------
// Inline text and layout choices
// ---------------------------------------------------------------------------

/// A tree's text on one line: `prefix$<NAME>`, `prefix$<NAME:c1,c2>`,
/// `$<COND:v1;v2>`, or the plain text.
pub open spec fn genex_text(n: GenexModel) -> Seq<u8>
    decreases n, 0int,
{
    match n {
        GenexModel::Text(t) => t,
        GenexModel::Simple { prefix, name } => prefix + seq![36u8, 60u8] + name + seq![62u8],
        GenexModel::Named { prefix, name, children } => prefix + seq![36u8, 60u8] + name + seq![58u8] + joined_texts(children, 0, 44u8)
            + seq![62u8],
        GenexModel::Condition { condition, values } => seq![36u8, 60u8] + genex_text(*condition) + seq![58u8]
            + joined_texts(values, 0, 59u8) + seq![62u8],
    }
}

/// The texts of the trees from `k` on, separated by `sep`.
pub open spec fn joined_texts(v: Seq<GenexModel>, k: int, sep: u8) -> Seq<u8>
    decreases v, v.len() - k,
{
    if k < 0 || k >= v.len() {
        seq![]
    } else if k + 1 == v.len() {
        genex_text(v[k])
    } else {
        genex_text(v[k]) + seq![sep] + joined_texts(v, k + 1, sep)
    }
}

fn push_bytes(out: &mut Vec<u8>, t: &[u8])
    ensures
        final(out)@ == old(out)@ + t@,
{
    let ghost o = out@;
    let mut k: usize = 0;
    while k < t.len()
        invariant
            k <= t@.len(),
            out@ == o + t@.subrange(0, k as int),
        decreases t@.len() - k,
    {
        out.push(t[k]);
        k = k + 1;
        proof {
            assert(out@ =~= o + t@.subrange(0, k as int));
        }
    }
    proof {
        assert(t@.subrange(0, t@.len() as int) =~= t@);
    }
}

fn push_genex_text(out: &mut Vec<u8>, n: &GenexNode)
    ensures
        final(out)@ == old(out)@ + genex_text(node_model(*n)),
    decreases *n, 0int,
{
    let ghost o = out@;
    match n {
        GenexNode::Text(t) => push_bytes(out, t.as_slice()),
        GenexNode::SimpleGenex { prefix, name } => {
            push_bytes(out, prefix.as_slice());
            out.push(36u8);
            out.push(60u8);
            push_bytes(out, name.as_slice());
            out.push(62u8);
        },
        GenexNode::NamedGenex { prefix, name, children } => {
            push_bytes(out, prefix.as_slice());
            out.push(36u8);
            out.push(60u8);
            push_bytes(out, name.as_slice());
            out.push(58u8);
            proof {
                lemma_nodes_model(*children, 0);
            }
            push_joined_texts(out, children, 0, 44u8);
            out.push(62u8);
        },
        GenexNode::ConditionGenex { condition, values } => {
            out.push(36u8);
            out.push(60u8);
            push_genex_text(out, condition);
            out.push(58u8);
            proof {
                lemma_nodes_model(*values, 0);
            }
            push_joined_texts(out, values, 0, 59u8);
            out.push(62u8);
        },
    }
    proof {
        assert(out@ =~= o + genex_text(node_model(*n)));
    }
}

fn push_joined_texts(out: &mut Vec<u8>, v: &Vec<GenexNode>, k: usize, sep: u8)
    requires
        k <= v@.len(),
    ensures
        final(out)@ == old(out)@ + joined_texts(nodes_model(*v, 0), k as int, sep),
    decreases *v, v@.len() - k,
{
    proof {
        lemma_nodes_model(*v, 0);
    }
    let ghost m = nodes_model(*v, 0);
    if k >= v.len() {
        proof {
            assert(out@ =~= old(out)@ + joined_texts(m, k as int, sep));
        }
    } else {
        proof {
            assert(m[k as int] == node_model(v@[0 + k]));
            assert(decreases_to!(*v => v@));
            assert(decreases_to!(v@ => v@[k as int]));
        }
        push_genex_text(out, &v[k]);
        if k + 1 < v.len() {
            out.push(sep);
            push_joined_texts(out, v, k + 1, sep);
        }
        proof {
            assert(out@ =~= old(out)@ + joined_texts(m, k as int, sep));
        }
    }
}

/// See `genex_text`.
pub fn genex_inline_text(n: &GenexNode) -> (r: Vec<u8>)
    ensures
        r@ == genex_text(node_model(*n)),
{
    let mut out: Vec<u8> = Vec::new();
    push_genex_text(&mut out, n);
    proof {
        assert(out@ =~= genex_text(node_model(*n)));
    }
    out
}

/// Plain text and simple expressions stay on one line, and so does a named
/// expression with a single child that is plain text or simple.
pub open spec fn inline_node(n: GenexModel) -> bool {
    match n {
        GenexModel::Text(_) => true,
        GenexModel::Simple { .. } => true,
        GenexModel::Named { children, .. } => children.len() == 1 && (children[0] is Text || children[0] is Simple),
        GenexModel::Condition { .. } => false,
    }
}

/// See `inline_node`.
pub fn genex_is_inline(n: &GenexNode) -> (r: bool)
    ensures
        r == inline_node(node_model(*n)),
{
    match n {
        GenexNode::Text(_) => true,
        GenexNode::SimpleGenex { .. } => true,
        GenexNode::NamedGenex { children, .. } => {
            proof {
                lemma_nodes_model(*children, 0);
            }
            children.len() == 1 && match &children[0] {
                GenexNode::Text(_) => true,
                GenexNode::SimpleGenex { .. } => true,
                _ => false,
            }
        },
        GenexNode::ConditionGenex { .. } => false,
    }
}

/// A condition `OR`, `AND` or `NOT` (any ASCII case) whose children all
/// stay on one line closes on the line of its last child.
pub open spec fn compact_close(n: GenexModel) -> bool {
    match n {
        GenexModel::Named { name, children, .. } => crate::arg_groups::names_hold(seq!["OR", "AND", "NOT"], name)
            && children.len() > 0 && forall|k: int| 0 <= k < children.len() ==> inline_node(#[trigger] children[k]),
        _ => false,
    }
}

/// See `compact_close`.
pub fn condition_genex_prefers_compact_close(n: &GenexNode) -> (r: bool)
    ensures
        r == compact_close(node_model(*n)),
{
    match n {
        GenexNode::NamedGenex { name, children, .. } => {
            let ops = vec!["OR", "AND", "NOT"];
            proof {
                assert(ops@ =~= seq!["OR", "AND", "NOT"]);
                lemma_nodes_model(*children, 0);
            }
            if !crate::arg_groups::any_name(&ops, name.as_slice()) || children.len() == 0 {
                return false;
            }
            let mut k: usize = 0;
            proof {
                assert(compact_close(node_model(*n)) == (forall|q: int| 0 <= q < nodes_model(*children, 0).len() ==> inline_node(#[trigger] nodes_model(*children, 0)[q])));
            }
            while k < children.len()
                invariant
                    k <= children@.len(),
                    nodes_model(*children, 0).len() == children@.len(),
                    compact_close(node_model(*n)) == (forall|q: int| 0 <= q < nodes_model(*children, 0).len() ==> inline_node(#[trigger] nodes_model(*children, 0)[q])),
                    forall|q: int| 0 <= q < children@.len() ==> #[trigger] nodes_model(*children, 0)[q] == node_model(children@[0 + q]),
                    forall|q: int| 0 <= q < k ==> inline_node(#[trigger] nodes_model(*children, 0)[q]),
                decreases children@.len() - k,
            {
                if !genex_is_inline(&children[k]) {
                    proof {
                        assert(nodes_model(*children, 0)[k as int] == node_model(children@[0 + k]));
                    }
                    return false;
                }
                proof {
                    assert(nodes_model(*children, 0)[k as int] == node_model(children@[0 + k]));
                }
                k = k + 1;
            }
            true
        },
        _ => false,
    }
}

/// A conditional expression stays on one line when, from `extra_indent`, its
/// text and the suffix after it fit within the line width.
pub open spec fn condition_inline(n: GenexModel, extra_indent: int, suffix_len: int, config: Configuration) -> bool {
    extra_indent + genex_text(n).len() + suffix_len <= config.line_width
}

/// See `condition_inline`.
pub fn condition_genex_should_inline(n: &GenexNode, extra_indent: usize, close_suffix: &[u8], config: &Configuration) -> (r: bool)
    ensures
        r == condition_inline(node_model(*n), extra_indent as int, close_suffix@.len() as int, *config),
{
    let t = genex_inline_text(n);
    let lw = config.line_width as u64;
    let e = extra_indent as u64;
    let a = e.saturating_add(t.len() as u64);
    let total = a.saturating_add(close_suffix.len() as u64);
    total <= lw
}

} // verus!
