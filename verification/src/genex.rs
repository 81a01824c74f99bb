//! Generator expressions (`$<...>`) in argument text: depth-aware scanning,
//! splitting, and the tree of a generator expression.
use vstd::prelude::*;
use vstd::string::StringSliceAdditionalSpecFns;

use crate::text::{trim, trim_seq};
use crate::arg_groups::{text_bytes, FormattedArg};

verus! {

/// Where scanning moves from `i`: past `$<`, else one byte.
pub open spec fn next_pos(s: Seq<u8>, i: int) -> int {
    if i + 1 < s.len() && s[i] == 36u8 && s[i + 1] == 60u8 {
        i + 2
    } else {
        i + 1
    }
}

/// The depth change of the token at `i`: `$<` opens, `>` closes.
pub open spec fn depth_step(s: Seq<u8>, i: int) -> int {
    if i + 1 < s.len() && s[i] == 36u8 && s[i + 1] == 60u8 {
        1
    } else if s[i] == 62u8 {
        -1
    } else {
        0
    }
}

/// The depth change over `s[i..]`.
pub open spec fn delta_from(s: Seq<u8>, i: int) -> int
    decreases s.len() - i,
{
    if i < 0 || i >= s.len() {
        0
    } else {
        depth_step(s, i) + delta_from(s, next_pos(s, i))
    }
}

proof fn lemma_delta_bounds(s: Seq<u8>, i: int)
    requires
        0 <= i <= s.len(),
    ensures
        -(s.len() - i) <= delta_from(s, i) <= s.len() - i,
    decreases s.len() - i,
{
    if i < s.len() {
        lemma_delta_bounds(s, next_pos(s, i));
    }
}

/// How many generator expressions the text opens and leaves open (negative
/// when it closes more than it opens).
pub fn genex_depth_delta(text: &[u8]) -> (r: i128)
    requires
    ensures
        r == delta_from(text@, 0),
{
    let mut depth: i128 = 0;
    let mut i: usize = 0;
    proof {
        lemma_delta_bounds(text@, 0);
    }
    while i < text.len()
        invariant
            i <= text@.len(),
            depth + delta_from(text@, i as int) == delta_from(text@, 0),
            -(i as int) <= depth <= i,
        decreases text@.len() - i,
    {
        if i + 1 < text.len() && text[i] == 36u8 && text[i + 1] == 60u8 {
            depth = depth + 1;
            i = i + 2;
        } else if text[i] == 62u8 {
            depth = depth - 1;
            i = i + 1;
        } else {
            i = i + 1;
        }
    }
    depth
}

/// `s` cut at each `sep` byte met at depth 0, scanning from `i` at `depth`
/// with the current piece starting at `start`.
pub open spec fn split_d0(s: Seq<u8>, sep: u8, i: int, depth: int, start: int) -> Seq<Seq<u8>>
    decreases s.len() - i,
{
    if i < 0 || i >= s.len() {
        seq![s.subrange(start, s.len() as int)]
    } else if i + 1 < s.len() && s[i] == 36u8 && s[i + 1] == 60u8 {
        split_d0(s, sep, i + 2, depth + 1, start)
    } else if s[i] == 62u8 {
        split_d0(s, sep, i + 1, depth - 1, start)
    } else if s[i] == sep && depth == 0 {
        seq![s.subrange(start, i)] + split_d0(s, sep, i + 1, depth, i + 1)
    } else {
        split_d0(s, sep, i + 1, depth, start)
    }
}

/// The text cut at each `sep` outside generator expressions.
pub fn split_at_depth0(text: &[u8], sep: u8) -> (r: Vec<Vec<u8>>)
    requires
    ensures
        r@.map_values(|v: Vec<u8>| v@) == split_d0(text@, sep, 0, 0, 0),
{
    let mut result: Vec<Vec<u8>> = Vec::new();
    let mut depth: i128 = 0;
    let mut start: usize = 0;
    let mut i: usize = 0;
    let ghost total = split_d0(text@, sep, 0, 0, 0);
    proof {
        assert(result@.map_values(|v: Vec<u8>| v@) =~= Seq::<Seq<u8>>::empty());
    }
    while i < text.len()
        invariant
            start <= i <= text@.len(),
            -(i as int) <= depth <= i,
            result@.map_values(|v: Vec<u8>| v@) + split_d0(text@, sep, i as int, depth as int, start as int) == total,
        decreases text@.len() - i,
    {
        if i + 1 < text.len() && text[i] == 36u8 && text[i + 1] == 60u8 {
            depth = depth + 1;
            i = i + 2;
        } else if text[i] == 62u8 {
            depth = depth - 1;
            i = i + 1;
        } else if text[i] == sep && depth == 0 {
            let ghost o = result@.map_values(|v: Vec<u8>| v@);
            let piece = crate::layout::slice_vec(text, start, i);
            result.push(piece);
            proof {
                assert(result@.map_values(|v: Vec<u8>| v@) =~= o.push(text@.subrange(start as int, i as int)));
                assert(o + split_d0(text@, sep, i as int, depth as int, start as int) =~= result@.map_values(|v: Vec<u8>| v@) + split_d0(text@, sep, i + 1, depth as int, i + 1));
            }
            start = i + 1;
            i = i + 1;
        } else {
            i = i + 1;
        }
    }
    let ghost o = result@.map_values(|v: Vec<u8>| v@);
    let piece = crate::layout::slice_vec(text, start, text.len());
    result.push(piece);
    proof {
        assert(result@.map_values(|v: Vec<u8>| v@) =~= o.push(text@.subrange(start as int, text@.len() as int)));
        assert(result@.map_values(|v: Vec<u8>| v@) =~= total);
    }
    result
}

/// The first `:` outside generator expressions, scanning from `i` at `depth`.
pub open spec fn colon_d0(s: Seq<u8>, i: int, depth: int) -> Option<int>
    decreases s.len() - i,
{
    if i < 0 || i >= s.len() {
        None
    } else if i + 1 < s.len() && s[i] == 36u8 && s[i + 1] == 60u8 {
        colon_d0(s, i + 2, depth + 1)
    } else if s[i] == 62u8 {
        colon_d0(s, i + 1, depth - 1)
    } else if s[i] == 58u8 && depth == 0 {
        Some(i)
    } else {
        colon_d0(s, i + 1, depth)
    }
}

pub(crate) proof fn lemma_colon_d0(s: Seq<u8>, i: int, depth: int)
    requires
        0 <= i,
    ensures
        colon_d0(s, i, depth) matches Some(k) ==> i <= k < s.len() && s[k] == 58u8,
    decreases s.len() - i,
{
    if 0 <= i < s.len() {
        if i + 1 < s.len() && s[i] == 36u8 && s[i + 1] == 60u8 {
            lemma_colon_d0(s, i + 2, depth + 1);
        } else if s[i] == 62u8 {
            lemma_colon_d0(s, i + 1, depth - 1);
        } else if !(s[i] == 58u8 && depth == 0) {
            lemma_colon_d0(s, i + 1, depth);
        }
    }
}

/// The first `:` outside generator expressions.
pub fn find_depth0_colon(text: &[u8]) -> (r: Option<usize>)
    requires
    ensures
        match r {
            Some(k) => colon_d0(text@, 0, 0) == Some(k as int),
            None => colon_d0(text@, 0, 0) is None,
        },
{
    let mut depth: i128 = 0;
    let mut i: usize = 0;
    while i < text.len()
        invariant
            i <= text@.len(),
            -(i as int) <= depth <= i,
            colon_d0(text@, i as int, depth as int) == colon_d0(text@, 0, 0),
        decreases text@.len() - i,
    {
        if i + 1 < text.len() && text[i] == 36u8 && text[i + 1] == 60u8 {
            depth = depth + 1;
            i = i + 2;
        } else if text[i] == 62u8 {
            depth = depth - 1;
            i = i + 1;
        } else if text[i] == 58u8 && depth == 0 {
            return Some(i);
        } else {
            i = i + 1;
        }
    }
    None
}

pub(crate) proof fn lemma_split_d0_len(s: Seq<u8>, sep: u8, i: int, depth: int, start: int)
    requires
        0 <= start <= s.len(),
        start <= i,
    ensures
        forall|k: int| 0 <= k < split_d0(s, sep, i, depth, start).len() ==> (#[trigger] split_d0(s, sep, i, depth, start)[k]).len() <= s.len(),
    decreases s.len() - i,
{
    let r0 = split_d0(s, sep, i, depth, start);
    if 0 <= i < s.len() {
        if i + 1 < s.len() && s[i] == 36u8 && s[i + 1] == 60u8 {
            lemma_split_d0_len(s, sep, i + 2, depth + 1, start);
            assert(r0 == split_d0(s, sep, i + 2, depth + 1, start));
        } else if s[i] == 62u8 {
            lemma_split_d0_len(s, sep, i + 1, depth - 1, start);
            assert(r0 == split_d0(s, sep, i + 1, depth - 1, start));
        } else if s[i] == sep && depth == 0 {
            lemma_split_d0_len(s, sep, i + 1, depth, i + 1);
            let r = split_d0(s, sep, i + 1, depth, i + 1);
            assert(r0 == seq![s.subrange(start, i)] + r);
            assert forall|k: int| 0 <= k < r0.len() implies (#[trigger] r0[k]).len() <= s.len() by {
                if k > 0 {
                    assert(r0[k] == r[k - 1]);
                } else {
                    assert(r0[0] == s.subrange(start, i));
                }
            }
        } else {
            lemma_split_d0_len(s, sep, i + 1, depth, start);
            assert(r0 == split_d0(s, sep, i + 1, depth, start));
        }
    } else {
        assert(r0 =~= seq![s.subrange(start, s.len() as int)]);
    }
}

/// The pieces trimmed, the empty ones left out.
pub open spec fn trimmed_nonempty(ps: Seq<Seq<u8>>) -> Seq<Seq<u8>>
    decreases ps.len(),
{
    if ps.len() == 0 {
        seq![]
    } else {
        let t = trim_seq(ps.last());
        trimmed_nonempty(ps.drop_last()) + (if t.len() > 0 { seq![t] } else { Seq::<Seq<u8>>::empty() })
    }
}

/// Each part cut at `;` outside generator expressions, trimmed, the empty
/// ones left out.
pub open spec fn values_of(parts: Seq<Seq<u8>>) -> Seq<Seq<u8>>
    decreases parts.len(),
{
    if parts.len() == 0 {
        seq![]
    } else {
        values_of(parts.drop_last()) + trimmed_nonempty(split_d0(parts.last(), 59u8, 0, 0, 0))
    }
}

/// The values of a conditional generator expression: the text cut at spaces
/// and at `;` outside generator expressions, trimmed, empty ones left out.
pub open spec fn condition_values(s: Seq<u8>) -> Seq<Seq<u8>> {
    values_of(split_d0(s, 32u8, 0, 0, 0))
}

/// See `condition_values`.
pub fn split_condition_values(text: &[u8]) -> (r: Vec<Vec<u8>>)
    requires
    ensures
        r@.map_values(|v: Vec<u8>| v@) == condition_values(text@),
{
    let parts = split_at_depth0(text, 32u8);
    let ghost pm = parts@.map_values(|v: Vec<u8>| v@);
    proof {
        lemma_split_d0_len(text@, 32u8, 0, 0, 0);
    }
    let mut values: Vec<Vec<u8>> = Vec::new();
    let mut p: usize = 0;
    proof {
        assert(values@.map_values(|v: Vec<u8>| v@) =~= values_of(pm.take(0)));
    }
    while p < parts.len()
        invariant
            p <= parts@.len(),
            pm == parts@.map_values(|v: Vec<u8>| v@),
            pm == split_d0(text@, 32u8, 0, 0, 0),
            forall|k: int| 0 <= k < pm.len() ==> (#[trigger] pm[k]).len() <= text@.len(),
            values@.map_values(|v: Vec<u8>| v@) == values_of(pm.take(p as int)),
        decreases parts@.len() - p,
    {
        proof {
            assert(pm[p as int] == parts@[p as int]@);
        }
        let cands = split_at_depth0(parts[p].as_slice(), 59u8);
        let ghost cm = cands@.map_values(|v: Vec<u8>| v@);
        let ghost v0 = values@.map_values(|v: Vec<u8>| v@);
        let mut c: usize = 0;
        proof {
            assert(trimmed_nonempty(cm.take(0)) =~= Seq::<Seq<u8>>::empty());
            assert(v0 + trimmed_nonempty(cm.take(0)) =~= v0);
        }
        while c < cands.len()
            invariant
                c <= cands@.len(),
                cm == cands@.map_values(|v: Vec<u8>| v@),
                values@.map_values(|v: Vec<u8>| v@) == v0 + trimmed_nonempty(cm.take(c as int)),
            decreases cands@.len() - c,
        {
            let t = trim(cands[c].as_slice());
            let ghost before = values@.map_values(|v: Vec<u8>| v@);
            proof {
                assert(cm[c as int] == cands@[c as int]@);
                assert(cm.take(c + 1).drop_last() =~= cm.take(c as int));
                assert(cm.take(c + 1).last() == cm[c as int]);
            }
            if t.len() > 0 {
                let tv = crate::layout::slice_vec(t, 0, t.len());
                values.push(tv);
                proof {
                    assert(t@.subrange(0, t@.len() as int) =~= t@);
                    assert(values@.map_values(|v: Vec<u8>| v@) =~= before.push(t@));
                    assert(v0 + trimmed_nonempty(cm.take(c + 1)) =~= before.push(t@));
                }
            } else {
                proof {
                    assert(v0 + trimmed_nonempty(cm.take(c + 1)) =~= before);
                }
            }
            c = c + 1;
        }
        proof {
            assert(cm.take(cands@.len() as int) =~= cm);
            assert(pm.take(p + 1).drop_last() =~= pm.take(p as int));
            assert(pm.take(p + 1).last() == pm[p as int]);
            assert(values_of(pm.take(p + 1)) == values_of(pm.take(p as int)) + trimmed_nonempty(split_d0(pm[p as int], 59u8, 0, 0, 0)));
        }
        p = p + 1;
    }
    proof {
        assert(pm.take(parts@.len() as int) =~= pm);
    }
    values
}

/// Cutting always gives at least one piece.
proof fn lemma_split_d0_nonempty(s: Seq<u8>, sep: u8, i: int, depth: int, start: int)
    ensures
        split_d0(s, sep, i, depth, start).len() >= 1,
    decreases s.len() - i,
{
    if 0 <= i < s.len() {
        if i + 1 < s.len() && s[i] == 36u8 && s[i + 1] == 60u8 {
            lemma_split_d0_nonempty(s, sep, i + 2, depth + 1, start);
        } else if s[i] == 62u8 {
            lemma_split_d0_nonempty(s, sep, i + 1, depth - 1, start);
        } else if s[i] == sep && depth == 0 {
            lemma_split_d0_nonempty(s, sep, i + 1, depth, i + 1);
        } else {
            lemma_split_d0_nonempty(s, sep, i + 1, depth, start);
        }
    }
}

proof fn lemma_split_d0_join(s: Seq<u8>, sep: u8, i: int, depth: int, start: int)
    requires
        0 <= start <= i,
        start <= s.len(),
    ensures
        crate::alignments::join_sep(split_d0(s, sep, i, depth, start), seq![sep]) == s.subrange(start, s.len() as int),
    decreases s.len() - i,
{
    let r0 = split_d0(s, sep, i, depth, start);
    if 0 <= i < s.len() {
        if i + 1 < s.len() && s[i] == 36u8 && s[i + 1] == 60u8 {
            lemma_split_d0_join(s, sep, i + 2, depth + 1, start);
        } else if s[i] == 62u8 {
            lemma_split_d0_join(s, sep, i + 1, depth - 1, start);
        } else if s[i] == sep && depth == 0 {
            let r = split_d0(s, sep, i + 1, depth, i + 1);
            lemma_split_d0_join(s, sep, i + 1, depth, i + 1);
            lemma_split_d0_nonempty(s, sep, i + 1, depth, i + 1);
            crate::alignments::lemma_join_front(s.subrange(start, i), r, seq![sep]);
            assert(r0 == seq![s.subrange(start, i)] + r);
            assert(s.subrange(start, s.len() as int) =~= s.subrange(start, i) + seq![sep] + s.subrange(i + 1, s.len() as int));
        } else {
            lemma_split_d0_join(s, sep, i + 1, depth, start);
        }
    } else {
        assert(r0 =~= seq![s.subrange(start, s.len() as int)]);
    }
}

/// Joining the pieces that `split_at_depth0` cuts, with the separator, gives
/// the text back.
pub proof fn law_split_depth0_join(s: Seq<u8>, sep: u8)
    ensures
        crate::alignments::join_sep(split_d0(s, sep, 0, 0, 0), seq![sep]) == s,
{
    lemma_split_d0_join(s, sep, 0, 0, 0);
    assert(s.subrange(0, s.len() as int) =~= s);
}


/// The separator bytes met at depth 0 when scanning from `i` at `depth`
/// (a `$<` opens a level, a `>` closes one).
pub open spec fn seps_d0(s: Seq<u8>, sep: u8, i: int, depth: int) -> int
    decreases s.len() - i,
{
    if i < 0 || i >= s.len() {
        0
    } else if i + 1 < s.len() && s[i] == 36u8 && s[i + 1] == 60u8 {
        seps_d0(s, sep, i + 2, depth + 1)
    } else if s[i] == 62u8 {
        seps_d0(s, sep, i + 1, depth - 1)
    } else if s[i] == sep && depth == 0 {
        1 + seps_d0(s, sep, i + 1, depth)
    } else {
        seps_d0(s, sep, i + 1, depth)
    }
}

proof fn lemma_split_d0_count(s: Seq<u8>, sep: u8, i: int, depth: int, start: int)
    ensures
        split_d0(s, sep, i, depth, start).len() == 1 + seps_d0(s, sep, i, depth),
    decreases s.len() - i,
{
    if 0 <= i < s.len() {
        if i + 1 < s.len() && s[i] == 36u8 && s[i + 1] == 60u8 {
            lemma_split_d0_count(s, sep, i + 2, depth + 1, start);
        } else if s[i] == 62u8 {
            lemma_split_d0_count(s, sep, i + 1, depth - 1, start);
        } else if s[i] == sep && depth == 0 {
            lemma_split_d0_count(s, sep, i + 1, depth, i + 1);
        } else {
            lemma_split_d0_count(s, sep, i + 1, depth, start);
        }
    }
}

/// `split_at_depth0` cuts the text into one piece more than it has
/// separators outside generator expressions.
pub proof fn law_split_depth0_count(s: Seq<u8>, sep: u8)
    ensures
        split_d0(s, sep, 0, 0, 0).len() == 1 + seps_d0(s, sep, 0, 0),
{
    lemma_split_d0_count(s, sep, 0, 0, 0);
}


/// A run of arguments by index: one standalone argument, or arguments that
/// together hold generator expressions.
#[derive(Debug, PartialEq, Eq)]
pub enum GenexArgGroup {
    Single(usize),
    Genex(Vec<usize>),
}

pub ghost enum GenexGroupModel {
    Single(usize),
    Genex(Seq<usize>),
}

pub open spec fn genex_group_model(g: GenexArgGroup) -> GenexGroupModel {
    match g {
        GenexArgGroup::Single(i) => GenexGroupModel::Single(i),
        GenexArgGroup::Genex(v) => GenexGroupModel::Genex(v@),
    }
}

/// `$<` occurs in the text.
pub open spec fn holds_genex(t: Seq<u8>) -> bool {
    exists|k: int| crate::bytes::occurs_at(t, seq![36u8, 60u8], k)
}

/// The groups from argument `i` on: outside an open generator expression an
/// argument that neither opens nor closes one stands alone (as a group of
/// its own when it holds a whole one); any other joins the open run, which
/// ends once the depth comes back to 0; arguments of a run left open stand
/// alone at the end.
pub open spec fn genex_groups(texts: Seq<Seq<u8>>, i: int, depth: int, buf: Seq<usize>, acc: Seq<GenexGroupModel>) -> Seq<GenexGroupModel>
    decreases texts.len() - i,
{
    if i < 0 || i >= texts.len() {
        acc + buf.map_values(|k: usize| GenexGroupModel::Single(k))
    } else {
        let d = delta_from(texts[i], 0);
        if depth == 0 && d == 0 {
            genex_groups(texts, i + 1, depth, buf,
                acc.push(if holds_genex(texts[i]) { GenexGroupModel::Genex(seq![i as usize]) } else { GenexGroupModel::Single(i as usize) }))
        } else if depth + d <= 0 {
            genex_groups(texts, i + 1, 0, seq![], acc.push(GenexGroupModel::Genex(buf.push(i as usize))))
        } else {
            genex_groups(texts, i + 1, depth + d, buf.push(i as usize), acc)
        }
    }
}

/// The total length of the texts.
pub open spec fn total_len(texts: Seq<Seq<u8>>) -> int
    decreases texts.len(),
{
    if texts.len() == 0 { 0 } else { total_len(texts.drop_last()) + texts.last().len() }
}

proof fn lemma_total_len_prefix(texts: Seq<Seq<u8>>, i: int)
    requires
        0 <= i < texts.len(),
    ensures
        total_len(texts.take(i)) + texts[i].len() == total_len(texts.take(i + 1)),
        total_len(texts.take(i + 1)) <= total_len(texts),
    decreases texts.len(),
{
    assert(texts.take(i + 1).drop_last() =~= texts.take(i));
    if i + 1 < texts.len() {
        lemma_total_len_prefix(texts.drop_last(), i);
        assert(texts.drop_last().take(i + 1) =~= texts.take(i + 1));
        assert(texts.drop_last().take(i) =~= texts.take(i));
    } else {
        assert(texts.take(i + 1) =~= texts);
    }
}

/// The texts of the arguments.
pub open spec fn arg_texts(args: Seq<FormattedArg>) -> Seq<Seq<u8>> {
    args.map_values(|a: FormattedArg| text_bytes(a))
}

/// See `genex_groups`: the arguments grouped so that a generator expression
/// split over several arguments stays together.
pub fn group_args_by_genex(args: &Vec<FormattedArg>) -> (r: Vec<GenexArgGroup>)
    requires
        total_len(arg_texts(args@)) <= usize::MAX,
    ensures
        r@.map_values(|g: GenexArgGroup| genex_group_model(g)) == genex_groups(arg_texts(args@), 0, 0, seq![], seq![]),
{
    let ghost texts = arg_texts(args@);
    let ghost target = genex_groups(texts, 0, 0, seq![], seq![]);
    let mut groups: Vec<GenexArgGroup> = Vec::new();
    let mut depth: i128 = 0;
    let mut buf: Vec<usize> = Vec::new();
    let mut i: usize = 0;
    proof {
        assert(groups@.map_values(|g: GenexArgGroup| genex_group_model(g)) =~= Seq::<GenexGroupModel>::empty());
        assert(texts.take(0) =~= Seq::<Seq<u8>>::empty());
    }
    while i < args.len()
        invariant
            i <= args@.len() == texts.len(),
            texts == arg_texts(args@),
            total_len(texts) <= usize::MAX,
            0 <= depth <= total_len(texts.take(i as int)),
            forall|k: int| 0 <= k < buf@.len() ==> buf@[k] < i,
            target == genex_groups(texts, i as int, depth as int, buf@, groups@.map_values(|g: GenexArgGroup| genex_group_model(g))),
        decreases args@.len() - i,
    {
        let t = args[i].text.as_str().as_bytes();
        proof {
            assert(t@ == texts[i as int]);
            lemma_total_len_prefix(texts, i as int);
            lemma_delta_bounds(t@, 0);
        }
        let delta = genex_depth_delta(t);
        let ghost gm = groups@.map_values(|g: GenexArgGroup| genex_group_model(g));
        if depth == 0 && delta == 0 {
            let needle: Vec<u8> = vec![36u8, 60u8];
            proof {
                assert(needle@ =~= seq![36u8, 60u8]);
            }
            let found = crate::bytes::find_subslice(t, needle.as_slice());
            proof {
                if let Some(k) = found {
                    assert(crate::bytes::occurs_at(t@, seq![36u8, 60u8], k as int));
                }
            }
            let g = if found.is_some() {
                let one: Vec<usize> = vec![i];
                proof {
                    assert(one@ =~= seq![i]);
                }
                GenexArgGroup::Genex(one)
            } else {
                GenexArgGroup::Single(i)
            };
            proof {
                assert(genex_group_model(g) == (if holds_genex(texts[i as int]) { GenexGroupModel::Genex(seq![i as usize]) } else { GenexGroupModel::Single(i as usize) }));
            }
            groups.push(g);
            proof {
                assert(groups@.map_values(|g: GenexArgGroup| genex_group_model(g)) =~= gm.push(genex_group_model(g)));
            }
        } else {
            buf.push(i);
            depth = depth + delta;
            if depth <= 0 {
                let mut taken: Vec<usize> = Vec::new();
                std::mem::swap(&mut taken, &mut buf);
                let ghost tk = taken@;
                groups.push(GenexArgGroup::Genex(taken));
                depth = 0;
                proof {
                    assert(groups@.map_values(|g: GenexArgGroup| genex_group_model(g)) =~= gm.push(GenexGroupModel::Genex(tk)));
                }
            }
        }
        i = i + 1;
    }
    let ghost gm = groups@.map_values(|g: GenexArgGroup| genex_group_model(g));
    let ghost b0 = buf@;
    let mut k: usize = 0;
    while k < buf.len()
        invariant
            k <= buf@.len(),
            buf@ == b0,
            groups@.map_values(|g: GenexArgGroup| genex_group_model(g)) == gm + b0.take(k as int).map_values(|x: usize| GenexGroupModel::Single(x)),
        decreases buf@.len() - k,
    {
        let ghost before = groups@.map_values(|g: GenexArgGroup| genex_group_model(g));
        groups.push(GenexArgGroup::Single(buf[k]));
        proof {
            assert(groups@.map_values(|g: GenexArgGroup| genex_group_model(g)) =~= before.push(GenexGroupModel::Single(b0[k as int])));
            assert(b0.take(k + 1).map_values(|x: usize| GenexGroupModel::Single(x)) =~= b0.take(k as int).map_values(|x: usize| GenexGroupModel::Single(x)).push(GenexGroupModel::Single(b0[k as int])));
        }
        k = k + 1;
    }
    proof {
        assert(b0.take(b0.len() as int) =~= b0);
    }
    groups
}

} // verus!
