//! Bare carriage returns come back where they were: restoring them into the
//! text that normalizing made gives the original text.
use vstd::prelude::*;
use vstd::string::StringSliceAdditionalSpecFns;

use crate::alignments::split_from;
use crate::format_text::{bare_count, bare_cr, normalized, restore_from, restored, seg_bare, take_pieces, rest_lines};

verus! {

/// The first `\n` at or after `i`, or the end.
pub open spec fn next_nl(x: Seq<u8>, i: int) -> int
    decreases x.len() - i,
{
    if i < 0 || i >= x.len() {
        x.len() as int
    } else if x[i] == 10u8 {
        i
    } else {
        next_nl(x, i + 1)
    }
}

/// Bare `\r` of the original in `[c, b)`.
pub open spec fn bare_between(o: Seq<u8>, c: int, b: int) -> nat
    decreases b - c,
{
    if c >= b {
        0
    } else {
        (if bare_cr(o, c) { 1nat } else { 0nat }) + bare_between(o, c + 1, b)
    }
}

proof fn lemma_nl_bytes()
    ensures
        "\n".spec_bytes() == seq![10u8],
{
    reveal_strlit("\n");
    let c = "\n"@;
    assert(vstd::utf8::is_ascii_chars(c));
    vstd::utf8::is_ascii_chars_encode_utf8(c);
    assert("\n".spec_bytes() =~= seq![10u8]);
}

proof fn lemma_next_nl(x: Seq<u8>, i: int)
    requires
        0 <= i <= x.len(),
    ensures
        i <= next_nl(x, i) <= x.len(),
        next_nl(x, i) < x.len() ==> x[next_nl(x, i)] == 10u8,
        forall|j: int| i <= j < next_nl(x, i) ==> x[j] != 10u8,
    decreases x.len() - i,
{
    if i < x.len() && x[i] != 10u8 {
        lemma_next_nl(x, i + 1);
    }
}

/// The first piece of a cut at `\n`, and the rest.
proof fn lemma_split_first(x: Seq<u8>, a: int, i: int)
    requires
        0 <= a <= i <= x.len(),
    ensures
        split_from(x, seq![10u8], a, i) == seq![x.subrange(a, next_nl(x, i))] + (if next_nl(x, i) < x.len() {
            split_from(x, seq![10u8], next_nl(x, i) + 1, next_nl(x, i) + 1)
        } else {
            Seq::<Seq<u8>>::empty()
        }),
    decreases x.len() - i,
{
    let sep = seq![10u8];
    if i >= x.len() {
        assert(split_from(x, sep, a, i) =~= seq![x.subrange(a, x.len() as int)] + Seq::<Seq<u8>>::empty());
    } else if x[i] == 10u8 {
        assert(x.subrange(i, i + 1) =~= sep);
        assert(crate::text::has_at(x, i, sep));
    } else {
        assert(x.subrange(i, i + 1)[0] == x[i]);
        assert(!crate::text::has_at(x, i, sep));
        lemma_split_first(x, a, i + 1);
    }
}

proof fn lemma_bare_between_split(o: Seq<u8>, c: int, d: int, b: int)
    requires
        c <= d <= b,
    ensures
        bare_between(o, c, b) == bare_between(o, c, d) + bare_between(o, d, b),
    decreases d - c,
{
    if c < d {
        lemma_bare_between_split(o, c + 1, d, b);
    }
}

proof fn lemma_bare_between_zero(o: Seq<u8>, c: int, d: int)
    requires
        forall|j: int| c <= j < d ==> !bare_cr(o, j),
    ensures
        bare_between(o, c, d) == 0,
    decreases d - c,
{
    if c < d {
        lemma_bare_between_zero(o, c + 1, d);
    }
}

/// The bare `\r` of a segment (ended by the original's `\n` at `b` or by its
/// end) counted in the segment alone and in the original.
proof fn lemma_segment_count(o: Seq<u8>, a: int, b: int, j: int)
    requires
        0 <= a <= b <= o.len(),
        b == next_nl(o, a),
        0 <= j <= b - a,
    ensures
        bare_count(o.subrange(a, b), j) == bare_between(o, a + j, b)
            + (if b < o.len() && b > a && o[b - 1] == 13u8 && j <= b - 1 - a { 1nat } else { 0nat }),
    decreases b - a - j,
{
    lemma_next_nl(o, a);
    let seg = o.subrange(a, b);
    if j < b - a {
        lemma_segment_count(o, a, b, j + 1);
        assert(seg[j] == o[a + j]);
        if j + 1 < seg.len() {
            assert(seg[j + 1] == o[a + j + 1]);
        }
    }
}

/// Lines `k..` of the normalized text, from position `c` of a segment
/// `[a, b)` on, rebuild the rest of the segment.
proof fn lemma_take(o: Seq<u8>, f: Seq<u8>, fl: Seq<Seq<u8>>, a: int, b: int, c: int, k: int, first: bool)
    requires
        f == normalized(o),
        0 <= a <= c <= b <= o.len(),
        b == next_nl(o, a),
        0 <= k <= fl.len(),
        fl.subrange(k, fl.len() as int) == split_from(f, seq![10u8], c, c),
    ensures
        take_pieces(fl, k, bare_between(o, c, b) + 1, first).0 == (if first { Seq::<u8>::empty() } else { seq![13u8] }) + o.subrange(c, b),
        take_pieces(fl, k, bare_between(o, c, b) + 1, first).1 == k + bare_between(o, c, b) + 1,
        k + bare_between(o, c, b) + 1 <= fl.len(),
        fl.subrange(k + bare_between(o, c, b) + 1, fl.len() as int) == (if b < o.len() {
            split_from(f, seq![10u8], b + 1, b + 1)
        } else {
            Seq::<Seq<u8>>::empty()
        }),
    decreases b - c,
{
    lemma_next_nl(o, a);
    lemma_next_nl(f, c);
    lemma_split_first(f, c, c);
    let d = next_nl(f, c);
    let sep = if first { Seq::<u8>::empty() } else { seq![13u8] };
    let rest = fl.subrange(k, fl.len() as int);
    assert(rest.len() >= 1);
    assert(fl[k] == rest[0]);
    assert(fl[k] == f.subrange(c, d));
    assert forall|j: int| c <= j < d implies !bare_cr(o, j) by {
        assert(f[j] != 10u8);
    }
    if b < o.len() {
        assert(o[b] == 10u8);
        assert(!bare_cr(o, b));
        assert(f[b] == 10u8);
    }
    assert(d <= b);
    assert(fl.subrange(k + 1, fl.len() as int) =~= rest.subrange(1, rest.len() as int));
    if d == b {
        lemma_bare_between_zero(o, c, b);
        assert(f.subrange(c, d) =~= o.subrange(c, b));
        let r = take_pieces(fl, k + 1, 0, false);
        assert(take_pieces(fl, k, 1, first) == (sep + fl[k] + r.0, r.1));
    } else {
        assert(f[d] == 10u8);
        assert(o[d] != 10u8);
        assert(bare_cr(o, d));
        lemma_bare_between_zero(o, c, d);
        lemma_bare_between_split(o, c, d, b);
        assert(bare_between(o, c, b) == 1 + bare_between(o, d + 1, b));
        assert(f.len() == o.len());
        assert(rest.subrange(1, rest.len() as int) =~= split_from(f, seq![10u8], d + 1, d + 1));
        lemma_take(o, f, fl, a, b, d + 1, k + 1, false);
        let n = bare_between(o, c, b) + 1;
        let r = take_pieces(fl, k + 1, (n - 1) as nat, false);
        assert(take_pieces(fl, k, n, first) == (sep + fl[k] + r.0, r.1));
        assert(f.subrange(c, d) =~= o.subrange(c, d));
        assert(o.subrange(c, b) =~= o.subrange(c, d) + seq![13u8] + o.subrange(d + 1, b));
        assert(sep + fl[k] + r.0 =~= sep + o.subrange(c, b));
    }
}

proof fn lemma_restore(o: Seq<u8>, f: Seq<u8>, segs: Seq<Seq<u8>>, fl: Seq<Seq<u8>>, a: int, si: int, k: int)
    requires
        f == normalized(o),
        0 <= a <= o.len(),
        0 <= si <= segs.len(),
        0 <= k <= fl.len(),
        segs.subrange(si, segs.len() as int) == split_from(o, seq![10u8], a, a),
        fl.subrange(k, fl.len() as int) == split_from(f, seq![10u8], a, a),
    ensures
        restore_from(segs, fl, si, k) == (if si > 0 { seq![10u8] } else { Seq::<u8>::empty() }) + o.subrange(a, o.len() as int),
    decreases o.len() - a,
{
    lemma_next_nl(o, a);
    lemma_split_first(o, a, a);
    let b = next_nl(o, a);
    let srest = segs.subrange(si, segs.len() as int);
    assert(srest.len() >= 1);
    assert(segs[si] == srest[0]);
    assert(segs[si] == o.subrange(a, b));
    if b < o.len() {
        crate::alignments::lemma_split_len(o, seq![10u8], b + 1, b + 1);
        assert(srest.subrange(1, srest.len() as int) =~= split_from(o, seq![10u8], b + 1, b + 1));
    } else {
        assert(srest.len() == 1);
    }
    assert((si + 1 < segs.len()) == (b < o.len()));
    lemma_segment_count(o, a, b, 0);
    let seg = o.subrange(a, b);
    if b > a {
        assert(seg.last() == o[b - 1]);
    }
    assert(seg_bare(segs, si) == bare_between(o, a, b));
    lemma_take(o, f, fl, a, b, a, k, true);
    let n = bare_between(o, a, b);
    let k2 = k + n + 1;
    let nl = if si > 0 { seq![10u8] } else { Seq::<u8>::empty() };
    assert(restore_from(segs, fl, si, k) == nl + o.subrange(a, b) + restore_from(segs, fl, si + 1, k2));
    assert(segs.subrange(si + 1, segs.len() as int) =~= srest.subrange(1, srest.len() as int));
    if b < o.len() {
        lemma_restore(o, f, segs, fl, b + 1, si + 1, k2);
        assert(o.subrange(a, o.len() as int) =~= o.subrange(a, b) + seq![10u8] + o.subrange(b + 1, o.len() as int));
        assert(restore_from(segs, fl, si, k) =~= nl + o.subrange(a, o.len() as int));
    } else {
        assert(si + 1 == segs.len());
        assert(k2 == fl.len());
        assert(restore_from(segs, fl, si + 1, k2) == rest_lines(fl, k2));
        assert(restore_from(segs, fl, si, k) =~= nl + o.subrange(a, o.len() as int));
    }
}

/// Restoring the bare `\r` of a text into the text that normalizing made (each
/// bare `\r` a `\n`) gives the text back.
pub proof fn law_restore_normalized(o: Seq<u8>)
    ensures
        restored(normalized(o), o) == o,
{
    lemma_nl_bytes();
    let f = normalized(o);
    let segs = split_from(o, seq![10u8], 0, 0);
    let fl = split_from(f, seq![10u8], 0, 0);
    assert(segs.subrange(0, segs.len() as int) =~= segs);
    assert(fl.subrange(0, fl.len() as int) =~= fl);
    lemma_restore(o, f, segs, fl, 0, 0, 0);
    assert(o.subrange(0, o.len() as int) =~= o);
    assert(Seq::<u8>::empty() + o =~= o);
}

} // verus!
