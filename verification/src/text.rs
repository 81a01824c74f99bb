//! Text helpers on UTF-8 bytes: ASCII case folding, Unicode whitespace, trimming.
use vstd::prelude::*;
use vstd::string::StringSliceAdditionalSpecFns;

verus! {

/// ASCII lower-casing of one byte; other bytes are unchanged.
pub open spec fn lower(b: u8) -> u8 {
    if 65u8 <= b <= 90u8 {
        (b + 32) as u8
    } else {
        b
    }
}

/// ASCII upper-casing of one byte; other bytes are unchanged.
pub open spec fn upper(b: u8) -> u8 {
    if 97u8 <= b <= 122u8 {
        (b - 32) as u8
    } else {
        b
    }
}

/// Equal up to ASCII case.
pub open spec fn ci_eq(a: Seq<u8>, b: Seq<u8>) -> bool {
    a.len() == b.len() && forall|i: int| 0 <= i < a.len() ==> lower(a[i]) == lower(b[i])
}

pub open spec fn lower_seq(a: Seq<u8>) -> Seq<u8> {
    a.map_values(|b: u8| lower(b))
}

pub open spec fn upper_seq(a: Seq<u8>) -> Seq<u8> {
    a.map_values(|b: u8| upper(b))
}

pub fn lower_byte(b: u8) -> (r: u8)
    ensures
        r == lower(b),
{
    if 65u8 <= b && b <= 90u8 {
        b + 32
    } else {
        b
    }
}

pub fn upper_byte(b: u8) -> (r: u8)
    ensures
        r == upper(b),
{
    if 97u8 <= b && b <= 122u8 {
        b - 32
    } else {
        b
    }
}

/// Byte-wise comparison up to ASCII case.
pub fn eq_ci(a: &[u8], b: &[u8]) -> (r: bool)
    ensures
        r == ci_eq(a@, b@),
{
    if a.len() != b.len() {
        return false;
    }
    let mut i: usize = 0;
    while i < a.len()
        invariant
            a@.len() == b@.len(),
            i <= a@.len(),
            forall|k: int| 0 <= k < i ==> lower(a@[k]) == lower(b@[k]),
        decreases a@.len() - i,
    {
        if lower_byte(a[i]) != lower_byte(b[i]) {
            return false;
        }
        i = i + 1;
    }
    true
}

/// Byte-wise equality.
pub fn eq_bytes(a: &[u8], b: &[u8]) -> (r: bool)
    ensures
        r == (a@ == b@),
{
    if a.len() != b.len() {
        return false;
    }
    let mut i: usize = 0;
    while i < a.len()
        invariant
            a@.len() == b@.len(),
            i <= a@.len(),
            forall|k: int| 0 <= k < i ==> a@[k] == b@[k],
        decreases a@.len() - i,
    {
        if a[i] != b[i] {
            return false;
        }
        i = i + 1;
    }
    assert(a@ =~= b@);
    true
}

pub fn to_lower_vec(a: &[u8]) -> (r: Vec<u8>)
    ensures
        r@ == lower_seq(a@),
{
    let mut out: Vec<u8> = Vec::new();
    let mut i: usize = 0;
    while i < a.len()
        invariant
            i <= a@.len(),
            out@ == lower_seq(a@.subrange(0, i as int)),
        decreases a@.len() - i,
    {
        out.push(lower_byte(a[i]));
        i = i + 1;
        assert(lower_seq(a@.subrange(0, i as int)) =~= lower_seq(a@.subrange(0, i - 1)).push(
            lower(a@[i - 1]),
        ));
    }
    assert(a@.subrange(0, a@.len() as int) =~= a@);
    out
}

pub fn to_upper_vec(a: &[u8]) -> (r: Vec<u8>)
    ensures
        r@ == upper_seq(a@),
{
    let mut out: Vec<u8> = Vec::new();
    let mut i: usize = 0;
    while i < a.len()
        invariant
            i <= a@.len(),
            out@ == upper_seq(a@.subrange(0, i as int)),
        decreases a@.len() - i,
    {
        out.push(upper_byte(a[i]));
        i = i + 1;
        assert(upper_seq(a@.subrange(0, i as int)) =~= upper_seq(a@.subrange(0, i - 1)).push(
            upper(a@[i - 1]),
        ));
    }
    assert(a@.subrange(0, a@.len() as int) =~= a@);
    out
}

/// `s` holds `p` starting at index `i`.
pub open spec fn has_at(s: Seq<u8>, i: int, p: Seq<u8>) -> bool {
    0 <= i && i + p.len() <= s.len() && s.subrange(i, i + p.len()) == p
}

pub fn has_at_exec(s: &[u8], i: usize, p: &[u8]) -> (r: bool)
    ensures
        r == has_at(s@, i as int, p@),
{
    if i > s.len() || p.len() > s.len() - i {
        return false;
    }
    let mut k: usize = 0;
    while k < p.len()
        invariant
            i + p@.len() <= s@.len(),
            s@.len() == s.len(),
            k <= p@.len(),
            forall|m: int| 0 <= m < k ==> s@[i + m] == p@[m],
        decreases p@.len() - k,
    {
        if s[i + k] != p[k] {
            assert(s@.subrange(i as int, i + p@.len())[k as int] != p@[k as int]);
            return false;
        }
        k = k + 1;
    }
    assert(s@.subrange(i as int, i + p@.len()) =~= p@);
    true
}

/// The ASCII whitespace of `char::is_whitespace`: tab, newline, vertical tab,
/// form feed, carriage return, space.
pub open spec fn is_ascii_ws(b: u8) -> bool {
    (9u8 <= b <= 13u8) || b == 32u8
}

/// Length of the UTF-8 encoding of a Unicode whitespace character starting at
/// `i`, or 0 when none starts there.
pub open spec fn ws_len(s: Seq<u8>, i: int) -> int {
    if i < 0 || i >= s.len() {
        0
    } else if is_ascii_ws(s[i]) {
        1
    } else if i + 2 <= s.len() && s[i] == 0xC2u8 && (s[i + 1] == 0x85u8 || s[i + 1] == 0xA0u8) {
        2
    } else if i + 3 <= s.len() && ((s[i] == 0xE1u8 && s[i + 1] == 0x9Au8 && s[i + 2] == 0x80u8)
        || (s[i] == 0xE2u8 && s[i + 1] == 0x80u8 && ((0x80u8 <= s[i + 2] <= 0x8Au8) || s[i + 2]
        == 0xA8u8 || s[i + 2] == 0xA9u8 || s[i + 2] == 0xAFu8)) || (s[i] == 0xE2u8 && s[i + 1]
        == 0x81u8 && s[i + 2] == 0x9Fu8) || (s[i] == 0xE3u8 && s[i + 1] == 0x80u8 && s[i + 2]
        == 0x80u8)) {
        3
    } else {
        0
    }
}

/// Length of the encoding of a Unicode whitespace character that ends just
/// before `j`, or 0.
pub open spec fn ws_len_before(s: Seq<u8>, j: int) -> int {
    if j <= 0 || j > s.len() {
        0
    } else if is_ascii_ws(s[j - 1]) {
        1
    } else if j >= 2 && ws_len(s, j - 2) == 2 {
        2
    } else if j >= 3 && ws_len(s, j - 3) == 3 {
        3
    } else {
        0
    }
}

/// Index of the first non-whitespace character at or after `i`.
pub open spec fn skip_ws(s: Seq<u8>, i: int) -> int
    decreases s.len() - i,
{
    if 0 <= i < s.len() && ws_len(s, i) > 0 {
        skip_ws(s, i + ws_len(s, i))
    } else {
        i
    }
}

/// Moving back from `j` over whitespace, but not below `lo`.
pub open spec fn back_ws(s: Seq<u8>, lo: int, j: int) -> int
    decreases j - lo,
{
    if lo < j && ws_len_before(s, j) > 0 && j - ws_len_before(s, j) >= lo {
        back_ws(s, lo, j - ws_len_before(s, j))
    } else {
        j
    }
}

/// Index of the first whitespace character at or after `i`, or the length.
pub open spec fn find_ws(s: Seq<u8>, i: int) -> int
    decreases s.len() - i,
{
    if i < 0 || i >= s.len() {
        s.len() as int
    } else if ws_len(s, i) > 0 {
        i
    } else {
        find_ws(s, i + 1)
    }
}

pub fn ws_len_exec(s: &[u8], i: usize) -> (r: usize)
    ensures
        r as int == ws_len(s@, i as int),
{
    let n = s.len();
    if i >= n {
        return 0;
    }
    let b = s[i];
    if (9u8 <= b && b <= 13u8) || b == 32u8 {
        1
    } else if n - i >= 2 && b == 0xC2u8 && (s[i + 1] == 0x85u8 || s[i + 1] == 0xA0u8) {
        2
    } else if n - i >= 3 {
        let c = s[i + 1];
        let d = s[i + 2];
        if (b == 0xE1u8 && c == 0x9Au8 && d == 0x80u8) || (b == 0xE2u8 && c == 0x80u8 && ((0x80u8
            <= d && d <= 0x8Au8) || d == 0xA8u8 || d == 0xA9u8 || d == 0xAFu8)) || (b == 0xE2u8
            && c == 0x81u8 && d == 0x9Fu8) || (b == 0xE3u8 && c == 0x80u8 && d == 0x80u8) {
            3
        } else {
            0
        }
    } else {
        0
    }
}

pub fn ws_len_before_exec(s: &[u8], j: usize) -> (r: usize)
    ensures
        r as int == ws_len_before(s@, j as int),
{
    if j == 0 || j > s.len() {
        return 0;
    }
    let b = s[j - 1];
    if (9u8 <= b && b <= 13u8) || b == 32u8 {
        1
    } else if j >= 2 && ws_len_exec(s, j - 2) == 2 {
        2
    } else if j >= 3 && ws_len_exec(s, j - 3) == 3 {
        3
    } else {
        0
    }
}

/// First index at or after `i` that does not start a whitespace character.
pub fn skip_ws_exec(s: &[u8], i: usize) -> (r: usize)
    requires
        i <= s@.len(),
    ensures
        r as int == skip_ws(s@, i as int),
        i <= r <= s@.len(),
{
    let mut k = i;
    loop
        invariant
            i <= k <= s@.len(),
            skip_ws(s@, k as int) == skip_ws(s@, i as int),
        decreases s@.len() - k,
    {
        let w = ws_len_exec(s, k);
        if k < s.len() && w > 0 {
            k = k + w;
        } else {
            return k;
        }
    }
}

/// Moves back from `j` over whitespace characters, stopping at `lo`.
pub fn back_ws_exec(s: &[u8], lo: usize, j: usize) -> (r: usize)
    requires
        lo <= j <= s@.len(),
    ensures
        r as int == back_ws(s@, lo as int, j as int),
        lo <= r <= j,
{
    let mut k = j;
    loop
        invariant
            lo <= k <= j,
            j <= s@.len(),
            back_ws(s@, lo as int, k as int) == back_ws(s@, lo as int, j as int),
        decreases k - lo,
    {
        let w = ws_len_before_exec(s, k);
        if lo < k && w > 0 && k - w >= lo {
            k = k - w;
        } else {
            return k;
        }
    }
}

/// Index of the first whitespace character at or after `i`, or the length.
pub fn find_ws_exec(s: &[u8], i: usize) -> (r: usize)
    requires
        i <= s@.len(),
    ensures
        r as int == find_ws(s@, i as int),
        i <= r <= s@.len(),
{
    let mut k = i;
    loop
        invariant
            i <= k <= s@.len(),
            find_ws(s@, k as int) == find_ws(s@, i as int),
        decreases s@.len() - k,
    {
        if k >= s.len() || ws_len_exec(s, k) > 0 {
            return k;
        }
        k = k + 1;
    }
}

pub open spec fn trim_start_seq(s: Seq<u8>) -> Seq<u8> {
    s.subrange(skip_ws(s, 0), s.len() as int)
}

pub open spec fn trim_end_seq(s: Seq<u8>) -> Seq<u8> {
    s.subrange(0, back_ws(s, 0, s.len() as int))
}

/// `str::trim`: Unicode whitespace removed from both ends.
pub open spec fn trim_seq(s: Seq<u8>) -> Seq<u8> {
    trim_end_seq(trim_start_seq(s))
}

pub proof fn lemma_skip_ws_bounds(s: Seq<u8>, i: int)
    requires
        0 <= i <= s.len(),
    ensures
        i <= skip_ws(s, i) <= s.len(),
    decreases s.len() - i,
{
    if i < s.len() && ws_len(s, i) > 0 {
        lemma_skip_ws_bounds(s, i + ws_len(s, i));
    }
}

pub proof fn lemma_back_ws_bounds(s: Seq<u8>, lo: int, j: int)
    requires
        0 <= lo <= j <= s.len(),
    ensures
        lo <= back_ws(s, lo, j) <= j,
    decreases j - lo,
{
    if lo < j && ws_len_before(s, j) > 0 && j - ws_len_before(s, j) >= lo {
        lemma_back_ws_bounds(s, lo, j - ws_len_before(s, j));
    }
}

pub fn trim_start(s: &[u8]) -> (r: &[u8])
    ensures
        r@ == trim_start_seq(s@),
{
    let a = skip_ws_exec(s, 0);
    &s[a..s.len()]
}

pub fn trim_end(s: &[u8]) -> (r: &[u8])
    ensures
        r@ == trim_end_seq(s@),
{
    let b = back_ws_exec(s, 0, s.len());
    &s[0..b]
}

pub fn trim(s: &[u8]) -> (r: &[u8])
    ensures
        r@ == trim_seq(s@),
{
    trim_end(trim_start(s))
}

/// Bytes below 0x80 always form valid UTF-8.
pub proof fn lemma_ascii_valid_utf8(b: Seq<u8>)
    requires
        forall|i: int| 0 <= i < b.len() ==> b[i] < 0x80u8,
    ensures
        vstd::utf8::valid_utf8(b),
{
    assert forall|i: int| 0 <= 0 <= i < b.len() <= b.len() implies #[trigger]
        vstd::utf8::is_leading_byte_width_1(b[i]) by {}
    assert(b.subrange(0, 0) =~= Seq::<u8>::empty());
    vstd::utf8::partial_valid_utf8_extend_ascii_block(b, 0, b.len() as int);
    assert(b.subrange(0, b.len() as int) =~= b);
}

/// A position of valid UTF-8 that is the end or holds no continuation byte is
/// a character boundary.
pub proof fn lemma_boundary(b: Seq<u8>, i: int)
    requires
        vstd::utf8::valid_utf8(b),
        0 <= i <= b.len(),
        i < b.len() ==> !vstd::utf8::is_continuation_byte(b[i]),
    ensures
        vstd::utf8::is_char_boundary(b, i),
{
    vstd::utf8::is_char_boundary_start_end_of_seq(b);
    if i < b.len() {
        vstd::utf8::is_char_boundary_iff_not_is_continuation_byte(b, i);
    }
}

/// The bytes between two character boundaries of valid UTF-8 are valid UTF-8.
pub proof fn lemma_valid_subrange(b: Seq<u8>, i: int, j: int)
    requires
        vstd::utf8::valid_utf8(b),
        0 <= i <= j <= b.len(),
        i < b.len() ==> !vstd::utf8::is_continuation_byte(b[i]),
        j < b.len() ==> !vstd::utf8::is_continuation_byte(b[j]),
    ensures
        vstd::utf8::valid_utf8(b.subrange(i, j)),
{
    lemma_boundary(b, i);
    vstd::utf8::valid_utf8_split(b, i);
    let t = b.subrange(i, b.len() as int);
    if j - i < t.len() {
        assert(t[j - i] == b[j]);
    }
    lemma_boundary(t, j - i);
    vstd::utf8::valid_utf8_split(t, j - i);
    assert(t.subrange(0, j - i) =~= b.subrange(i, j));
}

/// The bytes of a `str` are valid UTF-8.
pub proof fn lemma_str_valid(s: &str)
    ensures
        vstd::utf8::valid_utf8(s.spec_bytes()),
{
    vstd::utf8::encode_utf8_valid_utf8(s@);
}

/// `p` is a character boundary of the bytes `s`: their end, or a byte that
/// does not continue a multi-byte character.
pub open spec fn bnd(s: Seq<u8>, p: int) -> bool {
    p == s.len() || (0 <= p < s.len() && !vstd::utf8::is_continuation_byte(s[p]))
}

/// Number of bytes of the character that a leading byte starts.
pub open spec fn lead_width(b: u8) -> int {
    if b <= 0x7fu8 {
        1
    } else if 0xc0u8 <= b <= 0xdfu8 {
        2
    } else if 0xe0u8 <= b <= 0xefu8 {
        3
    } else {
        4
    }
}

/// In valid UTF-8, the character that starts at a boundary ends at a boundary.
pub proof fn lemma_bnd_step(s: Seq<u8>, i: int)
    requires
        vstd::utf8::valid_utf8(s),
        0 <= i < s.len(),
        bnd(s, i),
    ensures
        i + lead_width(s[i]) <= s.len(),
        bnd(s, i + lead_width(s[i])),
{
    lemma_valid_subrange(s, i, s.len() as int);
    let t = s.subrange(i, s.len() as int);
    assert(t[0] == s[i]);
    assert(vstd::utf8::valid_first_scalar(t));
    let w = vstd::utf8::length_of_first_scalar(t);
    assert(w == lead_width(s[i]));
    let r = vstd::utf8::pop_first_scalar(t);
    assert(vstd::utf8::valid_utf8(r));
    if r.len() > 0 {
        assert(vstd::utf8::valid_first_scalar(r));
        assert(r[0] == s[i + w]);
    }
}

/// Skipping whitespace from a boundary of valid UTF-8 ends at a boundary.
pub proof fn lemma_skip_ws_bnd(s: Seq<u8>, i: int)
    requires
        vstd::utf8::valid_utf8(s),
        0 <= i <= s.len(),
        bnd(s, i),
    ensures
        bnd(s, skip_ws(s, i)),
    decreases s.len() - i,
{
    if 0 <= i < s.len() && ws_len(s, i) > 0 {
        lemma_bnd_step(s, i);
        lemma_skip_ws_bnd(s, i + ws_len(s, i));
    }
}

/// Moving back over whitespace from a boundary ends at a boundary.
pub proof fn lemma_back_ws_bnd(s: Seq<u8>, lo: int, j: int)
    requires
        0 <= lo <= j <= s.len(),
        bnd(s, j),
    ensures
        bnd(s, back_ws(s, lo, j)),
    decreases j - lo,
{
    if lo < j && ws_len_before(s, j) > 0 && j - ws_len_before(s, j) >= lo {
        lemma_back_ws_bnd(s, lo, j - ws_len_before(s, j));
    }
}

/// The next whitespace character, or the end, is a boundary.
pub proof fn lemma_find_ws_bnd(s: Seq<u8>, i: int)
    requires
        0 <= i <= s.len(),
    ensures
        bnd(s, find_ws(s, i)),
        i <= find_ws(s, i) <= s.len(),
    decreases s.len() - i,
{
    if i < s.len() && ws_len(s, i) == 0 {
        lemma_find_ws_bnd(s, i + 1);
    }
}

/// The bytes between two boundaries of valid UTF-8 are valid UTF-8.
pub proof fn lemma_valid_between(s: Seq<u8>, i: int, j: int)
    requires
        vstd::utf8::valid_utf8(s),
        0 <= i <= j <= s.len(),
        bnd(s, i),
        bnd(s, j),
    ensures
        vstd::utf8::valid_utf8(s.subrange(i, j)),
{
    lemma_valid_subrange(s, i, j);
}

/// Valid UTF-8 joined with valid UTF-8 is valid UTF-8.
pub proof fn lemma_valid_concat(a: Seq<u8>, b: Seq<u8>)
    requires
        vstd::utf8::valid_utf8(a),
        vstd::utf8::valid_utf8(b),
    ensures
        vstd::utf8::valid_utf8(a + b),
{
    vstd::utf8::valid_utf8_concat(a, b);
}

/// A `String` holding exactly the given bytes, which are valid UTF-8.
pub fn string_of(b: &[u8]) -> (s: String)
    requires
        vstd::utf8::valid_utf8(b@),
    ensures
        s@ == vstd::utf8::decode_utf8(b@),
        vstd::utf8::encode_utf8(s@) == b@,
{
    let s = string_from_bytes(b);
    proof {
        vstd::utf8::decode_utf8_encode_utf8(b@);
    }
    s
}

/// Calls `String::from_utf8_lossy` and takes ownership of the result. For
/// valid UTF-8 the string holds exactly the given bytes (as its documentation
/// says); what it holds for invalid input is not stated here.
#[verifier::external_body]
pub fn string_from_bytes(b: &[u8]) -> (s: String)
    ensures
        vstd::utf8::valid_utf8(b@) ==> s@ == vstd::utf8::decode_utf8(b@),
{
    String::from_utf8_lossy(b).into_owned()
}

/// ASCII lower-casing keeps UTF-8 valid.
pub proof fn lemma_lower_valid(s: Seq<u8>)
    requires
        vstd::utf8::valid_utf8(s),
    ensures
        vstd::utf8::valid_utf8(lower_seq(s)),
    decreases s.len(),
{
    if s.len() > 0 {
        let t = lower_seq(s);
        assert(vstd::utf8::valid_first_scalar(s));
        let w = vstd::utf8::length_of_first_scalar(s);
        lemma_lower_valid(vstd::utf8::pop_first_scalar(s));
        assert(lower_seq(vstd::utf8::pop_first_scalar(s)) =~= vstd::utf8::pop_first_scalar(t));
        assert(vstd::utf8::valid_first_scalar(t)) by {
            assert(t[0] == lower(s[0]));
            if w >= 2 {
                assert(t[1] == s[1]);
            }
            if w >= 3 {
                assert(t[2] == s[2]);
            }
            if w >= 4 {
                assert(t[3] == s[3]);
            }
            if w == 1 {
                let b: u8 = t[0];
                assert((b & 0x7Fu8) as u32 <= 0x7Fu32) by (bit_vector);
            } else {
                assert(t[0] == s[0]);
            }
        }
    }
}

/// ASCII upper-casing keeps UTF-8 valid.
pub proof fn lemma_upper_valid(s: Seq<u8>)
    requires
        vstd::utf8::valid_utf8(s),
    ensures
        vstd::utf8::valid_utf8(upper_seq(s)),
    decreases s.len(),
{
    if s.len() > 0 {
        let t = upper_seq(s);
        assert(vstd::utf8::valid_first_scalar(s));
        let w = vstd::utf8::length_of_first_scalar(s);
        lemma_upper_valid(vstd::utf8::pop_first_scalar(s));
        assert(upper_seq(vstd::utf8::pop_first_scalar(s)) =~= vstd::utf8::pop_first_scalar(t));
        assert(vstd::utf8::valid_first_scalar(t)) by {
            assert(t[0] == upper(s[0]));
            if w >= 2 {
                assert(t[1] == s[1]);
            }
            if w >= 3 {
                assert(t[2] == s[2]);
            }
            if w >= 4 {
                assert(t[3] == s[3]);
            }
            if w == 1 {
                let b: u8 = t[0];
                assert((b & 0x7Fu8) as u32 <= 0x7Fu32) by (bit_vector);
            } else {
                assert(t[0] == s[0]);
            }
        }
    }
}

} // verus!
