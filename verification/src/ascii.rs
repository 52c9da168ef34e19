//! Byte-level ASCII helpers shared by the archive index and the timeline
//! formatting code: upper-casing, comparisons, prefix tests, and the one
//! place where a checked byte vector is turned into a `String`.

use vstd::prelude::*;

verus! {

/// Upper-case a single byte when it is an ASCII lower-case letter.
pub open spec fn upper_byte(b: u8) -> u8 {
    if 97 <= b && b <= 122 {
        (b - 32) as u8
    } else {
        b
    }
}

/// Upper-case every byte of a sequence.
pub open spec fn upper_bytes(s: Seq<u8>) -> Seq<u8> {
    s.map_values(|b: u8| upper_byte(b))
}

/// `pre` is a prefix of `s`.
pub open spec fn is_prefix_of(pre: Seq<u8>, s: Seq<u8>) -> bool {
    pre.len() <= s.len() && s.take(pre.len() as int) == pre
}

/// Upper-casing is idempotent, so a lookup key built from an already
/// upper-cased query equals the key built from the query itself.
pub proof fn lemma_upper_bytes_idempotent(s: Seq<u8>)
    ensures
        upper_bytes(upper_bytes(s)) == upper_bytes(s),
{
    assert(upper_bytes(upper_bytes(s)) =~= upper_bytes(s));
}

/// Upper-case one byte.
pub fn upper_ascii_byte(b: u8) -> (r: u8)
    ensures
        r == upper_byte(b),
{
    if 97 <= b && b <= 122 {
        b - 32
    } else {
        b
    }
}

/// Upper-case a byte slice into a fresh vector.
pub fn to_upper_bytes(s: &[u8]) -> (r: Vec<u8>)
    ensures
        r@ == upper_bytes(s@),
{
    let mut r: Vec<u8> = Vec::new();
    let mut i: usize = 0;
    while i < s.len()
        invariant
            i <= s@.len(),
            r@ == upper_bytes(s@.take(i as int)),
        decreases s@.len() - i,
    {
        r.push(upper_ascii_byte(s[i]));
        i = i + 1;
        assert(r@ =~= upper_bytes(s@.take(i as int)));
    }
    assert(s@.take(s@.len() as int) =~= s@);
    r
}

/// Byte-slice equality.
pub fn bytes_eq(a: &[u8], b: &[u8]) -> (r: bool)
    ensures
        r == (a@ == b@),
{
    if a.len() != b.len() {
        return false;
    }
    let mut i: usize = 0;
    while i < a.len()
        invariant
            a@.len() == b@.len(),
            i <= a@.len(),
            forall|j: int| 0 <= j < i ==> a@[j] == b@[j],
        decreases a@.len() - i,
    {
        if a[i] != b[i] {
            return false;
        }
        i = i + 1;
    }
    assert(a@ =~= b@);
    true
}

/// Does `s` start with `pre`?
pub fn starts_with_bytes(s: &[u8], pre: &[u8]) -> (r: bool)
    ensures
        r == is_prefix_of(pre@, s@),
{
    if pre.len() > s.len() {
        return false;
    }
    let mut i: usize = 0;
    while i < pre.len()
        invariant
            pre@.len() <= s@.len(),
            i <= pre@.len(),
            forall|j: int| 0 <= j < i ==> s@[j] == pre@[j],
        decreases pre@.len() - i,
    {
        if s[i] != pre[i] {
            assert(s@.take(pre@.len() as int)[i as int] != pre@[i as int]);
            return false;
        }
        i = i + 1;
    }
    assert(s@.take(pre@.len() as int) =~= pre@);
    true
}

/// An ASCII whitespace byte (tab, line feed, vertical tab, form feed,
/// carriage return, or space).
pub open spec fn is_ws_byte(b: u8) -> bool {
    b == 9 || b == 10 || b == 11 || b == 12 || b == 13 || b == 32
}

/// `s` with leading whitespace bytes removed.
pub open spec fn trim_front(s: Seq<u8>) -> Seq<u8>
    decreases s.len(),
{
    if s.len() > 0 && is_ws_byte(s[0]) {
        trim_front(s.drop_first())
    } else {
        s
    }
}

/// `s` with trailing whitespace bytes removed.
pub open spec fn trim_back(s: Seq<u8>) -> Seq<u8>
    decreases s.len(),
{
    if s.len() > 0 && is_ws_byte(s.last()) {
        trim_back(s.drop_last())
    } else {
        s
    }
}

/// `s` with both leading and trailing whitespace bytes removed.
pub open spec fn trim_bytes(s: Seq<u8>) -> Seq<u8> {
    trim_back(trim_front(s))
}

proof fn lemma_trim_front_skip(s: Seq<u8>, i: int)
    requires
        0 <= i <= s.len(),
        forall|j: int| 0 <= j < i ==> is_ws_byte(s[j]),
        i == s.len() || !is_ws_byte(s[i]),
    ensures
        trim_front(s) == s.skip(i),
    decreases i,
{
    if i == 0 {
        assert(s.skip(0) =~= s);
    } else {
        lemma_trim_front_skip(s.drop_first(), i - 1);
        assert(s.drop_first().skip(i - 1) =~= s.skip(i));
    }
}

proof fn lemma_trim_back_take(s: Seq<u8>, e: int)
    requires
        0 <= e <= s.len(),
        forall|j: int| e <= j < s.len() ==> is_ws_byte(s[j]),
        e == 0 || !is_ws_byte(s[e - 1]),
    ensures
        trim_back(s) == s.take(e),
    decreases s.len() - e,
{
    if e == s.len() {
        assert(s.take(e) =~= s);
    } else {
        lemma_trim_back_take(s.drop_last(), e);
        assert(s.drop_last().take(e) =~= s.take(e));
    }
}

/// Is `b` an ASCII whitespace byte?
pub fn is_ascii_ws(b: u8) -> (r: bool)
    ensures
        r == is_ws_byte(b),
{
    b == 9 || b == 10 || b == 11 || b == 12 || b == 13 || b == 32
}

/// Strip leading and trailing ASCII whitespace bytes from a slice.
pub fn trim_ascii_bytes(s: &[u8]) -> (r: &[u8])
    ensures
        r@ == trim_bytes(s@),
{
    let mut start: usize = 0;
    while start < s.len() && is_ascii_ws(s[start])
        invariant
            start <= s@.len(),
            forall|j: int| 0 <= j < start ==> is_ws_byte(s@[j]),
        decreases s@.len() - start,
    {
        start = start + 1;
    }
    let mut end: usize = s.len();
    while end > start && is_ascii_ws(s[end - 1])
        invariant
            start <= end <= s@.len(),
            forall|j: int| end <= j < s@.len() ==> is_ws_byte(s@[j]),
        decreases end,
    {
        end = end - 1;
    }
    proof {
        lemma_trim_front_skip(s@, start as int);
        lemma_trim_back_take(s@.skip(start as int), end - start);
        assert(s@.skip(start as int).take(end - start) =~= s@.subrange(
            start as int,
            end as int,
        ));
    }
    vstd::slice::slice_subrange(s, start, end)
}

/// Relies on `String::from_utf8`: a vector of ASCII bytes is valid UTF-8, and
/// the resulting string's UTF-8 encoding is exactly the input bytes.
#[verifier::external_body]
pub fn ascii_bytes_to_string(bytes: Vec<u8>) -> (r: String)
    requires
        forall|i: int| 0 <= i < bytes@.len() ==> bytes@[i] < 128,
    ensures
        vstd::utf8::encode_utf8(r@) == bytes@,
        r.is_ascii(),
{
    String::from_utf8(bytes).unwrap_or_default()
}

} // verus!
