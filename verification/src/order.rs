//! The order in which identifiers are listed: texts compare as their UTF-8
//! bytes do, byte by byte, a proper prefix before its extensions.

use vstd::prelude::*;
use vstd::utf8::{encode_utf8, encode_utf8_decode_utf8};

verus! {

/// Whether `x` comes before `y`, given that they agree on their first `i`
/// bytes.
pub open spec fn bytes_before_from(x: Seq<u8>, y: Seq<u8>, i: int) -> bool
    decreases x.len() - i,
{
    if i >= y.len() {
        false
    } else if i >= x.len() {
        true
    } else if x[i] != y[i] {
        x[i] < y[i]
    } else {
        bytes_before_from(x, y, i + 1)
    }
}

/// Whether `x` comes strictly before `y` in dictionary order.
pub open spec fn bytes_before(x: Seq<u8>, y: Seq<u8>) -> bool {
    bytes_before_from(x, y, 0)
}

/// Whether the text `a` comes strictly before the text `b`.
pub open spec fn text_before(a: Seq<char>, b: Seq<char>) -> bool {
    bytes_before(encode_utf8(a), encode_utf8(b))
}

proof fn lemma_before_irreflexive_from(x: Seq<u8>, i: int)
    requires
        0 <= i,
    ensures
        !bytes_before_from(x, x, i),
    decreases x.len() - i,
{
    if i < x.len() {
        lemma_before_irreflexive_from(x, i + 1);
    }
}

proof fn lemma_before_total_from(x: Seq<u8>, y: Seq<u8>, i: int)
    requires
        0 <= i <= x.len(),
        i <= y.len(),
        x.take(i) == y.take(i),
        !bytes_before_from(x, y, i),
        !bytes_before_from(y, x, i),
    ensures
        x == y,
    decreases x.len() - i,
{
    if i < x.len() && i < y.len() {
        assert(x[i] == y[i]);
        assert(x.take(i + 1) =~= x.take(i).push(x[i]));
        assert(y.take(i + 1) =~= y.take(i).push(y[i]));
        lemma_before_total_from(x, y, i + 1);
    } else {
        assert(x.len() == y.len());
        assert(x.take(i) =~= x);
        assert(y.take(i) =~= y);
    }
}

proof fn lemma_before_asymmetric_from(x: Seq<u8>, y: Seq<u8>, i: int)
    requires
        0 <= i,
        bytes_before_from(x, y, i),
    ensures
        !bytes_before_from(y, x, i),
    decreases x.len() - i,
{
    if i < y.len() && i < x.len() && x[i] == y[i] {
        lemma_before_asymmetric_from(x, y, i + 1);
    }
}

proof fn lemma_before_transitive_from(x: Seq<u8>, y: Seq<u8>, z: Seq<u8>, i: int)
    requires
        0 <= i,
        bytes_before_from(x, y, i),
        bytes_before_from(y, z, i),
    ensures
        bytes_before_from(x, z, i),
    decreases x.len() - i,
{
    if i < x.len() && i < y.len() && i < z.len() && x[i] == y[i] && y[i] == z[i] {
        lemma_before_transitive_from(x, y, z, i + 1);
    }
}

/// No text comes before itself.
pub proof fn lemma_text_before_irreflexive(a: Seq<char>)
    ensures
        !text_before(a, a),
{
    lemma_before_irreflexive_from(encode_utf8(a), 0);
}

/// If `a` comes before `b`, then `b` does not come before `a`.
pub proof fn lemma_text_before_asymmetric(a: Seq<char>, b: Seq<char>)
    requires
        text_before(a, b),
    ensures
        !text_before(b, a),
        a != b,
{
    lemma_before_asymmetric_from(encode_utf8(a), encode_utf8(b), 0);
    lemma_text_before_irreflexive(a);
}

/// The order is transitive.
pub proof fn lemma_text_before_transitive(a: Seq<char>, b: Seq<char>, c: Seq<char>)
    requires
        text_before(a, b),
        text_before(b, c),
    ensures
        text_before(a, c),
{
    lemma_before_transitive_from(encode_utf8(a), encode_utf8(b), encode_utf8(c), 0);
}

/// Of two different texts one comes before the other.
pub proof fn lemma_text_before_total(a: Seq<char>, b: Seq<char>)
    ensures
        text_before(a, b) || text_before(b, a) || a == b,
{
    let x = encode_utf8(a);
    let y = encode_utf8(b);
    if !bytes_before(x, y) && !bytes_before(y, x) {
        assert(x.take(0) =~= y.take(0));
        lemma_before_total_from(x, y, 0);
        encode_utf8_decode_utf8(a);
        encode_utf8_decode_utf8(b);
    }
}

/// Compares two texts: whether `a` comes strictly before `b`.
pub fn str_before(a: &str, b: &str) -> (r: bool)
    ensures
        r == text_before(a@, b@),
{
    let x = a.as_bytes();
    let y = b.as_bytes();
    let mut i: usize = 0;
    while i < x.len() && i < y.len()
        invariant
            i <= x.len(),
            i <= y.len(),
            x@ == encode_utf8(a@),
            y@ == encode_utf8(b@),
            bytes_before(x@, y@) == bytes_before_from(x@, y@, i as int),
        decreases x.len() - i,
    {
        if x[i] != y[i] {
            return x[i] < y[i];
        }
        i = i + 1;
    }
    x.len() < y.len()
}

/// Compares two texts for equality.
pub fn str_eq(a: &str, b: &str) -> (r: bool)
    ensures
        r == (a@ == b@),
{
    let x = a.as_bytes();
    let y = b.as_bytes();
    proof {
        encode_utf8_decode_utf8(a@);
        encode_utf8_decode_utf8(b@);
    }
    if x.len() != y.len() {
        return false;
    }
    let mut i: usize = 0;
    while i < x.len()
        invariant
            i <= x.len(),
            x.len() == y.len(),
            x@ == encode_utf8(a@),
            y@ == encode_utf8(b@),
            forall|j: int| 0 <= j < i ==> x@[j] == y@[j],
        decreases x.len() - i,
    {
        if x[i] != y[i] {
            return false;
        }
        i = i + 1;
    }
    assert(x@ =~= y@);
    proof {
        encode_utf8_decode_utf8(a@);
        encode_utf8_decode_utf8(b@);
    }
    true
}

} // verus!
