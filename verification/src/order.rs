//! The order in which the database keeps its keys: bytewise, on the UTF-8 encoding of
//! the strings a key is made of.

use vstd::prelude::*;
use vstd::utf8::encode_utf8;

verus! {

/// `a` and `b` agree before position `i`, and `a` is the smaller one there: either it
/// ends where `b` goes on, or its byte is the smaller of the two.
pub open spec fn splits_at(a: Seq<u8>, b: Seq<u8>, i: int) -> bool {
    &&& 0 <= i <= a.len()
    &&& i < b.len()
    &&& forall|j: int| 0 <= j < i ==> a[j] == b[j]
    &&& i == a.len() || a[i] < b[i]
}

/// The lexicographic order on byte strings.
pub open spec fn bytes_before(a: Seq<u8>, b: Seq<u8>) -> bool {
    exists|i: int| #[trigger] splits_at(a, b, i)
}

/// The order of two strings as database keys.
pub open spec fn str_before(a: Seq<char>, b: Seq<char>) -> bool {
    bytes_before(encode_utf8(a), encode_utf8(b))
}

proof fn lemma_bytes_irreflexive(a: Seq<u8>)
    ensures
        !bytes_before(a, a),
{
}

proof fn lemma_bytes_transitive(a: Seq<u8>, b: Seq<u8>, c: Seq<u8>)
    requires
        bytes_before(a, b),
        bytes_before(b, c),
    ensures
        bytes_before(a, c),
{
    let i = choose|i: int| #[trigger] splits_at(a, b, i);
    let j = choose|j: int| #[trigger] splits_at(b, c, j);
    let k = if i < j {
        i
    } else {
        j
    };
    assert(splits_at(a, c, k));
}

/// No string comes before itself.
pub proof fn lemma_str_irreflexive(a: Seq<char>)
    ensures
        !str_before(a, a),
{
    lemma_bytes_irreflexive(encode_utf8(a));
}

/// The order of strings is transitive.
pub proof fn lemma_str_transitive(a: Seq<char>, b: Seq<char>, c: Seq<char>)
    requires
        str_before(a, b),
        str_before(b, c),
    ensures
        str_before(a, c),
{
    lemma_bytes_transitive(encode_utf8(a), encode_utf8(b), encode_utf8(c));
}

/// How two values compare.
#[derive(Clone, Copy, PartialEq, Eq, Debug)]
pub enum Rank {
    Before,
    Same,
    After,
}

/// Compares two strings in the order of database keys.
pub fn rank_str(a: &str, b: &str) -> (r: Rank)
    ensures
        r is Before <==> str_before(a@, b@),
        r is Same <==> a@ == b@,
        r is After <==> str_before(b@, a@),
{
    broadcast use vstd::utf8::encode_utf8_decode_utf8;

    let x = a.as_bytes();
    let y = b.as_bytes();
    let mut i: usize = 0;
    proof {
        lemma_str_irreflexive(a@);
        if str_before(a@, b@) && str_before(b@, a@) {
            lemma_str_transitive(a@, b@, a@);
        }
        assert(x@ == encode_utf8(a@));
        assert(y@ == encode_utf8(b@));
    }
    while i < x.len() && i < y.len()
        invariant
            x@ == encode_utf8(a@),
            y@ == encode_utf8(b@),
            i <= x@.len(),
            i <= y@.len(),
            forall|j: int| 0 <= j < i ==> x@[j] == y@[j],
            !(str_before(a@, b@) && str_before(b@, a@)),
            !str_before(a@, a@),
        decreases x.len() - i,
    {
        if x[i] < y[i] {
            assert(splits_at(x@, y@, i as int));
            return Rank::Before;
        }
        if y[i] < x[i] {
            assert(splits_at(y@, x@, i as int));
            return Rank::After;
        }
        i = i + 1;
    }
    if i < y.len() {
        assert(splits_at(x@, y@, i as int));
        Rank::Before
    } else if i < x.len() {
        assert(splits_at(y@, x@, i as int));
        Rank::After
    } else {
        assert(x@ =~= y@);
        assert(vstd::utf8::decode_utf8(encode_utf8(a@)) == a@);
        assert(vstd::utf8::decode_utf8(encode_utf8(b@)) == b@);
        Rank::Same
    }
}

/// Of two different strings one comes before the other.
pub proof fn lemma_str_total(a: Seq<char>, b: Seq<char>)
    ensures
        a == b || str_before(a, b) || str_before(b, a),
{
    broadcast use vstd::utf8::encode_utf8_decode_utf8;

    let x = encode_utf8(a);
    let y = encode_utf8(b);
    lemma_bytes_total(x, y, 0);
    if x == y {
        assert(vstd::utf8::decode_utf8(x) == a && vstd::utf8::decode_utf8(y) == b);
    }
}

proof fn lemma_bytes_total(a: Seq<u8>, b: Seq<u8>, i: int)
    requires
        0 <= i <= a.len(),
        i <= b.len(),
        forall|j: int| 0 <= j < i ==> a[j] == b[j],
    ensures
        a == b || bytes_before(a, b) || bytes_before(b, a),
    decreases a.len() - i,
{
    if i == a.len() && i == b.len() {
        assert(a =~= b);
    } else if i == a.len() {
        assert(splits_at(a, b, i));
    } else if i == b.len() {
        assert(splits_at(b, a, i));
    } else if a[i] < b[i] {
        assert(splits_at(a, b, i));
    } else if b[i] < a[i] {
        assert(splits_at(b, a, i));
    } else {
        lemma_bytes_total(a, b, i + 1);
    }
}

/// Whether two strings are the same.
pub fn same_str(a: &str, b: &str) -> (r: bool)
    ensures
        r == (a@ == b@),
{
    matches!(rank_str(a, b), Rank::Same)
}

/// Texts are in the order of their bytes: one that another one begins with comes before it, and
/// of two that differ somewhere, with all before alike, the one with the smaller byte there.
pub proof fn law_byte_order(a: Seq<char>, b: Seq<char>, i: int)
    requires
        0 <= i <= encode_utf8(a).len(),
        i < encode_utf8(b).len(),
        encode_utf8(a).take(i) == encode_utf8(b).take(i),
    ensures
        i == encode_utf8(a).len() ==> str_before(a, b),
        i < encode_utf8(a).len() && encode_utf8(a)[i] < encode_utf8(b)[i] ==> str_before(a, b)
            && !str_before(b, a),
        i < encode_utf8(a).len() && encode_utf8(b)[i] < encode_utf8(a)[i] ==> str_before(b, a)
            && !str_before(a, b),
{
    let x = encode_utf8(a);
    let y = encode_utf8(b);
    assert forall|j: int| 0 <= j < i implies x[j] == y[j] by {
        assert(x.take(i)[j] == y.take(i)[j]);
    }
    if i == x.len() || x[i] < y[i] {
        assert(splits_at(x, y, i));
        if str_before(b, a) {
            lemma_str_transitive(a, b, a);
            lemma_str_irreflexive(a);
        }
    } else if y[i] < x[i] {
        assert(splits_at(y, x, i));
        if str_before(a, b) {
            lemma_str_transitive(a, b, a);
            lemma_str_irreflexive(a);
        }
    }
}

} // verus!
