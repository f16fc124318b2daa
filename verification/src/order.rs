//! The order in which textual keys are kept: byte-wise lexicographic order
//! of their UTF-8 encodings, which is the order of `str`.

use vstd::prelude::*;
use vstd::utf8::*;

verus! {

/// `a` sorts strictly before `b` in lexicographic byte order.
pub open spec fn bytes_lt(a: Seq<u8>, b: Seq<u8>) -> bool {
    exists|i: int| #![trigger a.take(i), b.take(i)]
        0 <= i <= a.len() && i <= b.len() && a.take(i) =~= b.take(i) && ((i == a.len() && i < b.len())
            || (i < a.len() && i < b.len() && a[i] < b[i]))
}

/// The key `a` sorts strictly before the key `b`.
pub open spec fn key_lt(a: Seq<char>, b: Seq<char>) -> bool {
    bytes_lt(encode_utf8(a), encode_utf8(b))
}

/// No byte sequence sorts before itself.
pub proof fn lemma_bytes_lt_irreflexive(a: Seq<u8>)
    ensures
        !bytes_lt(a, a),
{
}

/// Two byte sequences never sort before each other.
pub proof fn lemma_bytes_lt_asymmetric(a: Seq<u8>, b: Seq<u8>)
    ensures
        !(bytes_lt(a, b) && bytes_lt(b, a)),
{
    if bytes_lt(a, b) && bytes_lt(b, a) {
        let i = choose|i: int| #![trigger a.take(i), b.take(i)]
            0 <= i <= a.len() && i <= b.len() && a.take(i) =~= b.take(i) && ((i == a.len() && i < b.len())
                || (i < a.len() && i < b.len() && a[i] < b[i]));
        let j = choose|j: int| #![trigger b.take(j), a.take(j)]
            0 <= j <= b.len() && j <= a.len() && b.take(j) =~= a.take(j) && ((j == b.len() && j < a.len())
                || (j < b.len() && j < a.len() && b[j] < a[j]));
        if i < j {
            assert(a.take(j)[i] == b.take(j)[i]);
        } else if j < i {
            assert(a.take(i)[j] == b.take(i)[j]);
        }
    }
}

/// Sorting before is transitive.
pub proof fn lemma_bytes_lt_transitive(a: Seq<u8>, b: Seq<u8>, c: Seq<u8>)
    requires
        bytes_lt(a, b),
        bytes_lt(b, c),
    ensures
        bytes_lt(a, c),
{
    let i = choose|i: int| #![trigger a.take(i), b.take(i)]
        0 <= i <= a.len() && i <= b.len() && a.take(i) =~= b.take(i) && ((i == a.len() && i < b.len())
            || (i < a.len() && i < b.len() && a[i] < b[i]));
    let j = choose|j: int| #![trigger b.take(j), c.take(j)]
        0 <= j <= b.len() && j <= c.len() && b.take(j) =~= c.take(j) && ((j == b.len() && j < c.len())
            || (j < b.len() && j < c.len() && b[j] < c[j]));
    if i <= j {
        assert(a.take(i) =~= c.take(i)) by {
            assert forall|k: int| 0 <= k < i implies a.take(i)[k] == c.take(i)[k] by {
                assert(a.take(i)[k] == b.take(i)[k]);
                assert(b.take(j)[k] == c.take(j)[k]);
            }
        }
        if i < j {
            assert(b.take(j)[i] == c.take(j)[i]);
        }
        assert(a.take(i) =~= c.take(i));
    } else {
        assert(a.take(j) =~= c.take(j)) by {
            assert forall|k: int| 0 <= k < j implies a.take(j)[k] == c.take(j)[k] by {
                assert(a.take(i)[k] == b.take(i)[k]);
                assert(b.take(j)[k] == c.take(j)[k]);
            }
        }
        assert(a.take(i)[j] == b.take(i)[j]);
        assert(a.take(j) =~= c.take(j));
    }
}

/// Two keys with the same encoding are the same key.
pub proof fn lemma_encode_injective(a: Seq<char>, b: Seq<char>)
    requires
        encode_utf8(a) == encode_utf8(b),
    ensures
        a == b,
{
    encode_utf8_decode_utf8(a);
    encode_utf8_decode_utf8(b);
}

/// No key sorts before itself.
pub proof fn lemma_key_lt_irreflexive(a: Seq<char>)
    ensures
        !key_lt(a, a),
{
    lemma_bytes_lt_irreflexive(encode_utf8(a));
}

/// Two keys never sort before each other.
pub proof fn lemma_key_lt_asymmetric(a: Seq<char>, b: Seq<char>)
    ensures
        !(key_lt(a, b) && key_lt(b, a)),
{
    lemma_bytes_lt_asymmetric(encode_utf8(a), encode_utf8(b));
}

/// Key order is transitive.
pub proof fn lemma_key_lt_transitive(a: Seq<char>, b: Seq<char>, c: Seq<char>)
    requires
        key_lt(a, b),
        key_lt(b, c),
    ensures
        key_lt(a, c),
{
    lemma_bytes_lt_transitive(encode_utf8(a), encode_utf8(b), encode_utf8(c));
}

/// The outcome of comparing two keys.
pub enum KeyOrder {
    Less,
    Equal,
    Greater,
}

/// Compares two keys in the order `str` itself uses.
pub fn compare_keys(a: &str, b: &str) -> (r: KeyOrder)
    ensures
        r is Less <==> key_lt(a@, b@),
        r is Equal <==> a@ == b@,
        r is Greater <==> key_lt(b@, a@),
{
    let x = a.as_bytes();
    let y = b.as_bytes();
    let ghost ea = encode_utf8(a@);
    let ghost eb = encode_utf8(b@);
    assert(x@ == ea);
    assert(y@ == eb);
    proof {
        lemma_key_lt_asymmetric(a@, b@);
        lemma_key_lt_irreflexive(a@);
    }
    let mut i: usize = 0;
    while i < x.len() && i < y.len()
        invariant
            x@ == ea,
            y@ == eb,
            ea == encode_utf8(a@),
            eb == encode_utf8(b@),
            i <= x@.len(),
            i <= y@.len(),
            x@.take(i as int) =~= y@.take(i as int),
        decreases x@.len() - i,
    {
        if x[i] < y[i] {
            assert(bytes_lt(ea, eb));
            proof {
                lemma_key_lt_asymmetric(a@, b@);
                if a@ == b@ {
                    lemma_key_lt_irreflexive(a@);
                }
            }
            return KeyOrder::Less;
        }
        if x[i] > y[i] {
            assert(bytes_lt(eb, ea));
            proof {
                lemma_key_lt_asymmetric(a@, b@);
                if a@ == b@ {
                    lemma_key_lt_irreflexive(a@);
                }
            }
            return KeyOrder::Greater;
        }
        assert(x@.take(i + 1) =~= y@.take(i + 1)) by {
            assert(x@.take(i + 1) =~= x@.take(i as int).push(x@[i as int]));
            assert(y@.take(i + 1) =~= y@.take(i as int).push(y@[i as int]));
        }
        i = i + 1;
    }
    if x.len() < y.len() {
        assert(bytes_lt(ea, eb));
        proof {
            if a@ == b@ {
                lemma_key_lt_irreflexive(a@);
            }
        }
        KeyOrder::Less
    } else if x.len() > y.len() {
        assert(bytes_lt(eb, ea));
        proof {
            if a@ == b@ {
                lemma_key_lt_irreflexive(a@);
            }
        }
        KeyOrder::Greater
    } else {
        assert(ea =~= x@.take(i as int));
        assert(eb =~= y@.take(i as int));
        proof {
            lemma_encode_injective(a@, b@);
            lemma_key_lt_irreflexive(a@);
        }
        KeyOrder::Equal
    }
}

} // verus!
