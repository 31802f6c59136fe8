//! Ascending key order for the store.
//!
//! Keys are compared as their UTF-8 byte encodings, the order in which a
//! range scan over a namespace walks them. [`lex_lt`] is the strict
//! lexicographic order on byte sequences; [`str_cmp`] decides it executably.

use vstd::prelude::*;

verus! {

use vstd::utf8::encode_utf8;
use vstd::utf8::decode_utf8;
use vstd::utf8::encode_utf8_decode_utf8;
use vstd::string::StringSliceAdditionalSpecFns;

/// Verdict of comparing two keys.
#[derive(Clone, Copy, Debug, PartialEq, Eq, Structural)]
pub enum KeyOrder {
    Less,
    Equal,
    Greater,
}

/// Strict lexicographic order on byte sequences: `a` comes before `b` when
/// `a` is a proper prefix of `b`, or holds the smaller byte at the first
/// position where the two part.
pub open spec fn lex_lt(a: Seq<u8>, b: Seq<u8>) -> bool
    decreases a.len(),
{
    if b.len() == 0 {
        false
    } else if a.len() == 0 {
        true
    } else if a[0] < b[0] {
        true
    } else if a[0] > b[0] {
        false
    } else {
        lex_lt(a.drop_first(), b.drop_first())
    }
}

/// The UTF-8 bytes a key is stored under.
pub open spec fn key_bytes(s: Seq<char>) -> Seq<u8> {
    encode_utf8(s)
}

/// No byte sequence comes before itself.
pub proof fn lemma_lex_lt_irreflexive(a: Seq<u8>)
    ensures
        !lex_lt(a, a),
    decreases a.len(),
{
    if a.len() > 0 {
        lemma_lex_lt_irreflexive(a.drop_first());
    }
}

/// The order is transitive.
pub proof fn lemma_lex_lt_transitive(a: Seq<u8>, b: Seq<u8>, c: Seq<u8>)
    requires
        lex_lt(a, b),
        lex_lt(b, c),
    ensures
        lex_lt(a, c),
    decreases a.len() + b.len() + c.len(),
{
    if a.len() == 0 {
        // lex_lt(b, c) forces c to be non-empty, which settles lex_lt(a, c).
    } else if a[0] == b[0] && b[0] == c[0] {
        lemma_lex_lt_transitive(a.drop_first(), b.drop_first(), c.drop_first());
    }
}

/// Two keys with the same byte encoding are the same key.
pub proof fn lemma_key_bytes_injective(a: Seq<char>, b: Seq<char>)
    requires
        key_bytes(a) == key_bytes(b),
    ensures
        a == b,
{
    broadcast use encode_utf8_decode_utf8;

    assert(decode_utf8(encode_utf8(a)) == a);
    assert(decode_utf8(encode_utf8(b)) == b);
}

/// Compares two keys in the byte order the store ranges over.
pub fn str_cmp(a: &str, b: &str) -> (r: KeyOrder)
    ensures
        (r == KeyOrder::Equal) <==> a@ == b@,
        (r == KeyOrder::Less) <==> lex_lt(key_bytes(a@), key_bytes(b@)),
        (r == KeyOrder::Greater) <==> lex_lt(key_bytes(b@), key_bytes(a@)),
{
    let ab = a.as_bytes();
    let bb = b.as_bytes();
    let mut i: usize = 0;
    proof {
        assert(ab@.skip(0) =~= ab@);
        assert(bb@.skip(0) =~= bb@);
    }
    while i < ab.len() && i < bb.len()
        invariant
            ab@ == key_bytes(a@),
            bb@ == key_bytes(b@),
            i <= ab@.len(),
            i <= bb@.len(),
            forall|j: int| 0 <= j < i ==> ab@[j] == bb@[j],
            lex_lt(ab@, bb@) == lex_lt(ab@.skip(i as int), bb@.skip(i as int)),
            lex_lt(bb@, ab@) == lex_lt(bb@.skip(i as int), ab@.skip(i as int)),
        decreases ab@.len() - i,
    {
        let x = ab[i];
        let y = bb[i];
        proof {
            assert(ab@.skip(i as int)[0] == x);
            assert(bb@.skip(i as int)[0] == y);
        }
        if x < y {
            proof {
                assert(lex_lt(ab@.skip(i as int), bb@.skip(i as int)));
                assert(!lex_lt(bb@.skip(i as int), ab@.skip(i as int)));
                assert(a@ != b@) by {
                    if a@ == b@ {
                        assert(ab@ == bb@);
                    }
                }
            }
            return KeyOrder::Less;
        }
        if y < x {
            proof {
                assert(lex_lt(bb@.skip(i as int), ab@.skip(i as int)));
                assert(!lex_lt(ab@.skip(i as int), bb@.skip(i as int)));
                assert(a@ != b@) by {
                    if a@ == b@ {
                        assert(ab@ == bb@);
                    }
                }
            }
            return KeyOrder::Greater;
        }
        proof {
            assert(ab@.skip(i as int).drop_first() =~= ab@.skip(i as int + 1));
            assert(bb@.skip(i as int).drop_first() =~= bb@.skip(i as int + 1));
        }
        i = i + 1;
    }
    // Here one sequence is exhausted and the prefixes agree.
    if ab.len() == bb.len() {
        proof {
            assert(ab@ =~= bb@);
            lemma_key_bytes_injective(a@, b@);
            lemma_lex_lt_irreflexive(ab@);
        }
        KeyOrder::Equal
    } else if ab.len() < bb.len() {
        proof {
            assert(ab@.skip(i as int).len() == 0);
            assert(bb@.skip(i as int).len() > 0);
            assert(lex_lt(ab@.skip(i as int), bb@.skip(i as int)));
            assert(!lex_lt(bb@.skip(i as int), ab@.skip(i as int)));
            assert(a@ != b@) by {
                if a@ == b@ {
                    assert(ab@ == bb@);
                }
            }
        }
        KeyOrder::Less
    } else {
        proof {
            assert(bb@.skip(i as int).len() == 0);
            assert(ab@.skip(i as int).len() > 0);
            assert(lex_lt(bb@.skip(i as int), ab@.skip(i as int)));
            assert(!lex_lt(ab@.skip(i as int), bb@.skip(i as int)));
            assert(a@ != b@) by {
                if a@ == b@ {
                    assert(ab@ == bb@);
                }
            }
        }
        KeyOrder::Greater
    }
}

} // verus!
