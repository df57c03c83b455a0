//! Bytewise lexicographic order.

use vstd::prelude::*;

verus! {

/// Whether `left` comes strictly before `right` in lexicographic order.
pub open spec fn bytes_before(left: Seq<u8>, right: Seq<u8>) -> bool
    decreases left.len(),
{
    if right.len() == 0 {
        false
    } else if left.len() == 0 {
        true
    } else if left[0] == right[0] {
        bytes_before(left.skip(1), right.skip(1))
    } else {
        left[0] < right[0]
    }
}

pub fn is_bytes_before(left: &[u8], right: &[u8]) -> (before: bool)
    ensures
        before == bytes_before(left@, right@),
{
    let mut i: usize = 0;
    assert(left@.skip(0) =~= left@);
    assert(right@.skip(0) =~= right@);
    while i < left.len() && i < right.len()
        invariant
            i <= left@.len(),
            i <= right@.len(),
            bytes_before(left@, right@) == bytes_before(left@.skip(i as int), right@.skip(i as int)),
        decreases left@.len() - i,
    {
        if left[i] != right[i] {
            return left[i] < right[i];
        }
        assert(left@.skip(i as int).skip(1) =~= left@.skip(i + 1));
        assert(right@.skip(i as int).skip(1) =~= right@.skip(i + 1));
        i += 1;
    }
    i < right.len()
}

/// The order is irreflexive and transitive, and any two different sequences
/// are ordered one way.
pub proof fn law_byte_order_is_strict_and_total(a: Seq<u8>, b: Seq<u8>, c: Seq<u8>)
    ensures
        !bytes_before(a, a),
        bytes_before(a, b) && bytes_before(b, c) ==> bytes_before(a, c),
        a == b || bytes_before(a, b) || bytes_before(b, a),
        !(bytes_before(a, b) && bytes_before(b, a)),
    decreases a.len() + b.len() + c.len(),
{
    if a.len() > 0 {
        let b2 = if b.len() > 0 {
            b.skip(1)
        } else {
            b
        };
        let c2 = if c.len() > 0 {
            c.skip(1)
        } else {
            c
        };
        law_byte_order_is_strict_and_total(a.skip(1), b2, c2);
        if b.len() > 0 && a[0] == b[0] && a.skip(1) == b.skip(1) {
            assert(a =~= seq![a[0]] + a.skip(1));
            assert(b =~= seq![b[0]] + b.skip(1));
        }
    } else if b.len() == 0 {
        assert(a =~= b);
    }
}

/// Byte strings are ordered by the first byte in which they differ, and a
/// beginning comes before what it begins.
pub proof fn law_first_difference_decides(
    common: Seq<u8>,
    left: Seq<u8>,
    right: Seq<u8>,
)
    ensures
        left.len() > 0 && right.len() > 0 && left[0] < right[0] ==> bytes_before(
            common + left,
            common + right,
        ) && !bytes_before(common + right, common + left),
        right.len() > 0 ==> bytes_before(common, common + right) && !bytes_before(
            common + right,
            common,
        ),
    decreases common.len(),
{
    if common.len() > 0 {
        law_first_difference_decides(common.skip(1), left, right);
        assert((common + left).skip(1) =~= common.skip(1) + left);
        assert((common + right).skip(1) =~= common.skip(1) + right);
    } else {
        assert(common + left =~= left);
        assert(common + right =~= right);
    }
}

} // verus!
