//! The lexicographic order of byte strings, as `Vec<u8>` and `[u8]` compare:
//! the first differing byte decides, and a proper prefix comes first.

use std::cmp::Ordering;
use vstd::prelude::*;

verus! {

/// The bytes of `bytes` from position `start` on.
pub open spec fn suffix_from(bytes: Seq<u8>, start: usize) -> Seq<u8> {
    bytes.skip(start as int)
}

/// The order that is the reverse of `order`.
pub open spec fn reversed(order: Ordering) -> Ordering {
    match order {
        Ordering::Less => Ordering::Greater,
        Ordering::Equal => Ordering::Equal,
        Ordering::Greater => Ordering::Less,
    }
}

/// The lexicographic order of two byte strings.
pub open spec fn byte_order(left: Seq<u8>, right: Seq<u8>) -> Ordering
    decreases left.len(),
{
    if left.len() == 0 {
        if right.len() == 0 {
            Ordering::Equal
        } else {
            Ordering::Less
        }
    } else if right.len() == 0 {
        Ordering::Greater
    } else if left[0] < right[0] {
        Ordering::Less
    } else if left[0] > right[0] {
        Ordering::Greater
    } else {
        byte_order(left.drop_first(), right.drop_first())
    }
}

/// Stepping one byte further in a suffix.
proof fn lemma_suffix_step(bytes: Seq<u8>, start: usize)
    requires
        start < bytes.len(),
        bytes.len() <= usize::MAX,
    ensures
        suffix_from(bytes, start).len() == bytes.len() - start,
        suffix_from(bytes, start)[0] == bytes[start as int],
        suffix_from(bytes, start).drop_first() == suffix_from(bytes, (start + 1) as usize),
{
    assert(suffix_from(bytes, start).drop_first() =~= suffix_from(bytes, (start + 1) as usize));
}

/// The suffix from the end is empty; the suffix from the start is the whole.
proof fn lemma_suffix_ends(bytes: Seq<u8>, start: usize)
    requires
        start <= bytes.len(),
    ensures
        suffix_from(bytes, start).len() == bytes.len() - start,
        start == 0 ==> suffix_from(bytes, start) == bytes,
{
    if start == 0 {
        assert(suffix_from(bytes, start) =~= bytes);
    }
}

/// Two byte strings are in the `Equal` order exactly when they are equal.
pub proof fn law_byte_order_equal(left: Seq<u8>, right: Seq<u8>)
    ensures
        (byte_order(left, right) == Ordering::Equal) == (left == right),
    decreases left.len(),
{
    if left.len() == 0 || right.len() == 0 {
        if left.len() == 0 && right.len() == 0 {
            assert(left =~= right);
        }
    } else if left[0] == right[0] {
        law_byte_order_equal(left.drop_first(), right.drop_first());
        if left.drop_first() == right.drop_first() {
            assert(left =~= seq![left[0]] + left.drop_first());
            assert(right =~= seq![right[0]] + right.drop_first());
        }
        if left == right {
            assert(left.drop_first() =~= right.drop_first());
        }
    } else {
        assert(left != right);
    }
}

/// Where two byte strings first differ, the one whose byte there is smaller
/// (as an unsigned number) comes first.
pub proof fn law_byte_order_first_difference(left: Seq<u8>, right: Seq<u8>, index: int)
    requires
        0 <= index < left.len(),
        index < right.len(),
        forall|j: int| 0 <= j < index ==> left[j] == right[j],
        left[index] != right[index],
    ensures
        byte_order(left, right) == (if left[index] < right[index] {
            Ordering::Less
        } else {
            Ordering::Greater
        }),
    decreases index,
{
    if index > 0 {
        assert(left[0] == right[0]);
        assert forall|j: int| 0 <= j < index - 1 implies left.drop_first()[j]
            == right.drop_first()[j] by {
            assert(left[j + 1] == right[j + 1]);
        }
        law_byte_order_first_difference(left.drop_first(), right.drop_first(), index - 1);
    }
}

/// A proper prefix comes before the longer byte string.
pub proof fn law_byte_order_proper_prefix(left: Seq<u8>, right: Seq<u8>)
    requires
        left.len() < right.len(),
        forall|j: int| 0 <= j < left.len() ==> left[j] == right[j],
    ensures
        byte_order(left, right) == Ordering::Less,
        byte_order(right, left) == Ordering::Greater,
    decreases left.len(),
{
    if left.len() > 0 {
        assert(left[0] == right[0]);
        assert forall|j: int| 0 <= j < left.len() - 1 implies left.drop_first()[j]
            == right.drop_first()[j] by {
            assert(left[j + 1] == right[j + 1]);
        }
        law_byte_order_proper_prefix(left.drop_first(), right.drop_first());
    }
}

/// Swapping the two byte strings reverses their order.
pub proof fn law_byte_order_antisymmetric(left: Seq<u8>, right: Seq<u8>)
    ensures
        byte_order(right, left) == reversed(byte_order(left, right)),
    decreases left.len(),
{
    if left.len() > 0 && right.len() > 0 && left[0] == right[0] {
        law_byte_order_antisymmetric(left.drop_first(), right.drop_first());
    }
}

/// The byte order is transitive.
pub proof fn law_byte_order_transitive(first: Seq<u8>, second: Seq<u8>, third: Seq<u8>)
    requires
        byte_order(first, second) == Ordering::Less,
        byte_order(second, third) == Ordering::Less,
    ensures
        byte_order(first, third) == Ordering::Less,
    decreases first.len(),
{
    if first.len() > 0 && second.len() > 0 && third.len() > 0 && first[0] == second[0]
        && second[0] == third[0] {
        law_byte_order_transitive(first.drop_first(), second.drop_first(), third.drop_first());
    }
}

/// Compare two byte strings in lexicographic order.
pub fn compare_bytes(left: &Vec<u8>, right: &Vec<u8>) -> (order: Ordering)
    ensures
        order == byte_order(left@, right@),
{
    let mut index: usize = 0;
    proof {
        lemma_suffix_ends(left@, index);
        lemma_suffix_ends(right@, index);
    }
    while index < left.len() && index < right.len()
        invariant
            index <= left.len(),
            index <= right.len(),
            byte_order(left@, right@) == byte_order(
                suffix_from(left@, index),
                suffix_from(right@, index),
            ),
        decreases left.len() - index,
    {
        proof {
            lemma_suffix_step(left@, index);
            lemma_suffix_step(right@, index);
        }
        if left[index] < right[index] {
            return Ordering::Less;
        } else if left[index] > right[index] {
            return Ordering::Greater;
        }
        index += 1;
    }
    proof {
        lemma_suffix_ends(left@, index);
        lemma_suffix_ends(right@, index);
    }
    if index < right.len() {
        Ordering::Less
    } else if index < left.len() {
        Ordering::Greater
    } else {
        Ordering::Equal
    }
}

} // verus!
