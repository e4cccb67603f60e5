//! The mathematical model of a wrapped 32-bit sum, and the sequential reducer.

use vstd::prelude::*;

verus! {

/// The exact sum of `s` over the unbounded integers.
pub open spec fn total(s: Seq<i32>) -> int
    decreases s.len(),
{
    if s.len() == 0 {
        0
    } else {
        total(s.drop_last()) + s.last()
    }
}

/// The one 32-bit signed integer that differs from `v` by a multiple of 2^32.
pub open spec fn wrap(v: int) -> i32 {
    let r = v % 0x1_0000_0000;
    if r >= 0x8000_0000 {
        (r - 0x1_0000_0000) as i32
    } else {
        r as i32
    }
}

/// The sum of `s` in 32-bit wraparound arithmetic.
pub open spec fn wrapping_sum(s: Seq<i32>) -> i32 {
    wrap(total(s))
}

/// A value and its wrapped form leave the same residue modulo 2^32.
pub proof fn lemma_wrap_congruent(v: int)
    ensures
        (wrap(v) as int) % 0x1_0000_0000 == v % 0x1_0000_0000,
{
    let r = v % 0x1_0000_0000;
    if r >= 0x8000_0000 {
        vstd::arithmetic::div_mod::lemma_mod_multiples_vanish(-1, r, 0x1_0000_0000);
    }
    vstd::arithmetic::div_mod::lemma_small_mod(r as nat, 0x1_0000_0000);
}

/// Two values with the same residue modulo 2^32 wrap to the same integer.
pub proof fn lemma_wrap_by_residue(a: int, b: int)
    requires
        a % 0x1_0000_0000 == b % 0x1_0000_0000,
    ensures
        wrap(a) == wrap(b),
{
}

/// A term may be wrapped before it is added without changing the wrapped sum.
pub proof fn lemma_wrap_add(a: int, b: int)
    ensures
        wrap(a + wrap(b)) == wrap(a + b),
        wrap(wrap(a) + b) == wrap(a + b),
        wrap(wrap(a) + wrap(b)) == wrap(a + b),
{
    let m: int = 0x1_0000_0000;
    lemma_wrap_congruent(a);
    lemma_wrap_congruent(b);
    vstd::arithmetic::div_mod::lemma_add_mod_noop(a, b, m);
    vstd::arithmetic::div_mod::lemma_add_mod_noop(a, wrap(b) as int, m);
    vstd::arithmetic::div_mod::lemma_add_mod_noop(wrap(a) as int, b, m);
    vstd::arithmetic::div_mod::lemma_add_mod_noop(wrap(a) as int, wrap(b) as int, m);
    lemma_wrap_by_residue(a + wrap(b), a + b);
    lemma_wrap_by_residue(wrap(a) + b, a + b);
    lemma_wrap_by_residue(wrap(a) + wrap(b), a + b);
}

/// One machine `wrapping_add` is one step of the wrapped sum.
pub proof fn lemma_wrapping_add_is_wrap(x: i32, y: i32)
    ensures
        vstd::wrapping::i32_specs::wrapping_add(x, y) == wrap(x + y),
{
}

/// The exact sum of a concatenation is the sum of the exact sums.
pub proof fn lemma_total_concat(a: Seq<i32>, b: Seq<i32>)
    ensures
        total(a + b) == total(a) + total(b),
    decreases b.len(),
{
    if b.len() == 0 {
        assert(a + b =~= a);
    } else {
        assert((a + b).drop_last() =~= a + b.drop_last());
        lemma_total_concat(a, b.drop_last());
    }
}

/// Extending a prefix by one element adds that element to the exact sum.
pub proof fn lemma_total_prefix_step(s: Seq<i32>, i: int)
    requires
        0 <= i < s.len(),
    ensures
        total(s.subrange(0, i + 1)) == total(s.subrange(0, i)) + s[i],
{
    assert(s.subrange(0, i + 1).drop_last() =~= s.subrange(0, i));
}

/// Taking one element out lowers the exact sum by that element.
pub proof fn lemma_total_remove(s: Seq<i32>, i: int)
    requires
        0 <= i < s.len(),
    ensures
        total(s) == total(s.remove(i)) + s[i],
    decreases s.len(),
{
    if i == s.len() - 1 {
        assert(s.remove(i) =~= s.drop_last());
    } else {
        assert(s.remove(i).drop_last() =~= s.drop_last().remove(i));
        lemma_total_remove(s.drop_last(), i);
    }
}

/// The order of the terms does not matter: two sequences that hold the same
/// elements the same number of times have the same wrapped sum.
pub proof fn lemma_sum_order_irrelevant(p: Seq<i32>, q: Seq<i32>)
    requires
        p.to_multiset() == q.to_multiset(),
    ensures
        total(p) == total(q),
        wrapping_sum(p) == wrapping_sum(q),
    decreases p.len(),
{
    p.to_multiset_ensures();
    q.to_multiset_ensures();
    if p.len() == 0 {
        assert(q.len() == 0);
    } else {
        let x = p.last();
        assert(p[p.len() - 1] == x);
        assert(p.to_multiset().count(x) > 0);
        assert(q.to_multiset().count(x) > 0);
        assert(q.contains(x));
        let j = choose|j: int| 0 <= j < q.len() && q[j] == x;
        assert(p.drop_last() =~= p.remove(p.len() - 1));
        assert(p.remove(p.len() - 1).to_multiset() == p.to_multiset().remove(x));
        assert(q.remove(j).to_multiset() == q.to_multiset().remove(x));
        lemma_sum_order_irrelevant(p.drop_last(), q.remove(j));
        lemma_total_remove(q, j);
    }
}

/// The wrapped sum of a slice of integers.
pub fn sum_slice(x: &[i32]) -> (r: i32)
    ensures
        r == wrapping_sum(x@),
{
    let mut acc: i32 = 0;
    let mut i: usize = 0;
    while i < x.len()
        invariant
            i <= x@.len(),
            acc == wrap(total(x@.subrange(0, i as int))),
        decreases x@.len() - i,
    {
        proof {
            lemma_total_prefix_step(x@, i as int);
            lemma_wrapping_add_is_wrap(acc, x[i as int]);
            lemma_wrap_add(total(x@.subrange(0, i as int)), x[i as int] as int);
        }
        acc = acc.wrapping_add(x[i]);
        i = i + 1;
    }
    proof {
        assert(x@.subrange(0, i as int) =~= x@);
    }
    acc
}

/// The sequential reducer: the wrapped sum of `x`, which is 0 for an empty
/// sequence.
pub fn sum_single_thread(x: Vec<i32>) -> (r: i32)
    ensures
        r == wrapping_sum(x@),
        x@.len() == 0 ==> r == 0,
{
    sum_slice(x.as_slice())
}

} // verus!
