use vstd::prelude::*;

verus! {

/// Mathematical sum of a sequence of chip counts.
pub open spec fn sum_u32(s: Seq<u32>) -> int
    decreases s.len(),
{
    if s.len() == 0 {
        0
    } else {
        s[0] + sum_u32(s.drop_first())
    }
}

/// A sum of chip counts is never negative.
pub proof fn lemma_sum_nonneg(s: Seq<u32>)
    ensures
        0 <= sum_u32(s),
    decreases s.len(),
{
    if s.len() > 0 {
        lemma_sum_nonneg(s.drop_first());
    }
}

/// Each entry is at most the whole sum.
pub proof fn lemma_sum_elem_le(s: Seq<u32>, i: int)
    requires
        0 <= i < s.len(),
    ensures
        s[i] <= sum_u32(s),
    decreases s.len(),
{
    lemma_sum_nonneg(s.drop_first());
    if i > 0 {
        lemma_sum_elem_le(s.drop_first(), i - 1);
    }
}

/// Replacing one entry shifts the sum by the difference.
pub proof fn lemma_sum_update(s: Seq<u32>, i: int, v: u32)
    requires
        0 <= i < s.len(),
    ensures
        sum_u32(s.update(i, v)) == sum_u32(s) - s[i] + v,
    decreases s.len(),
{
    if i == 0 {
        assert(s.update(0, v).drop_first() =~= s.drop_first());
    } else {
        assert(s.update(i, v).drop_first() =~= s.drop_first().update(i - 1, v));
        lemma_sum_update(s.drop_first(), i - 1, v);
    }
}

/// A sequence of zeroes sums to zero.
pub proof fn lemma_sum_zero(s: Seq<u32>)
    requires
        forall|i: int| 0 <= i < s.len() ==> s[i] == 0,
    ensures
        sum_u32(s) == 0,
    decreases s.len(),
{
    if s.len() > 0 {
        lemma_sum_zero(s.drop_first());
    }
}

/// A constant sequence sums to length times the constant.
pub proof fn lemma_sum_constant(s: Seq<u32>, c: u32)
    requires
        forall|i: int| 0 <= i < s.len() ==> s[i] == c,
    ensures
        sum_u32(s) == s.len() * c,
    decreases s.len(),
{
    if s.len() == 0 {
    } else {
        lemma_sum_constant(s.drop_first(), c);
        assert(s.len() * c == (s.len() - 1) * c + c) by (nonlinear_arith);
    }
}

/// Appending an entry adds it to the sum.
pub proof fn lemma_sum_push(s: Seq<u32>, v: u32)
    ensures
        sum_u32(s.push(v)) == sum_u32(s) + v,
    decreases s.len(),
{
    if s.len() == 0 {
        assert(s.push(v).drop_first() =~= Seq::<u32>::empty());
        assert(s.push(v)[0] == v);
        assert(sum_u32(Seq::<u32>::empty()) == 0);
    } else {
        assert(s.push(v).drop_first() =~= s.drop_first().push(v));
        assert(s.push(v)[0] == s[0]);
        lemma_sum_push(s.drop_first(), v);
    }
}

} // verus!
