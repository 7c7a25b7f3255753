use itertools::Itertools;
use vstd::prelude::*;

verus! {

/// The most combinations that are ever laid out.
pub const MAX_COMBINATIONS: usize = 1_000_000;

/// The sizes as numbers.
pub open spec fn as_ints(sizes: Seq<usize>) -> Seq<int> {
    Seq::new(sizes.len(), |i: int| sizes[i] as int)
}

/// How many tuples there are with one index for each size, each index below
/// its size: the product of the sizes, which is 1 for no sizes.
pub open spec fn tuple_count(sizes: Seq<int>) -> int
    decreases sizes.len(),
{
    if sizes.len() == 0 {
        1
    } else {
        sizes[0] * tuple_count(sizes.drop_first())
    }
}

/// Tuple number `k` in the order in which the last index moves fastest: its
/// first index is `k` divided by the number of tuples of the other sizes,
/// and its other indices are those of the remainder.
pub open spec fn tuple_at(sizes: Seq<int>, k: int) -> Seq<int>
    decreases sizes.len(),
{
    if sizes.len() == 0 {
        Seq::empty()
    } else {
        let rest = sizes.drop_first();
        seq![k / tuple_count(rest)] + tuple_at(rest, k % tuple_count(rest))
    }
}

/// Whether a tuple has one index for each size, each index below its size.
pub open spec fn is_tuple_of(tuple: Seq<int>, sizes: Seq<int>) -> bool {
    &&& tuple.len() == sizes.len()
    &&& forall|j: int| 0 <= j < tuple.len() ==> 0 <= #[trigger] tuple[j] < sizes[j]
}

/// The number of a tuple in the order in which the last index moves fastest.
pub open spec fn tuple_number(sizes: Seq<int>, tuple: Seq<int>) -> int
    decreases sizes.len(),
{
    if sizes.len() == 0 || tuple.len() == 0 {
        0
    } else {
        tuple[0] * tuple_count(sizes.drop_first()) + tuple_number(
            sizes.drop_first(),
            tuple.drop_first(),
        )
    }
}

/// Calls `Itertools::multi_cartesian_product` on the ranges from 0 to each
/// size and collects what it yields: every tuple of one index for each size,
/// in the order in which the last index moves fastest. No sizes give the one
/// empty tuple.
#[verifier::external_body]
pub(crate) fn index_combinations(sizes: &Vec<usize>) -> (tuples: Vec<Vec<usize>>)
    requires
        tuple_count(as_ints(sizes@)) <= MAX_COMBINATIONS,
    ensures
        tuples@.len() == tuple_count(as_ints(sizes@)),
        forall|k: int|
            0 <= k < tuples@.len() ==> as_ints((#[trigger] tuples@[k])@) == tuple_at(
                as_ints(sizes@),
                k,
            ),
{
    sizes.iter().map(|n| 0..*n).multi_cartesian_product().collect()
}

/// With sizes from 0 to a bound, there are not more tuples than the bound
/// to the power of the number of sizes.
pub proof fn lemma_tuple_count_bound(sizes: Seq<int>, bound: int)
    requires
        forall|j: int| 0 <= j < sizes.len() ==> 0 <= #[trigger] sizes[j] <= bound,
    ensures
        0 <= tuple_count(sizes) <= vstd::arithmetic::power::pow(bound, sizes.len()),
    decreases sizes.len(),
{
    reveal(vstd::arithmetic::power::pow);
    if sizes.len() > 0 {
        let rest = sizes.drop_first();
        assert forall|j: int| 0 <= j < rest.len() implies 0 <= #[trigger] rest[j] <= bound by {
            assert(rest[j] == sizes[j + 1]);
        }
        lemma_tuple_count_bound(rest, bound);
        let most = vstd::arithmetic::power::pow(bound, rest.len());
        assert(0 <= sizes[0] * tuple_count(rest) <= bound * most) by (nonlinear_arith)
            requires
                0 <= sizes[0] <= bound,
                0 <= tuple_count(rest) <= most,
        ;
    }
}

/// With sizes that are not negative, the number of tuples is not negative,
/// and it is positive where all sizes are.
pub proof fn lemma_tuple_count_positive(sizes: Seq<int>)
    requires
        forall|j: int| 0 <= j < sizes.len() ==> #[trigger] sizes[j] >= 0,
    ensures
        tuple_count(sizes) >= 0,
        (forall|j: int| 0 <= j < sizes.len() ==> #[trigger] sizes[j] >= 1) ==> tuple_count(sizes)
            >= 1,
    decreases sizes.len(),
{
    if sizes.len() > 0 {
        let rest = sizes.drop_first();
        assert forall|j: int| 0 <= j < rest.len() implies #[trigger] rest[j] >= 0 by {
            assert(rest[j] == sizes[j + 1]);
        }
        lemma_tuple_count_positive(rest);
        assert(sizes[0] * tuple_count(rest) >= 0) by (nonlinear_arith)
            requires
                sizes[0] >= 0,
                tuple_count(rest) >= 0,
        ;
        if forall|j: int| 0 <= j < sizes.len() ==> #[trigger] sizes[j] >= 1 {
            assert forall|j: int| 0 <= j < rest.len() implies #[trigger] rest[j] >= 1 by {
                assert(rest[j] == sizes[j + 1]);
            }
            assert(sizes[0] * tuple_count(rest) >= 1) by (nonlinear_arith)
                requires
                    sizes[0] >= 1,
                    tuple_count(rest) >= 1,
            ;
        }
    }
}

/// Every tuple in the order has one index for each size, each index below
/// its size.
pub proof fn lemma_tuple_at_is_tuple(sizes: Seq<int>, k: int)
    requires
        forall|j: int| 0 <= j < sizes.len() ==> #[trigger] sizes[j] >= 0,
        0 <= k < tuple_count(sizes),
    ensures
        is_tuple_of(tuple_at(sizes, k), sizes),
    decreases sizes.len(),
{
    if sizes.len() > 0 {
        let rest = sizes.drop_first();
        let c = tuple_count(rest);
        assert forall|j: int| 0 <= j < rest.len() implies #[trigger] rest[j] >= 0 by {
            assert(rest[j] == sizes[j + 1]);
        }
        lemma_tuple_count_positive(rest);
        assert(c > 0) by (nonlinear_arith)
            requires
                0 <= k < sizes[0] * c,
                c >= 0,
                sizes[0] >= 0,
        ;
        vstd::arithmetic::div_mod::lemma_fundamental_div_mod(k, c);
        vstd::arithmetic::div_mod::lemma_div_pos_is_pos(k, c);
        vstd::arithmetic::div_mod::lemma_mod_bound(k, c);
        assert(k / c < sizes[0]) by (nonlinear_arith)
            requires
                k == c * (k / c) + k % c,
                0 <= k % c,
                k < sizes[0] * c,
                c > 0,
        ;
        lemma_tuple_at_is_tuple(rest, k % c);
        let tuple = tuple_at(sizes, k);
        let tail = tuple_at(rest, k % c);
        assert(tuple == seq![k / c] + tail);
        assert forall|j: int| 0 <= j < tuple.len() implies 0 <= #[trigger] tuple[j] < sizes[j] by {
            if j > 0 {
                assert(tuple[j] == tail[j - 1]);
                assert(rest[j - 1] == sizes[j]);
            }
        }
    }
}

/// The first tuple in the order has index 0 everywhere.
pub proof fn lemma_first_tuple(sizes: Seq<int>)
    requires
        forall|j: int| 0 <= j < sizes.len() ==> #[trigger] sizes[j] >= 1,
    ensures
        tuple_at(sizes, 0).len() == sizes.len(),
        forall|j: int| 0 <= j < sizes.len() ==> #[trigger] tuple_at(sizes, 0)[j] == 0,
    decreases sizes.len(),
{
    if sizes.len() > 0 {
        let rest = sizes.drop_first();
        let c = tuple_count(rest);
        assert forall|j: int| 0 <= j < rest.len() implies #[trigger] rest[j] >= 1 by {
            assert(rest[j] == sizes[j + 1]);
        }
        assert forall|j: int| 0 <= j < rest.len() implies #[trigger] rest[j] >= 0 by {
            assert(rest[j] == sizes[j + 1]);
        }
        lemma_tuple_count_positive(rest);
        vstd::arithmetic::div_mod::lemma_small_mod(0, c as nat);
        vstd::arithmetic::div_mod::lemma_div_basics(c);
        lemma_first_tuple(rest);
        let tuple = tuple_at(sizes, 0);
        let tail = tuple_at(rest, 0);
        assert(tuple == seq![0int] + tail);
        assert forall|j: int| 0 <= j < sizes.len() implies #[trigger] tuple[j] == 0 by {
            if j > 0 {
                assert(tuple[j] == tail[j - 1]);
            }
        }
    }
}

/// Every tuple of one index for each size stands in the order, at its
/// number.
pub proof fn lemma_tuple_is_listed(sizes: Seq<int>, tuple: Seq<int>)
    requires
        forall|j: int| 0 <= j < sizes.len() ==> #[trigger] sizes[j] >= 0,
        is_tuple_of(tuple, sizes),
    ensures
        0 <= tuple_number(sizes, tuple) < tuple_count(sizes),
        tuple_at(sizes, tuple_number(sizes, tuple)) == tuple,
    decreases sizes.len(),
{
    if sizes.len() == 0 {
        assert(tuple == Seq::<int>::empty());
    } else {
        let rest = sizes.drop_first();
        let tail = tuple.drop_first();
        let c = tuple_count(rest);
        assert forall|j: int| 0 <= j < rest.len() implies #[trigger] rest[j] >= 0 by {
            assert(rest[j] == sizes[j + 1]);
        }
        assert(is_tuple_of(tail, rest)) by {
            assert forall|j: int| 0 <= j < tail.len() implies 0 <= #[trigger] tail[j] < rest[j] by {
                assert(tail[j] == tuple[j + 1]);
                assert(rest[j] == sizes[j + 1]);
            }
        }
        lemma_tuple_is_listed(rest, tail);
        let m = tuple_number(rest, tail);
        let k = tuple[0] * c + m;
        assert(0 <= tuple[0] < sizes[0]);
        assert(0 <= k < sizes[0] * c) by (nonlinear_arith)
            requires
                0 <= tuple[0] < sizes[0],
                0 <= m < c,
                k == tuple[0] * c + m,
        ;
        assert(c * tuple[0] == tuple[0] * c) by (nonlinear_arith);
        vstd::arithmetic::div_mod::lemma_fundamental_div_mod_converse(k, c, tuple[0], m);
        assert(tuple_at(sizes, k) == seq![tuple[0]] + tuple_at(rest, m));
        assert(seq![tuple[0]] + tail == tuple);
    }
}

} // verus!
