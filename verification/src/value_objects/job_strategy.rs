//! How many runs a matrix strategy expands to.
use vstd::prelude::*;

verus! {

/// The product of the numbers in `s`.
pub open spec fn product(s: Seq<usize>) -> int
    decreases s.len(),
{
    if s.len() == 0 {
        1
    } else {
        product(s.drop_last()) * s.last()
    }
}

/// The number of combinations of a matrix whose variables have
/// `variable_sizes` values each, before `include` and `exclude`: the
/// product of the sizes, or zero for a matrix without variables.
pub open spec fn combination_count_of(variable_sizes: Seq<usize>) -> int {
    if variable_sizes.len() == 0 { 0 } else { product(variable_sizes) }
}

proof fn lemma_product_prefix_bound(s: Seq<usize>, n: int)
    requires
        0 <= n <= s.len(),
        forall|k: int| 0 <= k < s.len() ==> s[k] > 0,
    ensures
        1 <= product(s.take(n)) <= product(s),
    decreases s.len() - n,
{
    if n < s.len() {
        lemma_product_prefix_bound(s, n + 1);
        assert(s.take(n + 1).drop_last() =~= s.take(n));
        assert(s.take(n + 1).last() == s[n]);
        assert(forall|k: int| 0 <= k < s.take(n).len() ==> s.take(n)[k] == s[k]);
        lemma_product_positive(s.take(n));
        let p = product(s.take(n));
        assert(p * s[n] >= p) by (nonlinear_arith)
            requires p >= 1, s[n] >= 1;
    } else {
        assert(s.take(n) =~= s);
        lemma_product_positive(s);
    }
}

proof fn lemma_product_positive(s: Seq<usize>)
    requires
        forall|k: int| 0 <= k < s.len() ==> s[k] > 0,
    ensures
        product(s) >= 1,
    decreases s.len(),
{
    if s.len() > 0 {
        lemma_product_positive(s.drop_last());
        let p = product(s.drop_last());
        let x = s.last();
        assert(p * x >= 1) by (nonlinear_arith)
            requires p >= 1, x >= 1;
    }
}

proof fn lemma_product_zero(s: Seq<usize>, z: int)
    requires
        0 <= z < s.len(),
        s[z] == 0,
    ensures
        product(s) == 0,
    decreases s.len(),
{
    if z < s.len() - 1 {
        lemma_product_zero(s.drop_last(), z);
        let x = s.last();
        assert(0 * x == 0) by (nonlinear_arith);
    } else {
        let p = product(s.drop_last());
        assert(p * 0 == 0) by (nonlinear_arith);
    }
}

/// The number of combinations of a matrix with variables of the given
/// sizes, before `include` and `exclude`.
pub fn matrix_combination_count(variable_sizes: &[usize]) -> (r: usize)
    requires
        combination_count_of(variable_sizes@) <= usize::MAX,
    ensures
        r == combination_count_of(variable_sizes@),
{
    let n = variable_sizes.len();
    if n == 0 {
        return 0;
    }
    let mut z: usize = 0;
    while z < n
        invariant
            z <= n,
            n == variable_sizes@.len(),
            forall|k: int| 0 <= k < z ==> variable_sizes@[k] > 0,
        decreases n - z,
    {
        if variable_sizes[z] == 0 {
            proof {
                lemma_product_zero(variable_sizes@, z as int);
            }
            return 0;
        }
        z = z + 1;
    }
    let mut acc: usize = 1;
    let mut i: usize = 0;
    proof {
        assert(variable_sizes@.take(0) =~= Seq::<usize>::empty());
    }
    while i < n
        invariant
            i <= n,
            n == variable_sizes@.len(),
            forall|k: int| 0 <= k < n ==> variable_sizes@[k] > 0,
            acc == product(variable_sizes@.take(i as int)),
            product(variable_sizes@) <= usize::MAX,
        decreases n - i,
    {
        proof {
            lemma_product_prefix_bound(variable_sizes@, i + 1);
            assert(variable_sizes@.take(i + 1).drop_last() =~= variable_sizes@.take(i as int));
            assert(variable_sizes@.take(i + 1).last() == variable_sizes@[i as int]);
        }
        acc = acc * variable_sizes[i];
        i = i + 1;
    }
    proof {
        assert(variable_sizes@.take(n as int) =~= variable_sizes@);
    }
    acc
}

} // verus!
