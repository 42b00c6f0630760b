//! Shape descriptors: the element count a shape implies, and the helpers the
//! construction and validation paths share.

use vstd::prelude::*;

verus! {

/// The number of elements a shape describes: the product of its dimension
/// sizes, with the empty shape describing a single scalar.
pub open spec fn shape_product(s: Seq<usize>) -> int
    decreases s.len(),
{
    if s.len() == 0 {
        1
    } else {
        (s[0] as int) * shape_product(s.drop_first())
    }
}

/// Unfolds the product one dimension at a time from position `i`.
proof fn lemma_shape_product_skip(s: Seq<usize>, i: int)
    requires
        0 <= i < s.len(),
    ensures
        shape_product(s.skip(i)) == (s[i] as int) * shape_product(s.skip(i + 1)),
{
    assert(s.skip(i).len() > 0);
    assert(s.skip(i)[0] == s[i]);
    assert(s.skip(i).drop_first() =~= s.skip(i + 1));
}

/// The product of a shape whose dimensions are all non-zero is positive.
proof fn lemma_shape_product_pos(s: Seq<usize>)
    requires
        forall|j: int| 0 <= j < s.len() ==> s[j] != 0,
    ensures
        shape_product(s) >= 1,
    decreases s.len(),
{
    if s.len() > 0 {
        lemma_shape_product_pos(s.drop_first());
        assert((s[0] as int) * shape_product(s.drop_first()) >= 1) by (nonlinear_arith)
            requires
                s[0] as int >= 1,
                shape_product(s.drop_first()) >= 1,
        ;
    }
}

/// A shape with a zero dimension describes no elements.
proof fn lemma_shape_product_zero(s: Seq<usize>, i: int)
    requires
        0 <= i < s.len(),
        s[i] == 0,
    ensures
        shape_product(s) == 0,
    decreases s.len(),
{
    if i == 0 {
        assert(shape_product(s) == 0) by (nonlinear_arith)
            requires
                shape_product(s) == (s[0] as int) * shape_product(s.drop_first()),
                s[0] == 0,
        ;
    } else {
        lemma_shape_product_zero(s.drop_first(), i - 1);
        assert(shape_product(s) == 0) by (nonlinear_arith)
            requires
                shape_product(s) == (s[0] as int) * shape_product(s.drop_first()),
                shape_product(s.drop_first()) == 0,
        ;
    }
}

/// The product of the two dimensions of a matrix shape.
pub proof fn lemma_shape_product_pair(s: Seq<usize>)
    requires
        s.len() == 2,
    ensures
        shape_product(s) == (s[0] as int) * (s[1] as int),
{
    assert(s.drop_first().len() == 1);
    assert(s.drop_first()[0] == s[1]);
    assert(s.drop_first().drop_first().len() == 0);
    assert(shape_product(s.drop_first().drop_first()) == 1);
    assert(shape_product(s.drop_first()) == (s[1] as int) * 1);
}

/// The product of a single-dimension shape is that dimension.
pub proof fn lemma_shape_product_single(s: Seq<usize>)
    requires
        s.len() == 1,
    ensures
        shape_product(s) == s[0] as int,
{
    assert(s.drop_first().len() == 0);
    assert(shape_product(s.drop_first()) == 1);
}

/// The element count a shape slice implies, or `None` when that count does
/// not fit the address space.
pub fn checked_product(shape: &[usize]) -> (r: Option<usize>)
    ensures
        match r {
            Some(p) => p as int == shape_product(shape@),
            None => shape_product(shape@) > usize::MAX as int,
        },
{
    let n = shape.len();
    let mut i: usize = 0;
    while i < n
        invariant
            n == shape@.len(),
            0 <= i <= n,
            forall|j: int| 0 <= j < i ==> shape@[j] != 0,
        decreases n - i,
    {
        if shape[i] == 0 {
            proof {
                lemma_shape_product_zero(shape@, i as int);
            }
            return Some(0);
        }
        i += 1;
    }
    let mut acc: usize = 1;
    let mut k: usize = 0;
    proof {
        assert(shape@.skip(0) =~= shape@);
    }
    while k < n
        invariant
            n == shape@.len(),
            0 <= k <= n,
            acc >= 1,
            forall|j: int| 0 <= j < n ==> shape@[j] != 0,
            shape_product(shape@) == (acc as int) * shape_product(shape@.skip(k as int)),
        decreases n - k,
    {
        let d = shape[k];
        proof {
            lemma_shape_product_skip(shape@, k as int);
            lemma_shape_product_pos(shape@.skip(k as int + 1));
        }
        match acc.checked_mul(d) {
            Some(next) => {
                proof {
                    assert(shape_product(shape@) == (next as int) * shape_product(
                        shape@.skip(k as int + 1),
                    )) by (nonlinear_arith)
                        requires
                            shape_product(shape@) == (acc as int) * shape_product(
                                shape@.skip(k as int),
                            ),
                            shape_product(shape@.skip(k as int)) == (d as int) * shape_product(
                                shape@.skip(k as int + 1),
                            ),
                            next == acc * d,
                    ;
                    assert(next >= 1) by (nonlinear_arith)
                        requires
                            next == acc * d,
                            acc >= 1,
                            d >= 1,
                    ;
                }
                acc = next;
                k += 1;
            },
            None => {
                proof {
                    assert(shape_product(shape@) > usize::MAX as int) by (nonlinear_arith)
                        requires
                            shape_product(shape@) == (acc as int) * shape_product(
                                shape@.skip(k as int),
                            ),
                            shape_product(shape@.skip(k as int)) == (d as int) * shape_product(
                                shape@.skip(k as int + 1),
                            ),
                            shape_product(shape@.skip(k as int + 1)) >= 1,
                            (acc as int) * (d as int) > usize::MAX as int,
                            acc >= 1,
                            d >= 1,
                    ;
                }
                return None;
            },
        }
    }
    proof {
        assert(shape@.skip(n as int).len() == 0);
    }
    Some(acc)
}

/// Whether two shape descriptors are the same shape.
pub fn dims_equal(a: &[usize], b: &[usize]) -> (r: bool)
    ensures
        r <==> a@ == b@,
{
    if a.len() != b.len() {
        return false;
    }
    let n = a.len();
    let mut i: usize = 0;
    while i < n
        invariant
            n == a@.len(),
            n == b@.len(),
            0 <= i <= n,
            forall|j: int| 0 <= j < i ==> a@[j] == b@[j],
        decreases n - i,
    {
        if a[i] != b[i] {
            return false;
        }
        i += 1;
    }
    proof {
        assert(a@ =~= b@);
    }
    true
}

} // verus!
