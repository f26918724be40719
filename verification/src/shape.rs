//! Dimension metadata and row-major index arithmetic.
//!
//! A shape is an ordered list of dimension sizes; its rank is the length of
//! that list. The element at multi-index `idx` of a dense tensor lives at
//! position `offset(dims, idx)` of the flattened row-major buffer, and
//! `unravel` is the inverse map from buffer positions to multi-indices.
use vstd::arithmetic::div_mod::*;
use vstd::arithmetic::mul::*;
use vstd::prelude::*;

verus! {

/// Number of elements of a tensor with dimension sizes `dims`.
pub open spec fn count(dims: Seq<usize>) -> nat
    decreases dims.len(),
{
    if dims.len() == 0 {
        1
    } else {
        count(dims.drop_last()) * (dims.last() as nat)
    }
}

/// `idx` names a position inside a tensor with dimension sizes `dims`.
pub open spec fn in_bounds(dims: Seq<usize>, idx: Seq<usize>) -> bool {
    &&& idx.len() == dims.len()
    &&& forall|i: int| 0 <= i < dims.len() ==> (#[trigger] idx[i]) < dims[i]
}

/// Row-major position of the multi-index `idx`.
pub open spec fn offset(dims: Seq<usize>, idx: Seq<usize>) -> nat
    decreases dims.len(),
{
    if dims.len() == 0 || idx.len() != dims.len() {
        0
    } else {
        offset(dims.drop_last(), idx.drop_last()) * (dims.last() as nat) + (idx.last() as nat)
    }
}

/// Multi-index of the row-major position `pos`.
pub open spec fn unravel(dims: Seq<usize>, pos: nat) -> Seq<usize>
    decreases dims.len(),
{
    if dims.len() == 0 {
        Seq::empty()
    } else {
        unravel(dims.drop_last(), pos / (dims.last() as nat)).push(
            (pos % (dims.last() as nat)) as usize,
        )
    }
}

/// Every dimension has at least one position.
pub open spec fn all_positive(dims: Seq<usize>) -> bool {
    forall|i: int| 0 <= i < dims.len() ==> (#[trigger] dims[i]) > 0
}

pub proof fn lemma_count_one(n: usize)
    ensures
        count(seq![n]) == n,
{
    let dims = seq![n];
    assert(dims.drop_last() =~= Seq::<usize>::empty());
    assert(count(dims.drop_last()) == 1);
    assert(dims.last() == n);
    assert(count(dims) == count(dims.drop_last()) * (dims.last() as nat));
}

/// The element count of a prefix never exceeds that of the whole shape when
/// no dimension is empty.
pub proof fn lemma_count_prefix(dims: Seq<usize>, n: int)
    requires
        all_positive(dims),
        0 <= n <= dims.len(),
    ensures
        count(dims.take(n)) <= count(dims),
    decreases dims.len() - n,
{
    if n == dims.len() {
        assert(dims.take(n) =~= dims);
    } else {
        lemma_count_prefix(dims, n + 1);
        let p = dims.take(n + 1);
        assert(p.drop_last() =~= dims.take(n));
        assert(p.last() == dims[n]);
        lemma_mul_inequality(1, dims[n] as int, count(dims.take(n)) as int);
        lemma_mul_is_commutative(dims[n] as int, count(dims.take(n)) as int);
    }
}

pub proof fn lemma_in_bounds_positive(dims: Seq<usize>, idx: Seq<usize>)
    requires
        in_bounds(dims, idx),
    ensures
        all_positive(dims),
{
    assert forall|i: int| 0 <= i < dims.len() implies (#[trigger] dims[i]) > 0 by {
        assert(idx[i] < dims[i]);
    }
}

pub proof fn lemma_in_bounds_drop_last(dims: Seq<usize>, idx: Seq<usize>)
    requires
        in_bounds(dims, idx),
        dims.len() > 0,
    ensures
        in_bounds(dims.drop_last(), idx.drop_last()),
        idx.last() < dims.last(),
{
    assert forall|i: int| 0 <= i < dims.drop_last().len() implies (#[trigger] idx.drop_last()[i])
        < dims.drop_last()[i] by {
        assert(idx[i] < dims[i]);
    }
}

/// A position inside the tensor maps into its buffer.
pub proof fn lemma_offset_bound(dims: Seq<usize>, idx: Seq<usize>)
    requires
        in_bounds(dims, idx),
    ensures
        offset(dims, idx) < count(dims),
    decreases dims.len(),
{
    if dims.len() > 0 {
        lemma_in_bounds_drop_last(dims, idx);
        lemma_offset_bound(dims.drop_last(), idx.drop_last());
        let a = offset(dims.drop_last(), idx.drop_last()) as int;
        let c = count(dims.drop_last()) as int;
        let d = dims.last() as int;
        lemma_mul_inequality(a + 1, c, d);
        lemma_mul_is_distributive_add_other_way(d, a, 1);
    }
}

/// A buffer position maps to a multi-index inside the tensor.
pub proof fn lemma_unravel_in_bounds(dims: Seq<usize>, pos: nat)
    requires
        pos < count(dims),
    ensures
        in_bounds(dims, unravel(dims, pos)),
    decreases dims.len(),
{
    if dims.len() > 0 {
        let d = dims.last() as nat;
        let c = count(dims.drop_last());
        if d == 0 {
            lemma_mul_basics(c as int);
        }
        lemma_mul_is_commutative(c as int, d as int);
        lemma_multiply_divide_lt(pos as int, d as int, c as int);
        lemma_unravel_in_bounds(dims.drop_last(), pos / d);
        lemma_mod_bound(pos as int, d as int);
        let u = unravel(dims, pos);
        let v = unravel(dims.drop_last(), pos / d);
        assert forall|i: int| 0 <= i < dims.len() implies (#[trigger] u[i]) < dims[i] by {
            if i < dims.len() - 1 {
                assert(u[i] == v[i]);
                assert(v[i] < dims.drop_last()[i]);
            }
        }
    }
}

/// `offset` undoes `unravel`.
pub proof fn lemma_offset_unravel(dims: Seq<usize>, pos: nat)
    requires
        pos < count(dims),
    ensures
        offset(dims, unravel(dims, pos)) == pos,
    decreases dims.len(),
{
    if dims.len() > 0 {
        let d = dims.last() as nat;
        let c = count(dims.drop_last());
        if d == 0 {
            lemma_mul_basics(c as int);
        }
        lemma_mul_is_commutative(c as int, d as int);
        lemma_multiply_divide_lt(pos as int, d as int, c as int);
        lemma_offset_unravel(dims.drop_last(), pos / d);
        lemma_unravel_in_bounds(dims, pos);
        lemma_mod_bound(pos as int, d as int);
        let u = unravel(dims, pos);
        assert(u.drop_last() =~= unravel(dims.drop_last(), pos / d));
        assert(u.last() == (pos % d) as usize);
        lemma_fundamental_div_mod(pos as int, d as int);
        lemma_mul_is_commutative((pos / d) as int, d as int);
    } else {
        assert(count(dims) == 1);
    }
}

/// `unravel` undoes `offset`.
pub proof fn lemma_unravel_offset(dims: Seq<usize>, idx: Seq<usize>)
    requires
        in_bounds(dims, idx),
    ensures
        unravel(dims, offset(dims, idx)) == idx,
    decreases dims.len(),
{
    if dims.len() > 0 {
        lemma_in_bounds_drop_last(dims, idx);
        lemma_unravel_offset(dims.drop_last(), idx.drop_last());
        let a = offset(dims.drop_last(), idx.drop_last()) as int;
        let d = dims.last() as int;
        let r = idx.last() as int;
        lemma_mul_is_commutative(a, d);
        lemma_fundamental_div_mod_converse(a * d + r, d, a, r);
        assert(unravel(dims, offset(dims, idx)) =~= idx);
    } else {
        assert(unravel(dims, offset(dims, idx)) =~= idx);
    }
}

/// Replacing one dimension size scales the element count accordingly.
pub proof fn lemma_count_update(dims: Seq<usize>, i: int, v: usize)
    requires
        0 <= i < dims.len(),
    ensures
        count(dims.update(i, v)) * (dims[i] as nat) == count(dims) * (v as nat),
    decreases dims.len(),
{
    let u = dims.update(i, v);
    let c = count(dims.drop_last()) as int;
    if i == dims.len() - 1 {
        assert(u.drop_last() =~= dims.drop_last());
        assert(c * (v as int) * (dims[i] as int) == c * (dims[i] as int) * (v as int))
            by (nonlinear_arith);
    } else {
        assert(u.drop_last() =~= dims.drop_last().update(i, v));
        lemma_count_update(dims.drop_last(), i, v);
        let cu = count(u.drop_last()) as int;
        let l = dims.last() as int;
        let d = dims[i] as int;
        let w = v as int;
        assert(cu * d == c * w ==> (cu * l) * d == (c * l) * w) by (nonlinear_arith);
    }
}

/// A dimension of size one contributes nothing to the element count.
pub proof fn lemma_count_unit_update(dims: Seq<usize>, i: int, v: usize)
    requires
        0 <= i < dims.len(),
        dims[i] == 1,
    ensures
        count(dims.update(i, v)) == count(dims) * (v as nat),
{
    lemma_count_update(dims, i, v);
}

/// Exchanging two dimension sizes keeps the element count.
pub proof fn lemma_count_swap(dims: Seq<usize>, i: int, j: int)
    requires
        0 <= i < dims.len(),
        0 <= j < dims.len(),
    ensures
        count(dims.update(i, dims[j]).update(j, dims[i])) == count(dims),
{
    let a = dims[i];
    let b = dims[j];
    let e = dims.update(i, b);
    let f = e.update(j, a);
    if i == j {
        assert(f =~= dims);
    } else if a == 0 || b == 0 {
        if a == 0 {
            lemma_count_empty_dim(dims, i);
            lemma_count_empty_dim(f, j);
        } else {
            lemma_count_empty_dim(dims, j);
            lemma_count_empty_dim(f, i);
        }
    } else {
        lemma_count_update(dims, i, b);
        lemma_count_update(e, j, a);
        let cf = count(f) as int;
        let ce = count(e) as int;
        let cd = count(dims) as int;
        let x = a as int;
        let y = b as int;
        assert(ce * x == cd * y && cf * y == ce * x && y > 0 ==> cf == cd) by (nonlinear_arith);
    }
}

/// Shrinking dimensions never grows the element count.
pub proof fn lemma_count_le(a: Seq<usize>, b: Seq<usize>)
    requires
        a.len() == b.len(),
        forall|i: int| 0 <= i < a.len() ==> (#[trigger] a[i]) <= b[i],
    ensures
        count(a) <= count(b),
    decreases a.len(),
{
    if a.len() > 0 {
        assert forall|i: int| 0 <= i < a.drop_last().len() implies (#[trigger] a.drop_last()[i])
            <= b.drop_last()[i] by {
            assert(a[i] <= b[i]);
        }
        lemma_count_le(a.drop_last(), b.drop_last());
        assert(a.last() <= b.last());
        let x = count(a.drop_last()) as int;
        let y = count(b.drop_last()) as int;
        let u = a.last() as int;
        let v = b.last() as int;
        assert(0 <= x <= y && 0 <= u <= v ==> x * u <= y * v) by (nonlinear_arith);
    }
}

/// Dimension sizes of a tensor; the rank is the number of entries.
#[derive(Debug, PartialEq, Eq)]
pub struct Shape {
    pub dims: Vec<usize>,
}

impl View for Shape {
    type V = Seq<usize>;

    open spec fn view(&self) -> Seq<usize> {
        self.dims@
    }
}

impl Clone for Shape {
    fn clone(&self) -> (r: Self)
        ensures
            r@ == self@,
    {
        Shape { dims: copy_dims(&self.dims) }
    }
}

impl Shape {
    pub fn new(dims: Vec<usize>) -> (r: Self)
        ensures
            r@ == dims@,
    {
        Shape { dims }
    }

    pub fn rank(&self) -> (r: usize)
        ensures
            r == self@.len(),
    {
        self.dims.len()
    }

    /// Number of elements, or `None` when it does not fit in `usize`.
    pub fn checked_num_elements(&self) -> (r: Option<usize>)
        ensures
            match r {
                Some(n) => n == count(self@),
                None => count(self@) > usize::MAX,
            },
    {
        checked_count(&self.dims)
    }

    pub fn num_elements(&self) -> (r: usize)
        requires
            count(self@) <= usize::MAX,
        ensures
            r == count(self@),
    {
        match checked_count(&self.dims) {
            Some(n) => n,
            None => 0,
        }
    }

    /// Two shapes are the same when rank and every dimension size agree.
    pub fn same(&self, other: &Shape) -> (r: bool)
        ensures
            r == (self@ == other@),
    {
        same_dims(&self.dims, &other.dims)
    }
}

pub fn copy_dims(dims: &Vec<usize>) -> (r: Vec<usize>)
    ensures
        r@ == dims@,
{
    let mut out: Vec<usize> = Vec::new();
    let mut i: usize = 0;
    while i < dims.len()
        invariant
            i <= dims.len(),
            out@ == dims@.take(i as int),
        decreases dims.len() - i,
    {
        out.push(dims[i]);
        assert(dims@.take(i + 1) =~= dims@.take(i as int).push(dims@[i as int]));
        i += 1;
    }
    assert(dims@.take(dims.len() as int) =~= dims@);
    out
}

pub fn same_dims(a: &Vec<usize>, b: &Vec<usize>) -> (r: bool)
    ensures
        r == (a@ == b@),
{
    if a.len() != b.len() {
        return false;
    }
    let mut i: usize = 0;
    while i < a.len()
        invariant
            i <= a.len(),
            a.len() == b.len(),
            forall|j: int| 0 <= j < i ==> a@[j] == b@[j],
        decreases a.len() - i,
    {
        if a[i] != b[i] {
            return false;
        }
        i += 1;
    }
    assert(a@ =~= b@);
    true
}

pub fn has_empty_dim(dims: &Vec<usize>) -> (r: bool)
    ensures
        r == !all_positive(dims@),
{
    let mut i: usize = 0;
    while i < dims.len()
        invariant
            i <= dims.len(),
            forall|j: int| 0 <= j < i ==> (#[trigger] dims@[j]) > 0,
        decreases dims.len() - i,
    {
        if dims[i] == 0 {
            return true;
        }
        i += 1;
    }
    false
}

pub proof fn lemma_count_empty_dim(dims: Seq<usize>, k: int)
    requires
        0 <= k < dims.len(),
        dims[k] == 0,
    ensures
        count(dims) == 0,
    decreases dims.len(),
{
    if k == dims.len() - 1 {
        lemma_mul_basics(count(dims.drop_last()) as int);
    } else {
        lemma_count_empty_dim(dims.drop_last(), k);
        lemma_mul_basics(dims.last() as int);
    }
}

pub fn checked_count(dims: &Vec<usize>) -> (r: Option<usize>)
    ensures
        match r {
            Some(n) => n == count(dims@),
            None => count(dims@) > usize::MAX,
        },
{
    if has_empty_dim(dims) {
        proof {
            let k = choose|k: int| 0 <= k < dims@.len() && !((#[trigger] dims@[k]) > 0);
            lemma_count_empty_dim(dims@, k);
        }
        return Some(0);
    }
    let mut acc: usize = 1;
    let mut i: usize = 0;
    while i < dims.len()
        invariant
            i <= dims.len(),
            all_positive(dims@),
            acc == count(dims@.take(i as int)),
        decreases dims.len() - i,
    {
        proof {
            let p = dims@.take(i + 1);
            assert(p.drop_last() =~= dims@.take(i as int));
            assert(p.last() == dims@[i as int]);
            lemma_count_prefix(dims@, i + 1);
        }
        match acc.checked_mul(dims[i]) {
            Some(n) => {
                acc = n;
            },
            None => {
                return None;
            },
        }
        i += 1;
    }
    assert(dims@.take(dims.len() as int) =~= dims@);
    Some(acc)
}

/// Row-major buffer position of a multi-index.
pub fn flatten(dims: &Vec<usize>, idx: &Vec<usize>) -> (r: usize)
    requires
        in_bounds(dims@, idx@),
        count(dims@) <= usize::MAX,
    ensures
        r == offset(dims@, idx@),
        r < count(dims@),
{
    let mut acc: usize = 0;
    let mut i: usize = 0;
    proof {
        lemma_in_bounds_positive(dims@, idx@);
        lemma_offset_bound(dims@, idx@);
    }
    while i < dims.len()
        invariant
            i <= dims.len(),
            in_bounds(dims@, idx@),
            all_positive(dims@),
            count(dims@) <= usize::MAX,
            acc == offset(dims@.take(i as int), idx@.take(i as int)),
        decreases dims.len() - i,
    {
        proof {
            let p = dims@.take(i + 1);
            let q = idx@.take(i + 1);
            assert(p.drop_last() =~= dims@.take(i as int));
            assert(q.drop_last() =~= idx@.take(i as int));
            assert forall|j: int| 0 <= j < p.len() implies (#[trigger] q[j]) < p[j] by {
                assert(idx@[j] < dims@[j]);
            }
            lemma_offset_bound(p, q);
            lemma_count_prefix(dims@, i + 1);
        }
        acc = acc * dims[i] + idx[i];
        i += 1;
    }
    assert(dims@.take(dims.len() as int) =~= dims@);
    assert(idx@.take(dims.len() as int) =~= idx@);
    acc
}

/// Multi-index of a row-major buffer position.
pub fn unflatten(dims: &Vec<usize>, pos: usize) -> (r: Vec<usize>)
    requires
        pos < count(dims@),
    ensures
        r@ == unravel(dims@, pos as nat),
        in_bounds(dims@, r@),
{
    let n = dims.len();
    let mut out: Vec<usize> = Vec::new();
    let mut k: usize = 0;
    while k < n
        invariant
            k <= n,
            out.len() == k,
        decreases n - k,
    {
        out.push(0);
        k += 1;
    }
    let mut rem: usize = pos;
    let mut i: usize = n;
    assert(dims@.take(n as int) =~= dims@);
    while i > 0
        invariant
            i <= n,
            n == dims.len(),
            out.len() == n,
            rem < count(dims@.take(i as int)),
            unravel(dims@, pos as nat) =~= unravel(dims@.take(i as int), rem as nat) + out@.skip(
                i as int,
            ),
        decreases i,
    {
        let d = dims[i - 1];
        proof {
            let p = dims@.take(i as int);
            assert(p.drop_last() =~= dims@.take(i - 1));
            assert(p.last() == d);
            if d == 0 {
                lemma_mul_basics(count(p.drop_last()) as int);
            }
            lemma_mul_is_commutative(count(p.drop_last()) as int, d as int);
            lemma_multiply_divide_lt(rem as int, d as int, count(p.drop_last()) as int);
            lemma_mod_bound(rem as int, d as int);
        }
        let ghost before = out@;
        out.set(i - 1, rem % d);
        proof {
            let p = dims@.take(i as int);
            let head = unravel(p.drop_last(), (rem / d) as nat);
            assert(unravel(p, rem as nat) == head.push((rem % d) as usize));
            assert(head.push((rem % d) as usize) + before.skip(i as int) =~= head + out@.skip(
                i - 1,
            ));
        }
        rem = rem / d;
        i -= 1;
    }
    proof {
        assert(dims@.take(0).len() == 0);
        assert(unravel(dims@.take(0), rem as nat) =~= Seq::<usize>::empty());
        assert(out@.skip(0) =~= out@);
        lemma_unravel_in_bounds(dims@, pos as nat);
    }
    out
}

} // verus!
