//! Byte strings read as unsigned big-endian integers, the way RSA reads its blocks.
use vstd::prelude::*;
use vstd::arithmetic::div_mod::lemma_fundamental_div_mod_converse;

verus! {

/// The unsigned integer that a byte string writes in big-endian order.
pub open spec fn be_value(s: Seq<u8>) -> nat
    decreases s.len(),
{
    if s.len() == 0 {
        0
    } else {
        be_value(s.drop_last()) * 256 + s.last() as nat
    }
}

/// The `k` bytes that write `x` in big-endian order (`x` taken modulo 256 to the `k`).
pub open spec fn be_bytes(x: nat, k: nat) -> Seq<u8>
    decreases k,
{
    if k == 0 {
        Seq::empty()
    } else {
        be_bytes(x / 256, (k - 1) as nat).push((x % 256) as u8)
    }
}

/// A run of `n` zero bytes.
pub open spec fn zeros(n: nat) -> Seq<u8> {
    Seq::new(n, |i: int| 0u8)
}

/// A byte string is the big-endian writing of its own value in its own length.
pub proof fn lemma_be_bytes_of_value(s: Seq<u8>)
    ensures
        s == be_bytes(be_value(s), s.len()),
    decreases s.len(),
{
    if s.len() > 0 {
        let p = s.drop_last();
        lemma_be_bytes_of_value(p);
        lemma_fundamental_div_mod_converse(
            be_value(s) as int,
            256,
            be_value(p) as int,
            s.last() as int,
        );
        assert(s =~= p.push(s.last()));
    }
}

/// Zero bytes in front do not change the value.
pub proof fn lemma_zeros_prefix(n: nat, r: Seq<u8>)
    ensures
        be_value(zeros(n) + r) == be_value(r),
    decreases n + r.len(),
{
    if r.len() == 0 {
        assert(zeros(n) + r =~= zeros(n));
        if n > 0 {
            assert(zeros(n).drop_last() =~= zeros((n - 1) as nat) + Seq::<u8>::empty());
            lemma_zeros_prefix((n - 1) as nat, Seq::<u8>::empty());
        }
    } else {
        assert((zeros(n) + r).drop_last() =~= zeros(n) + r.drop_last());
        lemma_zeros_prefix(n, r.drop_last());
    }
}

/// `zeros(k - r.len()) + r`: `r` widened to `k` bytes.
pub fn left_pad(r: &Vec<u8>, k: usize) -> (em: Vec<u8>)
    requires
        r@.len() <= k,
    ensures
        em@ == zeros((k - r@.len()) as nat) + r@,
        em@.len() == k,
        be_value(em@) == be_value(r@),
{
    let fill: usize = k - r.len();
    let mut em: Vec<u8> = Vec::new();
    let mut i: usize = 0;
    while i < fill
        invariant
            i <= fill,
            em@ == zeros(i as nat),
        decreases fill - i,
    {
        em.push(0u8);
        i = i + 1;
        assert(em@ =~= zeros(i as nat));
    }
    let mut j: usize = 0;
    while j < r.len()
        invariant
            j <= r@.len(),
            em@ == zeros(fill as nat) + r@.take(j as int),
        decreases r@.len() - j,
    {
        em.push(r[j]);
        assert(r@.take(j + 1) =~= r@.take(j as int).push(r@[j as int]));
        j = j + 1;
        assert(em@ =~= zeros(fill as nat) + r@.take(j as int));
    }
    assert(r@.take(r@.len() as int) =~= r@);
    proof {
        lemma_zeros_prefix(fill as nat, r@);
    }
    em
}

/// Whether `a` is below `b` as big-endian integers, for two strings of one length.
pub fn be_less(a: &[u8], b: &[u8]) -> (r: bool)
    requires
        a@.len() == b@.len(),
    ensures
        r == (be_value(a@) < be_value(b@)),
{
    // -1: the prefixes read so far compare below, 0: equal, 1: above.
    let mut state: i8 = 0;
    let mut i: usize = 0;
    assert(a@.take(0) =~= Seq::<u8>::empty());
    assert(b@.take(0) =~= Seq::<u8>::empty());
    while i < a.len()
        invariant
            a@.len() == b@.len(),
            i <= a@.len(),
            -1 <= state <= 1,
            state == -1 ==> be_value(a@.take(i as int)) < be_value(b@.take(i as int)),
            state == 0 ==> be_value(a@.take(i as int)) == be_value(b@.take(i as int)),
            state == 1 ==> be_value(a@.take(i as int)) > be_value(b@.take(i as int)),
        decreases a@.len() - i,
    {
        let x = a[i];
        let y = b[i];
        let ghost pa = be_value(a@.take(i as int));
        let ghost pb = be_value(b@.take(i as int));
        assert(a@.take(i + 1).drop_last() =~= a@.take(i as int));
        assert(b@.take(i + 1).drop_last() =~= b@.take(i as int));
        let ghost va = be_value(a@.take(i + 1));
        let ghost vb = be_value(b@.take(i + 1));
        assert(va == pa * 256 + x as nat);
        assert(vb == pb * 256 + y as nat);
        if state == 0 {
            if x < y {
                state = -1;
            } else if x > y {
                state = 1;
            }
        } else if state == -1 {
            assert(va < vb) by (nonlinear_arith)
                requires
                    pa < pb,
                    va == pa * 256 + x as nat,
                    vb == pb * 256 + y as nat,
                    x < 256,
            ;
        } else {
            assert(va > vb) by (nonlinear_arith)
                requires
                    pa > pb,
                    va == pa * 256 + x as nat,
                    vb == pb * 256 + y as nat,
                    y < 256,
            ;
        }
        i = i + 1;
    }
    assert(a@.take(a@.len() as int) =~= a@);
    assert(b@.take(b@.len() as int) =~= b@);
    state == -1
}

} // verus!
