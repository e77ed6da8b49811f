//! The PKCS#1 v1.5 block formats: type 1 (`00 01 FF..FF 00 M`), which a signature made
//! with the private key carries, and type 2 (`00 02 PS 00 M` with random nonzero `PS`),
//! which encryption with the public key builds.
use vstd::prelude::*;
use vstd::arithmetic::power::pow;

use crate::octets::be_value;

verus! {

/// The number of `0xFF` bytes at the front of `s`.
pub open spec fn ff_run(s: Seq<u8>) -> nat
    decreases s.len(),
{
    if s.len() > 0 && s[0] == 0xFFu8 {
        1 + ff_run(s.skip(1))
    } else {
        0
    }
}

/// The message that a type-1 block carries: the block is `00 01`, at least eight `0xFF`
/// bytes, `00`, then the message. `None` when `em` is no such block.
pub open spec fn type1_message(em: Seq<u8>) -> Option<Seq<u8>> {
    if em.len() < 11 || em[0] != 0u8 || em[1] != 1u8 {
        None
    } else {
        let p: int = ff_run(em.skip(2)) as int;
        if p >= 8 && p + 2 < em.len() && em[p + 2] == 0u8 {
            Some(em.skip(p + 3))
        } else {
            None
        }
    }
}

/// Whether `em` is a type-2 block that carries `m`: `00 02`, at least eight nonzero
/// bytes, `00`, then `m`.
pub open spec fn is_type2_block(em: Seq<u8>, m: Seq<u8>) -> bool {
    &&& em.len() >= m.len() + 11
    &&& em[0] == 0u8
    &&& em[1] == 2u8
    &&& forall|i: int| 2 <= i < em.len() - m.len() - 1 ==> em[i] != 0u8
    &&& em[em.len() - m.len() - 1] == 0u8
    &&& em.skip(em.len() - m.len()) == m
}

/// Whether `c` is a PKCS#1 v1.5 encryption of `m` under the public key (`n`, `e`): as
/// many bytes as the modulus, whose value is some type-2 block of that length that carries
/// `m`, raised to `e` modulo `n`.
pub open spec fn pkcs1v15_ciphertext(n: Seq<u8>, e: Seq<u8>, m: Seq<u8>, c: Seq<u8>) -> bool {
    &&& c.len() == n.len()
    &&& exists|em: Seq<u8>|
        em.len() == n.len() && #[trigger] is_type2_block(em, m) && be_value(c) as int == pow(
            be_value(em) as int,
            be_value(e),
        ) % (be_value(n) as int)
}

/// `p` bytes `0xFF`.
pub open spec fn ff_bytes(p: nat) -> Seq<u8> {
    Seq::new(p, |i: int| 0xFFu8)
}

/// The run of `0xFF` that opens `ff_bytes(p) + rest` is exactly `p` long when `rest` does
/// not begin with `0xFF`.
pub proof fn lemma_ff_run_of_fill(p: nat, rest: Seq<u8>)
    requires
        rest.len() == 0 || rest[0] != 0xFFu8,
    ensures
        ff_run(ff_bytes(p) + rest) == p,
    decreases p,
{
    if p == 0 {
        assert(ff_bytes(0) + rest =~= rest);
    } else {
        let s = ff_bytes(p) + rest;
        assert(s[0] == 0xFFu8);
        assert(s.skip(1) =~= ff_bytes((p - 1) as nat) + rest);
        lemma_ff_run_of_fill((p - 1) as nat, rest);
    }
}

/// A type-1 block gives back exactly the message it carries, whatever the length of the
/// block and of its `0xFF` fill (at least eight bytes).
pub proof fn lemma_type1_message_of_block(p: nat, m: Seq<u8>)
    requires
        p >= 8,
    ensures
        type1_message(seq![0u8, 1u8] + ff_bytes(p) + seq![0u8] + m) == Some(m),
{
    let em = seq![0u8, 1u8] + ff_bytes(p) + seq![0u8] + m;
    let rest = seq![0u8] + m;
    assert(em.skip(2) =~= ff_bytes(p) + rest);
    lemma_ff_run_of_fill(p, rest);
    assert(em[p as int + 2] == 0u8);
    assert(em.skip(p as int + 3) =~= m);
}

proof fn lemma_ff_run_step(s: Seq<u8>, j: int)
    requires
        0 <= j < s.len(),
        s[j] == 0xFFu8,
    ensures
        ff_run(s.skip(j)) == 1 + ff_run(s.skip(j + 1)),
{
    assert(s.skip(j).skip(1) =~= s.skip(j + 1));
}

/// Takes the message out of a type-1 block; `None` when the block is not one.
pub fn strip_type1(em: &[u8]) -> (r: Option<Vec<u8>>)
    ensures
        match type1_message(em@) {
            Some(m) => r matches Some(v) && v@ == m,
            None => r is None,
        },
{
    let k = em.len();
    if k < 11 || em[0] != 0u8 || em[1] != 1u8 {
        return None;
    }
    let mut i: usize = 2;
    while i < k && em[i] == 0xFFu8
        invariant
            2 <= i <= k,
            k == em@.len(),
            ff_run(em@.skip(2)) == (i - 2) + ff_run(em@.skip(i as int)),
        decreases k - i,
    {
        proof {
            lemma_ff_run_step(em@, i as int);
        }
        i = i + 1;
    }
    proof {
        if i < k {
            assert(em@.skip(i as int)[0] == em@[i as int]);
        }
        assert(ff_run(em@.skip(i as int)) == 0);
    }
    if i - 2 < 8 || i >= k || em[i] != 0u8 {
        return None;
    }
    let mut out: Vec<u8> = Vec::new();
    let mut j: usize = i + 1;
    while j < k
        invariant
            i + 1 <= j <= k,
            k == em@.len(),
            out@ == em@.subrange(i + 1, j as int),
        decreases k - j,
    {
        out.push(em[j]);
        j = j + 1;
        assert(out@ =~= em@.subrange(i + 1, j as int));
    }
    assert(out@ =~= em@.skip(i + 1));
    Some(out)
}

} // verus!
