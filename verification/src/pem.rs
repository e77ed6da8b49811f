//! Turning a configured RSA public key into a PEM document.
use vstd::prelude::*;
use vstd::utf8::*;

use crate::crypto::utf8_str;
use crate::text::{
    chars_of, contains_text, is_white_space, lemma_trim_end_white_suffix, lemma_trim_idempotent,
    lemma_trim_of_trimmed, lemma_trim_start_white_prefix, occurs_in, push_char, trim, trim_end,
    trim_start, trimmed,
};

verus! {

/// The header line of a PEM public key.
pub open spec fn pem_header() -> Seq<char> {
    "-----BEGIN PUBLIC KEY-----"@
}

/// The footer line of a PEM public key.
pub open spec fn pem_footer() -> Seq<char> {
    "-----END PUBLIC KEY-----"@
}

/// The text of one chunk of bytes: its characters when it is valid UTF-8, else nothing.
pub open spec fn chunk_text(b: Seq<u8>) -> Seq<char> {
    if valid_utf8(b) {
        decode_utf8(b)
    } else {
        Seq::empty()
    }
}

/// The bytes cut into chunks of 64, each chunk read as text, the chunks joined by line
/// breaks.
pub open spec fn pem_lines(b: Seq<u8>) -> Seq<char>
    decreases b.len(),
{
    if b.len() <= 64 {
        chunk_text(b)
    } else {
        chunk_text(b.take(64)) + seq!['\n'] + pem_lines(b.skip(64))
    }
}

/// The PEM document for a configured key: the key without surrounding white space when it
/// already holds the PEM header; otherwise its UTF-8 bytes in lines of 64 between the
/// header and the footer.
pub open spec fn normalized_pem(key: Seq<char>) -> Seq<char> {
    let t = trim(key);
    if occurs_in(pem_header(), t) {
        t
    } else {
        pem_header() + seq!['\n'] + pem_lines(encode_utf8(t)) + seq!['\n'] + pem_footer()
    }
}

/// The text of `b[from..to]`, appended to `r`.
fn append_chunk(r: &mut String, b: &[u8], from: usize, to: usize)
    requires
        from <= to <= b@.len(),
    ensures
        final(r)@ == old(r)@ + chunk_text(b@.subrange(from as int, to as int)),
{
    let mut chunk: Vec<u8> = Vec::new();
    let mut i = from;
    while i < to
        invariant
            from <= i <= to,
            to <= b@.len(),
            chunk@ == b@.subrange(from as int, i as int),
        decreases to - i,
    {
        chunk.push(b[i]);
        i = i + 1;
        assert(chunk@ =~= b@.subrange(from as int, i as int));
    }
    match utf8_str(chunk.as_slice()) {
        Some(s) => r.append(s),
        None => {
            assert(r@ =~= r@ + Seq::<char>::empty());
        },
    }
}

/// Builds the PEM document for a configured public key (trimmed; wrapped in the header and
/// footer, in lines of 64 bytes, unless it already holds the header).
pub fn normalize_public_key_pem(public_key_pem: &str) -> (r: String)
    ensures
        r@ == normalized_pem(public_key_pem@),
{
    let t = trimmed(public_key_pem);
    let header = "-----BEGIN PUBLIC KEY-----";
    if contains_text(&chars_of(t.as_str()), &chars_of(header)) {
        return t;
    }
    let b = t.as_str().as_bytes();
    let n = b.len();
    let mut r = header.to_owned();
    push_char(&mut r, '\n');
    let ghost start = r@;
    let mut k: usize = 0;
    assert(b@.skip(0) =~= b@);
    while n - k > 64
        invariant
            k <= n,
            n == b@.len(),
            start + pem_lines(b@) == r@ + pem_lines(b@.skip(k as int)),
        decreases n - k,
    {
        let ghost rest = b@.skip(k as int);
        append_chunk(&mut r, b, k, k + 64);
        push_char(&mut r, '\n');
        proof {
            assert(rest.take(64) =~= b@.subrange(k as int, k + 64));
            assert(rest.skip(64) =~= b@.skip(k + 64));
        }
        k = k + 64;
    }
    let ghost rest = b@.skip(k as int);
    append_chunk(&mut r, b, k, n);
    assert(rest =~= b@.subrange(k as int, n as int));
    push_char(&mut r, '\n');
    r.append("-----END PUBLIC KEY-----");
    r
}

/// The document that a configured key gives is a key that gives itself: a key written as
/// a full PEM document and its bare Base64 body come to the same document.
pub proof fn lemma_normalized_pem_idempotent(key: Seq<char>)
    ensures
        normalized_pem(normalized_pem(key)) == normalized_pem(key),
{
    let t = trim(key);
    lemma_trim_idempotent(key);
    if !occurs_in(pem_header(), t) {
        let d = normalized_pem(key);
        let lines = pem_lines(encode_utf8(t));
        assert(d == pem_header() + seq!['\n'] + lines + seq!['\n'] + pem_footer());
        reveal_strlit("-----BEGIN PUBLIC KEY-----");
        reveal_strlit("-----END PUBLIC KEY-----");
        assert(d[0] == pem_header()[0]);
        assert(d.last() == pem_footer().last());
        lemma_trim_of_trimmed(d);
        let hl = pem_header().len() as int;
        assert(d.subrange(0, 0 + hl) =~= pem_header());
        assert(occurs_in(pem_header(), d));
    }
}

/// White space around a configured key changes nothing: the key with white space before
/// and after it gives the same document as the key alone.
pub proof fn lemma_surrounding_white_space(before: Seq<char>, key: Seq<char>, after: Seq<char>)
    requires
        forall|i: int| 0 <= i < before.len() ==> is_white_space(#[trigger] before[i]),
        forall|i: int| 0 <= i < after.len() ==> is_white_space(#[trigger] after[i]),
        key.len() == 0 || (!is_white_space(key[0]) && !is_white_space(key.last())),
    ensures
        normalized_pem(before + key + after) == normalized_pem(key),
{
    if key.len() == 0 {
        let w = before + after;
        assert(before + key + after =~= w + Seq::<char>::empty());
        assert forall|i: int| 0 <= i < w.len() implies is_white_space(#[trigger] w[i]) by {
            if i < before.len() {
                assert(w[i] == before[i]);
            } else {
                assert(w[i] == after[i - before.len()]);
            }
        }
        lemma_trim_start_white_prefix(w, Seq::<char>::empty());
        assert(trim(before + key + after) == trim(key));
    } else {
        assert((key + after)[0] == key[0]);
        lemma_trim_start_white_prefix(before, key + after);
        assert(before + key + after =~= before + (key + after));
        lemma_trim_end_white_suffix(key, after);
        lemma_trim_of_trimmed(key);
        assert(trim(before + key + after) == trim(key));
    }
}

} // verus!
