//! The one-time pad: byte-wise exclusive-or of equally long buffers.
use vstd::prelude::*;

verus! {

/// The byte-wise exclusive-or of `a` and `b`, which are meant to have the same
/// length.
pub open spec fn xor_bytes(a: Seq<u8>, b: Seq<u8>) -> Seq<u8> {
    Seq::new(a.len(), |i: int| a[i] ^ b[i])
}

/// `a` with bit `bit` of byte `index` inverted.
pub open spec fn flip_bit(a: Seq<u8>, index: int, bit: nat) -> Seq<u8> {
    a.update(index, a[index] ^ (1u8 << (bit as u8)))
}

/// Writes the byte-wise exclusive-or of `a` and `b` into `into`.
pub fn xor_into(a: &[u8], b: &[u8], into: &mut [u8])
    requires
        a@.len() == b@.len(),
        old(into)@.len() == a@.len(),
    ensures
        final(into)@ == xor_bytes(a@, b@),
{
    let l: usize = a.len();
    let mut index: usize = 0;
    while index < l
        invariant
            l == a@.len(),
            l == b@.len(),
            l == into@.len(),
            index <= l,
            forall|i: int| 0 <= i < index ==> into@[i] == a@[i] ^ b@[i],
        decreases l - index,
    {
        into[index] = a[index] ^ b[index];
        index += 1;
    }
    assert(into@ =~= xor_bytes(a@, b@));
}

/// Applying the same pad twice gives back what was padded.
pub proof fn lemma_xor_cancels(pad: Seq<u8>, secret: Seq<u8>)
    requires
        pad.len() == secret.len(),
    ensures
        xor_bytes(pad, xor_bytes(pad, secret)) == secret,
{
    assert forall|i: int| 0 <= i < pad.len() implies pad[i] ^ (pad[i] ^ secret[i])
        == secret[i] by {
        let p: u8 = pad[i];
        let s: u8 = secret[i];
        assert(p ^ (p ^ s) == s) by (bit_vector);
    }
    assert(xor_bytes(pad, xor_bytes(pad, secret)) =~= secret);
}

/// Inverting one bit of the left operand changes the exclusive-or.
pub proof fn lemma_flip_left_changes_xor(a: Seq<u8>, b: Seq<u8>, index: int, bit: nat)
    requires
        a.len() == b.len(),
        0 <= index < a.len(),
        bit < 8,
    ensures
        xor_bytes(flip_bit(a, index, bit), b) != xor_bytes(a, b),
{
    let x: u8 = a[index];
    let y: u8 = b[index];
    let k: u8 = bit as u8;
    assert((x ^ (1u8 << k)) ^ y != x ^ y) by (bit_vector)
        requires
            k < 8,
    ;
    assert(xor_bytes(flip_bit(a, index, bit), b)[index] != xor_bytes(a, b)[index]);
}

/// Inverting one bit of the right operand changes the exclusive-or.
pub proof fn lemma_flip_right_changes_xor(a: Seq<u8>, b: Seq<u8>, index: int, bit: nat)
    requires
        a.len() == b.len(),
        0 <= index < a.len(),
        bit < 8,
    ensures
        xor_bytes(a, flip_bit(b, index, bit)) != xor_bytes(a, b),
{
    let x: u8 = a[index];
    let y: u8 = b[index];
    let k: u8 = bit as u8;
    assert(x ^ (y ^ (1u8 << k)) != x ^ y) by (bit_vector)
        requires
            k < 8,
    ;
    assert(xor_bytes(a, flip_bit(b, index, bit))[index] != xor_bytes(a, b)[index]);
}

} // verus!
