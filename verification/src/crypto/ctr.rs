//! Counter mode: the counter and the key stream of AES-128-CTR.
//!
//! The 16-byte counter is a 128-bit big-endian integer. Block `n` of the key
//! stream is the encryption of the initial counter plus `n`, the addition
//! wrapping around at 2^128.

use vstd::prelude::*;
use crate::crypto::aes::{aes128_encrypt_of, key_expand_of};
use crate::utils::{be_value, lemma_be_value_below_radix, radix};

verus! {

/// The 128-bit big-endian integer `c` plus one, wrapping to zero from the
/// largest value: the last byte is incremented, and where it wraps from
/// 0xFF to zero the carry goes into the bytes before it.
pub open spec fn increment_be(c: Seq<u8>) -> Seq<u8>
    decreases c.len(),
{
    if c.len() == 0 {
        c
    } else if c.last() == 0xFF {
        increment_be(c.drop_last()).push(0)
    } else {
        c.drop_last().push((c.last() + 1) as u8)
    }
}

/// Incrementing keeps the number of bytes.
pub proof fn lemma_increment_len(c: Seq<u8>)
    ensures
        increment_be(c).len() == c.len(),
    decreases c.len(),
{
    if c.len() > 0 && c.last() == 0xFF {
        lemma_increment_len(c.drop_last());
    }
}

/// `increment_be` adds one to the number that the bytes spell, modulo 256
/// to the power of their count: for the 16 bytes of a counter, modulo
/// 2^128.
pub proof fn lemma_increment_value(c: Seq<u8>)
    ensures
        be_value(increment_be(c)) == (be_value(c) + 1) % radix(c.len()),
    decreases c.len(),
{
    if c.len() == 0 {
    } else {
        let head = c.drop_last();
        let m = radix(head.len());
        lemma_be_value_below_radix(head);
        if c.last() == 0xFF {
            lemma_increment_value(head);
            assert(increment_be(c).drop_last() =~= increment_be(head));
            assert(be_value(increment_be(c)) == 256 * ((be_value(head) + 1) % m));
            vstd::arithmetic::div_mod::lemma_truncate_middle(be_value(head) as int + 1, 256, m as int);
            assert(be_value(c) + 1 == 256 * (be_value(head) + 1));
        } else {
            assert(increment_be(c).drop_last() =~= head);
            assert(be_value(increment_be(c)) == be_value(c) + 1);
            vstd::arithmetic::div_mod::lemma_small_mod((be_value(c) + 1) as nat, radix(c.len()));
        }
    }
}

/// The counter of key-stream block `n` spells the number of the first
/// counter plus `n`, modulo 2^128.
pub proof fn lemma_nth_counter_value(c: Seq<u8>, n: nat)
    ensures
        nth_counter(c, n).len() == c.len(),
        be_value(nth_counter(c, n)) == (be_value(c) + n) % radix(c.len()),
    decreases n,
{
    let m = radix(c.len());
    lemma_be_value_below_radix(c);
    if n == 0 {
        vstd::arithmetic::div_mod::lemma_small_mod(be_value(c), m);
    } else {
        let prev = nth_counter(c, (n - 1) as nat);
        lemma_nth_counter_value(c, (n - 1) as nat);
        lemma_increment_len(prev);
        lemma_increment_value(prev);
        vstd::arithmetic::div_mod::lemma_add_mod_noop_right(1, be_value(c) + n - 1, m as int);
    }
}

/// The counter of key-stream block `n` when the first counter is `c`.
pub open spec fn nth_counter(c: Seq<u8>, n: nat) -> Seq<u8>
    decreases n,
{
    if n == 0 {
        c
    } else {
        increment_be(nth_counter(c, (n - 1) as nat))
    }
}

/// Byte `i` of the AES-128-CTR key stream for `key` and initial `counter`:
/// block `n` of the stream is the encryption of the `n`-th counter.
pub open spec fn ctr_keystream(key: Seq<u8>, counter: Seq<u8>, i: int) -> u8 {
    aes128_encrypt_of(nth_counter(counter, (i / 16) as nat), key_expand_of(key))[i % 16]
}

/// `data` XORed with the AES-128-CTR key stream for `key` and `counter`.
pub open spec fn ctr_xor(data: Seq<u8>, key: Seq<u8>, counter: Seq<u8>) -> Seq<u8> {
    Seq::new(data.len(), |i: int| data[i] ^ ctr_keystream(key, counter, i))
}

/// CTR mode is its own inverse: applying it twice with the same key and
/// counter gives the data back.
pub proof fn lemma_ctr_twice(data: Seq<u8>, key: Seq<u8>, counter: Seq<u8>)
    ensures
        ctr_xor(ctr_xor(data, key, counter), key, counter) == data,
{
    assert forall|i: int| 0 <= i < data.len() implies ctr_xor(
        ctr_xor(data, key, counter),
        key,
        counter,
    )[i] == data[i] by {
        let a = data[i];
        let k = ctr_keystream(key, counter, i);
        assert((a ^ k) ^ k == a) by (bit_vector);
    }
    assert(ctr_xor(ctr_xor(data, key, counter), key, counter) =~= data);
}

/// Incrementing a counter whose last `16 - i` bytes are 0xFF zeroes those
/// bytes and increments the `i` bytes before them.
proof fn lemma_increment_carry(c: Seq<u8>, i: int)
    requires
        c.len() == 16,
        0 <= i <= 16,
        forall|j: int| i <= j < 16 ==> c[j] == 0xFF,
    ensures
        increment_be(c) == increment_be(c.subrange(0, i)) + Seq::new(
            (16 - i) as nat,
            |j: int| 0u8,
        ),
    decreases 16 - i,
{
    if i == 16 {
        assert(c.subrange(0, 16) =~= c);
        assert(increment_be(c) + Seq::new(0, |j: int| 0u8) =~= increment_be(c));
    } else {
        lemma_increment_carry(c, i + 1);
        let s = c.subrange(0, i + 1);
        assert(s.last() == 0xFF);
        assert(s.drop_last() =~= c.subrange(0, i));
        assert(increment_be(s) == increment_be(c.subrange(0, i)).push(0));
        assert(increment_be(c.subrange(0, i)).push(0) + Seq::new(
            (16 - i - 1) as nat,
            |j: int| 0u8,
        ) =~= increment_be(c.subrange(0, i)) + Seq::new((16 - i) as nat, |j: int| 0u8));
    }
}

/// Increment a counter as a 128-bit big-endian integer, wrapping around.
pub fn increment_counter(ctr: &mut [u8; 16])
    ensures
        final(ctr)@ == increment_be(old(ctr)@),
{
    let ghost c = ctr@;
    let mut i: usize = 16;
    let mut carry = true;
    while i > 0 && carry
        invariant
            i <= 16,
            c == old(ctr)@,
            carry ==> forall|j: int| i <= j < 16 ==> c[j] == 0xFF,
            carry ==> forall|j: int| i <= j < 16 ==> ctr@[j] == 0,
            carry ==> forall|j: int| 0 <= j < i ==> ctr@[j] == c[j],
            !carry ==> ctr@ == increment_be(c),
        decreases i,
    {
        i -= 1;
        let v = ctr[i];
        if v == 0xFF {
            ctr[i] = 0;
        } else {
            ctr[i] = v + 1;
            carry = false;
            proof {
                lemma_increment_carry(c, i + 1);
                let s = c.subrange(0, i + 1);
                let zeros = Seq::new((16 - i - 1) as nat, |j: int| 0u8);
                assert(s.last() == v);
                assert(increment_be(s) == s.drop_last().push((v + 1) as u8));
                assert(ctr@.len() == 16);
                assert((increment_be(s) + zeros).len() == 16);
                assert forall|j: int| 0 <= j < 16 implies ctr@[j] == (increment_be(s) + zeros)[j] by {
                    if j < i {
                        assert(s.drop_last()[j] == c[j]);
                    } else if j == i {
                    } else {
                        assert(zeros[j - i - 1] == 0);
                    }
                }
                assert(ctr@ =~= increment_be(s) + zeros);
            }
        }
    }
    proof {
        if carry {
            lemma_increment_carry(c, 0);
            assert(c.subrange(0, 0).len() == 0);
            assert(ctr@ =~= c.subrange(0, 0) + Seq::new(16, |j: int| 0u8));
        }
    }
}

/// Byte `k` of key-stream block `n - 1` is byte `16 * (n - 1) + k` of the
/// key stream.
pub proof fn lemma_keystream_byte(key: Seq<u8>, counter: Seq<u8>, n: nat, k: int)
    requires
        n > 0,
        0 <= k < 16,
    ensures
        ctr_keystream(key, counter, 16 * (n - 1) + k) == aes128_encrypt_of(
            nth_counter(counter, (n - 1) as nat),
            key_expand_of(key),
        )[k],
{
    assert((16 * (n - 1) + k) / 16 == n - 1);
    assert((16 * (n - 1) + k) % 16 == k);
}

} // verus!
