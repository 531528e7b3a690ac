//! Network helpers: addresses, byte order and the internet checksum.
use vstd::prelude::*;
use vstd::arithmetic::div_mod::lemma_add_mod_noop_right;

pub mod arp;
pub mod frames;
pub mod tcp;

verus! {

/// An IPv4 address, most significant byte first.
pub type IpAddr = [u8; 4];

/// IP protocol number of TCP.
pub const IPV4_PROTOCOL_TCP: u8 = 6;

/// Big endian value of two bytes.
pub open spec fn be16(hi: u8, lo: u8) -> nat {
    hi as nat * 256 + lo as nat
}

/// The two big endian bytes of `x`.
pub open spec fn be16_bytes(x: u16) -> Seq<u8> {
    seq![(x / 256) as u8, (x % 256) as u8]
}

/// The four big endian bytes of `x`.
pub open spec fn be32_bytes(x: u32) -> Seq<u8> {
    be16_bytes((x / 0x10000) as u16) + be16_bytes((x % 0x10000) as u16)
}

/// Sum of the big endian 16 bit words of `s`; an odd last byte counts as the high
/// byte of a word whose low byte is zero.
pub open spec fn word_sum(s: Seq<u8>) -> nat
    decreases s.len(),
{
    if s.len() == 0 {
        0
    } else if s.len() == 1 {
        be16(s[0], 0)
    } else {
        be16(s[0], s[1]) + word_sum(s.skip(2))
    }
}

/// Ones' complement fold of a sum into 16 bits: the value in `1..=0xffff` that is
/// congruent to `sum` modulo `0xffff`, or zero for a zero sum.
pub open spec fn fold16(sum: nat) -> nat {
    if sum == 0 {
        0
    } else {
        ((sum - 1) as nat % 0xffff) + 1
    }
}

/// The internet checksum of `s`: the ones' complement of the ones' complement sum
/// of its 16 bit words.
pub open spec fn internet_checksum(s: Seq<u8>) -> u16 {
    (0xffff - fold16(word_sum(s))) as u16
}

proof fn lemma_fold16_add(a: nat, b: nat)
    ensures
        fold16(fold16(a) + b) == fold16(a + b),
        fold16(a) <= 0xffff,
{
    if a > 0 {
        lemma_add_mod_noop_right(b as int, (a - 1) as int, 0xffff);
        assert(((a - 1) as nat % 0xffff + b) % 0xffff == ((a - 1) as nat + b) % 0xffff);
    }
}

/// Replacing the 16 bit word at the even offset `i` of `s` by `(a, b)` changes the
/// word sum by the difference of the two words.
pub proof fn lemma_word_sum_pair(s: Seq<u8>, i: int, a: u8, b: u8)
    requires
        0 <= i,
        i % 2 == 0,
        i + 1 < s.len(),
    ensures
        word_sum(s.update(i, a).update(i + 1, b)) + be16(s[i], s[i + 1]) == word_sum(s) + be16(
            a,
            b,
        ),
    decreases i,
{
    let t = s.update(i, a).update(i + 1, b);
    if i == 0 {
        assert(t.skip(2) =~= s.skip(2));
    } else {
        lemma_word_sum_pair(s.skip(2), i - 2, a, b);
        assert(t.skip(2) =~= s.skip(2).update(i - 2, a).update(i - 1, b));
    }
}

/// The internet checksum verifies: when the checksum of `s`, whose 16 bit field at
/// the even offset `i` is zero, is written into that field, the checksum of the
/// result is zero.
pub proof fn law_checksum_field_verifies(s: Seq<u8>, i: int)
    requires
        0 <= i,
        i % 2 == 0,
        i + 1 < s.len(),
        s[i] == 0,
        s[i + 1] == 0,
    ensures
        ({
            let c = internet_checksum(s);
            internet_checksum(s.update(i, (c / 256) as u8).update(i + 1, (c % 256) as u8)) == 0
        }),
{
    let c = internet_checksum(s);
    let w0 = word_sum(s);
    lemma_word_sum_pair(s, i, (c / 256) as u8, (c % 256) as u8);
    assert(be16((c / 256) as u8, (c % 256) as u8) == c);
    if w0 == 0 {
        vstd::arithmetic::div_mod::lemma_small_mod(0xfffe, 0xffff);
    } else {
        let m: int = 0xffff;
        let a: int = w0 - 1;
        let q = a / m;
        let r = a % m;
        vstd::arithmetic::div_mod::lemma_fundamental_div_mod(a, m);
        assert(fold16(w0) == r + 1);
        assert(c == m - (r + 1));
        let w1 = w0 + c;
        assert(w1 - 1 == q * m + (m - 1));
        vstd::arithmetic::div_mod::lemma_fundamental_div_mod_converse(w1 - 1, m, q, m - 1);
        assert(fold16(w1 as nat) == m);
    }
}

/// The two big endian bytes of `x`, high byte first.
pub fn to_be_bytes16(x: u16) -> (r: [u8; 2])
    ensures
        r@ == be16_bytes(x),
        be16(r[0], r[1]) == x,
{
    assert(x >> 8u16 == x / 256 && x & 0xffu16 == x % 256) by (bit_vector);
    [(x >> 8u16) as u8, (x & 0xff) as u8]
}

/// Computes the internet checksum of `data`.
pub fn calculate_ipv4_checksum(data: &[u8]) -> (r: u16)
    ensures
        r == internet_checksum(data@),
{
    let mut acc: u32 = 0;
    let mut i: usize = 0;
    assert(data@.skip(0) =~= data@);
    while i < data.len()
        invariant
            i <= data.len(),
            acc <= 0xffff,
            fold16(acc as nat + word_sum(data@.skip(i as int))) == fold16(word_sum(data@)),
        decreases data.len() - i,
    {
        let hi = data[i];
        let lo = if data.len() - i > 1 {
            data[i + 1]
        } else {
            0
        };
        let w = (hi as u32) * 256 + lo as u32;
        let next = if data.len() - i > 2 {
            i + 2
        } else {
            data.len()
        };
        proof {
            let rest = data@.skip(i as int);
            assert(rest[0] == hi);
            if rest.len() >= 2 {
                assert(rest[1] == lo);
                assert(rest.skip(2) =~= data@.skip(next as int));
            } else {
                assert(data@.skip(next as int) =~= Seq::<u8>::empty());
            }
            assert(word_sum(rest) == w + word_sum(data@.skip(next as int)));
            lemma_fold16_add(acc as nat + w as nat, word_sum(data@.skip(next as int)));
        }
        let sum = acc + w;
        acc = if sum == 0 {
            0
        } else {
            (sum - 1) % 0xffff + 1
        };
        i = next;
    }
    assert(data@.skip(i as int) =~= Seq::<u8>::empty());
    proof {
        if acc > 0 {
            vstd::arithmetic::div_mod::lemma_small_mod((acc - 1) as nat, 0xffff);
        }
        assert(fold16(acc as nat) == acc);
    }
    (0xffff - acc) as u16
}

/// Appends the two big endian bytes of `x`.
pub fn push_be16(v: &mut Vec<u8>, x: u16)
    ensures
        final(v)@ == old(v)@ + be16_bytes(x),
{
    let b = to_be_bytes16(x);
    v.push(b[0]);
    v.push(b[1]);
    assert(final(v)@ =~= old(v)@ + be16_bytes(x));
}

/// Appends the four big endian bytes of `x`.
pub fn push_be32(v: &mut Vec<u8>, x: u32)
    ensures
        final(v)@ == old(v)@ + be32_bytes(x),
{
    push_be16(v, (x / 0x10000) as u16);
    push_be16(v, (x % 0x10000) as u16);
    assert(final(v)@ =~= old(v)@ + be32_bytes(x));
}

/// Appends all of `s`.
pub fn push_bytes(v: &mut Vec<u8>, s: &[u8])
    ensures
        final(v)@ == old(v)@ + s@,
{
    let ghost start = v@;
    let mut i: usize = 0;
    while i < s.len()
        invariant
            i <= s.len(),
            v@ == start + s@.take(i as int),
        decreases s.len() - i,
    {
        v.push(s[i]);
        i += 1;
        assert(v@ =~= start + s@.take(i as int));
    }
    assert(s@.take(i as int) =~= s@);
}

} // verus!
