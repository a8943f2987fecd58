//! The packet pump's compute path.
//!
//! A frame read from the interface is one raw IPv4 packet.  The writer side
//! keeps only ICMP echo requests, swaps the source and destination
//! addresses, clears the ICMP type and code bytes, and recomputes the ICMP
//! checksum over the bytes from offset 20 on.
//!
//! The checksum pairs bytes in buffer order, low byte first, sums the pairs
//! with 32-bit wraparound, folds the high half into the low half exactly
//! once, and complements the low 16 bits.  The byte pairing deliberately
//! does not follow network byte order; it must stay exactly as it is, since
//! it determines the wire bytes produced.

use vstd::arithmetic::div_mod::{
    lemma_add_mod_noop, lemma_fundamental_div_mod, lemma_fundamental_div_mod_converse,
    lemma_mod_bound, lemma_mod_mod, lemma_mod_multiples_vanish, lemma_small_mod,
};
use vstd::prelude::*;

verus! {

/// Capacity of the buffer each raw frame is read into.
pub const MAX_FRAME: usize = 2048;

/// The 16-bit word at word index `i`: the byte pair in buffer order, low
/// byte first.
pub open spec fn word_at(s: Seq<u8>, i: int) -> int {
    s[2 * i] + 0x100 * s[2 * i + 1]
}

/// The sum of the first `n` 16-bit words, as an unbounded integer.
pub open spec fn word_sum(s: Seq<u8>, n: int) -> int
    decreases n,
{
    if n <= 0 {
        0
    } else {
        word_sum(s, n - 1) + word_at(s, n - 1)
    }
}

/// The full accumulator: every complete word, and the trailing byte on its
/// own when the length is odd.
pub open spec fn byte_sum(s: Seq<u8>) -> int {
    word_sum(s, s.len() as int / 2) + if s.len() % 2 == 1 {
        s[s.len() - 1] as int
    } else {
        0
    }
}

/// One end-around fold of the 32-bit wrapped accumulator, truncated to 16
/// bits.
pub open spec fn fold16(sum: int) -> int {
    let s32 = sum % 0x1_0000_0000;
    (s32 + s32 / 0x1_0000) % 0x1_0000
}

/// The Internet checksum of a byte range: fold the wrapped word sum once
/// and complement the low 16 bits.
pub open spec fn checksum_spec(s: Seq<u8>) -> int {
    0xFFFF - fold16(byte_sum(s))
}

/// Folding the 32-bit accumulator produces no end-around carry.  When a
/// carry occurs, a single fold leaves the ones'-complement zero in its
/// `0xFFFF` representation instead of `0x0000`.
pub open spec fn fold_carry_free(sum: int) -> bool {
    let s32 = sum % 0x1_0000_0000;
    s32 / 0x1_0000 + s32 % 0x1_0000 < 0x1_0000
}

/// The byte range with the two bytes of its own checksum field, at offsets
/// 2 and 3, cleared.
pub open spec fn zero_chk(s: Seq<u8>) -> Seq<u8> {
    s.update(2, 0u8).update(3, 0u8)
}

/// The byte range after the checksum engine ran over it: the checksum
/// field first cleared, then filled with the checksum of the cleared
/// range, low byte first.
pub open spec fn chksummed(s: Seq<u8>) -> Seq<u8> {
    let c = checksum_spec(zero_chk(s));
    zero_chk(s).update(2, (c % 0x100) as u8).update(3, (c / 0x100) as u8)
}

/// `x % m` for `x` below `2 * m` is either `x` or `x - m`.
proof fn lemma_mod_two_cases(x: int, m: int)
    requires
        0 < m,
        0 <= x < 2 * m,
    ensures
        x % m == if x < m {
            x
        } else {
            x - m
        },
{
    if x < m {
        lemma_small_mod(x as nat, m as nat);
    } else {
        lemma_fundamental_div_mod_converse(x, m, 1, x - m);
    }
}

/// A folded 32-bit value decomposes into its two 16-bit halves.
proof fn lemma_fold16_halves(x: int)
    requires
        0 <= x < 0x1_0000_0000,
    ensures
        fold16(x) == (x / 0x1_0000 + x % 0x1_0000) % 0x1_0000,
{
    lemma_small_mod(x as nat, 0x1_0000_0000 as nat);
    lemma_fundamental_div_mod(x, 0x1_0000);
    lemma_mod_multiples_vanish(x / 0x1_0000, x % 0x1_0000 + x / 0x1_0000, 0x1_0000);
}

/// The low and high byte of a 16-bit little-endian pair.
proof fn lemma_le_word(a: u8, b: u8)
    by (bit_vector)
    ensures
        ((a as u16) | ((b as u16) << 8)) == a as u16 + 0x100 * (b as u16),
{
}

/// Computes the Internet checksum of a byte range, without touching it.
pub fn checksum(pkt: &[u8]) -> (c: u16)
    ensures
        c as int == checksum_spec(pkt@),
{
    let n: usize = pkt.len();
    let mut acc: u32 = 0;
    let mut i: usize = 0;
    while n - i >= 2
        invariant
            n == pkt@.len(),
            i <= n,
            i % 2 == 0,
            acc as int == word_sum(pkt@, i as int / 2) % 0x1_0000_0000,
        decreases n - i,
    {
        let a: u8 = pkt[i];
        let b: u8 = pkt[i + 1];
        let w: u16 = (a as u16) | ((b as u16) << 8);
        proof {
            lemma_le_word(a, b);
            assert(2 * (i as int / 2) == i as int);
            assert(word_sum(pkt@, i as int / 2 + 1) == word_sum(pkt@, i as int / 2) + word_at(
                pkt@,
                i as int / 2,
            ));
            lemma_small_mod(w as nat, 0x1_0000_0000 as nat);
            lemma_add_mod_noop(word_sum(pkt@, i as int / 2), w as int, 0x1_0000_0000);
            lemma_mod_bound(word_sum(pkt@, i as int / 2), 0x1_0000_0000);
            lemma_mod_two_cases(acc as int + w as int, 0x1_0000_0000);
        }
        acc = acc.wrapping_add(w as u32);
        i = i + 2;
        assert((i - 2) as int / 2 + 1 == i as int / 2);
    }
    if i < n {
        // the trailing byte of an odd-length range counts on its own
        let last: u8 = pkt[i];
        proof {
            lemma_small_mod(last as nat, 0x1_0000_0000 as nat);
            lemma_add_mod_noop(word_sum(pkt@, i as int / 2), last as int, 0x1_0000_0000);
            lemma_mod_bound(word_sum(pkt@, i as int / 2), 0x1_0000_0000);
            lemma_mod_two_cases(acc as int + last as int, 0x1_0000_0000);
        }
        acc = acc.wrapping_add(last as u32);
    }
    assert(acc as int == byte_sum(pkt@) % 0x1_0000_0000);
    assert(acc >> 16 == acc / 0x1_0000) by (bit_vector);
    let high: u32 = acc >> 16;
    let folded: u32 = acc.wrapping_add(high);
    proof {
        lemma_mod_two_cases(acc as int + high as int, 0x1_0000_0000);
        lemma_mod_mod(acc as int + acc as int / 0x1_0000, 0x1_0000, 0x1_0000);
    }
    assert((folded as u16) as int == folded as int % 0x1_0000) by (bit_vector);
    let low: u16 = folded as u16;
    assert((low ^ 0xFFFF) == 0xFFFF - low) by (bit_vector);
    let c: u16 = low ^ 0xFFFF;
    c
}

/// Clears the checksum field at offsets 2 and 3, recomputes the checksum
/// over the whole range, and writes it back into the field, low byte
/// first.
pub fn icmp_chksum(pkt: &mut Vec<u8>)
    requires
        old(pkt)@.len() >= 4,
    ensures
        final(pkt)@.len() == old(pkt)@.len(),
        final(pkt)@ == chksummed(old(pkt)@),
        forall|i: int|
            0 <= i < old(pkt)@.len() && i != 2 && i != 3 ==> #[trigger] final(pkt)@[i] == old(
                pkt,
            )@[i],
{
    pkt[2] = 0;
    pkt[3] = 0;
    assert(pkt@ == zero_chk(old(pkt)@));
    let c: u16 = checksum(pkt.as_slice());
    assert(((c & 0xFF) as u8) as int == c as int % 0x100) by (bit_vector);
    assert(((c >> 8) as u8) as int == c as int / 0x100) by (bit_vector);
    let lo: u8 = (c & 0xFF) as u8;
    let hi: u8 = (c >> 8) as u8;
    pkt[2] = lo;
    pkt[3] = hi;
}

/// A frame the writer side answers: long enough to carry an ICMP header
/// behind the 20-byte IPv4 header, with the echo-request marker bytes at
/// offsets 20 and 21.
pub open spec fn is_echo_request(s: Seq<u8>) -> bool {
    &&& s.len() >= 24
    &&& s[20] == 8
    &&& s[21] == 0
}

/// The frame with its source and destination address fields, at offsets
/// 12..16 and 16..20, exchanged.
pub open spec fn swap_addrs(s: Seq<u8>) -> Seq<u8> {
    Seq::new(
        s.len(),
        |i: int|
            if 12 <= i < 16 {
                s[i + 4]
            } else if 16 <= i < 20 {
                s[i - 4]
            } else {
                s[i]
            },
    )
}

/// The echo reply built from an echo-request frame: addresses swapped, the
/// ICMP type and code bytes cleared, and the ICMP checksum recomputed over
/// the bytes from offset 20 on.
pub open spec fn echo_reply_of(s: Seq<u8>) -> Seq<u8> {
    let cleared = swap_addrs(s).update(20, 0u8).update(21, 0u8);
    let seg = cleared.subrange(20, s.len() as int);
    let c = checksum_spec(zero_chk(seg));
    cleared.update(22, (c % 0x100) as u8).update(23, (c / 0x100) as u8)
}

/// The writer side's filter: turns an echo request into the echo reply in
/// place and says whether the frame is to be written back.  Any other
/// frame, including one too short to carry an ICMP header, is left alone
/// and dropped.
pub fn echo_filter(pkt: &mut Vec<u8>) -> (send: bool)
    ensures
        send == is_echo_request(old(pkt)@),
        send ==> final(pkt)@ == echo_reply_of(old(pkt)@),
        !send ==> final(pkt)@ == old(pkt)@,
{
    let n: usize = pkt.len();
    if n < 24 {
        return false;
    }
    if !(pkt[20] == 8 && pkt[21] == 0) {
        return false;
    }
    let mut k: usize = 12;
    while k < 16
        invariant
            n == pkt@.len(),
            n >= 24,
            12 <= k <= 16,
            forall|i: int| 12 <= i < k ==> #[trigger] pkt@[i] == old(pkt)@[i + 4],
            forall|i: int| 16 <= i < k + 4 ==> #[trigger] pkt@[i] == old(pkt)@[i - 4],
            forall|i: int|
                0 <= i < pkt@.len() && !(12 <= i < k) && !(16 <= i < k + 4) ==> #[trigger] pkt@[i]
                    == old(pkt)@[i],
        decreases 16 - k,
    {
        let tmp: u8 = pkt[k];
        let other: u8 = pkt[k + 4];
        pkt[k] = other;
        pkt[k + 4] = tmp;
        k = k + 1;
    }
    assert(pkt@ =~= swap_addrs(old(pkt)@));
    pkt[20] = 0;
    pkt[21] = 0;
    let ghost cleared = swap_addrs(old(pkt)@).update(20, 0u8).update(21, 0u8);
    assert(pkt@ == cleared);
    let mut seg: Vec<u8> = Vec::new();
    let mut j: usize = 20;
    while j < n
        invariant
            n == pkt@.len(),
            20 <= j <= n,
            pkt@ == cleared,
            seg@.len() == j - 20,
            forall|i: int| 0 <= i < seg@.len() ==> seg@[i] == pkt@[20 + i],
        decreases n - j,
    {
        let b: u8 = pkt[j];
        seg.push(b);
        j = j + 1;
    }
    assert(seg@ =~= cleared.subrange(20, n as int));
    icmp_chksum(&mut seg);
    pkt[22] = seg[2];
    pkt[23] = seg[3];
    proof {
        let s = old(pkt)@;
        let segb = cleared.subrange(20, n as int);
        let c = checksum_spec(zero_chk(segb));
        assert(chksummed(segb)[2] == (c % 0x100) as u8);
        assert(chksummed(segb)[3] == (c / 0x100) as u8);
        assert(pkt@ == echo_reply_of(s));
    }
    true
}

proof fn lemma_word_sum_all_zero(s: Seq<u8>, n: int)
    requires
        0 <= n,
        2 * n <= s.len(),
        forall|i: int| 0 <= i < s.len() ==> s[i] == 0,
    ensures
        word_sum(s, n) == 0,
    decreases n,
{
    if n > 0 {
        lemma_word_sum_all_zero(s, n - 1);
    }
}

/// The checksum of an all-zero range of even length is `0xFFFF`.
pub proof fn lemma_checksum_all_zero(s: Seq<u8>)
    requires
        s.len() % 2 == 0,
        forall|i: int| 0 <= i < s.len() ==> s[i] == 0,
    ensures
        checksum_spec(s) == 0xFFFF,
{
    lemma_word_sum_all_zero(s, s.len() as int / 2);
    lemma_small_mod(0nat, 0x1_0000_0000 as nat);
    lemma_small_mod(0nat, 0x1_0000 as nat);
}

/// Two ranges that differ only in the byte pair at offsets 2 and 3 have
/// word sums that differ only in word 1.
proof fn lemma_word_sum_differs_at_word1(s: Seq<u8>, t: Seq<u8>, n: int)
    requires
        s.len() == t.len(),
        forall|i: int| 0 <= i < s.len() && i != 2 && i != 3 ==> s[i] == t[i],
        0 <= n,
        2 * n <= s.len(),
    ensures
        n <= 1 ==> word_sum(t, n) == word_sum(s, n),
        n >= 2 ==> word_sum(t, n) == word_sum(s, n) + word_at(t, 1) - word_at(s, 1),
    decreases n,
{
    if n > 0 {
        lemma_word_sum_differs_at_word1(s, t, n - 1);
    }
}

proof fn lemma_byte_sum_differs_at_word1(s: Seq<u8>, t: Seq<u8>)
    requires
        s.len() == t.len(),
        s.len() >= 4,
        forall|i: int| 0 <= i < s.len() && i != 2 && i != 3 ==> s[i] == t[i],
    ensures
        byte_sum(t) == byte_sum(s) + word_at(t, 1) - word_at(s, 1),
{
    lemma_word_sum_differs_at_word1(s, t, s.len() as int / 2);
}

/// The validation identity of the Internet checksum: write the checksum
/// of a range whose checksum field is clear into that field, and the
/// checksum of the result is the ones'-complement zero -- `0x0000` when
/// the single fold carries nothing around, `0xFFFF` otherwise.
pub proof fn lemma_checksum_validation(s: Seq<u8>)
    requires
        s.len() >= 4,
        s[2] == 0,
        s[3] == 0,
    ensures
        ({
            let c = checksum_spec(s);
            let t = s.update(2, (c % 0x100) as u8).update(3, (c / 0x100) as u8);
            &&& (checksum_spec(t) == 0 || checksum_spec(t) == 0xFFFF)
            &&& (checksum_spec(t) == 0 <==> fold_carry_free(byte_sum(s)))
        }),
{
    let m32 = 0x1_0000_0000;
    let m16 = 0x1_0000;
    let bs = byte_sum(s);
    let s32 = bs % m32;
    lemma_mod_bound(bs, m32);
    let h = s32 / m16;
    let l = s32 % m16;
    lemma_fundamental_div_mod(s32, m16);
    lemma_mod_bound(s32, m16);
    assert(0 <= h < m16);
    lemma_fold16_halves(s32);
    lemma_mod_mod(bs, m32, m16);
    assert(fold16(bs) == fold16(s32)) by {
        lemma_small_mod(s32 as nat, m32 as nat);
    }
    lemma_mod_two_cases(h + l, m16);
    let f = fold16(bs);
    assert(f == if h + l < m16 { h + l } else { h + l - m16 });
    let c = checksum_spec(s);
    assert(c == 0xFFFF - f);
    assert(0 <= c <= 0xFFFF);

    let t = s.update(2, (c % 0x100) as u8).update(3, (c / 0x100) as u8);
    lemma_fundamental_div_mod(c, 0x100);
    lemma_mod_bound(c, 0x100);
    assert(0 <= c / 0x100 < 0x100);
    assert(word_at(t, 1) == c % 0x100 + 0x100 * (c / 0x100));
    assert(word_at(t, 1) == c);
    assert(word_at(s, 1) == 0);
    lemma_byte_sum_differs_at_word1(s, t);
    assert(byte_sum(t) == bs + c);

    // the folded sum of the rewritten range, case by case
    lemma_add_mod_noop(bs, c, m32);
    lemma_small_mod(c as nat, m32 as nat);
    assert(byte_sum(t) % m32 == (s32 + c) % m32);
    if h + l < m16 {
        // no end-around carry: the rewritten sum folds to 0xFFFF
        assert(s32 + c == m16 * h + (0xFFFF - h)) by {
            assert(s32 == m16 * h + l);
        }
        lemma_small_mod((s32 + c) as nat, m32 as nat);
        let u = s32 + c;
        lemma_fundamental_div_mod_converse(u, m16, h, 0xFFFF - h);
        lemma_fold16_halves(u);
        lemma_small_mod(0xFFFF as nat, m16 as nat);
        assert(fold16(byte_sum(t)) == 0xFFFF);
        assert(checksum_spec(t) == 0);
        assert(fold_carry_free(bs));
    } else if h < m16 - 1 {
        // a carry that a second fold would absorb: the fold gives 0
        assert(s32 + c == m16 * (h + 1) + (0xFFFF - h)) by {
            assert(s32 == m16 * h + l);
        }
        lemma_small_mod((s32 + c) as nat, m32 as nat);
        let u = s32 + c;
        lemma_fundamental_div_mod_converse(u, m16, h + 1, 0xFFFF - h);
        lemma_fold16_halves(u);
        lemma_mod_two_cases(m16, m16);
        assert(fold16(byte_sum(t)) == 0);
        assert(checksum_spec(t) == 0xFFFF);
        assert(!fold_carry_free(bs));
    } else {
        // the extreme case: the rewritten sum wraps the 32-bit accumulator
        assert(h == m16 - 1);
        assert(s32 + c == m32) by {
            assert(s32 == m16 * h + l);
        }
        lemma_mod_two_cases(s32 + c, m32);
        assert(byte_sum(t) % m32 == 0);
        lemma_small_mod(0nat, m32 as nat);
        lemma_small_mod(0nat, m16 as nat);
        assert(fold16(byte_sum(t)) == 0);
        assert(checksum_spec(t) == 0xFFFF);
        assert(!fold_carry_free(bs));
    }
}

/// The echo rewrite swaps the source and destination address fields,
/// clears the ICMP type and code bytes, rewrites only the ICMP checksum
/// field besides, and keeps every other byte.
pub proof fn lemma_echo_reply_shape(s: Seq<u8>)
    requires
        is_echo_request(s),
    ensures
        echo_reply_of(s).len() == s.len(),
        forall|i: int| 12 <= i < 16 ==> #[trigger] echo_reply_of(s)[i] == s[i + 4],
        forall|i: int| 16 <= i < 20 ==> #[trigger] echo_reply_of(s)[i] == s[i - 4],
        forall|i: int|
            0 <= i < 12 || 24 <= i < s.len() ==> #[trigger] echo_reply_of(s)[i] == s[i],
        echo_reply_of(s)[20] == 0,
        echo_reply_of(s)[21] == 0,
{
}

/// Checking the rewritten frame's ICMP segment with the checksum in place
/// yields the ones'-complement zero, and exactly `0x0000` when the fold of
/// the cleared segment's sum carries nothing around.
pub proof fn lemma_echo_reply_validates(s: Seq<u8>)
    requires
        is_echo_request(s),
    ensures
        ({
            let reply_seg = echo_reply_of(s).subrange(20, s.len() as int);
            let cleared_seg = zero_chk(
                swap_addrs(s).update(20, 0u8).update(21, 0u8).subrange(20, s.len() as int),
            );
            &&& (checksum_spec(reply_seg) == 0 || checksum_spec(reply_seg) == 0xFFFF)
            &&& (checksum_spec(reply_seg) == 0 <==> fold_carry_free(byte_sum(cleared_seg)))
        }),
{
    let cleared = swap_addrs(s).update(20, 0u8).update(21, 0u8);
    let seg = cleared.subrange(20, s.len() as int);
    let z = zero_chk(seg);
    let c = checksum_spec(z);
    lemma_checksum_validation(z);
    let t = z.update(2, (c % 0x100) as u8).update(3, (c / 0x100) as u8);
    assert(echo_reply_of(s).subrange(20, s.len() as int) =~= t);
}

/// The exact received bytes of a frame: the first `n` bytes of the read
/// buffer, copied into an owned buffer the queue can carry.
pub fn frame_prefix(buf: &[u8], n: usize) -> (frame: Vec<u8>)
    requires
        n <= buf@.len(),
    ensures
        frame@ == buf@.subrange(0, n as int),
{
    let mut frame: Vec<u8> = Vec::new();
    let mut i: usize = 0;
    while i < n
        invariant
            n <= buf@.len(),
            i <= n,
            frame@.len() == i,
            forall|k: int| 0 <= k < i ==> frame@[k] == buf@[k],
        decreases n - i,
    {
        let b: u8 = buf[i];
        frame.push(b);
        i = i + 1;
    }
    assert(frame@ =~= buf@.subrange(0, n as int));
    frame
}

} // verus!
