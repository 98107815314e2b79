//! The 16-bit checksum over the boot-header prefix of an image: the
//! well-known bit-reflected CRC-16 with polynomial `0xA001`, seeded at
//! `0xFFFF`.
//!
//! The computation is written as a table walk: for each input byte, eight
//! shift rounds each conditionally fold in one entry of a fixed
//! eight-entry mask table, shifted into place at full width (the folded
//! bits above bit 15 re-enter the low half on the following shifts, and
//! the state is back within 16 bits when the eight rounds are done).
//! `spec_crc16` states that walk; [`lemma_crc16_is_reflected`] proves it
//! equal to the plain polynomial fold, and `crc16` is proved to return
//! exactly it.

use vstd::prelude::*;

verus! {

/// The fixed mask folded in by round `k` of a byte step.
pub open spec fn crc_mask(k: int) -> u32 {
    if k == 0 {
        0xC0C1
    } else if k == 1 {
        0xC181
    } else if k == 2 {
        0xC301
    } else if k == 3 {
        0xC601
    } else if k == 4 {
        0xCC01
    } else if k == 5 {
        0xD801
    } else if k == 6 {
        0xF001
    } else {
        0xA001
    }
}

/// One shift round of the table walk: shift right, and if a carry fell
/// out, fold in the mask for round `k` shifted into place.
pub open spec fn crc_round(crc: u32, k: int) -> u32
    recommends
        0 <= k < 8,
{
    if crc & 1 == 1 {
        (crc >> 1) ^ (crc_mask(k) << ((7 - k) as u32))
    } else {
        crc >> 1
    }
}

/// The state after applying rounds `0 .. k` to `crc`.
pub open spec fn crc_rounds(crc: u32, k: int) -> u32
    decreases k,
{
    if k <= 0 {
        crc
    } else {
        crc_round(crc_rounds(crc, k - 1), k - 1)
    }
}

/// One full byte step of the table walk: xor the byte in, then run the
/// eight rounds.
pub open spec fn crc_byte(crc: u32, b: u8) -> u32 {
    crc_rounds(crc ^ (b as u32), 8)
}

/// The checksum state after processing the first `i` bytes of `s`,
/// starting from the seed `0xFFFF`.
pub open spec fn crc_upto(s: Seq<u8>, i: int) -> u32
    decreases i,
{
    if i <= 0 {
        0xFFFF
    } else {
        crc_byte(crc_upto(s, i - 1), s[i - 1])
    }
}

/// The checksum of the whole byte sequence `s`.
pub open spec fn spec_crc16(s: Seq<u8>) -> u16 {
    crc_upto(s, s.len() as int) as u16
}

/// One shift round of the plain reflected polynomial: shift right, and if
/// a carry fell out, fold in `0xA001`.
pub open spec fn reflected_round(c: u32) -> u32 {
    if c & 1 == 1 {
        (c >> 1) ^ 0xA001
    } else {
        c >> 1
    }
}

/// `k` rounds of the plain reflected polynomial.
pub open spec fn reflected_rounds(c: u32, k: int) -> u32
    decreases k,
{
    if k <= 0 {
        c
    } else {
        reflected_round(reflected_rounds(c, k - 1))
    }
}

/// One byte step of the plain reflected CRC-16 with polynomial `0xA001`.
pub open spec fn reflected_byte(c: u32, b: u8) -> u32 {
    reflected_rounds(c ^ (b as u32), 8)
}

/// The plain reflected CRC-16 state after the first `i` bytes of `s`.
pub open spec fn reflected_upto(s: Seq<u8>, i: int) -> u32
    decreases i,
{
    if i <= 0 {
        0xFFFF
    } else {
        reflected_byte(reflected_upto(s, i - 1), s[i - 1])
    }
}

/// One byte step of the mask-table walk equals one byte step of the plain
/// reflected CRC-16 with polynomial `0xA001`, and brings the state back
/// within 16 bits.
pub proof fn lemma_mask_walk_is_reflected(c: u32, b: u8)
    requires
        c <= 0xFFFF,
    ensures
        crc_byte(c, b) == reflected_byte(c, b),
        crc_byte(c, b) <= 0xFFFF,
{
    let bx: u32 = b as u32;
    let x: u32 = c ^ bx;
    let m0: u32 = crc_round(x, 0);
    let m1: u32 = crc_round(m0, 1);
    let m2: u32 = crc_round(m1, 2);
    let m3: u32 = crc_round(m2, 3);
    let m4: u32 = crc_round(m3, 4);
    let m5: u32 = crc_round(m4, 5);
    let m6: u32 = crc_round(m5, 6);
    let m7: u32 = crc_round(m6, 7);
    assert(crc_rounds(x, 0) == x);
    assert(crc_rounds(x, 1) == m0);
    assert(crc_rounds(x, 2) == m1);
    assert(crc_rounds(x, 3) == m2);
    assert(crc_rounds(x, 4) == m3);
    assert(crc_rounds(x, 5) == m4);
    assert(crc_rounds(x, 6) == m5);
    assert(crc_rounds(x, 7) == m6);
    assert(crc_rounds(x, 8) == m7);
    assert(crc_byte(c, b) == m7);
    let p0: u32 = reflected_round(x);
    let p1: u32 = reflected_round(p0);
    let p2: u32 = reflected_round(p1);
    let p3: u32 = reflected_round(p2);
    let p4: u32 = reflected_round(p3);
    let p5: u32 = reflected_round(p4);
    let p6: u32 = reflected_round(p5);
    let p7: u32 = reflected_round(p6);
    assert(reflected_rounds(x, 0) == x);
    assert(reflected_rounds(x, 1) == p0);
    assert(reflected_rounds(x, 2) == p1);
    assert(reflected_rounds(x, 3) == p2);
    assert(reflected_rounds(x, 4) == p3);
    assert(reflected_rounds(x, 5) == p4);
    assert(reflected_rounds(x, 6) == p5);
    assert(reflected_rounds(x, 7) == p6);
    assert(reflected_rounds(x, 8) == p7);
    assert(reflected_byte(c, b) == p7);
    assert(m7 == p7 && m7 <= 0xFFFF) by (bit_vector)
        requires
            c <= 0xFFFF,
            bx <= 0xFF,
            x == c ^ bx,
            m0 == (if x & 1 == 1 {
                (x >> 1) ^ (0xC0C1u32 << 7u32)
            } else {
                x >> 1
            }),
            m1 == (if m0 & 1 == 1 {
                (m0 >> 1) ^ (0xC181u32 << 6u32)
            } else {
                m0 >> 1
            }),
            m2 == (if m1 & 1 == 1 {
                (m1 >> 1) ^ (0xC301u32 << 5u32)
            } else {
                m1 >> 1
            }),
            m3 == (if m2 & 1 == 1 {
                (m2 >> 1) ^ (0xC601u32 << 4u32)
            } else {
                m2 >> 1
            }),
            m4 == (if m3 & 1 == 1 {
                (m3 >> 1) ^ (0xCC01u32 << 3u32)
            } else {
                m3 >> 1
            }),
            m5 == (if m4 & 1 == 1 {
                (m4 >> 1) ^ (0xD801u32 << 2u32)
            } else {
                m4 >> 1
            }),
            m6 == (if m5 & 1 == 1 {
                (m5 >> 1) ^ (0xF001u32 << 1u32)
            } else {
                m5 >> 1
            }),
            m7 == (if m6 & 1 == 1 {
                (m6 >> 1) ^ (0xA001u32 << 0u32)
            } else {
                m6 >> 1
            }),
            p0 == (if x & 1 == 1 {
                (x >> 1) ^ 0xA001u32
            } else {
                x >> 1
            }),
            p1 == (if p0 & 1 == 1 {
                (p0 >> 1) ^ 0xA001u32
            } else {
                p0 >> 1
            }),
            p2 == (if p1 & 1 == 1 {
                (p1 >> 1) ^ 0xA001u32
            } else {
                p1 >> 1
            }),
            p3 == (if p2 & 1 == 1 {
                (p2 >> 1) ^ 0xA001u32
            } else {
                p2 >> 1
            }),
            p4 == (if p3 & 1 == 1 {
                (p3 >> 1) ^ 0xA001u32
            } else {
                p3 >> 1
            }),
            p5 == (if p4 & 1 == 1 {
                (p4 >> 1) ^ 0xA001u32
            } else {
                p4 >> 1
            }),
            p6 == (if p5 & 1 == 1 {
                (p5 >> 1) ^ 0xA001u32
            } else {
                p5 >> 1
            }),
            p7 == (if p6 & 1 == 1 {
                (p6 >> 1) ^ 0xA001u32
            } else {
                p6 >> 1
            }),
    ;
}

/// The mask-table walk and the plain reflected CRC-16 with polynomial
/// `0xA001`, both seeded at `0xFFFF`, agree on every prefix, and the
/// state at every byte boundary fits 16 bits.
pub proof fn lemma_crc16_is_reflected(s: Seq<u8>, i: int)
    requires
        0 <= i <= s.len(),
    ensures
        crc_upto(s, i) == reflected_upto(s, i),
        crc_upto(s, i) <= 0xFFFF,
    decreases i,
{
    if i > 0 {
        lemma_crc16_is_reflected(s, i - 1);
        lemma_mask_walk_is_reflected(crc_upto(s, i - 1), s[i - 1]);
    }
}


/// Eight reflected rounds are injective on 16-bit states: different
/// starting states end in different states.
proof fn lemma_reflected_rounds_injective(x1: u32, x2: u32)
    requires
        x1 != x2,
        x1 <= 0xFFFF,
        x2 <= 0xFFFF,
    ensures
        reflected_rounds(x1, 8) != reflected_rounds(x2, 8),
{
    let a0: u32 = reflected_round(x1);
    let a1: u32 = reflected_round(a0);
    let a2: u32 = reflected_round(a1);
    let a3: u32 = reflected_round(a2);
    let a4: u32 = reflected_round(a3);
    let a5: u32 = reflected_round(a4);
    let a6: u32 = reflected_round(a5);
    let a7: u32 = reflected_round(a6);
    assert(reflected_rounds(x1, 0) == x1);
    assert(reflected_rounds(x1, 1) == a0);
    assert(reflected_rounds(x1, 2) == a1);
    assert(reflected_rounds(x1, 3) == a2);
    assert(reflected_rounds(x1, 4) == a3);
    assert(reflected_rounds(x1, 5) == a4);
    assert(reflected_rounds(x1, 6) == a5);
    assert(reflected_rounds(x1, 7) == a6);
    assert(reflected_rounds(x1, 8) == a7);
    let e0: u32 = reflected_round(x2);
    let e1: u32 = reflected_round(e0);
    let e2: u32 = reflected_round(e1);
    let e3: u32 = reflected_round(e2);
    let e4: u32 = reflected_round(e3);
    let e5: u32 = reflected_round(e4);
    let e6: u32 = reflected_round(e5);
    let e7: u32 = reflected_round(e6);
    assert(reflected_rounds(x2, 0) == x2);
    assert(reflected_rounds(x2, 1) == e0);
    assert(reflected_rounds(x2, 2) == e1);
    assert(reflected_rounds(x2, 3) == e2);
    assert(reflected_rounds(x2, 4) == e3);
    assert(reflected_rounds(x2, 5) == e4);
    assert(reflected_rounds(x2, 6) == e5);
    assert(reflected_rounds(x2, 7) == e6);
    assert(reflected_rounds(x2, 8) == e7);
    assert(a7 != e7) by (bit_vector)
        requires
            x1 != x2,
            x1 <= 0xFFFF,
            x2 <= 0xFFFF,
            a0 == (if x1 & 1 == 1 { (x1 >> 1) ^ 0xA001u32 } else { x1 >> 1 }),
            a1 == (if a0 & 1 == 1 { (a0 >> 1) ^ 0xA001u32 } else { a0 >> 1 }),
            a2 == (if a1 & 1 == 1 { (a1 >> 1) ^ 0xA001u32 } else { a1 >> 1 }),
            a3 == (if a2 & 1 == 1 { (a2 >> 1) ^ 0xA001u32 } else { a2 >> 1 }),
            a4 == (if a3 & 1 == 1 { (a3 >> 1) ^ 0xA001u32 } else { a3 >> 1 }),
            a5 == (if a4 & 1 == 1 { (a4 >> 1) ^ 0xA001u32 } else { a4 >> 1 }),
            a6 == (if a5 & 1 == 1 { (a5 >> 1) ^ 0xA001u32 } else { a5 >> 1 }),
            a7 == (if a6 & 1 == 1 { (a6 >> 1) ^ 0xA001u32 } else { a6 >> 1 }),
            e0 == (if x2 & 1 == 1 { (x2 >> 1) ^ 0xA001u32 } else { x2 >> 1 }),
            e1 == (if e0 & 1 == 1 { (e0 >> 1) ^ 0xA001u32 } else { e0 >> 1 }),
            e2 == (if e1 & 1 == 1 { (e1 >> 1) ^ 0xA001u32 } else { e1 >> 1 }),
            e3 == (if e2 & 1 == 1 { (e2 >> 1) ^ 0xA001u32 } else { e2 >> 1 }),
            e4 == (if e3 & 1 == 1 { (e3 >> 1) ^ 0xA001u32 } else { e3 >> 1 }),
            e5 == (if e4 & 1 == 1 { (e4 >> 1) ^ 0xA001u32 } else { e4 >> 1 }),
            e6 == (if e5 & 1 == 1 { (e5 >> 1) ^ 0xA001u32 } else { e5 >> 1 }),
            e7 == (if e6 & 1 == 1 { (e6 >> 1) ^ 0xA001u32 } else { e6 >> 1 }),
    ;
}

/// A byte step is injective: if the states after folding the bytes in
/// differ, the states after the eight rounds differ.
proof fn lemma_crc_byte_injective(c1: u32, b1: u8, c2: u32, b2: u8)
    requires
        c1 <= 0xFFFF,
        c2 <= 0xFFFF,
        c1 ^ (b1 as u32) != c2 ^ (b2 as u32),
    ensures
        crc_byte(c1, b1) != crc_byte(c2, b2),
{
    lemma_mask_walk_is_reflected(c1, b1);
    lemma_mask_walk_is_reflected(c2, b2);
    let bx1: u32 = b1 as u32;
    let bx2: u32 = b2 as u32;
    let x1: u32 = c1 ^ bx1;
    let x2: u32 = c2 ^ bx2;
    assert(x1 <= 0xFFFF && x2 <= 0xFFFF) by (bit_vector)
        requires
            c1 <= 0xFFFF,
            c2 <= 0xFFFF,
            bx1 <= 0xFF,
            bx2 <= 0xFF,
            x1 == c1 ^ bx1,
            x2 == c2 ^ bx2,
    ;
    lemma_reflected_rounds_injective(x1, x2);
}

/// Sequences that agree on their first `k` bytes have the same checksum
/// state after `k` bytes.
proof fn lemma_crc_prefix(s1: Seq<u8>, s2: Seq<u8>, k: int)
    requires
        0 <= k <= s1.len(),
        k <= s2.len(),
        forall|j: int| 0 <= j < k ==> s1[j] == s2[j],
    ensures
        crc_upto(s1, k) == crc_upto(s2, k),
    decreases k,
{
    if k > 0 {
        lemma_crc_prefix(s1, s2, k - 1);
    }
}

proof fn lemma_crc_stays_different(s1: Seq<u8>, s2: Seq<u8>, i: int, k: int)
    requires
        s1.len() == s2.len(),
        0 <= i < s1.len(),
        s1[i] != s2[i],
        forall|j: int| 0 <= j < s1.len() && j != i ==> s1[j] == s2[j],
        i < k <= s1.len(),
    ensures
        crc_upto(s1, k) != crc_upto(s2, k),
    decreases k,
{
    lemma_crc16_is_reflected(s1, k - 1);
    lemma_crc16_is_reflected(s2, k - 1);
    let d1 = crc_upto(s1, k - 1);
    let d2 = crc_upto(s2, k - 1);
    if k == i + 1 {
        lemma_crc_prefix(s1, s2, i);
        let bx1: u32 = s1[i] as u32;
        let bx2: u32 = s2[i] as u32;
        assert(d1 ^ bx1 != d1 ^ bx2) by (bit_vector)
            requires
                bx1 != bx2,
        ;
        lemma_crc_byte_injective(d1, s1[i], d2, s2[i]);
    } else {
        lemma_crc_stays_different(s1, s2, i, k - 1);
        let bx: u32 = s1[k - 1] as u32;
        assert(d1 ^ bx != d2 ^ bx) by (bit_vector)
            requires
                d1 != d2,
        ;
        lemma_crc_byte_injective(d1, s1[k - 1], d2, s2[k - 1]);
    }
}

/// Changing a single byte of the input changes the checksum; in
/// particular, flipping any single bit does.  The two sequences have the
/// same length and agree everywhere but at index `i`.
pub proof fn lemma_crc16_detects_single_byte_change(s1: Seq<u8>, s2: Seq<u8>, i: int)
    requires
        s1.len() == s2.len(),
        0 <= i < s1.len(),
        s1[i] != s2[i],
        forall|j: int| 0 <= j < s1.len() && j != i ==> s1[j] == s2[j],
    ensures
        spec_crc16(s1) != spec_crc16(s2),
{
    let n = s1.len() as int;
    lemma_crc_stays_different(s1, s2, i, n);
    lemma_crc16_is_reflected(s1, n);
    lemma_crc16_is_reflected(s2, n);
}

/// The mask for round `k`, as executable code.
fn crc_mask_at(k: usize) -> (r: u32)
    requires
        k < 8,
    ensures
        r == crc_mask(k as int),
{
    if k == 0 {
        0xC0C1
    } else if k == 1 {
        0xC181
    } else if k == 2 {
        0xC301
    } else if k == 3 {
        0xC601
    } else if k == 4 {
        0xCC01
    } else if k == 5 {
        0xD801
    } else if k == 6 {
        0xF001
    } else {
        0xA001
    }
}

/// Computes the CRC-16 of `data`.  The result is a pure function of the
/// bytes alone, so recomputing over the same bytes always returns the
/// same value.
pub fn crc16(data: &[u8]) -> (r: u16)
    ensures
        r == spec_crc16(data@),
{
    let mut crc: u32 = 0xFFFF;
    let n = data.len();
    let mut i: usize = 0;
    while i < n
        invariant
            n == data@.len(),
            i <= n,
            crc == crc_upto(data@, i as int),
            crc <= 0xFFFF,
        decreases n - i,
    {
        let b = data[i];
        crc = crc ^ (b as u32);
        let ghost entry = crc;
        let mut k: usize = 0;
        while k < 8
            invariant
                k <= 8,
                crc == crc_rounds(entry, k as int),
            decreases 8 - k,
        {
            let carry = crc & 1;
            let shifted = crc >> 1;
            let mask = crc_mask_at(k);
            let amount = (7 - k) as u32;
            if carry == 1 {
                crc = shifted ^ (mask << amount);
            } else {
                crc = shifted;
            }
            assert(crc == crc_round(crc_rounds(entry, k as int), k as int));
            k = k + 1;
        }
        proof {
            lemma_mask_walk_is_reflected(crc_upto(data@, i as int), data@[i as int]);
        }
        i = i + 1;
        assert(crc == crc_upto(data@, i as int));
    }
    crc as u16
}

} // verus!
