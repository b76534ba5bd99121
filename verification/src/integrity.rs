//! Single-bit error detection by the calibration checksum.
//!
//! The accumulator update is linear over XOR, so the checksum of a
//! corrupted word set differs from the original's by the checksum of the
//! lone flipped bit.  That syndrome is the accumulator state after at
//! least sixteen shift steps from a one-bit seed; those states cycle with
//! period fifteen through values whose top nibble is never zero.  A flip
//! of any bit the checksum covers therefore moves the computed nibble,
//! while a flip in the stored nibble moves the stored value and not the
//! computed one; either way validation fails.

use vstd::prelude::*;

use crate::crc::crc_absorb;
use crate::crc::crc_fold_upto;
use crate::crc::crc_step;
use crate::crc::crc_steps;
use crate::crc::spec_crc4;
use crate::crc::spec_prom_crc_bytes;
use crate::prom::lemma_checksum_nibble_flip_rejected;
use crate::prom::spec_crc_ok;

verus! {

/// The pointwise XOR of two equally long byte sequences.
pub open spec fn xor_bytes(xs: Seq<u8>, ys: Seq<u8>) -> Seq<u8> {
    Seq::new(xs.len(), |i: int| xs[i] ^ ys[i])
}

/// Sixteen bytes, all zero but for one.
pub open spec fn single_delta(p: int, e: u8) -> Seq<u8> {
    Seq::new(16, |i: int| if i == p { e } else { 0u8 })
}

proof fn lemma_step_linear(a: u16, b: u16)
    ensures
        crc_step(a ^ b) == crc_step(a) ^ crc_step(b),
{
    assert(crc_step(a ^ b) == crc_step(a) ^ crc_step(b)) by (bit_vector);
}

proof fn lemma_steps_linear(a: u16, b: u16, n: nat)
    ensures
        crc_steps(a ^ b, n) == crc_steps(a, n) ^ crc_steps(b, n),
    decreases n,
{
    if n > 0 {
        lemma_steps_linear(a, b, (n - 1) as nat);
        lemma_step_linear(crc_steps(a, (n - 1) as nat), crc_steps(b, (n - 1) as nat));
    }
}

proof fn lemma_steps_add(s: u16, a: nat, b: nat)
    ensures
        crc_steps(s, (a + b) as nat) == crc_steps(crc_steps(s, a), b),
    decreases b,
{
    if b > 0 {
        lemma_steps_add(s, a, (b - 1) as nat);
    }
}

proof fn lemma_steps_zero(n: nat)
    ensures
        crc_steps(0, n) == 0,
    decreases n,
{
    assert(crc_step(0u16) == 0u16) by (bit_vector);
    if n > 0 {
        lemma_steps_zero((n - 1) as nat);
    }
}

proof fn lemma_absorb_linear(s1: u16, s2: u16, b1: u8, b2: u8)
    ensures
        crc_absorb(s1 ^ s2, b1 ^ b2) == crc_absorb(s1, b1) ^ crc_absorb(s2, b2),
{
    assert((s1 ^ s2) ^ ((b1 ^ b2) as u16) == (s1 ^ (b1 as u16)) ^ (s2 ^ (b2 as u16)))
        by (bit_vector);
    lemma_steps_linear(s1 ^ (b1 as u16), s2 ^ (b2 as u16), 8);
}

proof fn lemma_fold_linear(xs: Seq<u8>, ys: Seq<u8>, n: int)
    requires
        xs.len() == ys.len(),
        n <= xs.len(),
    ensures
        crc_fold_upto(xor_bytes(xs, ys), n) == crc_fold_upto(xs, n) ^ crc_fold_upto(ys, n),
    decreases n,
{
    if n <= 0 {
        assert(0u16 ^ 0u16 == 0u16) by (bit_vector);
    } else {
        lemma_fold_linear(xs, ys, n - 1);
        lemma_absorb_linear(crc_fold_upto(xs, n - 1), crc_fold_upto(ys, n - 1), xs[n - 1], ys[n - 1]);
    }
}

proof fn lemma_fold_delta_before(p: int, e: u8, n: int)
    requires
        n <= p < 16,
    ensures
        crc_fold_upto(single_delta(p, e), n) == 0,
    decreases n,
{
    if n > 0 {
        lemma_fold_delta_before(p, e, n - 1);
        let delta = single_delta(p, e);
        assert(crc_fold_upto(delta, n) == crc_absorb(crc_fold_upto(delta, n - 1), delta[n - 1]));
        assert(delta[n - 1] == 0u8);
        assert(0u16 ^ (0u8 as u16) == 0u16) by (bit_vector);
        lemma_steps_zero(8);
    }
}

proof fn lemma_fold_delta(p: int, e: u8, n: int)
    requires
        0 <= p < 16,
        p < n <= 16,
    ensures
        crc_fold_upto(single_delta(p, e), n) == crc_steps(e as u16, (8 * (n - p)) as nat),
    decreases n,
{
    let delta = single_delta(p, e);
    if n == p + 1 {
        lemma_fold_delta_before(p, e, p);
        assert(crc_fold_upto(delta, n) == crc_absorb(0, e));
        assert(0u16 ^ (e as u16) == e as u16) by (bit_vector);
    } else {
        lemma_fold_delta(p, e, n - 1);
        let prev = crc_steps(e as u16, (8 * (n - 1 - p)) as nat);
        assert(crc_fold_upto(delta, n) == crc_absorb(prev, 0));
        assert(prev ^ (0u8 as u16) == prev) by (bit_vector);
        lemma_steps_add(e as u16, (8 * (n - 1 - p)) as nat, 8);
    }
}

/// The accumulator states reached from a one-bit seed: twelve plain shifts,
/// then a cycle of fifteen states, each with a nonzero top nibble.
proof fn lemma_power_cycle()
    ensures
        forall|j: nat| j < 8 ==> crc_steps(1, j) == (1u16 << j),
        crc_steps(1, 27) == crc_steps(1, 12),
        forall|t: nat| 12 <= t < 27 ==> (#[trigger] crc_steps(1, t)) >> 12 != 0,
{
    assert(crc_step(0x1) == 0x2 && crc_step(0x2) == 0x4 && crc_step(0x4) == 0x8 && crc_step(0x8)
        == 0x10 && crc_step(0x10) == 0x20 && crc_step(0x20) == 0x40 && crc_step(0x40) == 0x80
        && crc_step(0x80) == 0x100 && crc_step(0x100) == 0x200 && crc_step(0x200) == 0x400
        && crc_step(0x400) == 0x800 && crc_step(0x800) == 0x1000 && crc_step(0x1000) == 0x2000)
        by (bit_vector);
    assert(crc_step(0x2000) == 0x4000 && crc_step(0x4000) == 0x8000 && crc_step(0x8000) == 0x3000
        && crc_step(0x3000) == 0x6000 && crc_step(0x6000) == 0xc000 && crc_step(0xc000) == 0xb000
        && crc_step(0xb000) == 0x5000 && crc_step(0x5000) == 0xa000 && crc_step(0xa000) == 0x7000
        && crc_step(0x7000) == 0xe000 && crc_step(0xe000) == 0xf000 && crc_step(0xf000) == 0xd000
        && crc_step(0xd000) == 0x9000 && crc_step(0x9000) == 0x1000) by (bit_vector);
    assert(1u16 << 0 == 0x1 && 1u16 << 1 == 0x2 && 1u16 << 2 == 0x4 && 1u16 << 3 == 0x8 && 1u16
        << 4 == 0x10 && 1u16 << 5 == 0x20 && 1u16 << 6 == 0x40 && 1u16 << 7 == 0x80)
        by (bit_vector);
    assert(0x1000u16 >> 12 != 0 && 0x2000u16 >> 12 != 0 && 0x4000u16 >> 12 != 0 && 0x8000u16 >> 12
        != 0 && 0x3000u16 >> 12 != 0 && 0x6000u16 >> 12 != 0 && 0xc000u16 >> 12 != 0 && 0xb000u16
        >> 12 != 0 && 0x5000u16 >> 12 != 0 && 0xa000u16 >> 12 != 0 && 0x7000u16 >> 12 != 0
        && 0xe000u16 >> 12 != 0 && 0xf000u16 >> 12 != 0 && 0xd000u16 >> 12 != 0 && 0x9000u16 >> 12
        != 0) by (bit_vector);
    assert(crc_steps(1, 0) == 0x1);
    assert(crc_steps(1, 1) == 0x2);
    assert(crc_steps(1, 2) == 0x4);
    assert(crc_steps(1, 3) == 0x8);
    assert(crc_steps(1, 4) == 0x10);
    assert(crc_steps(1, 5) == 0x20);
    assert(crc_steps(1, 6) == 0x40);
    assert(crc_steps(1, 7) == 0x80);
    assert(crc_steps(1, 8) == 0x100);
    assert(crc_steps(1, 9) == 0x200);
    assert(crc_steps(1, 10) == 0x400);
    assert(crc_steps(1, 11) == 0x800);
    assert(crc_steps(1, 12) == 0x1000);
    assert(crc_steps(1, 13) == 0x2000);
    assert(crc_steps(1, 14) == 0x4000);
    assert(crc_steps(1, 15) == 0x8000);
    assert(crc_steps(1, 16) == 0x3000);
    assert(crc_steps(1, 17) == 0x6000);
    assert(crc_steps(1, 18) == 0xc000);
    assert(crc_steps(1, 19) == 0xb000);
    assert(crc_steps(1, 20) == 0x5000);
    assert(crc_steps(1, 21) == 0xa000);
    assert(crc_steps(1, 22) == 0x7000);
    assert(crc_steps(1, 23) == 0xe000);
    assert(crc_steps(1, 24) == 0xf000);
    assert(crc_steps(1, 25) == 0xd000);
    assert(crc_steps(1, 26) == 0x9000);
    assert(crc_steps(1, 27) == 0x1000);
    assert forall|j: nat| j < 8 implies crc_steps(1, j) == (1u16 << j) by {
        if j == 0 {
        } else if j == 1 {
        } else if j == 2 {
        } else if j == 3 {
        } else if j == 4 {
        } else if j == 5 {
        } else if j == 6 {
        } else {
            assert(j == 7);
        }
    }
    assert forall|t: nat| 12 <= t < 27 implies (#[trigger] crc_steps(1, t)) >> 12 != 0 by {
        if t == 12 {
        } else if t == 13 {
        } else if t == 14 {
        } else if t == 15 {
        } else if t == 16 {
        } else if t == 17 {
        } else if t == 18 {
        } else if t == 19 {
        } else if t == 20 {
        } else if t == 21 {
        } else if t == 22 {
        } else if t == 23 {
        } else if t == 24 {
        } else if t == 25 {
        } else {
            assert(t == 26);
        }
    }
}

/// Twelve or more steps past a one-bit seed, the top nibble never clears.
proof fn lemma_orbit_top_nonzero(m: nat)
    ensures
        crc_steps(1, (12 + m) as nat) >> 12 != 0,
    decreases m,
{
    lemma_power_cycle();
    if m < 15 {
    } else {
        lemma_steps_add(1, 27, (m - 15) as nat);
        lemma_steps_add(1, 12, (m - 15) as nat);
        lemma_orbit_top_nonzero((m - 15) as nat);
    }
}

/// The syndrome of one flipped bit, at least two bytes before the end of
/// the stream, has a nonzero top nibble.
proof fn lemma_syndrome_nonzero(j: u16, k: int)
    requires
        j < 8,
        2 <= k <= 16,
    ensures
        crc_steps((1u16 << j) as u16, (8 * k) as nat) >> 12 != 0,
{
    lemma_power_cycle();
    assert(crc_steps(1, j as nat) == (1u16 << j));
    lemma_steps_add(1, j as nat, (8 * k) as nat);
    assert(crc_steps((1u16 << j) as u16, (8 * k) as nat) == crc_steps(1, (j + 8 * k) as nat));
    let m = (j + 8 * k - 12) as nat;
    assert(12 + m == j + 8 * k);
    lemma_orbit_top_nonzero(m);
}

/// Which of the sixteen checksum bytes a word-bit flip lands in.
pub open spec fn flip_byte_pos(wi: int, j: u16) -> int {
    if j >= 8 {
        2 * wi
    } else {
        2 * wi + 1
    }
}

/// The one-bit byte a word-bit flip XORs into that position.
pub open spec fn flip_byte(j: u16) -> u8 {
    if j >= 8 {
        1u8 << ((j - 8) as u8)
    } else {
        1u8 << (j as u8)
    }
}

proof fn lemma_prom_bytes_flip(ws: Seq<u16>, wi: int, j: u16)
    requires
        ws.len() == 8,
        0 <= wi < 8,
        j < 16,
        wi == 7 ==> j >= 8,
    ensures
        spec_prom_crc_bytes(ws.update(wi, (ws[wi] ^ (1u16 << j)) as u16)) == xor_bytes(
            spec_prom_crc_bytes(ws),
            single_delta(flip_byte_pos(wi, j), flip_byte(j)),
        ),
{
    let w = ws[wi];
    let w2 = (w ^ (1u16 << j)) as u16;
    let ws2 = ws.update(wi, w2);
    let delta = single_delta(flip_byte_pos(wi, j), flip_byte(j));
    if j >= 8 {
        assert(((w2 >> 8) as u8) == ((w >> 8) as u8) ^ (1u8 << ((j - 8) as u8))) by (bit_vector)
            requires
                8 <= j < 16,
                w2 == (w ^ (1u16 << j)) as u16,
        ;
        assert(((w2 & 0xff) as u8) == ((w & 0xff) as u8)) by (bit_vector)
            requires
                8 <= j < 16,
                w2 == (w ^ (1u16 << j)) as u16,
        ;
    } else {
        assert(((w2 >> 8) as u8) == ((w >> 8) as u8)) by (bit_vector)
            requires
                j < 8,
                w2 == (w ^ (1u16 << j)) as u16,
        ;
        assert(((w2 & 0xff) as u8) == ((w & 0xff) as u8) ^ (1u8 << (j as u8))) by (bit_vector)
            requires
                j < 8,
                w2 == (w ^ (1u16 << j)) as u16,
        ;
    }
    assert forall|x: u8| #[trigger] (x ^ 0u8) == x by {
        assert(forall|x: u8| #[trigger] (x ^ 0u8) == x) by (bit_vector);
    }
    assert(spec_prom_crc_bytes(ws2) =~= xor_bytes(spec_prom_crc_bytes(ws), delta));
}

/// Flipping any single bit that the checksum covers, or any bit of the
/// stored checksum nibble, makes validation of the word set fail.  The
/// four bits above the stored nibble in the last word are covered by
/// neither the computation (which absorbs a zero in place of that byte)
/// nor the stored value, and a flip there is genuinely undetectable.
pub proof fn lemma_single_bit_flip_rejected(ws: Seq<u16>, wi: int, j: u16)
    requires
        ws.len() == 8,
        spec_crc_ok(ws),
        0 <= wi < 8,
        j < 16,
        wi == 7 ==> j >= 8 || j < 4,
    ensures
        !spec_crc_ok(ws.update(wi, (ws[wi] ^ (1u16 << j)) as u16)),
{
    if wi == 7 && j < 4 {
        lemma_checksum_nibble_flip_rejected(ws, j);
    } else {
        let w = ws[wi];
        let w2 = (w ^ (1u16 << j)) as u16;
        let ws2 = ws.update(wi, w2);
        let bytes = spec_prom_crc_bytes(ws);
        let p = flip_byte_pos(wi, j);
        let e = flip_byte(j);
        let delta = single_delta(p, e);
        lemma_prom_bytes_flip(ws, wi, j);
        lemma_fold_linear(bytes, delta, 16);
        lemma_fold_delta(p, e, 16);
        let jj: u16 = if j >= 8 { (j - 8) as u16 } else { j };
        assert((e as u16) == (1u16 << jj)) by (bit_vector)
            requires
                jj < 8,
                e == (1u8 << (jj as u8)),
        ;
        lemma_syndrome_nonzero(jj, 16 - p);
        let a = crc_fold_upto(bytes, 16);
        let s = crc_fold_upto(delta, 16);
        assert((a ^ s) >> 12 != a >> 12) by (bit_vector)
            requires
                s >> 12 != 0,
        ;
        assert(spec_crc4(ws2) != spec_crc4(ws));
        if wi == 7 {
            assert((w2 & 0xf) == (w & 0xf)) by (bit_vector)
                requires
                    8 <= j < 16,
                    w2 == (w ^ (1u16 << j)) as u16,
            ;
        }
    }
}

} // verus!
