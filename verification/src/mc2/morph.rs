//! The (10,9) raise-land dome's arithmetic: the integer square root and
//! the 2-D distance it rests on, the auto-flatten terrain set, and the
//! summit cap stamp.

use vstd::prelude::*;
use vstd::arithmetic::power2::pow2;
use crate::world::{Gen, PlaneView, tile, tile_spec};

verus! {

/// `r` is the floor of the square root of `a`.
pub open spec fn is_floor_sqrt(a: int, r: int) -> bool {
    &&& 0 <= r
    &&& r * r <= a
    &&& a < (r + 1) * (r + 1)
}

/// The floor of the square root of `a`, counted up from 0.
pub open spec fn floor_sqrt(a: nat) -> nat
    decreases a,
{
    if a == 0 {
        0
    } else {
        let r = floor_sqrt((a - 1) as nat);
        if (r + 1) * (r + 1) <= a { r + 1 } else { r }
    }
}

/// [`floor_sqrt`] is the floor square root.
pub proof fn lemma_floor_sqrt(a: nat)
    ensures
        is_floor_sqrt(a as int, floor_sqrt(a) as int),
    decreases a,
{
    if a > 0 {
        lemma_floor_sqrt((a - 1) as nat);
        let r = floor_sqrt((a - 1) as nat) as int;
        assert(a <= (r + 1) * (r + 1));
        assert(a < (r + 2) * (r + 2)) by (nonlinear_arith)
            requires
                a <= (r + 1) * (r + 1),
                r >= 0,
        ;
    }
}

/// The floor square root is unique.
pub proof fn lemma_floor_sqrt_unique(a: int, r: int, s: int)
    requires
        is_floor_sqrt(a, r),
        is_floor_sqrt(a, s),
    ensures
        r == s,
{
    if r < s {
        assert((r + 1) * (r + 1) <= s * s) by (nonlinear_arith)
            requires
                0 <= r + 1 <= s,
        ;
    }
    if s < r {
        assert((s + 1) * (s + 1) <= r * r) by (nonlinear_arith)
            requires
                0 <= s + 1 <= r,
        ;
    }
}

/// The Heron seed for highest set bit `n`: `floor(2^((n+1)/2))`, with
/// the top entry pinned to `0xFFFF`.
pub open spec fn isqrt_seed_spec(n: int) -> int {
    if n == 0 { 1 }
    else if n == 1 { 2 }
    else if n == 2 { 2 }
    else if n == 3 { 4 }
    else if n == 4 { 5 }
    else if n == 5 { 8 }
    else if n == 6 { 0xB }
    else if n == 7 { 0x10 }
    else if n == 8 { 0x16 }
    else if n == 9 { 0x20 }
    else if n == 10 { 0x2D }
    else if n == 11 { 0x40 }
    else if n == 12 { 0x5A }
    else if n == 13 { 0x80 }
    else if n == 14 { 0xB5 }
    else if n == 15 { 0x100 }
    else if n == 16 { 0x16A }
    else if n == 17 { 0x200 }
    else if n == 18 { 0x2D4 }
    else if n == 19 { 0x400 }
    else if n == 20 { 0x5A8 }
    else if n == 21 { 0x800 }
    else if n == 22 { 0xB50 }
    else if n == 23 { 0x1000 }
    else if n == 24 { 0x16A0 }
    else if n == 25 { 0x2000 }
    else if n == 26 { 0x2D41 }
    else if n == 27 { 0x4000 }
    else if n == 28 { 0x5A82 }
    else if n == 29 { 0x8000 }
    else if n == 30 { 0xB504 }
    else { 0xFFFF }
}

/// The seed table lookup.
fn isqrt_seed(n: u32) -> (r: u32)
    requires
        n < 32,
    ensures
        r as int == isqrt_seed_spec(n as int),
        1 <= r <= 0xFFFF,
        (r + 1) * (r + 1) >= pow2(n as nat + 1),
{
    proof {
        vstd::arithmetic::power2::lemma2_to64();
    }
    let r: u32 = match n {
        0 => 0x1,
        1 => 0x2,
        2 => 0x2,
        3 => 0x4,
        4 => 0x5,
        5 => 0x8,
        6 => 0xB,
        7 => 0x10,
        8 => 0x16,
        9 => 0x20,
        10 => 0x2D,
        11 => 0x40,
        12 => 0x5A,
        13 => 0x80,
        14 => 0xB5,
        15 => 0x100,
        16 => 0x16A,
        17 => 0x200,
        18 => 0x2D4,
        19 => 0x400,
        20 => 0x5A8,
        21 => 0x800,
        22 => 0xB50,
        23 => 0x1000,
        24 => 0x16A0,
        25 => 0x2000,
        26 => 0x2D41,
        27 => 0x4000,
        28 => 0x5A82,
        29 => 0x8000,
        30 => 0xB504,
        _ => 0xFFFF,
    };
    proof {
        let e: nat = n as nat + 1;
        if n == 0 {
            assert(e == 1);
        }
        else if n == 1 {
            assert(e == 2);
        }
        else if n == 2 {
            assert(e == 3);
        }
        else if n == 3 {
            assert(e == 4);
        }
        else if n == 4 {
            assert(e == 5);
        }
        else if n == 5 {
            assert(e == 6);
        }
        else if n == 6 {
            assert(e == 7);
        }
        else if n == 7 {
            assert(e == 8);
        }
        else if n == 8 {
            assert(e == 9);
        }
        else if n == 9 {
            assert(e == 10);
        }
        else if n == 10 {
            assert(e == 11);
        }
        else if n == 11 {
            assert(e == 12);
        }
        else if n == 12 {
            assert(e == 13);
        }
        else if n == 13 {
            assert(e == 14);
        }
        else if n == 14 {
            assert(e == 15);
        }
        else if n == 15 {
            assert(e == 16);
        }
        else if n == 16 {
            assert(e == 17);
        }
        else if n == 17 {
            assert(e == 18);
        }
        else if n == 18 {
            assert(e == 19);
        }
        else if n == 19 {
            assert(e == 20);
        }
        else if n == 20 {
            assert(e == 21);
        }
        else if n == 21 {
            assert(e == 22);
        }
        else if n == 22 {
            assert(e == 23);
        }
        else if n == 23 {
            assert(e == 24);
        }
        else if n == 24 {
            assert(e == 25);
        }
        else if n == 25 {
            assert(e == 26);
        }
        else if n == 26 {
            assert(e == 27);
        }
        else if n == 27 {
            assert(e == 28);
        }
        else if n == 28 {
            assert(e == 29);
        }
        else if n == 29 {
            assert(e == 30);
        }
        else if n == 30 {
            assert(e == 31);
        }
        else if n == 31 {
            assert(e == 32);
        }
    }
    r
}

/// A nonzero `a` lies below `2^(n+1)` for its highest set bit `n`.
proof fn lemma_below_next_pow2(a: u32)
    requires
        a != 0,
    ensures
        (a as int) < pow2(((31 - vstd::std_specs::bits::u32_leading_zeros(a)) as u32) as nat + 1),
        vstd::std_specs::bits::u32_leading_zeros(a) < 32,
{
    vstd::std_specs::bits::axiom_u32_leading_zeros(a);
    let lz = vstd::std_specs::bits::u32_leading_zeros(a);
    vstd::arithmetic::power2::lemma2_to64();
    if lz == 0 {
        assert(pow2(32) == 0x1_0000_0000);
    } else {
        let k: u32 = (32 - lz) as u32;
        vstd::bits::lemma_u32_shr_is_div(a, k);
        vstd::arithmetic::power2::lemma_pow2_pos(k as nat);
        assert(a as nat / pow2(k as nat) == 0);
        vstd::arithmetic::div_mod::lemma_fundamental_div_mod(a as int, pow2(k as nat) as int);
    }
}

/// One Heron step from an upper estimate stays an upper estimate.
proof fn lemma_heron_step(a: int, i: int, q: int)
    requires
        a >= 0,
        i >= 1,
        q == a / i,
        a < (i + 1) * (i + 1),
    ensures
        a < ((q + i) / 2 + 1) * ((q + i) / 2 + 1),
{
    let j = (q + i) / 2;
    assert(q * i <= a < q * i + i) by {
        vstd::arithmetic::div_mod::lemma_fundamental_div_mod(a, i);
        assert(a == i * q + a % i);
        assert(q * i == i * q) by (nonlinear_arith);
    }
    assert(2 * (j + 1) >= q + i + 1);
    assert((q + i + 1) * (q + i + 1) >= 4 * i * (q + 1)) by (nonlinear_arith)
        requires
            i >= 1,
            q >= 0,
    {
        assert((q + i + 1) * (q + i + 1) - 4 * i * (q + 1) == (i - q - 1) * (i - q - 1));
    }
    assert(i * (q + 1) > a) by (nonlinear_arith)
        requires
            a < q * i + i,
    ;
    assert(4 * (j + 1) * (j + 1) >= (q + i + 1) * (q + i + 1)) by (nonlinear_arith)
        requires
            2 * (j + 1) >= q + i + 1,
            q + i + 1 >= 0,
    ;
    assert(a < (j + 1) * (j + 1)) by (nonlinear_arith)
        requires
            4 * (j + 1) * (j + 1) >= (q + i + 1) * (q + i + 1),
            (q + i + 1) * (q + i + 1) >= 4 * i * (q + 1),
            i * (q + 1) > a,
    ;
}

/// The integer square root: a bit-scan seed, then Heron's step
/// `i <- (a/i + i)/2` while `a/i < i`. The result is `floor(sqrt(a))`
/// for every `a`.
#[verifier::spinoff_prover]
#[verifier::rlimit(30)]
pub fn isqrt(a: u32) -> (r: u32)
    ensures
        is_floor_sqrt(a as int, r as int),
{
    if a == 0 {
        return 0;
    }
    proof {
        lemma_below_next_pow2(a);
        vstd::std_specs::bits::axiom_u32_leading_zeros(a);
    }
    let n = 31 - a.leading_zeros();
    let mut i = isqrt_seed(n);
    assert((i + 1) * (i + 1) > a);
    while ((a / i) as i32) < (i as i32)
        invariant
            a >= 1,
            1 <= i <= 0xFFFF,
            a < (i + 1) * (i + 1),
        decreases i,
    {
        let q = a / i;
        assert(q < i + 3) by (nonlinear_arith)
            requires
                q == a / i,
                i >= 1,
                a < (i + 1) * (i + 1),
        {
            vstd::arithmetic::div_mod::lemma_fundamental_div_mod(a as int, i as int);
            assert(q * i <= a) by (nonlinear_arith)
                requires
                    a == i * q + a % i,
                    a % i >= 0,
            ;
        }
        assert(q < i);
        proof {
            lemma_heron_step(a as int, i as int, q as int);
        }
        let s2 = q + i;
        assert(s2 >> 1u32 == s2 / 2) by (bit_vector);
        i = s2 >> 1;
        assert(i >= 1) by (nonlinear_arith)
            requires
                a >= 1,
                a < (i + 1) * (i + 1),
                i >= 0,
        ;
    }
    let q = a / i;
    assert(q >= i);
    assert(i * i <= a) by (nonlinear_arith)
        requires
            q == a / i,
            q >= i,
            i >= 1,
    {
        vstd::arithmetic::div_mod::lemma_fundamental_div_mod(a as int, i as int);
        assert(i * q <= a);
        assert(i * i <= i * q);
    }
    i
}

/// The 2-D distance the dome shapes itself by: `floor(sqrt(dx^2 +
/// dy^2))` with each delta truncated to 16 bits first (z is never
/// read).
pub fn dist2d(ax: u16, ay: u16, bx: i32, by: i32) -> (r: i32)
    requires
        i32::MIN <= bx - ax <= i32::MAX,
        i32::MIN <= by - ay <= i32::MAX,
        ({
            let dx = ((bx - ax) as i16) as int;
            let dy = ((by - ay) as i16) as int;
            dx * dx + dy * dy <= i32::MAX
        }),
    ensures
        ({
            let dx = ((bx - ax) as i16) as int;
            let dy = ((by - ay) as i16) as int;
            is_floor_sqrt(dx * dx + dy * dy, r as int)
        }),
{
    let dx = (bx - ax as i32) as i16 as i32;
    let dy = (by - ay as i32) as i16 as i32;
    assert(dx * dx <= 0x4000_0000) by (nonlinear_arith)
        requires
            -32768 <= dx <= 32767,
    ;
    assert(dy * dy <= 0x4000_0000) by (nonlinear_arith)
        requires
            -32768 <= dy <= 32767,
    ;
    assert(0 <= dx * dx && 0 <= dy * dy) by (nonlinear_arith);
    let sq = (dx * dx + dy * dy) as u32;
    let r = isqrt(sq);
    assert(r <= 0xFFFF) by (nonlinear_arith)
        requires
            r * r <= sq,
            sq <= 0x8000_0000,
    ;
    r as i32
}

/// The terrain types that auto-flatten (force the flat angle nibble)
/// when a height write lands on them.
pub open spec fn auto_flat_spec(t: u8) -> bool {
    t == 0 || t == 0x25 || t == 0x26 || (0x2C <= t <= 0x2F) || t == 0x51 || t == 0x53
        || t == 0x68 || t == 0x69 || t == 0x6D || t == 0x72 || t == 0x74
}

/// Is terrain type `t` one that auto-flattens?
pub fn auto_flat(t: u8) -> (r: bool)
    ensures
        r == auto_flat_spec(t),
{
    t == 0 || t == 0x25 || t == 0x26 || (0x2C <= t && t <= 0x2F) || t == 0x51 || t == 0x53
        || t == 0x68 || t == 0x69 || t == 0x6D || t == 0x72 || t == 0x74
}

/// The summit cap cell `(cx - 1 + dx, cy - 1 + dy)`, byte coordinates
/// wrapping.
pub open spec fn cap_cell(cx: int, cy: int, dx: int, dy: int) -> int {
    tile_spec((cx + 255 + dx) % 256, (cy + 255 + dy) % 256)
}

/// The summit cap height: `plateau - 16` clamped to a byte.
pub open spec fn cap_height(plateau: int) -> u8 {
    if plateau - 16 < 0 {
        0
    } else if plateau - 16 > 255 {
        255
    } else {
        (plateau - 16) as u8
    }
}

/// The 2x2 summit cap, row by row: each cell gets height `h` and
/// shading `s`.
pub open spec fn cap_view(p: PlaneView, cx: int, cy: int, h: u8, s: u8) -> PlaneView {
    let c0 = cap_cell(cx, cy, 0, 0);
    let c1 = cap_cell(cx, cy, 1, 0);
    let c2 = cap_cell(cx, cy, 0, 1);
    let c3 = cap_cell(cx, cy, 1, 1);
    PlaneView {
        h: p.h.update(c0, h).update(c1, h).update(c2, h).update(c3, h),
        sh: p.sh.update(c0, s).update(c1, s).update(c2, s).update(c3, s),
        ..p
    }
}

impl Gen {
    /// The 2x2 summit cap: height `plateau - 16`, shading 63 on Day maps
    /// and 1 otherwise; direct writes with no recompute.
    #[verifier::spinoff_prover]
    #[verifier::rlimit(30)]
    pub fn mc2_dome_cap(&mut self, cx: u8, cy: u8, plateau: i32)
        requires
            old(self).wf(),
            plateau >= i32::MIN + 16,
        ensures
            final(self).wf(),
            final(self).t@ == cap_view(
                old(self).t@,
                cx as int,
                cy as int,
                cap_height(plateau as int),
                if old(self).mc2_night_shade { 1u8 } else { 63u8 },
            ),
            old(self).frame_planes(final(self)),
    {
        let v = plateau - 16;
        let hv: u8 = if v < 0 {
            0
        } else if v > 255 {
            255
        } else {
            v as u8
        };
        let sv: u8 = if self.mc2_night_shade { 1 } else { 63 };
        let ghost p = self.t@;
        let mut dy: u8 = 0;
        while dy < 2
            invariant
                self.wf(),
                old(self).frame_planes(self),
                dy <= 2,
                hv == cap_height(plateau as int),
                p == old(self).t@,
                self.t@ == (if dy == 0 {
                    p
                } else if dy == 1 {
                    PlaneView {
                        h: p.h.update(cap_cell(cx as int, cy as int, 0, 0), hv).update(
                            cap_cell(cx as int, cy as int, 1, 0),
                            hv,
                        ),
                        sh: p.sh.update(cap_cell(cx as int, cy as int, 0, 0), sv).update(
                            cap_cell(cx as int, cy as int, 1, 0),
                            sv,
                        ),
                        ..p
                    }
                } else {
                    cap_view(p, cx as int, cy as int, hv, sv)
                }),
            decreases 2 - dy,
        {
            let mut dx: u8 = 0;
            let ghost row0 = self.t@;
            while dx < 2
                invariant
                    self.wf(),
                    old(self).frame_planes(self),
                    dy < 2,
                    dx <= 2,
                    self.t@ == (if dx == 0 {
                        row0
                    } else if dx == 1 {
                        PlaneView {
                            h: row0.h.update(cap_cell(cx as int, cy as int, 0, dy as int), hv),
                            sh: row0.sh.update(cap_cell(cx as int, cy as int, 0, dy as int), sv),
                            ..row0
                        }
                    } else {
                        PlaneView {
                            h: row0.h.update(cap_cell(cx as int, cy as int, 0, dy as int), hv).update(
                                cap_cell(cx as int, cy as int, 1, dy as int),
                                hv,
                            ),
                            sh: row0.sh.update(cap_cell(cx as int, cy as int, 0, dy as int), sv).update(
                                cap_cell(cx as int, cy as int, 1, dy as int),
                                sv,
                            ),
                            ..row0
                        }
                    }),
                decreases 2 - dx,
            {
                let x = cx.wrapping_sub(1).wrapping_add(dx);
                let y = cy.wrapping_sub(1).wrapping_add(dy);
                assert(x as int == (cx + 255 + dx) % 256);
                assert(y as int == (cy + 255 + dy) % 256);
                let t = tile(x, y);
                let ghost before = self.t@;
                self.t.height.set(t, hv);
                self.t.shading.set(t, sv);
                proof {
                    assert(self.t@.h =~= before.h.update(t as int, hv));
                    assert(self.t@.sh =~= before.sh.update(t as int, sv));
                }
                dx += 1;
            }
            dy += 1;
        }
        proof {
            assert(self.t@ == cap_view(p, cx as int, cy as int, hv, sv));
        }
    }
}

} // verus!
