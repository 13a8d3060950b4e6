//! The size to which an image is brought before it is sent to a model.
//!
//! Two budgets bound the size: the longer edge, and the number of pixels.
//! All arithmetic is exact integer arithmetic.

use vstd::prelude::*;

verus! {

/// The budgets of preprocessing, and the quality of the encoding.
#[derive(Clone, Copy, Debug, PartialEq, Eq)]
pub struct PreprocessConfig {
    /// Largest admissible length, in pixels, of the longer edge.
    pub max_long_edge: u32,
    /// Largest admissible number of pixels.
    pub max_pixels: u64,
    /// JPEG quality, 0 to 100.
    pub jpeg_quality: u8,
}

/// The larger of two numbers.
pub open spec fn larger(a: int, b: int) -> int {
    if a >= b {
        a
    } else {
        b
    }
}

/// `a / b` rounded to the nearest integer, a half rounded up.
pub open spec fn round_div(a: nat, b: nat) -> nat
    recommends
        b > 0,
{
    (2 * a + b) / (2 * b)
}

/// Whether `k` is the integer part of the square root of `n`.
pub open spec fn is_floor_sqrt(n: nat, k: nat) -> bool {
    k * k <= n < (k + 1) * (k + 1)
}

/// The integer part of the square root of `n`.
pub open spec fn floor_sqrt(n: nat) -> nat {
    choose|k: nat| is_floor_sqrt(n, k)
}

/// Squaring is strictly monotone on the natural numbers.
proof fn lemma_square_monotone(a: nat, b: nat)
    requires
        a < b,
    ensures
        a * a < b * b,
        (a + 1) * (a + 1) <= b * b,
{
    assert(a * a < b * b) by (nonlinear_arith)
        requires
            0 <= a < b,
    ;
    assert((a + 1) * (a + 1) <= b * b) by (nonlinear_arith)
        requires
            0 <= a,
            a + 1 <= b,
    ;
}

/// A number has one integer square root: whatever satisfies `is_floor_sqrt`
/// is `floor_sqrt`.
pub proof fn lemma_floor_sqrt_unique(n: nat, k: nat)
    requires
        is_floor_sqrt(n, k),
    ensures
        floor_sqrt(n) == k,
{
    let c = floor_sqrt(n);
    assert(is_floor_sqrt(n, c));
    if c < k {
        lemma_square_monotone(c, k);
    } else if k < c {
        lemma_square_monotone(k, c);
    }
}

/// Every number has an integer square root.
pub proof fn lemma_floor_sqrt_exists(n: nat)
    ensures
        is_floor_sqrt(n, floor_sqrt(n)),
    decreases n,
{
    if n == 0 {
        assert(0nat * 0nat <= 0nat < (0nat + 1) * (0nat + 1)) by (nonlinear_arith);
        assert(is_floor_sqrt(0, 0));
    } else {
        lemma_floor_sqrt_exists((n - 1) as nat);
        let r = floor_sqrt((n - 1) as nat);
        if (r + 1) * (r + 1) <= n {
            assert((r + 2) * (r + 2) > n) by (nonlinear_arith)
                requires
                    r >= 0,
                    n - 1 < (r + 1) * (r + 1),
            ;
            assert(is_floor_sqrt(n, r + 1));
        } else {
            assert(is_floor_sqrt(n, r));
        }
    }
}

/// Step one, the long-edge budget: an image whose longer edge exceeds `cap`
/// is scaled so that this edge is `cap`; the other edge keeps the aspect
/// ratio, rounded, and is at least 1.
pub open spec fn clamp_long_edge(w: nat, h: nat, cap: nat) -> (nat, nat) {
    if larger(w as int, h as int) > cap {
        if w >= h {
            (cap, larger(1, round_div(h * cap, w) as int) as nat)
        } else {
            (larger(1, round_div(w * cap, h) as int) as nat, cap)
        }
    } else {
        (w, h)
    }
}

/// Step two, the pixel budget: an image of more than `max_pixels` pixels has
/// both edges scaled by the square root of `max_pixels / (w * h)`; the
/// products are truncated and are at least 1.
pub open spec fn fit_pixel_budget(w: nat, h: nat, max_pixels: nat) -> (nat, nat) {
    if w * h > max_pixels {
        (
            larger(1, floor_sqrt(w * max_pixels / h) as int) as nat,
            larger(1, floor_sqrt(h * max_pixels / w) as int) as nat,
        )
    } else {
        (w, h)
    }
}

/// The size to which an image of `w` by `h` pixels is brought.
pub open spec fn target_size(w: nat, h: nat, cfg: PreprocessConfig) -> (nat, nat) {
    let (cw, ch) = clamp_long_edge(w, h, cfg.max_long_edge as nat);
    fit_pixel_budget(cw, ch, cfg.max_pixels as nat)
}

/// Whether an image of this size is within the pixel budget.
pub open spec fn within_budget(size: (nat, nat), cfg: PreprocessConfig) -> bool {
    size.0 * size.1 <= cfg.max_pixels
}

proof fn lemma_square_le_div(m: int, n: int)
    requires
        m > 0,
        n >= 0,
    ensures
        (m <= n / m) <==> (m * m <= n),
{
    let q = n / m;
    assert(q * m <= n < q * m + m) by {
        vstd::arithmetic::div_mod::lemma_fundamental_div_mod(n, m);
        vstd::arithmetic::div_mod::lemma_mod_bound(n, m);
        assert(m * q == q * m) by (nonlinear_arith);
    }
    if m <= q {
        assert(m * m <= q * m) by (nonlinear_arith)
            requires
                0 < m <= q,
        ;
    } else {
        assert(m * m >= (q + 1) * m) by (nonlinear_arith)
            requires
                m >= q + 1,
                m > 0,
        ;
        assert((q + 1) * m == q * m + m) by (nonlinear_arith);
    }
}

/// The integer part of the square root of `n`.
pub fn isqrt(n: u128) -> (k: u64)
    ensures
        k == floor_sqrt(n as nat),
{
    let mut lo: u128 = 0;
    let mut hi: u128 = 0x1_0000_0000_0000_0000;
    while hi - lo > 1
        invariant
            lo < hi <= 0x1_0000_0000_0000_0000,
            lo * lo <= n,
            n < hi * hi,
        decreases hi - lo,
    {
        let mid: u128 = lo + (hi - lo) / 2;
        proof {
            lemma_square_le_div(mid as int, n as int);
        }
        if mid <= n / mid {
            lo = mid;
        } else {
            hi = mid;
        }
    }
    proof {
        assert(hi == lo + 1);
        assert(is_floor_sqrt(n as nat, lo as nat));
        lemma_floor_sqrt_unique(n as nat, lo as nat);
    }
    lo as u64
}

proof fn lemma_round_div_bound(short: nat, long: nat, cap: nat)
    requires
        short <= long,
        long > 0,
    ensures
        round_div(short * cap, long) <= cap,
{
    let q = round_div(short * cap, long);
    let a = 2 * (short * cap) + long;
    let b = 2 * long;
    assert(q * b <= a) by {
        vstd::arithmetic::div_mod::lemma_fundamental_div_mod(a as int, b as int);
        vstd::arithmetic::div_mod::lemma_mod_bound(a as int, b as int);
        assert(b * q == q * b) by (nonlinear_arith);
    }
    assert(short * cap <= long * cap) by (nonlinear_arith)
        requires
            short <= long,
            cap >= 0,
    ;
    if q > cap {
        assert(q * b >= (cap + 1) * b) by (nonlinear_arith)
            requires
                q >= cap + 1,
                b >= 0,
        ;
        assert((cap + 1) * b == 2 * (long * cap) + 2 * long) by (nonlinear_arith)
            requires
                b == 2 * long,
        ;
    }
}

fn rounded_short_edge(short: u32, long: u32, cap: u32) -> (r: u32)
    requires
        short <= long,
        long > 0,
    ensures
        r == larger(1, round_div(short as nat * cap as nat, long as nat) as int),
{
    assert(short as nat * cap as nat <= 0xFFFF_FFFF * 0xFFFF_FFFF) by (nonlinear_arith)
        requires
            short <= 0xFFFF_FFFF,
            cap <= 0xFFFF_FFFF,
    ;
    let a: u128 = 2 * (short as u128 * cap as u128) + long as u128;
    let b: u128 = 2 * long as u128;
    let q: u128 = a / b;
    proof {
        lemma_round_div_bound(short as nat, long as nat, cap as nat);
    }
    if q < 1 {
        1
    } else {
        q as u32
    }
}

/// Step one of sizing, on machine integers.
pub fn clamp_to_long_edge(width: u32, height: u32, cap: u32) -> (r: (u32, u32))
    ensures
        (r.0 as nat, r.1 as nat) == clamp_long_edge(width as nat, height as nat, cap as nat),
{
    let long = if width >= height {
        width
    } else {
        height
    };
    if long > cap {
        if width >= height {
            (cap, rounded_short_edge(height, width, cap))
        } else {
            (rounded_short_edge(width, height, cap), cap)
        }
    } else {
        (width, height)
    }
}

proof fn lemma_scaled_edge_bound(a: nat, b: nat, m: nat)
    requires
        a * b > m,
        b > 0,
    ensures
        floor_sqrt(a * m / b) < a,
{
    let x = a * m / b;
    let k = floor_sqrt(x);
    lemma_floor_sqrt_exists(x);
    assert(x * b <= a * m) by {
        vstd::arithmetic::div_mod::lemma_fundamental_div_mod((a * m) as int, b as int);
        vstd::arithmetic::div_mod::lemma_mod_bound((a * m) as int, b as int);
        assert(b * x == x * b) by (nonlinear_arith);
    }
    if k >= a {
        assert(k * k >= a * a) by (nonlinear_arith)
            requires
                k >= a,
                a >= 0,
        ;
        assert(a * a * b <= a * m) by (nonlinear_arith)
            requires
                a * a <= x,
                x * b <= a * m,
                b >= 0,
        ;
        assert(a * m < a * (a * b)) by (nonlinear_arith)
            requires
                m < a * b,
                a > 0,
        ;
        assert(a * a * b == a * (a * b)) by (nonlinear_arith);
    }
}

fn scaled_edge(edge: u32, other: u32, max_pixels: u64) -> (r: u32)
    requires
        edge as nat * other as nat > max_pixels,
    ensures
        r == larger(1, floor_sqrt(edge as nat * max_pixels as nat / other as nat) as int),
{
    assert(other > 0 && edge > 0) by (nonlinear_arith)
        requires
            edge as nat * other as nat > max_pixels,
    ;
    assert(edge as nat * max_pixels as nat <= 0xFFFF_FFFF * 0xFFFF_FFFF_FFFF_FFFF)
        by (nonlinear_arith)
        requires
            edge <= 0xFFFF_FFFF,
            max_pixels <= 0xFFFF_FFFF_FFFF_FFFF,
    ;
    let x: u128 = (edge as u128 * max_pixels as u128) / other as u128;
    let k = isqrt(x);
    proof {
        lemma_scaled_edge_bound(edge as nat, other as nat, max_pixels as nat);
    }
    if k < 1 {
        1
    } else {
        k as u32
    }
}

/// Step two of sizing, on machine integers.
pub fn fit_to_pixel_budget(width: u32, height: u32, max_pixels: u64) -> (r: (u32, u32))
    ensures
        (r.0 as nat, r.1 as nat) == fit_pixel_budget(
            width as nat,
            height as nat,
            max_pixels as nat,
        ),
{
    assert(width as nat * height as nat <= 0xFFFF_FFFF * 0xFFFF_FFFF) by (nonlinear_arith)
        requires
            width <= 0xFFFF_FFFF,
            height <= 0xFFFF_FFFF,
    ;
    if width as u64 * height as u64 > max_pixels {
        assert(height as nat * width as nat == width as nat * height as nat) by (nonlinear_arith);
        (scaled_edge(width, height, max_pixels), scaled_edge(height, width, max_pixels))
    } else {
        (width, height)
    }
}

/// The size to which an image of `width` by `height` pixels is brought.
pub fn target_dimensions(width: u32, height: u32, cfg: &PreprocessConfig) -> (r: (u32, u32))
    ensures
        (r.0 as nat, r.1 as nat) == target_size(width as nat, height as nat, *cfg),
{
    let (cw, ch) = clamp_to_long_edge(width, height, cfg.max_long_edge);
    fit_to_pixel_budget(cw, ch, cfg.max_pixels)
}

/// Whether an image of `width` by `height` pixels is within the pixel budget.
pub fn fits_budget(width: u32, height: u32, cfg: &PreprocessConfig) -> (r: bool)
    ensures
        r == within_budget((width as nat, height as nat), *cfg),
{
    assert(width as nat * height as nat <= 0xFFFF_FFFF * 0xFFFF_FFFF) by (nonlinear_arith)
        requires
            width <= 0xFFFF_FFFF,
            height <= 0xFFFF_FFFF,
    ;
    width as u64 * height as u64 <= cfg.max_pixels
}

/// No edge of an image that has pixels grows.
pub proof fn lemma_target_not_larger(w: nat, h: nat, cfg: PreprocessConfig)
    requires
        w >= 1,
        h >= 1,
    ensures
        target_size(w, h, cfg).0 <= w,
        target_size(w, h, cfg).1 <= h,
{
    let cap = cfg.max_long_edge as nat;
    let m = cfg.max_pixels as nat;
    let c = clamp_long_edge(w, h, cap);
    if larger(w as int, h as int) > cap {
        let long = larger(w as int, h as int) as nat;
        let short: nat = if w >= h {
            h
        } else {
            w
        };
        let q = round_div(short * cap, long);
        let a = 2 * (short * cap) + long;
        let b = 2 * long;
        assert(q * b <= a) by {
            vstd::arithmetic::div_mod::lemma_fundamental_div_mod(a as int, b as int);
            vstd::arithmetic::div_mod::lemma_mod_bound(a as int, b as int);
            assert(b * q == q * b) by (nonlinear_arith);
        }
        if q > short {
            assert(q * b >= (short + 1) * b) by (nonlinear_arith)
                requires
                    q >= short + 1,
                    b >= 0,
            ;
            assert((short + 1) * b == 2 * (short * long) + 2 * long) by (nonlinear_arith)
                requires
                    b == 2 * long,
            ;
            assert(short * cap <= short * long) by (nonlinear_arith)
                requires
                    cap <= long,
                    short >= 0,
            ;
        }
    }
    assert(c.0 <= w && c.1 <= h);
    if c.0 * c.1 > m {
        assert(c.0 >= 1 && c.1 >= 1) by (nonlinear_arith)
            requires
                c.0 * c.1 > m,
        ;
        lemma_scaled_edge_bound(c.0, c.1, m);
        assert(c.1 * c.0 == c.0 * c.1) by (nonlinear_arith);
        lemma_scaled_edge_bound(c.1, c.0, m);
    }
}

/// An image within both budgets keeps its size.
pub proof fn lemma_small_image_keeps_size(w: nat, h: nat, cfg: PreprocessConfig)
    requires
        larger(w as int, h as int) <= cfg.max_long_edge,
        w * h <= cfg.max_pixels,
    ensures
        target_size(w, h, cfg) == (w, h),
{
}

/// An image whose longer edge exceeds the cap leaves step one with its
/// longer edge equal to the cap, and with its shorter edge within one pixel
/// of what the aspect ratio asks for: `short * cap / long`. Where the result
/// of step one is within the pixel budget, this is the final size.
///
/// A cap of 0 is left out: no edge is shorter than 1.
pub proof fn lemma_long_edge_is_cap(w: nat, h: nat, cfg: PreprocessConfig)
    requires
        larger(w as int, h as int) > cfg.max_long_edge,
        cfg.max_long_edge >= 1,
    ensures
        ({
            let cap = cfg.max_long_edge as int;
            let size = clamp_long_edge(w, h, cfg.max_long_edge as nat);
            let long = larger(w as int, h as int);
            let short = if w >= h {
                h as int
            } else {
                w as int
            };
            let new_short = if w >= h {
                size.1 as int
            } else {
                size.0 as int
            };
            &&& larger(size.0 as int, size.1 as int) == cap
            &&& (w >= h ==> size.0 == cap)
            &&& (w < h ==> size.1 == cap)
            &&& -long <= new_short * long - short * cap <= long
            &&& within_budget(size, cfg) ==> target_size(w, h, cfg) == size
        }),
{
    let cap = cfg.max_long_edge as nat;
    let long = larger(w as int, h as int) as nat;
    let short: nat = if w >= h {
        h
    } else {
        w
    };
    let q = round_div(short * cap, long);
    let a = 2 * (short * cap) + long;
    let b = 2 * long;
    lemma_round_div_bound(short, long, cap);
    assert(q * b <= a < q * b + b) by {
        vstd::arithmetic::div_mod::lemma_fundamental_div_mod(a as int, b as int);
        vstd::arithmetic::div_mod::lemma_mod_bound(a as int, b as int);
        assert(b * q == q * b) by (nonlinear_arith);
    }
    assert(q * b == 2 * (q * long)) by (nonlinear_arith)
        requires
            b == 2 * long,
    ;
    let new_short = larger(1, q as int);
    if q == 0 {
        assert(new_short * long == long) by (nonlinear_arith)
            requires
                new_short == 1,
        ;
    }
    assert(short * cap >= 0) by (nonlinear_arith)
        requires
            short >= 0,
            cap >= 0,
    ;
}

/// After step two the image is within the pixel budget, unless an edge had
/// to be raised to 1: where both scaled edges are at least 1 as computed,
/// their product is at most `max_pixels`.
///
/// Left out are the sizes of which an edge scales to less than one pixel
/// (an image of 1 by 100 pixels under a budget of 10 pixels comes to 1 by
/// 31): preprocessing refuses those.
pub proof fn lemma_scaled_image_fits(w: nat, h: nat, cfg: PreprocessConfig)
    requires
        ({
            let size = clamp_long_edge(w, h, cfg.max_long_edge as nat);
            &&& size.0 * size.1 > cfg.max_pixels
            &&& floor_sqrt(size.0 * cfg.max_pixels as nat / size.1) >= 1
            &&& floor_sqrt(size.1 * cfg.max_pixels as nat / size.0) >= 1
        }),
    ensures
        within_budget(target_size(w, h, cfg), cfg),
{
    let size = clamp_long_edge(w, h, cfg.max_long_edge as nat);
    let a = size.0;
    let b = size.1;
    let m = cfg.max_pixels as nat;
    assert(a > 0 && b > 0) by (nonlinear_arith)
        requires
            a * b > m,
    ;
    let x = a * m / b;
    let y = b * m / a;
    let j = floor_sqrt(x);
    let k = floor_sqrt(y);
    lemma_floor_sqrt_exists(x);
    lemma_floor_sqrt_exists(y);
    assert(x * b <= a * m) by {
        vstd::arithmetic::div_mod::lemma_fundamental_div_mod((a * m) as int, b as int);
        vstd::arithmetic::div_mod::lemma_mod_bound((a * m) as int, b as int);
        assert(b * x == x * b) by (nonlinear_arith);
    }
    assert(y * a <= b * m) by {
        vstd::arithmetic::div_mod::lemma_fundamental_div_mod((b * m) as int, a as int);
        vstd::arithmetic::div_mod::lemma_mod_bound((b * m) as int, a as int);
        assert(a * y == y * a) by (nonlinear_arith);
    }
    let jj = j * j;
    let kk = k * k;
    assert(jj * b <= a * m) by (nonlinear_arith)
        requires
            jj <= x,
            x * b <= a * m,
            b >= 0,
    ;
    assert(kk * a <= b * m) by (nonlinear_arith)
        requires
            kk <= y,
            y * a <= b * m,
            a >= 0,
    ;
    let ab = a * b;
    assert((jj * b) * (kk * a) <= (a * m) * (b * m)) by (nonlinear_arith)
        requires
            0 <= jj * b <= a * m,
            0 <= kk * a <= b * m,
    ;
    assert((jj * b) * (kk * a) == (jj * kk) * ab) by (nonlinear_arith)
        requires
            ab == a * b,
    ;
    assert((a * m) * (b * m) == (m * m) * ab) by (nonlinear_arith)
        requires
            ab == a * b,
    ;
    assert(jj * kk <= m * m) by (nonlinear_arith)
        requires
            (jj * kk) * ab <= (m * m) * ab,
            ab > 0,
    ;
    assert(jj * kk == (j * k) * (j * k)) by (nonlinear_arith)
        requires
            jj == j * j,
            kk == k * k,
    ;
    if j * k > m {
        lemma_square_monotone(m, j * k);
    }
}

} // verus!
