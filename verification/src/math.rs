//! Integer square root and fixed-point vector normalization.

use vstd::prelude::*;

verus! {

/// Floor of the square root of `n`.
pub open spec fn sqrt_floor(n: nat) -> nat
    decreases n,
{
    if n == 0 {
        0
    } else {
        let s = sqrt_floor((n - 1) as nat);
        if (s + 1) * (s + 1) <= n {
            s + 1
        } else {
            s
        }
    }
}

/// `sqrt_floor(n)` is the unique `r` with `r * r <= n < (r + 1) * (r + 1)`.
pub proof fn lemma_sqrt_floor_bounds(n: nat)
    ensures
        sqrt_floor(n) * sqrt_floor(n) <= n,
        n < (sqrt_floor(n) + 1) * (sqrt_floor(n) + 1),
    decreases n,
{
    if n == 0 {
        let s0 = sqrt_floor(n);
        assert(s0 == 0);
        assert(n < (s0 + 1) * (s0 + 1)) by (nonlinear_arith)
            requires
                n == 0nat && s0 == 0nat,
        ;
    } else {
        lemma_sqrt_floor_bounds((n - 1) as nat);
        let s = sqrt_floor((n - 1) as nat);
        assert(s * s <= n - 1);
        assert(((n - 1) as nat) < (s + 1) * (s + 1));
        if (s + 1) * (s + 1) <= n {
            assert(sqrt_floor(n) == s + 1);
            assert(n == (s + 1) * (s + 1));
            assert((s + 1) * (s + 1) < (s + 2) * (s + 2)) by (nonlinear_arith);
        } else {
            assert(sqrt_floor(n) == s);
            assert(s * s <= n);
            assert(n < (s + 1) * (s + 1));
        }
    }
}

pub proof fn lemma_sqrt_floor_unique(n: nat, r: nat)
    requires
        r * r <= n,
        n < (r + 1) * (r + 1),
    ensures
        r == sqrt_floor(n),
{
    lemma_sqrt_floor_bounds(n);
    let s = sqrt_floor(n);
    if r < s {
        assert((r + 1) * (r + 1) <= s * s) by (nonlinear_arith)
            requires
                r + 1 <= s,
        ;
        assert(false);
    } else if s < r {
        assert((s + 1) * (s + 1) <= r * r) by (nonlinear_arith)
            requires
                s + 1 <= r,
        ;
        assert(false);
    }
}

/// Binary-search integer square root.
pub fn isqrt(n: u64) -> (r: u64)
    requires
        n <= 9_000_000_000_000,
    ensures
        r == sqrt_floor(n as nat),
        r * r <= n,
        n < (r + 1) * (r + 1),
{
    let mut lo: u64 = 0;
    let mut hi: u64 = 3_000_000;
    proof {
        assert(n < (3_000_000u64 + 1) * (3_000_000u64 + 1)) by (nonlinear_arith)
            requires
                n <= 9_000_000_000_000u64,
        ;
    }
    while lo < hi
        invariant
            lo <= hi,
            hi <= 3_000_000,
            lo * lo <= n,
            n < (hi + 1) * (hi + 1),
        decreases hi - lo,
    {
        let mid: u64 = (lo + hi + 1) / 2;
        proof {
            assert(mid * mid <= 9_000_000_000_000u64) by (nonlinear_arith)
                requires
                    mid <= 3_000_000u64,
            ;
        }
        if mid * mid <= n {
            lo = mid;
        } else {
            hi = mid - 1;
        }
    }
    proof {
        lemma_sqrt_floor_unique(n as nat, lo as nat);
    }
    lo
}

/// `sqrt_floor` dominates any `v` whose square stays below `n`.
pub proof fn lemma_sqrt_floor_at_least(n: nat, v: nat)
    requires
        v * v <= n,
    ensures
        sqrt_floor(n) >= v,
{
    lemma_sqrt_floor_bounds(n);
    let s = sqrt_floor(n);
    if s < v {
        assert((s + 1) * (s + 1) <= v * v) by (nonlinear_arith)
            requires
                s + 1 <= v,
        ;
        assert(false);
    }
}

/// Squared magnitude of `(x, y)` after scaling each coordinate by 1000.
pub open spec fn scaled_mag2(x: int, y: int) -> int {
    (1000 * x) * (1000 * x) + (1000 * y) * (1000 * y)
}

/// Length used to normalize `(x, y)`: the rounded-down scaled magnitude.
pub open spec fn norm_len(x: int, y: int) -> int {
    sqrt_floor(scaled_mag2(x, y) as nat) as int
}

/// One coordinate of the normalized form of `(x, y)`; `c` is that coordinate
/// of the input. The zero vector normalizes to the zero vector.
pub open spec fn norm_coord(c: int, x: int, y: int) -> int {
    if x == 0 && y == 0 {
        0
    } else if c >= 0 {
        (1_000_000 * c) / norm_len(x, y)
    } else {
        -((1_000_000 * (-c)) / norm_len(x, y))
    }
}

/// Scale `(x, y)` to unit length in milli-units, rounding magnitudes down;
/// the zero vector is left as is.
pub fn normalize(x: i64, y: i64) -> (r: (i64, i64))
    requires
        -2000 <= x <= 2000,
        -2000 <= y <= 2000,
    ensures
        r.0 == norm_coord(x as int, x as int, y as int),
        r.1 == norm_coord(y as int, x as int, y as int),
        -1000 <= r.0 <= 1000,
        -1000 <= r.1 <= 1000,
        x == 0 && y == 0 ==> r.0 == 0 && r.1 == 0,
{
    if x == 0 && y == 0 {
        (0i64, 0i64)
    } else {
        let ax: u64 = if x < 0 {
            (-x) as u64
        } else {
            x as u64
        };
        let ay: u64 = if y < 0 {
            (-y) as u64
        } else {
            y as u64
        };
        let sx: u64 = ax * 1000;
        let sy: u64 = ay * 1000;
        proof {
            assert(sx * sx <= 4_000_000_000_000 && sy * sy <= 4_000_000_000_000)
                by (nonlinear_arith)
                requires
                    sx <= 2_000_000u64 && sy <= 2_000_000u64,
            ;
        }
        let m: u64 = sx * sx + sy * sy;
        proof {
            let xi = x as int;
            let yi = y as int;
            assert((1000 * xi) * (1000 * xi) == (sx as int) * (sx as int) && (1000 * yi) * (1000
                * yi) == (sy as int) * (sy as int)) by (nonlinear_arith)
                requires
                    sx == 1000 * xi || sx == 1000 * (-xi),
                    sy == 1000 * yi || sy == 1000 * (-yi),
            ;
            assert(m == scaled_mag2(xi, yi));
            assert(sx >= 1000 || sy >= 1000);
            assert(1_000_000 <= sx * sx || 1_000_000 <= sy * sy) by (nonlinear_arith)
                requires
                    sx >= 1000 || sy >= 1000,
            ;
        }
        let l: u64 = isqrt(m);
        proof {
            lemma_sqrt_floor_at_least(m as nat, 1000);
            lemma_sqrt_floor_at_least(m as nat, sx as nat);
            lemma_sqrt_floor_at_least(m as nat, sy as nat);
            assert(l >= 1000 && l >= sx && l >= sy);
        }
        let sxx: u64 = sx * 1000;
        let syy: u64 = sy * 1000;
        let qx: u64 = sxx / l;
        let qy: u64 = syy / l;
        proof {
            vstd::arithmetic::div_mod::lemma_div_is_ordered(sxx as int, (l * 1000) as int, l as int);
            vstd::arithmetic::div_mod::lemma_div_is_ordered(syy as int, (l * 1000) as int, l as int);
            vstd::arithmetic::div_mod::lemma_div_multiples_vanish(1000, l as int);
            assert(((l * 1000) as int) / (l as int) == 1000);
            assert(qx <= 1000 && qy <= 1000);
        }
        let rx: i64 = if x < 0 {
            -(qx as i64)
        } else {
            qx as i64
        };
        let ry: i64 = if y < 0 {
            -(qy as i64)
        } else {
            qy as i64
        };
        (rx, ry)
    }
}

/// A normalized nonzero vector has squared magnitude within a fraction of a
/// percent of the unit value `1000 * 1000`; nonlinear core of the argument.
proof fn lemma_norm_mag_core(a: int, b: int, l: int, qx: int, qy: int, rx: int, ry: int)
    requires
        0 <= a <= 2000,
        0 <= b <= 2000,
        a + b >= 1,
        1000 <= l,
        1000 * a <= l,
        1000 * b <= l,
        l * l <= 1_000_000 * (a * a) + 1_000_000 * (b * b),
        1_000_000 * (a * a) + 1_000_000 * (b * b) < (l + 1) * (l + 1),
        1_000_000 * a == l * qx + rx,
        0 <= rx < l,
        1_000_000 * b == l * qy + ry,
        0 <= ry < l,
    ensures
        0 <= qx <= 1000,
        0 <= qy <= 1000,
        995_999 <= qx * qx + qy * qy,
        qx * qx + qy * qy <= 1_002_002,
{
    assert(0 <= qx <= 1000 && 0 <= qy <= 1000) by (nonlinear_arith)
        requires
            1000 <= l,
            1000 * a <= l,
            1000 * b <= l,
            0 <= a,
            0 <= b,
            1_000_000 * a == l * qx + rx,
            0 <= rx < l,
            1_000_000 * b == l * qy + ry,
            0 <= ry < l,
    ;
    let s = qx * qx + qy * qy;
    // Upper bound: (qx^2 + qy^2) l^2 <= (10^6 a)^2 + (10^6 b)^2 < 10^6 (l+1)^2.
    assert(s * (l * l) <= 1_000_000 * (1_000_000 * (a * a) + 1_000_000 * (b * b)))
        by (nonlinear_arith)
        requires
            s == qx * qx + qy * qy,
            0 <= l,
            0 <= qx,
            0 <= qy,
            l * qx <= 1_000_000 * a,
            l * qy <= 1_000_000 * b,
            0 <= a,
            0 <= b,
    ;
    assert(s * (l * l) < 1_000_000 * ((l + 1) * (l + 1)));
    if s >= 1_002_003 {
        assert(false) by (nonlinear_arith)
            requires
                l >= 1000,
                s >= 1_002_003,
                s * (l * l) < 1_000_000 * ((l + 1) * (l + 1)),
        ;
    }
    // Lower bound: 10^6 (l*l) <= (10^6 a)^2 + (10^6 b)^2 < l^2 ((qx+1)^2 + (qy+1)^2).
    let t = (qx + 1) * (qx + 1) + (qy + 1) * (qy + 1);
    assert(l * (qx + 1) == l * qx + l && l * (qy + 1) == l * qy + l) by (nonlinear_arith);
    assert(1_000_000 * (1_000_000 * (a * a) + 1_000_000 * (b * b)) < (l * l) * t)
        by (nonlinear_arith)
        requires
            t == (qx + 1) * (qx + 1) + (qy + 1) * (qy + 1),
            0 <= 1_000_000 * a,
            0 <= 1_000_000 * b,
            1_000_000 * a < l * (qx + 1),
            1_000_000 * b < l * (qy + 1),
            0 <= l,
    ;
    assert(1_000_000 * (l * l) <= 1_000_000 * (1_000_000 * (a * a) + 1_000_000 * (b * b)));
    assert(t > 1_000_000) by (nonlinear_arith)
        requires
            l >= 1,
            1_000_000 * (l * l) < (l * l) * t,
    ;
    assert(t == s + 2 * qx + 2 * qy + 2) by (nonlinear_arith)
        requires
            s == qx * qx + qy * qy,
            t == (qx + 1) * (qx + 1) + (qy + 1) * (qy + 1),
    ;
}

/// The normalized form of a nonzero vector has squared magnitude between
/// 995_999 and 1_002_002: unit length up to the rounding of the fixed point
/// representation.
pub proof fn lemma_norm_magnitude(x: int, y: int)
    requires
        -2000 <= x <= 2000,
        -2000 <= y <= 2000,
        !(x == 0 && y == 0),
    ensures
        ({
            let nx = norm_coord(x, x, y);
            let ny = norm_coord(y, x, y);
            995_999 <= nx * nx + ny * ny <= 1_002_002 && -1000 <= nx <= 1000 && -1000 <= ny <= 1000
        }),
{
    let a = if x >= 0 {
        x
    } else {
        -x
    };
    let b = if y >= 0 {
        y
    } else {
        -y
    };
    let m = scaled_mag2(x, y);
    assert((1000 * x) * (1000 * x) == 1_000_000 * (a * a) && (1000 * y) * (1000 * y) == 1_000_000
        * (b * b) && (1000 * a) * (1000 * a) == 1_000_000 * (a * a) && (1000 * b) * (1000 * b)
        == 1_000_000 * (b * b) && a * a >= 0 && b * b >= 0 && (a >= 1 ==> 1_000_000 * (a * a)
        >= 1_000_000) && (b >= 1 ==> 1_000_000 * (b * b) >= 1_000_000)) by (nonlinear_arith)
        requires
            a == x || a == -x,
            b == y || b == -y,
            0 <= a,
            0 <= b,
    ;
    assert(m == 1_000_000 * (a * a) + 1_000_000 * (b * b));
    assert(m >= 1_000_000);
    lemma_sqrt_floor_bounds(m as nat);
    let l = norm_len(x, y);
    assert(l * l <= m && m < (l + 1) * (l + 1));
    lemma_sqrt_floor_at_least(m as nat, 1000);
    assert(l >= 1000);
    assert((1000 * a) * (1000 * a) <= m && (1000 * b) * (1000 * b) <= m) by (nonlinear_arith)
        requires
            m == 1_000_000 * (a * a) + 1_000_000 * (b * b),
            a * a >= 0,
            b * b >= 0,
            (1000 * a) * (1000 * a) == 1_000_000 * (a * a),
            (1000 * b) * (1000 * b) == 1_000_000 * (b * b),
    ;
    assert((1000 * a) as nat == 1000 * a && (1000 * b) as nat == 1000 * b);
    assert(((1000 * a) as nat) * ((1000 * a) as nat) <= m as nat);
    assert(((1000 * b) as nat) * ((1000 * b) as nat) <= m as nat);
    lemma_sqrt_floor_at_least(m as nat, (1000 * a) as nat);
    lemma_sqrt_floor_at_least(m as nat, (1000 * b) as nat);
    assert(1000 * a <= l && 1000 * b <= l);
    let qx = (1_000_000 * a) / l;
    let qy = (1_000_000 * b) / l;
    let rx = (1_000_000 * a) % l;
    let ry = (1_000_000 * b) % l;
    vstd::arithmetic::div_mod::lemma_fundamental_div_mod(1_000_000 * a, l);
    vstd::arithmetic::div_mod::lemma_fundamental_div_mod(1_000_000 * b, l);
    vstd::arithmetic::div_mod::lemma_mod_division_less_than_divisor(1_000_000 * a, l);
    vstd::arithmetic::div_mod::lemma_mod_division_less_than_divisor(1_000_000 * b, l);
    lemma_norm_mag_core(a, b, l, qx, qy, rx, ry);
    let nx = norm_coord(x, x, y);
    let ny = norm_coord(y, x, y);
    assert(nx == qx || nx == -qx);
    assert(ny == qy || ny == -qy);
    assert(nx * nx == qx * qx && ny * ny == qy * qy) by (nonlinear_arith)
        requires
            nx == qx || nx == -qx,
            ny == qy || ny == -qy,
    ;
}

/// Signed displacement covered in `dt_ms` milliseconds at `speed` milli-units
/// per second along the milli-unit direction coordinate `d`, rounded toward
/// zero.
pub open spec fn displacement(d: int, speed: int, dt: int) -> int {
    if d >= 0 {
        (d * speed * dt) / 1_000_000
    } else {
        -(((-d) * speed * dt) / 1_000_000)
    }
}

/// Move along one axis: direction coordinate times speed times elapsed time.
pub fn scaled_step(d: i64, speed: i64, dt_ms: u64) -> (r: i64)
    requires
        -1000 <= d <= 1000,
        0 <= speed <= 500_000,
        dt_ms <= 3_600_000,
    ensures
        r == displacement(d as int, speed as int, dt_ms as int),
        -1_800_000_000 <= r <= 1_800_000_000,
        d == 0 ==> r == 0,
{
    let ad: u64 = if d < 0 {
        (-d) as u64
    } else {
        d as u64
    };
    proof {
        assert(ad * (speed as u64) <= 500_000_000) by (nonlinear_arith)
            requires
                ad <= 1000u64,
                speed as u64 <= 500_000u64,
        ;
    }
    let p1: u64 = ad * (speed as u64);
    proof {
        assert(p1 * dt_ms <= 1_800_000_000_000_000) by (nonlinear_arith)
            requires
                p1 <= 500_000_000u64,
                dt_ms <= 3_600_000u64,
        ;
    }
    let prod: u64 = p1 * dt_ms;
    let q: u64 = prod / 1_000_000;
    proof {
        vstd::arithmetic::div_mod::lemma_div_is_ordered(
            prod as int,
            1_800_000_000_000_000,
            1_000_000,
        );
        assert(q <= 1_800_000_000);
    }
    if d < 0 {
        -(q as i64)
    } else {
        q as i64
    }
}

} // verus!
