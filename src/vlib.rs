//! Cartesian and Quadray vectors on one exact integer scale.
//!
//! Both representations hold integers. A Cartesian coordinate counts units of
//! `√2/4`; a Quadray coordinate is stored doubled ("half units"). On this
//! scale the basis transforms, whose real factors are `√2` and `1/(2√2)`, map
//! integers to integers exactly, and both dot products come out as integer
//! multiples of `1/8`. The Quadray ray `(1, 0, 0, 0)` is stored as
//! `(2, 0, 0, 0)` and is the Cartesian `(1, 1, 1)`; one IVM edge (length 1)
//! has squared length `8`.
use vstd::prelude::*;

verus! {

/// Largest coordinate magnitude for which dot products are computed exactly
/// in 128-bit arithmetic.
pub const METRIC_LIMIT: i64 = 0x1000_0000_0000_0000;

/// `v` is representable as an `i64`.
pub open spec fn in_i64(v: int) -> bool {
    i64::MIN <= v <= i64::MAX
}

/// `v` is within the magnitude accepted by the dot products.
pub open spec fn in_metric_range(v: int) -> bool {
    -METRIC_LIMIT <= v <= METRIC_LIMIT
}

/// The positive part of `v`: `v` when `v >= 0`, else `0`.
pub open spec fn pos_part(v: int) -> int {
    if v >= 0 {
        v
    } else {
        0
    }
}

/// The negative part of `v`: `-v` when `v < 0`, else `0`.
pub open spec fn neg_part(v: int) -> int {
    if v < 0 {
        -v
    } else {
        0
    }
}

/// The smallest of four integers.
pub open spec fn min4(a: int, b: int, c: int, d: int) -> int {
    let m1 = if a <= b {
        a
    } else {
        b
    };
    let m2 = if c <= d {
        c
    } else {
        d
    };
    if m1 <= m2 {
        m1
    } else {
        m2
    }
}

proof fn lemma_mul_bound(x: int, y: int, l: int)
    by (nonlinear_arith)
    requires
        -l <= x <= l,
        -l <= y <= l,
    ensures
        -(l * l) <= x * y <= l * l,
{
}

/// A point or direction in Cartesian 3-space, in units of `√2/4`.
#[derive(Clone, Copy, Debug, PartialEq, Eq, Structural)]
pub struct Vxyz {
    pub x: i64,
    pub y: i64,
    pub z: i64,
}

impl Vxyz {
    /// Every coordinate is within `METRIC_LIMIT`.
    pub open spec fn in_metric_range(self) -> bool {
        &&& in_metric_range(self.x as int)
        &&& in_metric_range(self.y as int)
        &&& in_metric_range(self.z as int)
    }

    /// The Euclidean inner product, in eighths.
    pub open spec fn spec_dot(self, o: Vxyz) -> int {
        self.x * o.x + self.y * o.y + self.z * o.z
    }

    /// The Quadray coordinates of this point, in half units, before
    /// normalization.
    pub open spec fn spec_to_ivm(self) -> Vivm {
        Vivm {
            a: (pos_part(self.x as int) + pos_part(self.y as int) + pos_part(self.z as int)) as i64,
            b: (neg_part(self.x as int) + neg_part(self.y as int) + pos_part(self.z as int)) as i64,
            c: (neg_part(self.x as int) + pos_part(self.y as int) + neg_part(self.z as int)) as i64,
            d: (pos_part(self.x as int) + neg_part(self.y as int) + neg_part(self.z as int)) as i64,
        }
    }

    /// The four Quadray coordinates of this point fit in an `i64`.
    pub open spec fn ivm_fits(self) -> bool {
        &&& in_i64(pos_part(self.x as int) + pos_part(self.y as int) + pos_part(self.z as int))
        &&& in_i64(neg_part(self.x as int) + neg_part(self.y as int) + pos_part(self.z as int))
        &&& in_i64(neg_part(self.x as int) + pos_part(self.y as int) + neg_part(self.z as int))
        &&& in_i64(pos_part(self.x as int) + neg_part(self.y as int) + neg_part(self.z as int))
    }

    /// Builds a vector from its three coordinates.
    pub fn new(coords: &[i64]) -> (r: Vxyz)
        requires
            coords@.len() == 3,
        ensures
            r.x == coords@[0],
            r.y == coords@[1],
            r.z == coords@[2],
    {
        Vxyz { x: coords[0], y: coords[1], z: coords[2] }
    }

    /// Component-wise sum.
    pub fn add(&self, other: &Vxyz) -> (r: Vxyz)
        requires
            in_i64(self.x + other.x),
            in_i64(self.y + other.y),
            in_i64(self.z + other.z),
        ensures
            r.x == self.x + other.x,
            r.y == self.y + other.y,
            r.z == self.z + other.z,
    {
        Vxyz { x: self.x + other.x, y: self.y + other.y, z: self.z + other.z }
    }

    /// Component-wise negation.
    pub fn neg(&self) -> (r: Vxyz)
        requires
            in_i64(-self.x),
            in_i64(-self.y),
            in_i64(-self.z),
        ensures
            r.x == -self.x,
            r.y == -self.y,
            r.z == -self.z,
    {
        Vxyz { x: -self.x, y: -self.y, z: -self.z }
    }

    /// Component-wise difference.
    pub fn sub(&self, other: &Vxyz) -> (r: Vxyz)
        requires
            in_i64(self.x - other.x),
            in_i64(self.y - other.y),
            in_i64(self.z - other.z),
        ensures
            r.x == self.x - other.x,
            r.y == self.y - other.y,
            r.z == self.z - other.z,
    {
        Vxyz { x: self.x - other.x, y: self.y - other.y, z: self.z - other.z }
    }

    /// Scales every coordinate by `scalar`.
    pub fn mul(&self, scalar: i64) -> (r: Vxyz)
        requires
            in_i64(self.x * scalar),
            in_i64(self.y * scalar),
            in_i64(self.z * scalar),
        ensures
            r.x == self.x * scalar,
            r.y == self.y * scalar,
            r.z == self.z * scalar,
    {
        Vxyz { x: self.x * scalar, y: self.y * scalar, z: self.z * scalar }
    }

    /// The Euclidean inner product `x1*x2 + y1*y2 + z1*z2`, in eighths.
    pub fn dot(&self, other: &Vxyz) -> (r: i128)
        requires
            self.in_metric_range(),
            other.in_metric_range(),
        ensures
            r == self.spec_dot(*other),
    {
        proof {
            let l = METRIC_LIMIT as int;
            lemma_mul_bound(self.x as int, other.x as int, l);
            lemma_mul_bound(self.y as int, other.y as int, l);
            lemma_mul_bound(self.z as int, other.z as int, l);
        }
        let px = self.x as i128 * other.x as i128;
        let py = self.y as i128 * other.y as i128;
        let pz = self.z as i128 * other.z as i128;
        px + py + pz
    }

    /// The squared length, in eighths; never negative.
    pub fn length_squared(&self) -> (r: i128)
        requires
            self.in_metric_range(),
        ensures
            r == self.spec_dot(*self),
            r >= 0,
    {
        proof {
            lemma_squares_nonneg3(self.x as int, self.y as int, self.z as int);
        }
        self.dot(self)
    }

    /// Converts to Quadray coordinates (half units), without normalizing:
    /// `a = x⁺ + y⁺ + z⁺`, `b = x⁻ + y⁻ + z⁺`, `c = x⁻ + y⁺ + z⁻`,
    /// `d = x⁺ + y⁻ + z⁻`, where `v⁺` and `v⁻` are the positive and negative
    /// parts, zero counting as positive.
    pub fn to_ivm(&self) -> (r: Vivm)
        requires
            self.ivm_fits(),
        ensures
            r == self.spec_to_ivm(),
            r.wf(),
    {
        let (xp, xn): (i128, i128) = if self.x >= 0 {
            (self.x as i128, 0)
        } else {
            (0, -(self.x as i128))
        };
        let (yp, yn): (i128, i128) = if self.y >= 0 {
            (self.y as i128, 0)
        } else {
            (0, -(self.y as i128))
        };
        let (zp, zn): (i128, i128) = if self.z >= 0 {
            (self.z as i128, 0)
        } else {
            (0, -(self.z as i128))
        };
        Vivm {
            a: (xp + yp + zp) as i64,
            b: (xn + yn + zp) as i64,
            c: (xn + yp + zn) as i64,
            d: (xp + yn + zn) as i64,
        }
    }
}

proof fn lemma_squares_nonneg3(x: int, y: int, z: int)
    by (nonlinear_arith)
    ensures
        x * x + y * y + z * z >= 0,
{
}

/// A point in Quadray (IVM) coordinates, each stored doubled (half units).
///
/// A well-formed vector has an even coordinate sum, which is what makes its
/// Cartesian image integral. The normalized form has a zero minimum.
#[derive(Clone, Copy, Debug, PartialEq, Eq, Structural)]
pub struct Vivm {
    pub a: i64,
    pub b: i64,
    pub c: i64,
    pub d: i64,
}

impl Vivm {
    /// The sum of the stored coordinates.
    pub open spec fn sum(self) -> int {
        self.a + self.b + self.c + self.d
    }

    /// The coordinate sum is even.
    pub open spec fn wf(self) -> bool {
        self.sum() % 2 == 0
    }

    /// Every coordinate is within `METRIC_LIMIT`.
    pub open spec fn in_metric_range(self) -> bool {
        &&& in_metric_range(self.a as int)
        &&& in_metric_range(self.b as int)
        &&& in_metric_range(self.c as int)
        &&& in_metric_range(self.d as int)
    }

    /// The minimum coordinate is zero.
    pub open spec fn is_normalized(self) -> bool {
        min4(self.a as int, self.b as int, self.c as int, self.d as int) == 0
    }

    /// This vector holds `(a, b, c, d)` less their minimum.
    pub open spec fn normalizes(self, a: int, b: int, c: int, d: int) -> bool {
        let m = min4(a, b, c, d);
        &&& self.a == a - m
        &&& self.b == b - m
        &&& self.c == c - m
        &&& self.d == d - m
    }

    /// The normalized form: every coordinate less the minimum.
    pub open spec fn spec_normalize(self) -> Vivm {
        let m = min4(self.a as int, self.b as int, self.c as int, self.d as int);
        Vivm {
            a: (self.a - m) as i64,
            b: (self.b - m) as i64,
            c: (self.c - m) as i64,
            d: (self.d - m) as i64,
        }
    }

    /// Sixteen times the dot product in eighths: the sum of the products of
    /// the centered coordinates, each centered coordinate scaled by four
    /// (`4a - sum`), so that it stays an integer.
    pub open spec fn spec_dot16(self, o: Vivm) -> int {
        let s = self.sum();
        let t = o.sum();
        (4 * self.a - s) * (4 * o.a - t) + (4 * self.b - s) * (4 * o.b - t) + (4 * self.c - s)
            * (4 * o.c - t) + (4 * self.d - s) * (4 * o.d - t)
    }

    /// The Quadray dot product, in eighths: half the sum of the products of
    /// the coordinates once each vector has its mean subtracted.
    pub open spec fn spec_dot(self, o: Vivm) -> int {
        self.spec_dot16(o) / 16
    }

    /// The Cartesian coordinates of this point, in units of `√2/4`.
    pub open spec fn spec_to_xyz(self) -> Vxyz {
        Vxyz {
            x: ((self.a - self.b - self.c + self.d) / 2) as i64,
            y: ((self.a - self.b + self.c - self.d) / 2) as i64,
            z: ((self.a + self.b - self.c - self.d) / 2) as i64,
        }
    }

    /// The three Cartesian coordinates of this point fit in an `i64`.
    pub open spec fn xyz_fits(self) -> bool {
        &&& in_i64((self.a - self.b - self.c + self.d) / 2)
        &&& in_i64((self.a - self.b + self.c - self.d) / 2)
        &&& in_i64((self.a + self.b - self.c - self.d) / 2)
    }

    /// Subtracts the minimum coordinate from all four, which leaves the point
    /// unchanged and makes the representation canonical.
    pub fn normalize(&self) -> (r: Vivm)
        requires
            normalizable(self.a as int, self.b as int, self.c as int, self.d as int),
        ensures
            r == self.spec_normalize(),
            r.normalizes(self.a as int, self.b as int, self.c as int, self.d as int),
            r.is_normalized(),
            r.wf() == self.wf(),
    {
        let m1 = if self.a <= self.b {
            self.a
        } else {
            self.b
        };
        let m2 = if self.c <= self.d {
            self.c
        } else {
            self.d
        };
        let m = if m1 <= m2 {
            m1
        } else {
            m2
        };
        Vivm { a: self.a - m, b: self.b - m, c: self.c - m, d: self.d - m }
    }

    /// Builds a vector from four whole-unit coordinates and normalizes it.
    /// The stored coordinates are twice the given ones less their minimum.
    pub fn new(coords: &[i64]) -> (r: Vivm)
        requires
            coords@.len() == 4,
            in_i64(2 * (coords@[0] - min4(coords@[0] as int, coords@[1] as int, coords@[2] as int, coords@[3] as int))),
            in_i64(2 * (coords@[1] - min4(coords@[0] as int, coords@[1] as int, coords@[2] as int, coords@[3] as int))),
            in_i64(2 * (coords@[2] - min4(coords@[0] as int, coords@[1] as int, coords@[2] as int, coords@[3] as int))),
            in_i64(2 * (coords@[3] - min4(coords@[0] as int, coords@[1] as int, coords@[2] as int, coords@[3] as int))),
        ensures
            r.normalizes(2 * coords@[0], 2 * coords@[1], 2 * coords@[2], 2 * coords@[3]),
            r.is_normalized(),
            r.wf(),
    {
        let m1 = if coords[0] <= coords[1] {
            coords[0]
        } else {
            coords[1]
        };
        let m2 = if coords[2] <= coords[3] {
            coords[2]
        } else {
            coords[3]
        };
        let m = if m1 <= m2 {
            m1
        } else {
            m2
        };
        Vivm {
            a: 2 * (coords[0] - m),
            b: 2 * (coords[1] - m),
            c: 2 * (coords[2] - m),
            d: 2 * (coords[3] - m),
        }
    }

    /// Component-wise sum, normalized.
    pub fn add(&self, other: &Vivm) -> (r: Vivm)
        requires
            normalizable(self.a + other.a, self.b + other.b, self.c + other.c, self.d + other.d),
        ensures
            r.normalizes(self.a + other.a, self.b + other.b, self.c + other.c, self.d + other.d),
            r.is_normalized(),
            self.wf() && other.wf() ==> r.wf(),
    {
        let raw = Vivm {
            a: self.a + other.a,
            b: self.b + other.b,
            c: self.c + other.c,
            d: self.d + other.d,
        };
        raw.normalize()
    }

    /// Component-wise negation, normalized.
    pub fn neg(&self) -> (r: Vivm)
        requires
            normalizable(-self.a, -self.b, -self.c, -self.d),
        ensures
            r.normalizes(-self.a, -self.b, -self.c, -self.d),
            r.is_normalized(),
            self.wf() ==> r.wf(),
    {
        let raw = Vivm { a: -self.a, b: -self.b, c: -self.c, d: -self.d };
        raw.normalize()
    }

    /// Component-wise difference, normalized.
    pub fn sub(&self, other: &Vivm) -> (r: Vivm)
        requires
            normalizable(self.a - other.a, self.b - other.b, self.c - other.c, self.d - other.d),
        ensures
            r.normalizes(self.a - other.a, self.b - other.b, self.c - other.c, self.d - other.d),
            r.is_normalized(),
            self.wf() && other.wf() ==> r.wf(),
    {
        let raw = Vivm {
            a: self.a - other.a,
            b: self.b - other.b,
            c: self.c - other.c,
            d: self.d - other.d,
        };
        raw.normalize()
    }

    /// Scales every coordinate by `scalar`. The result is not normalized: a
    /// negative scalar yields negative coordinates; `normalize` restores the
    /// canonical form.
    pub fn mul(&self, scalar: i64) -> (r: Vivm)
        requires
            in_i64(self.a * scalar),
            in_i64(self.b * scalar),
            in_i64(self.c * scalar),
            in_i64(self.d * scalar),
        ensures
            r.a == self.a * scalar,
            r.b == self.b * scalar,
            r.c == self.c * scalar,
            r.d == self.d * scalar,
            self.wf() ==> r.wf(),
    {
        proof {
            if self.wf() {
                lemma_even_sum_scaled(
                    self.a as int,
                    self.b as int,
                    self.c as int,
                    self.d as int,
                    scalar as int,
                    self.sum() / 2,
                );
            }
        }
        Vivm { a: self.a * scalar, b: self.b * scalar, c: self.c * scalar, d: self.d * scalar }
    }

    /// The Quadray dot product, in eighths (see `spec_dot`).
    pub fn dot(&self, other: &Vivm) -> (r: i128)
        requires
            self.wf(),
            other.wf(),
            self.in_metric_range(),
            other.in_metric_range(),
        ensures
            r == self.spec_dot(*other),
    {
        let s = self.a as i128 + self.b as i128 + self.c as i128 + self.d as i128;
        let t = other.a as i128 + other.b as i128 + other.c as i128 + other.d as i128;
        proof {
            let l = METRIC_LIMIT as int;
            lemma_mul_bound(self.a as int, other.a as int, l);
            lemma_mul_bound(self.b as int, other.b as int, l);
            lemma_mul_bound(self.c as int, other.c as int, l);
            lemma_mul_bound(self.d as int, other.d as int, l);
            lemma_mul_bound(s as int, t as int, 4 * l);
        }
        let p = self.a as i128 * other.a as i128 + self.b as i128 * other.b as i128 + self.c as i128
            * other.c as i128 + self.d as i128 * other.d as i128;
        let q = 4 * p - s * t;
        proof {
            lemma_dot16_expanded(*self, *other);
            lemma_even_product(s as int, t as int);
        }
        q / 4
    }

    /// The squared length, in eighths; never negative.
    pub fn length_squared(&self) -> (r: i128)
        requires
            self.wf(),
            self.in_metric_range(),
        ensures
            r == self.spec_dot(*self),
            r >= 0,
    {
        proof {
            let s = self.sum();
            lemma_squares_nonneg4(4 * self.a - s, 4 * self.b - s, 4 * self.c - s, 4 * self.d - s);
        }
        self.dot(self)
    }

    /// Converts to Cartesian coordinates (units of `√2/4`):
    /// `x = (a - b - c + d)/2`, `y = (a - b + c - d)/2`, `z = (a + b - c - d)/2`
    /// on the stored half-unit coordinates.
    pub fn to_xyz(&self) -> (r: Vxyz)
        requires
            self.wf(),
            self.xyz_fits(),
        ensures
            r == self.spec_to_xyz(),
    {
        let (a, b, c, d) = (self.a as i128, self.b as i128, self.c as i128, self.d as i128);
        Vxyz {
            x: ((a - b - c + d) / 2) as i64,
            y: ((a - b + c - d) / 2) as i64,
            z: ((a + b - c - d) / 2) as i64,
        }
    }
}

/// Every coordinate fits in an `i64`, and so does its distance above the
/// minimum.
pub open spec fn normalizable(a: int, b: int, c: int, d: int) -> bool {
    let m = min4(a, b, c, d);
    &&& in_i64(a) && in_i64(b) && in_i64(c) && in_i64(d)
    &&& in_i64(a - m) && in_i64(b - m) && in_i64(c - m) && in_i64(d - m)
}

proof fn lemma_even_sum_scaled(a: int, b: int, c: int, d: int, k: int, h: int)
    by (nonlinear_arith)
    requires
        a + b + c + d == 2 * h,
    ensures
        (a * k + b * k + c * k + d * k) % 2 == 0,
{
    assert(a * k + b * k + c * k + d * k == 2 * (h * k));
}

proof fn lemma_even_product(s: int, t: int)
    requires
        s % 2 == 0,
        t % 2 == 0,
    ensures
        (s * t) % 4 == 0,
{
    let (h, k) = (s / 2, t / 2);
    assert(s * t == 4 * (h * k)) by (nonlinear_arith)
        requires
            s == 2 * h,
            t == 2 * k,
    ;
}

proof fn lemma_centered_term(a: int, s: int, e: int, t: int)
    by (nonlinear_arith)
    ensures
        (4 * a - s) * (4 * e - t) == 16 * (a * e) - 4 * (a * t) - 4 * (s * e) + s * t,
{
}

proof fn lemma_distribute4(a: int, b: int, c: int, d: int, t: int)
    by (nonlinear_arith)
    ensures
        a * t + b * t + c * t + d * t == (a + b + c + d) * t,
        t * a + t * b + t * c + t * d == t * (a + b + c + d),
{
}

proof fn lemma_dot16_expanded(u: Vivm, v: Vivm)
    ensures
        u.spec_dot16(v) == 4 * (4 * (u.a * v.a + u.b * v.b + u.c * v.c + u.d * v.d) - u.sum()
            * v.sum()),
{
    let (a, b, c, d) = (u.a as int, u.b as int, u.c as int, u.d as int);
    let (e, f, g, h) = (v.a as int, v.b as int, v.c as int, v.d as int);
    let (s, t) = (u.sum(), v.sum());
    lemma_centered_term(a, s, e, t);
    lemma_centered_term(b, s, f, t);
    lemma_centered_term(c, s, g, t);
    lemma_centered_term(d, s, h, t);
    lemma_distribute4(a, b, c, d, t);
    lemma_distribute4(e, f, g, h, s);
}

proof fn lemma_squares_nonneg4(p: int, q: int, r: int, s: int)
    by (nonlinear_arith)
    ensures
        p * p + q * q + r * r + s * s >= 0,
{
}

proof fn lemma_distribute(k: int, p: int, q: int)
    by (nonlinear_arith)
    ensures
        k * (p + q) == k * p + k * q,
        k * (p - q) == k * p - k * q,
        (p + q) * k == p * k + q * k,
        (p - q) * k == p * k - q * k,
{
}

proof fn lemma_expand_x(a: int, b: int, c: int, d: int, e: int, f: int, g: int, h: int)
    ensures
        (a - b - c + d) * (e - f - g + h) == a * e - a * f - a * g + a * h - b * e + b * f + b * g - b * h - c * e + c * f + c * g - c * h + d * e - d * f - d * g + d * h,
{
    lemma_distribute(a - b - c + d, e - f - g, h);
    lemma_distribute(a - b - c + d, e - f, g);
    lemma_distribute(a - b - c + d, e, f);
    lemma_distribute(e, a - b - c, d);
    lemma_distribute(e, a - b, c);
    lemma_distribute(e, a, b);
    lemma_distribute(f, a - b - c, d);
    lemma_distribute(f, a - b, c);
    lemma_distribute(f, a, b);
    lemma_distribute(g, a - b - c, d);
    lemma_distribute(g, a - b, c);
    lemma_distribute(g, a, b);
    lemma_distribute(h, a - b - c, d);
    lemma_distribute(h, a - b, c);
    lemma_distribute(h, a, b);
}

proof fn lemma_expand_y(a: int, b: int, c: int, d: int, e: int, f: int, g: int, h: int)
    ensures
        (a - b + c - d) * (e - f + g - h) == a * e - a * f + a * g - a * h - b * e + b * f - b * g + b * h + c * e - c * f + c * g - c * h - d * e + d * f - d * g + d * h,
{
    lemma_distribute(a - b + c - d, e - f + g, h);
    lemma_distribute(a - b + c - d, e - f, g);
    lemma_distribute(a - b + c - d, e, f);
    lemma_distribute(e, a - b + c, d);
    lemma_distribute(e, a - b, c);
    lemma_distribute(e, a, b);
    lemma_distribute(f, a - b + c, d);
    lemma_distribute(f, a - b, c);
    lemma_distribute(f, a, b);
    lemma_distribute(g, a - b + c, d);
    lemma_distribute(g, a - b, c);
    lemma_distribute(g, a, b);
    lemma_distribute(h, a - b + c, d);
    lemma_distribute(h, a - b, c);
    lemma_distribute(h, a, b);
}

proof fn lemma_expand_z(a: int, b: int, c: int, d: int, e: int, f: int, g: int, h: int)
    ensures
        (a + b - c - d) * (e + f - g - h) == a * e + a * f - a * g - a * h + b * e + b * f - b * g - b * h - c * e - c * f + c * g + c * h - d * e - d * f + d * g + d * h,
{
    lemma_distribute(a + b - c - d, e + f - g, h);
    lemma_distribute(a + b - c - d, e + f, g);
    lemma_distribute(a + b - c - d, e, f);
    lemma_distribute(e, a + b - c, d);
    lemma_distribute(e, a + b, c);
    lemma_distribute(e, a, b);
    lemma_distribute(f, a + b - c, d);
    lemma_distribute(f, a + b, c);
    lemma_distribute(f, a, b);
    lemma_distribute(g, a + b - c, d);
    lemma_distribute(g, a + b, c);
    lemma_distribute(g, a, b);
    lemma_distribute(h, a + b - c, d);
    lemma_distribute(h, a + b, c);
    lemma_distribute(h, a, b);
}

proof fn lemma_expand_sum(a: int, b: int, c: int, d: int, e: int, f: int, g: int, h: int)
    ensures
        (a + b + c + d) * (e + f + g + h) == a * e + a * f + a * g + a * h + b * e + b * f + b * g + b * h + c * e + c * f + c * g + c * h + d * e + d * f + d * g + d * h,
{
    lemma_distribute(a + b + c + d, e + f + g, h);
    lemma_distribute(a + b + c + d, e + f, g);
    lemma_distribute(a + b + c + d, e, f);
    lemma_distribute(e, a + b + c, d);
    lemma_distribute(e, a + b, c);
    lemma_distribute(e, a, b);
    lemma_distribute(f, a + b + c, d);
    lemma_distribute(f, a + b, c);
    lemma_distribute(f, a, b);
    lemma_distribute(g, a + b + c, d);
    lemma_distribute(g, a + b, c);
    lemma_distribute(g, a, b);
    lemma_distribute(h, a + b + c, d);
    lemma_distribute(h, a + b, c);
    lemma_distribute(h, a, b);
}

/// The Cartesian dot product is symmetric: `dot(u, v) == dot(v, u)`.
pub proof fn lemma_xyz_dot_symmetric(u: Vxyz, v: Vxyz)
    ensures
        u.spec_dot(v) == v.spec_dot(u),
{
    assert(u.x * v.x + u.y * v.y + u.z * v.z == v.x * u.x + v.y * u.y + v.z * u.z)
        by (nonlinear_arith);
}

/// The Quadray dot product is symmetric: `dot(u, v) == dot(v, u)`.
pub proof fn lemma_ivm_dot_symmetric(u: Vivm, v: Vivm)
    ensures
        u.spec_dot(v) == v.spec_dot(u),
{
    lemma_dot16_expanded(u, v);
    lemma_dot16_expanded(v, u);
    assert(u.a * v.a + u.b * v.b + u.c * v.c + u.d * v.d == v.a * u.a + v.b * u.b + v.c * u.c + v.d
        * u.d) by (nonlinear_arith);
    assert(u.sum() * v.sum() == v.sum() * u.sum()) by (nonlinear_arith);
}

/// Converting a Cartesian vector to Quadray coordinates and back gives the
/// same vector.
pub proof fn lemma_xyz_round_trip(v: Vxyz)
    requires
        v.ivm_fits(),
    ensures
        v.spec_to_ivm().wf(),
        v.spec_to_ivm().xyz_fits(),
        v.spec_to_ivm().spec_to_xyz() == v,
{
}

/// Converting a normalized Quadray vector to Cartesian coordinates and back,
/// then normalizing, gives the same vector.
pub proof fn lemma_ivm_round_trip(q: Vivm)
    requires
        q.wf(),
        q.is_normalized(),
        q.xyz_fits(),
        q.spec_to_xyz().ivm_fits(),
    ensures
        normalizable(
            q.spec_to_xyz().spec_to_ivm().a as int,
            q.spec_to_xyz().spec_to_ivm().b as int,
            q.spec_to_xyz().spec_to_ivm().c as int,
            q.spec_to_xyz().spec_to_ivm().d as int,
        ),
        q.spec_to_xyz().spec_to_ivm().spec_normalize() == q,
{
}

/// Conversion to Cartesian coordinates preserves the dot product, so the two
/// representations agree on lengths and angles.
pub proof fn lemma_to_xyz_preserves_dot(p: Vivm, q: Vivm)
    requires
        p.wf(),
        q.wf(),
        p.xyz_fits(),
        q.xyz_fits(),
    ensures
        p.spec_to_xyz().spec_dot(q.spec_to_xyz()) == p.spec_dot(q),
{
    let (a, b, c, d) = (p.a as int, p.b as int, p.c as int, p.d as int);
    let (e, f, g, h) = (q.a as int, q.b as int, q.c as int, q.d as int);
    let (u1, u2, u3) = (a - b - c + d, a - b + c - d, a + b - c - d);
    let (w1, w2, w3) = (e - f - g + h, e - f + g - h, e + f - g - h);
    let (x, y, z) = (u1 / 2, u2 / 2, u3 / 2);
    let (xq, yq, zq) = (w1 / 2, w2 / 2, w3 / 2);
    lemma_expand_x(a, b, c, d, e, f, g, h);
    lemma_expand_y(a, b, c, d, e, f, g, h);
    lemma_expand_z(a, b, c, d, e, f, g, h);
    lemma_expand_sum(a, b, c, d, e, f, g, h);
    assert(4 * (x * xq + y * yq + z * zq) == u1 * w1 + u2 * w2 + u3 * w3) by (nonlinear_arith)
        requires
            u1 == 2 * x,
            u2 == 2 * y,
            u3 == 2 * z,
            w1 == 2 * xq,
            w2 == 2 * yq,
            w3 == 2 * zq,
    ;
    lemma_dot16_expanded(p, q);
}

} // verus!
