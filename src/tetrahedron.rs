//! Tetrahedra in either representation, and their volume from six edges.
//!
//! Volumes are in tetravolumes: the regular tetrahedron of edge 1 has volume
//! 1. Squared edge lengths are in eighths, as the dot products of `vlib` give
//! them, and the volume is returned squared and scaled so that it stays an
//! integer: `(32 V)²`, which is `1024` for the unit tetrahedron.
use vstd::prelude::*;
use crate::vlib::{Vivm, Vxyz};

verus! {

/// Largest squared edge length (in eighths) accepted by the volume formula;
/// it keeps every product of three squared lengths within 128 bits.
pub const EDGE_LIMIT: i64 = 0x100_0000_0000;

/// Why a volume could not be computed.
#[derive(Clone, Copy, Debug, PartialEq, Eq, Structural)]
pub enum VolumeError {
    /// The six lengths give a negative radicand: they do not bound a
    /// tetrahedron.
    NegativeRadicand,
}

/// `v * v`.
pub open spec fn sq(v: int) -> int {
    v * v
}

/// The volume polynomial on the squared edge lengths `a = ab², b = ac²,
/// c = ad², d = bc², e = cd², f = db²`: the twelve "open" triples, less the
/// four "closed" triples, less the three opposite-pair terms
/// `x y (x + y)`. The squared volume is half of it.
pub open spec fn radicand6(a: int, b: int, c: int, d: int, e: int, f: int) -> int {
    let open = f * a * b + d * a * c + a * b * e + c * b * d + e * c * a + f * c * b + e * d * a + b
        * d * f + b * e * f + d * e * c + a * f * e + d * f * c;
    let closed = a * b * d + d * e * f + b * c * e + a * c * f;
    let opposite = a * e * (a + e) + b * f * (b + f) + c * d * (c + d);
    open - closed - opposite
}

/// The squared distance between two Cartesian points, in eighths.
pub open spec fn xyz_dist2(p: Vxyz, q: Vxyz) -> int {
    sq(p.x - q.x) + sq(p.y - q.y) + sq(p.z - q.z)
}

/// The squared distance between two Quadray points, in eighths: a quarter of
/// the sum, over the six pairs of coordinates, of the squared differences of
/// the coordinate differences. Adding a constant to all four coordinates of
/// either point leaves it unchanged.
pub open spec fn ivm_dist2(p: Vivm, q: Vivm) -> int {
    let (da, db, dc, dd) = (p.a - q.a, p.b - q.b, p.c - q.c, p.d - q.d);
    (sq(da - db) + sq(da - dc) + sq(da - dd) + sq(db - dc) + sq(db - dd) + sq(dc - dd)) / 4
}

/// `0 <= v <= EDGE_LIMIT`.
pub open spec fn edge_in_range(v: int) -> bool {
    0 <= v <= EDGE_LIMIT
}

proof fn lemma_mul_le(p: int, q: int, pm: int, qm: int)
    by (nonlinear_arith)
    requires
        0 <= p <= pm,
        0 <= q <= qm,
    ensures
        0 <= p * q <= pm * qm,
{
}

proof fn lemma_triple_bound(x: int, y: int, z: int)
    requires
        0 <= x <= 0x100_0000_0000,
        0 <= y <= 0x100_0000_0000,
        0 <= z <= 0x200_0000_0000,
    ensures
        0 <= x * y <= 0x1_0000_0000_0000_0000_0000,
        0 <= x * y * z <= 0x200_0000_0000_0000_0000_0000_0000_0000,
{
    lemma_mul_le(x, y, 0x100_0000_0000, 0x100_0000_0000);
    lemma_mul_le(x * y, z, 0x1_0000_0000_0000_0000_0000, 0x200_0000_0000);
}

/// `x * y * z` for squared lengths within `EDGE_LIMIT`.
fn triple(x: i128, y: i128, z: i128) -> (r: i128)
    requires
        edge_in_range(x as int),
        edge_in_range(y as int),
        edge_in_range(z as int),
    ensures
        r == x * y * z,
        0 <= r <= 0x200_0000_0000_0000_0000_0000_0000_0000,
{
    proof {
        lemma_triple_bound(x as int, y as int, z as int);
    }
    x * y * z
}

/// `x * y * (x + y)` for squared lengths within `EDGE_LIMIT`.
fn opposite_term(x: i128, y: i128) -> (r: i128)
    requires
        edge_in_range(x as int),
        edge_in_range(y as int),
    ensures
        r == x * y * (x + y),
        0 <= r <= 0x200_0000_0000_0000_0000_0000_0000_0000,
{
    proof {
        lemma_triple_bound(x as int, y as int, x + y);
    }
    x * y * (x + y)
}

/// The squared lengths of the six edges of a tetrahedron `abcd`, in eighths.
#[derive(Clone, Copy, Debug, PartialEq, Eq, Structural)]
pub struct TetEdges {
    pub ab: i64,
    pub ac: i64,
    pub ad: i64,
    pub bc: i64,
    pub cd: i64,
    pub db: i64,
}

impl TetEdges {
    /// Every squared length is within `0..=EDGE_LIMIT`.
    pub open spec fn in_range(self) -> bool {
        &&& edge_in_range(self.ab as int)
        &&& edge_in_range(self.ac as int)
        &&& edge_in_range(self.ad as int)
        &&& edge_in_range(self.bc as int)
        &&& edge_in_range(self.cd as int)
        &&& edge_in_range(self.db as int)
    }

    /// The volume polynomial of these edges: `(32 V)²` when it is not
    /// negative.
    pub open spec fn radicand(self) -> int {
        radicand6(
            self.ab as int,
            self.ac as int,
            self.ad as int,
            self.bc as int,
            self.cd as int,
            self.db as int,
        )
    }

    /// The result `volume` returns.
    pub open spec fn spec_volume(self) -> Result<i128, VolumeError> {
        if self.radicand() >= 0 {
            Ok(self.radicand() as i128)
        } else {
            Err(VolumeError::NegativeRadicand)
        }
    }

    /// The volume of the tetrahedron with these edges, as `(32 V)²`; an error
    /// where the radicand is negative.
    pub fn volume(&self) -> (r: Result<i128, VolumeError>)
        requires
            self.in_range(),
        ensures
            r == self.spec_volume(),
    {
        let a = self.ab as i128;
        let b = self.ac as i128;
        let c = self.ad as i128;
        let d = self.bc as i128;
        let e = self.cd as i128;
        let f = self.db as i128;

        let mut open = triple(f, a, b);
        open = open + triple(d, a, c);
        open = open + triple(a, b, e);
        open = open + triple(c, b, d);
        open = open + triple(e, c, a);
        open = open + triple(f, c, b);
        open = open + triple(e, d, a);
        open = open + triple(b, d, f);
        open = open + triple(b, e, f);
        open = open + triple(d, e, c);
        open = open + triple(a, f, e);
        open = open + triple(d, f, c);

        let mut closed = triple(a, b, d);
        closed = closed + triple(d, e, f);
        closed = closed + triple(b, c, e);
        closed = closed + triple(a, c, f);

        let mut opposite = opposite_term(a, e);
        opposite = opposite + opposite_term(b, f);
        opposite = opposite + opposite_term(c, d);

        let radicand = open - closed - opposite;
        if radicand >= 0 {
            Ok(radicand)
        } else {
            Err(VolumeError::NegativeRadicand)
        }
    }
}

proof fn lemma_square_root_bound(v: int)
    by (nonlinear_arith)
    requires
        v * v <= 0x400_0040_0000,
    ensures
        -0x20_0000 <= v <= 0x20_0000,
{
}

proof fn lemma_square_nonneg(v: int)
    by (nonlinear_arith)
    ensures
        v * v >= 0,
{
}

/// The squared distance between two Cartesian points, through their
/// difference and its squared length.
fn xyz_edge(p: &Vxyz, q: &Vxyz) -> (r: i64)
    requires
        xyz_dist2(*p, *q) <= EDGE_LIMIT,
    ensures
        r == xyz_dist2(*p, *q),
        r >= 0,
{
    proof {
        lemma_square_nonneg(p.x - q.x);
        lemma_square_nonneg(p.y - q.y);
        lemma_square_nonneg(p.z - q.z);
        lemma_square_root_bound(p.x - q.x);
        lemma_square_root_bound(p.y - q.y);
        lemma_square_root_bound(p.z - q.z);
    }
    let diff = p.sub(q);
    diff.length_squared() as i64
}

/// The squared distance between two Quadray points (see `ivm_dist2`).
fn ivm_edge(p: &Vivm, q: &Vivm) -> (r: i64)
    requires
        ivm_dist2(*p, *q) <= EDGE_LIMIT,
    ensures
        r == ivm_dist2(*p, *q),
        r >= 0,
{
    let da = p.a as i128 - q.a as i128;
    let db = p.b as i128 - q.b as i128;
    let dc = p.c as i128 - q.c as i128;
    let dd = p.d as i128 - q.d as i128;
    let (e1, e2, e3, e4, e5, e6) = (da - db, da - dc, da - dd, db - dc, db - dd, dc - dd);
    proof {
        lemma_square_nonneg(e1 as int);
        lemma_square_nonneg(e2 as int);
        lemma_square_nonneg(e3 as int);
        lemma_square_nonneg(e4 as int);
        lemma_square_nonneg(e5 as int);
        lemma_square_nonneg(e6 as int);
        lemma_square_root_bound(e1 as int);
        lemma_square_root_bound(e2 as int);
        lemma_square_root_bound(e3 as int);
        lemma_square_root_bound(e4 as int);
        lemma_square_root_bound(e5 as int);
        lemma_square_root_bound(e6 as int);
    }
    let total = e1 * e1 + e2 * e2 + e3 * e3 + e4 * e4 + e5 * e5 + e6 * e6;
    (total / 4) as i64
}

/// A tetrahedron with Cartesian vertices `a`, `b`, `c`, `d`.
#[derive(Clone, Copy, Debug, PartialEq, Eq, Structural)]
pub struct Txyz {
    pub a: Vxyz,
    pub b: Vxyz,
    pub c: Vxyz,
    pub d: Vxyz,
}

impl Txyz {
    /// The six squared edge lengths; `db` is the edge from `d` to `b`.
    pub open spec fn spec_edges(self) -> TetEdges {
        TetEdges {
            ab: xyz_dist2(self.a, self.b) as i64,
            ac: xyz_dist2(self.a, self.c) as i64,
            ad: xyz_dist2(self.a, self.d) as i64,
            bc: xyz_dist2(self.b, self.c) as i64,
            cd: xyz_dist2(self.c, self.d) as i64,
            db: xyz_dist2(self.d, self.b) as i64,
        }
    }

    /// Every squared edge length is at most `EDGE_LIMIT`.
    pub open spec fn edges_in_range(self) -> bool {
        &&& xyz_dist2(self.a, self.b) <= EDGE_LIMIT
        &&& xyz_dist2(self.a, self.c) <= EDGE_LIMIT
        &&& xyz_dist2(self.a, self.d) <= EDGE_LIMIT
        &&& xyz_dist2(self.b, self.c) <= EDGE_LIMIT
        &&& xyz_dist2(self.c, self.d) <= EDGE_LIMIT
        &&& xyz_dist2(self.d, self.b) <= EDGE_LIMIT
    }

    /// Every vertex can be converted to Quadray coordinates.
    pub open spec fn ivm_fits(self) -> bool {
        self.a.ivm_fits() && self.b.ivm_fits() && self.c.ivm_fits() && self.d.ivm_fits()
    }

    /// The tetrahedron with each vertex converted to Quadray coordinates.
    pub open spec fn spec_to_ivm(self) -> Tivm {
        Tivm {
            a: self.a.spec_to_ivm(),
            b: self.b.spec_to_ivm(),
            c: self.c.spec_to_ivm(),
            d: self.d.spec_to_ivm(),
        }
    }

    /// Builds a tetrahedron from its vertices in order `a`, `b`, `c`, `d`.
    pub fn new(rays: [Vxyz; 4]) -> (r: Txyz)
        ensures
            r.a == rays@[0],
            r.b == rays@[1],
            r.c == rays@[2],
            r.d == rays@[3],
    {
        Txyz { a: rays[0], b: rays[1], c: rays[2], d: rays[3] }
    }

    /// Converts every vertex to Quadray coordinates.
    pub fn to_ivm(&self) -> (r: Tivm)
        requires
            self.ivm_fits(),
        ensures
            r == self.spec_to_ivm(),
            r.wf(),
    {
        Tivm { a: self.a.to_ivm(), b: self.b.to_ivm(), c: self.c.to_ivm(), d: self.d.to_ivm() }
    }

    /// The six squared edge lengths.
    pub fn edges(&self) -> (r: TetEdges)
        requires
            self.edges_in_range(),
        ensures
            r == self.spec_edges(),
            r.in_range(),
    {
        TetEdges {
            ab: xyz_edge(&self.a, &self.b),
            ac: xyz_edge(&self.a, &self.c),
            ad: xyz_edge(&self.a, &self.d),
            bc: xyz_edge(&self.b, &self.c),
            cd: xyz_edge(&self.c, &self.d),
            db: xyz_edge(&self.d, &self.b),
        }
    }

    /// The volume as `(32 V)²`, from the six edges.
    pub fn volume(&self) -> (r: Result<i128, VolumeError>)
        requires
            self.edges_in_range(),
        ensures
            r == self.spec_edges().spec_volume(),
    {
        self.edges().volume()
    }
}

/// A tetrahedron with Quadray vertices `a`, `b`, `c`, `d`.
#[derive(Clone, Copy, Debug, PartialEq, Eq, Structural)]
pub struct Tivm {
    pub a: Vivm,
    pub b: Vivm,
    pub c: Vivm,
    pub d: Vivm,
}

impl Tivm {
    /// Every vertex is well formed.
    pub open spec fn wf(self) -> bool {
        self.a.wf() && self.b.wf() && self.c.wf() && self.d.wf()
    }

    /// The six squared edge lengths; `db` is the edge from `d` to `b`.
    pub open spec fn spec_edges(self) -> TetEdges {
        TetEdges {
            ab: ivm_dist2(self.a, self.b) as i64,
            ac: ivm_dist2(self.a, self.c) as i64,
            ad: ivm_dist2(self.a, self.d) as i64,
            bc: ivm_dist2(self.b, self.c) as i64,
            cd: ivm_dist2(self.c, self.d) as i64,
            db: ivm_dist2(self.d, self.b) as i64,
        }
    }

    /// Every squared edge length is at most `EDGE_LIMIT`.
    pub open spec fn edges_in_range(self) -> bool {
        &&& ivm_dist2(self.a, self.b) <= EDGE_LIMIT
        &&& ivm_dist2(self.a, self.c) <= EDGE_LIMIT
        &&& ivm_dist2(self.a, self.d) <= EDGE_LIMIT
        &&& ivm_dist2(self.b, self.c) <= EDGE_LIMIT
        &&& ivm_dist2(self.c, self.d) <= EDGE_LIMIT
        &&& ivm_dist2(self.d, self.b) <= EDGE_LIMIT
    }

    /// Every vertex can be converted to Cartesian coordinates.
    pub open spec fn xyz_fits(self) -> bool {
        self.a.xyz_fits() && self.b.xyz_fits() && self.c.xyz_fits() && self.d.xyz_fits()
    }

    /// The tetrahedron with each vertex converted to Cartesian coordinates.
    pub open spec fn spec_to_xyz(self) -> Txyz {
        Txyz {
            a: self.a.spec_to_xyz(),
            b: self.b.spec_to_xyz(),
            c: self.c.spec_to_xyz(),
            d: self.d.spec_to_xyz(),
        }
    }

    /// Builds a tetrahedron from its vertices in order `a`, `b`, `c`, `d`.
    pub fn new(rays: [Vivm; 4]) -> (r: Tivm)
        ensures
            r.a == rays@[0],
            r.b == rays@[1],
            r.c == rays@[2],
            r.d == rays@[3],
    {
        Tivm { a: rays[0], b: rays[1], c: rays[2], d: rays[3] }
    }

    /// Converts every vertex to Cartesian coordinates.
    pub fn to_xyz(&self) -> (r: Txyz)
        requires
            self.wf(),
            self.xyz_fits(),
        ensures
            r == self.spec_to_xyz(),
    {
        Txyz { a: self.a.to_xyz(), b: self.b.to_xyz(), c: self.c.to_xyz(), d: self.d.to_xyz() }
    }

    /// The six squared edge lengths.
    pub fn edges(&self) -> (r: TetEdges)
        requires
            self.edges_in_range(),
        ensures
            r == self.spec_edges(),
            r.in_range(),
    {
        TetEdges {
            ab: ivm_edge(&self.a, &self.b),
            ac: ivm_edge(&self.a, &self.c),
            ad: ivm_edge(&self.a, &self.d),
            bc: ivm_edge(&self.b, &self.c),
            cd: ivm_edge(&self.c, &self.d),
            db: ivm_edge(&self.d, &self.b),
        }
    }

    /// The volume as `(32 V)²`, from the six edges.
    pub fn volume(&self) -> (r: Result<i128, VolumeError>)
        requires
            self.edges_in_range(),
        ensures
            r == self.spec_edges().spec_volume(),
    {
        self.edges().volume()
    }
}

impl TetEdges {
    /// The squared length of the edge between vertices `i` and `j`, with
    /// `0, 1, 2, 3` standing for `a, b, c, d`.
    pub open spec fn edge(self, i: int, j: int) -> int {
        if (i == 0 && j == 1) || (i == 1 && j == 0) {
            self.ab as int
        } else if (i == 0 && j == 2) || (i == 2 && j == 0) {
            self.ac as int
        } else if (i == 0 && j == 3) || (i == 3 && j == 0) {
            self.ad as int
        } else if (i == 1 && j == 2) || (i == 2 && j == 1) {
            self.bc as int
        } else if (i == 2 && j == 3) || (i == 3 && j == 2) {
            self.cd as int
        } else {
            self.db as int
        }
    }

    /// The edges of the same tetrahedron with its vertices relabelled: the
    /// new `a, b, c, d` are the old vertices `i, j, k, l`.
    pub open spec fn relabel(self, i: int, j: int, k: int, l: int) -> TetEdges {
        TetEdges {
            ab: self.edge(i, j) as i64,
            ac: self.edge(i, k) as i64,
            ad: self.edge(i, l) as i64,
            bc: self.edge(j, k) as i64,
            cd: self.edge(k, l) as i64,
            db: self.edge(l, j) as i64,
        }
    }
}

/// `i, j, k, l` is an ordering of the four vertex labels `0, 1, 2, 3`.
pub open spec fn is_vertex_permutation(i: int, j: int, k: int, l: int) -> bool {
    &&& 0 <= i < 4 && 0 <= j < 4 && 0 <= k < 4 && 0 <= l < 4
    &&& i != j && i != k && i != l && j != k && j != l && k != l
}

proof fn lemma_triple_commutes(x: int, y: int, z: int)
    by (nonlinear_arith)
    ensures
        x * y * z == x * z * y,
        x * y * z == y * x * z,
        x * y * z == y * z * x,
        x * y * z == z * x * y,
        x * y * z == z * y * x,
{
}

proof fn lemma_opposite_commutes(x: int, y: int)
    by (nonlinear_arith)
    ensures
        x * y * (x + y) == y * x * (y + x),
{
}

/// Every monomial of the volume polynomial, in every order of its factors.
proof fn lemma_radicand_monomials(a: int, b: int, c: int, d: int, e: int, f: int)
    ensures
        a * b * c == a * c * b,
        a * b * c == b * a * c,
        a * b * c == b * c * a,
        a * b * c == c * a * b,
        a * b * c == c * b * a,
        a * b * d == a * d * b,
        a * b * d == b * a * d,
        a * b * d == b * d * a,
        a * b * d == d * a * b,
        a * b * d == d * b * a,
        a * b * e == a * e * b,
        a * b * e == b * a * e,
        a * b * e == b * e * a,
        a * b * e == e * a * b,
        a * b * e == e * b * a,
        a * b * f == a * f * b,
        a * b * f == b * a * f,
        a * b * f == b * f * a,
        a * b * f == f * a * b,
        a * b * f == f * b * a,
        a * c * d == a * d * c,
        a * c * d == c * a * d,
        a * c * d == c * d * a,
        a * c * d == d * a * c,
        a * c * d == d * c * a,
        a * c * e == a * e * c,
        a * c * e == c * a * e,
        a * c * e == c * e * a,
        a * c * e == e * a * c,
        a * c * e == e * c * a,
        a * c * f == a * f * c,
        a * c * f == c * a * f,
        a * c * f == c * f * a,
        a * c * f == f * a * c,
        a * c * f == f * c * a,
        a * d * e == a * e * d,
        a * d * e == d * a * e,
        a * d * e == d * e * a,
        a * d * e == e * a * d,
        a * d * e == e * d * a,
        a * d * f == a * f * d,
        a * d * f == d * a * f,
        a * d * f == d * f * a,
        a * d * f == f * a * d,
        a * d * f == f * d * a,
        a * e * f == a * f * e,
        a * e * f == e * a * f,
        a * e * f == e * f * a,
        a * e * f == f * a * e,
        a * e * f == f * e * a,
        b * c * d == b * d * c,
        b * c * d == c * b * d,
        b * c * d == c * d * b,
        b * c * d == d * b * c,
        b * c * d == d * c * b,
        b * c * e == b * e * c,
        b * c * e == c * b * e,
        b * c * e == c * e * b,
        b * c * e == e * b * c,
        b * c * e == e * c * b,
        b * c * f == b * f * c,
        b * c * f == c * b * f,
        b * c * f == c * f * b,
        b * c * f == f * b * c,
        b * c * f == f * c * b,
        b * d * e == b * e * d,
        b * d * e == d * b * e,
        b * d * e == d * e * b,
        b * d * e == e * b * d,
        b * d * e == e * d * b,
        b * d * f == b * f * d,
        b * d * f == d * b * f,
        b * d * f == d * f * b,
        b * d * f == f * b * d,
        b * d * f == f * d * b,
        b * e * f == b * f * e,
        b * e * f == e * b * f,
        b * e * f == e * f * b,
        b * e * f == f * b * e,
        b * e * f == f * e * b,
        c * d * e == c * e * d,
        c * d * e == d * c * e,
        c * d * e == d * e * c,
        c * d * e == e * c * d,
        c * d * e == e * d * c,
        c * d * f == c * f * d,
        c * d * f == d * c * f,
        c * d * f == d * f * c,
        c * d * f == f * c * d,
        c * d * f == f * d * c,
        c * e * f == c * f * e,
        c * e * f == e * c * f,
        c * e * f == e * f * c,
        c * e * f == f * c * e,
        c * e * f == f * e * c,
        d * e * f == d * f * e,
        d * e * f == e * d * f,
        d * e * f == e * f * d,
        d * e * f == f * d * e,
        d * e * f == f * e * d,
        a * e * (a + e) == e * a * (e + a),
        b * f * (b + f) == f * b * (f + b),
        c * d * (c + d) == d * c * (d + c),
{
    lemma_triple_commutes(a, b, c);
    lemma_triple_commutes(a, b, d);
    lemma_triple_commutes(a, b, e);
    lemma_triple_commutes(a, b, f);
    lemma_triple_commutes(a, c, d);
    lemma_triple_commutes(a, c, e);
    lemma_triple_commutes(a, c, f);
    lemma_triple_commutes(a, d, e);
    lemma_triple_commutes(a, d, f);
    lemma_triple_commutes(a, e, f);
    lemma_triple_commutes(b, c, d);
    lemma_triple_commutes(b, c, e);
    lemma_triple_commutes(b, c, f);
    lemma_triple_commutes(b, d, e);
    lemma_triple_commutes(b, d, f);
    lemma_triple_commutes(b, e, f);
    lemma_triple_commutes(c, d, e);
    lemma_triple_commutes(c, d, f);
    lemma_triple_commutes(c, e, f);
    lemma_triple_commutes(d, e, f);
    lemma_opposite_commutes(a, e);
    lemma_opposite_commutes(b, f);
    lemma_opposite_commutes(c, d);
}

proof fn lemma_radicand_swap_ab(a: int, b: int, c: int, d: int, e: int, f: int)
    ensures
        radicand6(a, d, f, b, e, c) == radicand6(a, b, c, d, e, f),
{
    lemma_radicand_monomials(a, b, c, d, e, f);
}

proof fn lemma_radicand_swap_bc(a: int, b: int, c: int, d: int, e: int, f: int)
    ensures
        radicand6(b, a, c, d, f, e) == radicand6(a, b, c, d, e, f),
{
    lemma_radicand_monomials(a, b, c, d, e, f);
}

proof fn lemma_radicand_swap_cd(a: int, b: int, c: int, d: int, e: int, f: int)
    ensures
        radicand6(a, c, b, f, e, d) == radicand6(a, b, c, d, e, f),
{
    lemma_radicand_monomials(a, b, c, d, e, f);
}

/// The volume does not depend on how the four vertices are labelled: any
/// relabelling, which permutes the six edges accordingly, leaves the
/// radicand, and so the volume, unchanged.
pub proof fn lemma_volume_relabel(e: TetEdges, i: int, j: int, k: int, l: int)
    requires
        is_vertex_permutation(i, j, k, l),
    ensures
        e.relabel(i, j, k, l).radicand() == e.radicand(),
        e.relabel(i, j, k, l).in_range() == e.in_range(),
        e.relabel(i, j, k, l).spec_volume() == e.spec_volume(),
{
    // Each ordering is reached by swapping adjacent labels, and each swap
    // keeps the radicand; the identity ordering needs no step.
    if i == 0 && j == 1 && k == 3 && l == 2 {
        lemma_radicand_swap_cd(e.ab as int, e.ac as int, e.ad as int, e.bc as int, e.cd as int, e.db as int);
    } else if i == 0 && j == 2 && k == 1 && l == 3 {
        lemma_radicand_swap_bc(e.ab as int, e.ac as int, e.ad as int, e.bc as int, e.cd as int, e.db as int);
    } else if i == 0 && j == 2 && k == 3 && l == 1 {
        lemma_radicand_swap_cd(e.ac as int, e.ab as int, e.ad as int, e.bc as int, e.db as int, e.cd as int);
        lemma_radicand_swap_bc(e.ab as int, e.ac as int, e.ad as int, e.bc as int, e.cd as int, e.db as int);
    } else if i == 0 && j == 3 && k == 1 && l == 2 {
        lemma_radicand_swap_bc(e.ab as int, e.ad as int, e.ac as int, e.db as int, e.cd as int, e.bc as int);
        lemma_radicand_swap_cd(e.ab as int, e.ac as int, e.ad as int, e.bc as int, e.cd as int, e.db as int);
    } else if i == 0 && j == 3 && k == 2 && l == 1 {
        lemma_radicand_swap_bc(e.ac as int, e.ad as int, e.ab as int, e.cd as int, e.db as int, e.bc as int);
        lemma_radicand_swap_cd(e.ac as int, e.ab as int, e.ad as int, e.bc as int, e.db as int, e.cd as int);
        lemma_radicand_swap_bc(e.ab as int, e.ac as int, e.ad as int, e.bc as int, e.cd as int, e.db as int);
    } else if i == 1 && j == 0 && k == 2 && l == 3 {
        lemma_radicand_swap_ab(e.ab as int, e.ac as int, e.ad as int, e.bc as int, e.cd as int, e.db as int);
    } else if i == 1 && j == 0 && k == 3 && l == 2 {
        lemma_radicand_swap_cd(e.ab as int, e.bc as int, e.db as int, e.ac as int, e.cd as int, e.ad as int);
        lemma_radicand_swap_ab(e.ab as int, e.ac as int, e.ad as int, e.bc as int, e.cd as int, e.db as int);
    } else if i == 1 && j == 2 && k == 0 && l == 3 {
        lemma_radicand_swap_bc(e.ab as int, e.bc as int, e.db as int, e.ac as int, e.cd as int, e.ad as int);
        lemma_radicand_swap_ab(e.ab as int, e.ac as int, e.ad as int, e.bc as int, e.cd as int, e.db as int);
    } else if i == 1 && j == 2 && k == 3 && l == 0 {
        lemma_radicand_swap_cd(e.bc as int, e.ab as int, e.db as int, e.ac as int, e.ad as int, e.cd as int);
        lemma_radicand_swap_bc(e.ab as int, e.bc as int, e.db as int, e.ac as int, e.cd as int, e.ad as int);
        lemma_radicand_swap_ab(e.ab as int, e.ac as int, e.ad as int, e.bc as int, e.cd as int, e.db as int);
    } else if i == 1 && j == 3 && k == 0 && l == 2 {
        lemma_radicand_swap_bc(e.ab as int, e.db as int, e.bc as int, e.ad as int, e.cd as int, e.ac as int);
        lemma_radicand_swap_cd(e.ab as int, e.bc as int, e.db as int, e.ac as int, e.cd as int, e.ad as int);
        lemma_radicand_swap_ab(e.ab as int, e.ac as int, e.ad as int, e.bc as int, e.cd as int, e.db as int);
    } else if i == 1 && j == 3 && k == 2 && l == 0 {
        lemma_radicand_swap_bc(e.bc as int, e.db as int, e.ab as int, e.cd as int, e.ad as int, e.ac as int);
        lemma_radicand_swap_cd(e.bc as int, e.ab as int, e.db as int, e.ac as int, e.ad as int, e.cd as int);
        lemma_radicand_swap_bc(e.ab as int, e.bc as int, e.db as int, e.ac as int, e.cd as int, e.ad as int);
        lemma_radicand_swap_ab(e.ab as int, e.ac as int, e.ad as int, e.bc as int, e.cd as int, e.db as int);
    } else if i == 2 && j == 0 && k == 1 && l == 3 {
        lemma_radicand_swap_ab(e.ac as int, e.ab as int, e.ad as int, e.bc as int, e.db as int, e.cd as int);
        lemma_radicand_swap_bc(e.ab as int, e.ac as int, e.ad as int, e.bc as int, e.cd as int, e.db as int);
    } else if i == 2 && j == 0 && k == 3 && l == 1 {
        lemma_radicand_swap_cd(e.ac as int, e.bc as int, e.cd as int, e.ab as int, e.db as int, e.ad as int);
        lemma_radicand_swap_ab(e.ac as int, e.ab as int, e.ad as int, e.bc as int, e.db as int, e.cd as int);
        lemma_radicand_swap_bc(e.ab as int, e.ac as int, e.ad as int, e.bc as int, e.cd as int, e.db as int);
    } else if i == 2 && j == 1 && k == 0 && l == 3 {
        lemma_radicand_swap_ab(e.bc as int, e.ab as int, e.db as int, e.ac as int, e.ad as int, e.cd as int);
        lemma_radicand_swap_bc(e.ab as int, e.bc as int, e.db as int, e.ac as int, e.cd as int, e.ad as int);
        lemma_radicand_swap_ab(e.ab as int, e.ac as int, e.ad as int, e.bc as int, e.cd as int, e.db as int);
    } else if i == 2 && j == 1 && k == 3 && l == 0 {
        lemma_radicand_swap_cd(e.bc as int, e.ac as int, e.cd as int, e.ab as int, e.ad as int, e.db as int);
        lemma_radicand_swap_ab(e.bc as int, e.ab as int, e.db as int, e.ac as int, e.ad as int, e.cd as int);
        lemma_radicand_swap_bc(e.ab as int, e.bc as int, e.db as int, e.ac as int, e.cd as int, e.ad as int);
        lemma_radicand_swap_ab(e.ab as int, e.ac as int, e.ad as int, e.bc as int, e.cd as int, e.db as int);
    } else if i == 2 && j == 3 && k == 0 && l == 1 {
        lemma_radicand_swap_bc(e.ac as int, e.cd as int, e.bc as int, e.ad as int, e.db as int, e.ab as int);
        lemma_radicand_swap_cd(e.ac as int, e.bc as int, e.cd as int, e.ab as int, e.db as int, e.ad as int);
        lemma_radicand_swap_ab(e.ac as int, e.ab as int, e.ad as int, e.bc as int, e.db as int, e.cd as int);
        lemma_radicand_swap_bc(e.ab as int, e.ac as int, e.ad as int, e.bc as int, e.cd as int, e.db as int);
    } else if i == 2 && j == 3 && k == 1 && l == 0 {
        lemma_radicand_swap_bc(e.bc as int, e.cd as int, e.ac as int, e.db as int, e.ad as int, e.ab as int);
        lemma_radicand_swap_cd(e.bc as int, e.ac as int, e.cd as int, e.ab as int, e.ad as int, e.db as int);
        lemma_radicand_swap_ab(e.bc as int, e.ab as int, e.db as int, e.ac as int, e.ad as int, e.cd as int);
        lemma_radicand_swap_bc(e.ab as int, e.bc as int, e.db as int, e.ac as int, e.cd as int, e.ad as int);
        lemma_radicand_swap_ab(e.ab as int, e.ac as int, e.ad as int, e.bc as int, e.cd as int, e.db as int);
    } else if i == 3 && j == 0 && k == 1 && l == 2 {
        lemma_radicand_swap_ab(e.ad as int, e.ab as int, e.ac as int, e.db as int, e.bc as int, e.cd as int);
        lemma_radicand_swap_bc(e.ab as int, e.ad as int, e.ac as int, e.db as int, e.cd as int, e.bc as int);
        lemma_radicand_swap_cd(e.ab as int, e.ac as int, e.ad as int, e.bc as int, e.cd as int, e.db as int);
    } else if i == 3 && j == 0 && k == 2 && l == 1 {
        lemma_radicand_swap_ab(e.ad as int, e.ac as int, e.ab as int, e.cd as int, e.bc as int, e.db as int);
        lemma_radicand_swap_bc(e.ac as int, e.ad as int, e.ab as int, e.cd as int, e.db as int, e.bc as int);
        lemma_radicand_swap_cd(e.ac as int, e.ab as int, e.ad as int, e.bc as int, e.db as int, e.cd as int);
        lemma_radicand_swap_bc(e.ab as int, e.ac as int, e.ad as int, e.bc as int, e.cd as int, e.db as int);
    } else if i == 3 && j == 1 && k == 0 && l == 2 {
        lemma_radicand_swap_ab(e.db as int, e.ab as int, e.bc as int, e.ad as int, e.ac as int, e.cd as int);
        lemma_radicand_swap_bc(e.ab as int, e.db as int, e.bc as int, e.ad as int, e.cd as int, e.ac as int);
        lemma_radicand_swap_cd(e.ab as int, e.bc as int, e.db as int, e.ac as int, e.cd as int, e.ad as int);
        lemma_radicand_swap_ab(e.ab as int, e.ac as int, e.ad as int, e.bc as int, e.cd as int, e.db as int);
    } else if i == 3 && j == 1 && k == 2 && l == 0 {
        lemma_radicand_swap_ab(e.db as int, e.bc as int, e.ab as int, e.cd as int, e.ac as int, e.ad as int);
        lemma_radicand_swap_bc(e.bc as int, e.db as int, e.ab as int, e.cd as int, e.ad as int, e.ac as int);
        lemma_radicand_swap_cd(e.bc as int, e.ab as int, e.db as int, e.ac as int, e.ad as int, e.cd as int);
        lemma_radicand_swap_bc(e.ab as int, e.bc as int, e.db as int, e.ac as int, e.cd as int, e.ad as int);
        lemma_radicand_swap_ab(e.ab as int, e.ac as int, e.ad as int, e.bc as int, e.cd as int, e.db as int);
    } else if i == 3 && j == 2 && k == 0 && l == 1 {
        lemma_radicand_swap_ab(e.cd as int, e.ac as int, e.bc as int, e.ad as int, e.ab as int, e.db as int);
        lemma_radicand_swap_bc(e.ac as int, e.cd as int, e.bc as int, e.ad as int, e.db as int, e.ab as int);
        lemma_radicand_swap_cd(e.ac as int, e.bc as int, e.cd as int, e.ab as int, e.db as int, e.ad as int);
        lemma_radicand_swap_ab(e.ac as int, e.ab as int, e.ad as int, e.bc as int, e.db as int, e.cd as int);
        lemma_radicand_swap_bc(e.ab as int, e.ac as int, e.ad as int, e.bc as int, e.cd as int, e.db as int);
    } else if i == 3 && j == 2 && k == 1 && l == 0 {
        lemma_radicand_swap_ab(e.cd as int, e.bc as int, e.ac as int, e.db as int, e.ab as int, e.ad as int);
        lemma_radicand_swap_bc(e.bc as int, e.cd as int, e.ac as int, e.db as int, e.ad as int, e.ab as int);
        lemma_radicand_swap_cd(e.bc as int, e.ac as int, e.cd as int, e.ab as int, e.ad as int, e.db as int);
        lemma_radicand_swap_ab(e.bc as int, e.ab as int, e.db as int, e.ac as int, e.ad as int, e.cd as int);
        lemma_radicand_swap_bc(e.ab as int, e.bc as int, e.db as int, e.ac as int, e.cd as int, e.ad as int);
        lemma_radicand_swap_ab(e.ab as int, e.ac as int, e.ad as int, e.bc as int, e.cd as int, e.db as int);
    }
}

proof fn lemma_six_squares(x: int, y: int, z: int)
    by (nonlinear_arith)
    ensures
        sq(x + y) + sq(x + z) + sq(y + z) + sq(z - y) + sq(z - x) + sq(y - x) == 4 * (sq(x) + sq(y)
            + sq(z)),
{
}

/// Conversion to Quadray coordinates preserves the distance between two
/// points.
pub proof fn lemma_to_ivm_preserves_distance(p: Vxyz, q: Vxyz)
    requires
        p.ivm_fits(),
        q.ivm_fits(),
    ensures
        ivm_dist2(p.spec_to_ivm(), q.spec_to_ivm()) == xyz_dist2(p, q),
{
    let (u, v) = (p.spec_to_ivm(), q.spec_to_ivm());
    let (dx, dy, dz) = (p.x - q.x, p.y - q.y, p.z - q.z);
    let (da, db, dc, dd) = (u.a - v.a, u.b - v.b, u.c - v.c, u.d - v.d);
    assert(da - db == dx + dy);
    assert(da - dc == dx + dz);
    assert(da - dd == dy + dz);
    assert(db - dc == dz - dy);
    assert(db - dd == dz - dx);
    assert(dc - dd == dy - dx);
    lemma_six_squares(dx, dy, dz);
}

/// A tetrahedron converted from Cartesian to Quadray coordinates keeps its
/// six edges, and so its volume.
pub proof fn lemma_volume_after_to_ivm(t: Txyz)
    requires
        t.ivm_fits(),
    ensures
        t.spec_to_ivm().spec_edges() == t.spec_edges(),
        t.spec_to_ivm().edges_in_range() == t.edges_in_range(),
        t.spec_to_ivm().spec_edges().spec_volume() == t.spec_edges().spec_volume(),
{
    lemma_to_ivm_preserves_distance(t.a, t.b);
    lemma_to_ivm_preserves_distance(t.a, t.c);
    lemma_to_ivm_preserves_distance(t.a, t.d);
    lemma_to_ivm_preserves_distance(t.b, t.c);
    lemma_to_ivm_preserves_distance(t.c, t.d);
    lemma_to_ivm_preserves_distance(t.d, t.b);
}

proof fn lemma_three_squares(a: int, b: int, c: int, d: int)
    by (nonlinear_arith)
    ensures
        sq(a - b - c + d) + sq(a - b + c - d) + sq(a + b - c - d) == sq(a - b) + sq(a - c) + sq(a - d)
            + sq(b - c) + sq(b - d) + sq(c - d),
{
}

proof fn lemma_square_of_half(x: int, u: int)
    by (nonlinear_arith)
    requires
        u == 2 * x,
    ensures
        sq(u) == 4 * sq(x),
{
}

/// Conversion to Cartesian coordinates preserves the distance between two
/// well-formed points.
pub proof fn lemma_to_xyz_preserves_distance(p: Vivm, q: Vivm)
    requires
        p.wf(),
        q.wf(),
        p.xyz_fits(),
        q.xyz_fits(),
    ensures
        xyz_dist2(p.spec_to_xyz(), q.spec_to_xyz()) == ivm_dist2(p, q),
{
    let (u, v) = (p.spec_to_xyz(), q.spec_to_xyz());
    let (da, db, dc, dd) = (p.a - q.a, p.b - q.b, p.c - q.c, p.d - q.d);
    assert(2 * (u.x - v.x) == da - db - dc + dd);
    assert(2 * (u.y - v.y) == da - db + dc - dd);
    assert(2 * (u.z - v.z) == da + db - dc - dd);
    lemma_square_of_half(u.x - v.x, da - db - dc + dd);
    lemma_square_of_half(u.y - v.y, da - db + dc - dd);
    lemma_square_of_half(u.z - v.z, da + db - dc - dd);
    lemma_three_squares(da, db, dc, dd);
}

/// A well-formed tetrahedron converted from Quadray to Cartesian coordinates
/// keeps its six edges, and so its volume.
pub proof fn lemma_volume_after_to_xyz(t: Tivm)
    requires
        t.wf(),
        t.xyz_fits(),
    ensures
        t.spec_to_xyz().spec_edges() == t.spec_edges(),
        t.spec_to_xyz().edges_in_range() == t.edges_in_range(),
        t.spec_to_xyz().spec_edges().spec_volume() == t.spec_edges().spec_volume(),
{
    lemma_to_xyz_preserves_distance(t.a, t.b);
    lemma_to_xyz_preserves_distance(t.a, t.c);
    lemma_to_xyz_preserves_distance(t.a, t.d);
    lemma_to_xyz_preserves_distance(t.b, t.c);
    lemma_to_xyz_preserves_distance(t.c, t.d);
    lemma_to_xyz_preserves_distance(t.d, t.b);
}

proof fn lemma_centered_squares(a: int, b: int, c: int, d: int)
    by (nonlinear_arith)
    ensures
        sq(4 * a - (a + b + c + d)) + sq(4 * b - (a + b + c + d)) + sq(4 * c - (a + b + c + d)) + sq(
            4 * d - (a + b + c + d),
        ) == 4 * (sq(a - b) + sq(a - c) + sq(a - d) + sq(b - c) + sq(b - d) + sq(c - d)),
{
}

/// The squared distance between two Quadray points is the squared length of
/// their (normalized) difference, as `sub` and `length_squared` give it.
pub proof fn lemma_ivm_distance_is_length_of_difference(p: Vivm, q: Vivm, r: Vivm)
    requires
        r.normalizes(p.a - q.a, p.b - q.b, p.c - q.c, p.d - q.d),
    ensures
        r.spec_dot(r) == ivm_dist2(p, q),
{
    lemma_centered_squares(r.a as int, r.b as int, r.c as int, r.d as int);
}

} // verus!
