use approx::AbsDiffEq;
use rays::tetrahedron::{TetEdges, Tivm, Txyz, VolumeError};
use rays::vlib::{Vivm, Vxyz};

/// Turns a volume given as `(32 V)²` into `V`.
fn tetravolume(scaled_square: i128) -> f64 {
    (scaled_square as f64).sqrt() / 32.0
}

fn unit_quadrays() -> [Vivm; 4] {
    [
        Vivm::new(&[1, 0, 0, 0]),
        Vivm::new(&[0, 1, 0, 0]),
        Vivm::new(&[0, 0, 1, 0]),
        Vivm::new(&[0, 0, 0, 1]),
    ]
}

#[test]
fn cube() {
    // Squared edge lengths in eighths: an edge of 1 is 8, one of √2/2 is 4.
    let unit_tet = TetEdges { ab: 8, ac: 8, ad: 8, bc: 8, cd: 8, db: 8 };
    let corner_tet = TetEdges { ab: 4, ac: 4, ad: 4, bc: 8, cd: 8, db: 8 };
    let unit = unit_tet.volume().unwrap();
    let corner = corner_tet.volume().unwrap();
    assert_eq!(unit, 1024);
    assert_eq!(corner, 256);
    let total = 4.0 * tetravolume(corner) + tetravolume(unit);
    assert!(total.abs_diff_eq(&3.0, 1e-12));
}

#[test]
fn add_xyz() {
    let x1 = Vxyz::new(&[1, 1, 1]);
    let x2 = Vxyz::new(&[1, 1, 1]);
    let r = x1.add(&x2);
    assert_eq!((2, 2, 2), (r.x, r.y, r.z));
}

#[test]
fn vol_ivm() {
    let tet = Tivm::new(unit_quadrays());
    let v = tet.volume().unwrap();
    assert_eq!(v, 1024);
    assert!(tetravolume(v).abs_diff_eq(&1.0, 1e-12));
}

#[test]
fn vol_xyz() {
    // √2/2 is two units of √2/4.
    let cube_edge: i64 = 2;
    let v0 = Vxyz::new(&[0, 0, 0]);
    let v1 = Vxyz::new(&[cube_edge, 0, 0]);
    let v2 = Vxyz::new(&[0, cube_edge, 0]);
    let v3 = Vxyz::new(&[0, 0, cube_edge]);
    let tet = Txyz::new([v0, v1, v2, v3]);
    let v = tet.volume().unwrap();
    assert_eq!(v, 256);
    assert!(tetravolume(v).abs_diff_eq(&0.5, 1e-12));
}

#[test]
fn vol_convert() {
    let tet = Tivm::new(unit_quadrays());
    let newtet = tet.to_xyz();
    assert_eq!(newtet.a, Vxyz { x: 1, y: 1, z: 1 });
    assert_eq!(newtet.b, Vxyz { x: -1, y: -1, z: 1 });
    let v = newtet.volume().unwrap();
    assert!(tetravolume(v).abs_diff_eq(&1.0, 1e-12));
}

#[test]
fn cartesian_volume_survives_conversion_to_quadray() {
    let v0 = Vxyz::new(&[0, 0, 0]);
    let v1 = Vxyz::new(&[2, 0, 0]);
    let v2 = Vxyz::new(&[0, 2, 0]);
    let v3 = Vxyz::new(&[0, 0, 2]);
    let tet = Txyz::new([v0, v1, v2, v3]);
    let quad = tet.to_ivm();
    assert_eq!(quad.b, Vivm { a: 2, b: 0, c: 0, d: 2 });
    assert_eq!(quad.volume(), tet.volume());
    assert_eq!(quad.edges(), tet.edges());
}

#[test]
fn new_quadray_is_normalized_and_doubled() {
    let q = Vivm::new(&[3, 1, 2, 1]);
    assert_eq!(q, Vivm { a: 4, b: 0, c: 2, d: 0 });
    let q = Vivm::new(&[-1, -3, 0, 2]);
    assert_eq!(q, Vivm { a: 4, b: 0, c: 6, d: 10 });
}

#[test]
fn quadray_arithmetic_renormalizes() {
    let qb = Vivm::new(&[2, 1, 1, 0]);
    assert_eq!(qb.neg(), Vivm { a: 0, b: 2, c: 2, d: 4 });
    let p = Vivm::new(&[1, 0, 0, 0]);
    let q = Vivm::new(&[0, 1, 0, 0]);
    assert_eq!(p.add(&q), Vivm { a: 2, b: 2, c: 0, d: 0 });
    assert_eq!(p.sub(&q), Vivm { a: 4, b: 0, c: 2, d: 2 });
    assert_eq!(p.sub(&p), Vivm { a: 0, b: 0, c: 0, d: 0 });
}

#[test]
fn quadray_scaling_does_not_renormalize() {
    let p = Vivm::new(&[1, 0, 0, 0]);
    let m = p.mul(-1);
    assert_eq!(m, Vivm { a: -2, b: 0, c: 0, d: 0 });
    assert_eq!(m.normalize(), Vivm { a: 0, b: 2, c: 2, d: 2 });
    assert_eq!(p.mul(3), Vivm { a: 6, b: 0, c: 0, d: 0 });
}

#[test]
fn cartesian_arithmetic() {
    let u = Vxyz::new(&[1, -2, 3]);
    let v = Vxyz::new(&[4, 5, -6]);
    assert_eq!(u.sub(&v), Vxyz { x: -3, y: -7, z: 9 });
    assert_eq!(u.neg(), Vxyz { x: -1, y: 2, z: -3 });
    assert_eq!(u.mul(-2), Vxyz { x: -2, y: 4, z: -6 });
}

#[test]
fn dot_products_are_symmetric() {
    let u = Vxyz::new(&[1, -2, 3]);
    let v = Vxyz::new(&[4, 5, -6]);
    assert_eq!(u.dot(&v), -24);
    assert_eq!(v.dot(&u), -24);
    let p = Vivm::new(&[1, 0, 0, 0]);
    let q = Vivm::new(&[0, 1, 0, 0]);
    assert_eq!(p.dot(&q), -1);
    assert_eq!(q.dot(&p), -1);
}

#[test]
fn quadray_basis_rays_meet_at_the_tetrahedral_angle() {
    let p = Vivm::new(&[1, 0, 0, 0]);
    let q = Vivm::new(&[0, 1, 0, 0]);
    let cos = p.dot(&q) as f64 / (p.length_squared() as f64 * q.length_squared() as f64).sqrt();
    let degrees = cos.acos().to_degrees();
    assert!(degrees.abs_diff_eq(&109.47122063449069, 1e-9));
}

#[test]
fn lengths_agree_across_representations() {
    let p = Vivm::new(&[1, 0, 0, 0]);
    assert_eq!(p.length_squared(), 3);
    assert_eq!(p.to_xyz().length_squared(), 3);
    let v = Vxyz::new(&[1, -2, 3]);
    assert_eq!(v.length_squared(), 14);
    assert_eq!(v.to_ivm().length_squared(), 14);
    assert_eq!(Vxyz::new(&[0, 0, 0]).length_squared(), 0);
}

#[test]
fn cartesian_round_trip() {
    let v = Vxyz::new(&[1, -1, -1]);
    let q = v.to_ivm();
    assert_eq!(q, Vivm { a: 1, b: 1, c: 1, d: 3 });
    assert_eq!(q.to_xyz(), v);
    let w = Vxyz::new(&[-7, 5, 0]);
    assert_eq!(w.to_ivm().to_xyz(), w);
}

#[test]
fn quadray_round_trip() {
    let q = Vivm::new(&[2, 1, 1, 0]).neg();
    let xyz = q.to_xyz();
    assert_eq!(xyz, Vxyz { x: 0, y: -2, z: -2 });
    let back = xyz.to_ivm();
    assert_eq!(back, q);
    let q = Vivm::new(&[0, 0, 0, 1]);
    let back = q.to_xyz().to_ivm();
    assert_eq!(back, Vivm { a: 1, b: 1, c: 1, d: 3 });
    assert_eq!(back.normalize(), q);
}

#[test]
fn relabelled_edges_keep_the_volume() {
    let e = TetEdges { ab: 8, ac: 16, ad: 12, bc: 10, cd: 14, db: 9 };
    let v = e.volume();
    let swapped = TetEdges { ab: e.ab, ac: e.bc, ad: e.db, bc: e.ac, cd: e.cd, db: e.ad };
    assert_eq!(swapped.volume(), v);
    let rotated = TetEdges { ab: e.bc, ac: e.db, ad: e.ab, bc: e.cd, cd: e.ad, db: e.ac };
    assert_eq!(rotated.volume(), v);
}

#[test]
fn degenerate_edges_are_a_domain_error() {
    // ab = ac = bc = cd = db = 1 and ad = 2: a, b, d are collinear.
    let flat = TetEdges { ab: 8, ac: 8, ad: 32, bc: 8, cd: 8, db: 8 };
    assert_eq!(flat.volume(), Err(VolumeError::NegativeRadicand));
    let stretched = TetEdges { ab: 800, ac: 8, ad: 8, bc: 8, cd: 8, db: 8 };
    assert_eq!(stretched.volume(), Err(VolumeError::NegativeRadicand));
}

#[test]
fn coincident_points_have_zero_volume() {
    let zero = TetEdges { ab: 0, ac: 0, ad: 0, bc: 0, cd: 0, db: 0 };
    assert_eq!(zero.volume(), Ok(0));
}
