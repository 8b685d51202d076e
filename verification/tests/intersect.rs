use pathtracer::intersect::accept_root;
use pathtracer::intersect::RootChoice;

#[test]
fn negative_discriminant_misses() {
    // A ray missing the sphere entirely reports no hit, whatever the root
    // signs would be.
    assert_eq!(accept_root(false, true, true), RootChoice::Miss);
    assert_eq!(accept_root(false, false, false), RootChoice::Miss);
    assert_eq!(accept_root(false, false, true), RootChoice::Miss);
}

#[test]
fn crossing_ray_accepts_the_nearer_root() {
    assert_eq!(accept_root(true, true, true), RootChoice::Nearer);
}

#[test]
fn tangent_ray_accepts_exactly_one_root() {
    // At a tangent the two roots coincide, so their signs agree; one root is
    // accepted, never both, never none.
    assert_eq!(accept_root(true, true, true), RootChoice::Nearer);
    assert_eq!(accept_root(true, false, false), RootChoice::Miss);
}

#[test]
fn origin_inside_sphere_falls_back_to_farther_root() {
    assert_eq!(accept_root(true, false, true), RootChoice::Farther);
}

#[test]
fn sphere_behind_origin_misses() {
    assert_eq!(accept_root(true, false, false), RootChoice::Miss);
}
