use gendel::complex::Complex;
use gendel::fixed::FIXED_ONE;

#[test]
fn test_complex() {
    let c1 = Complex::new(1 * FIXED_ONE, 2 * FIXED_ONE);
    assert_eq!(c1.real, 1 * FIXED_ONE);
    assert_eq!(c1.imaginary, 2 * FIXED_ONE);
}

#[test]
fn test_complex_has_escaped() {
    let c1 = Complex::new(2 * FIXED_ONE, 0);
    assert!(c1.has_escaped());
    let c2 = Complex::new(1 * FIXED_ONE, 1 * FIXED_ONE);
    assert!(!c2.has_escaped());
}

#[test]
fn test_complex_iterate() {
    let mut c1 = Complex::new(1 * FIXED_ONE, 2 * FIXED_ONE);
    let origin = c1.clone();
    c1.iterate(&origin);
    c1.iterate(&origin);
    c1.iterate(&origin);
    assert_eq!(c1.real, 478 * FIXED_ONE);
    assert_eq!(c1.imaginary, 1366 * FIXED_ONE);
}

#[test]
fn test_escaped_point_is_immediately_unstable() {
    // Points at or past the escape radius are classified unstable by any
    // positive iteration cap, without needing a single iteration.
    let on_radius = Complex::new(2 * FIXED_ONE, 0);
    assert!(!on_radius.is_stable(1));
    assert!(!on_radius.is_stable(100));
    let beyond = Complex::new(-3 * FIXED_ONE, 1 * FIXED_ONE);
    assert!(!beyond.is_stable(1));
    let diagonal = Complex::new(3 * FIXED_ONE / 2, 3 * FIXED_ONE / 2);
    assert!(!diagonal.is_stable(1));
}

#[test]
fn test_origin_is_always_stable() {
    let origin = Complex::new(0, 0);
    assert!(origin.is_stable(1));
    assert!(origin.is_stable(50));
    assert!(origin.is_stable(10000));
}

#[test]
fn test_cap_of_zero_or_less_classifies_everything_stable() {
    // With no iterations allowed the escape test never runs.
    let escaped = Complex::new(2 * FIXED_ONE, 2 * FIXED_ONE);
    assert!(escaped.is_stable(0));
    assert!(escaped.is_stable(-5));
}

#[test]
fn test_inside_point_stays_stable() {
    // A small real point well inside the set never escapes.
    let inside = Complex::new(-FIXED_ONE / 4, 0);
    assert!(inside.is_stable(1000));
}
