use freefall::helpers::{multiply, FallArea, GeometryError};
use freefall::{JUMPER_X, JUMPER_Y};

#[test]
fn fall_area_rounds_up_to_step() {
    let area = FallArea::new(50, 30, 35, 60).unwrap();
    assert_eq!(area.width, (51, 9));
    assert_eq!(area.height, (30, 5));
    assert_eq!(area.width.0 % JUMPER_X, 0);
    assert_eq!(area.height.0 % JUMPER_Y, 0);
}

#[test]
fn fall_area_keeps_exact_multiple() {
    let area = FallArea::new(42, 30, 40, 60).unwrap();
    assert_eq!(area.width.0, 42);
    assert_eq!(area.width.1, 18);
    assert_eq!(area.height.0, 30);
    assert_eq!(area.height.1, 10);
}

#[test]
fn fall_area_rejects_small_viewport_rows() {
    // however large the request, a short viewport is refused outright
    let r = FallArea::new(100, 100, 29, 200);
    assert!(matches!(r, Err(GeometryError::TooSmallConfiguration)));
}

#[test]
fn fall_area_rejects_small_viewport_cols() {
    let r = FallArea::new(100, 100, 50, 39);
    assert!(matches!(r, Err(GeometryError::TooSmallConfiguration)));
}

#[test]
fn fall_area_rejects_small_request() {
    let r = FallArea::new(39, 30, 50, 80);
    assert!(matches!(r, Err(GeometryError::TooSmallConfiguration)));
    let r = FallArea::new(40, 29, 50, 80);
    assert!(matches!(r, Err(GeometryError::TooSmallConfiguration)));
}

#[test]
fn fall_area_rejects_tight_viewport() {
    // the viewport must fit the request plus the two border columns
    let r = FallArea::new(50, 30, 35, 51);
    assert!(matches!(r, Err(GeometryError::ViewportTooSmall)));
    let r = FallArea::new(50, 30, 31, 60);
    assert!(matches!(r, Err(GeometryError::ViewportTooSmall)));
}

#[test]
fn fall_area_accepts_exact_fit() {
    let area = FallArea::new(50, 30, 32, 52).unwrap();
    assert_eq!(area.width, (51, 1));
    assert_eq!(area.height, (30, 2));
}

#[test]
fn multiply_repeats_pattern() {
    assert_eq!(multiply("ab", 3), "ababab");
    assert_eq!(multiply("-", 5), "-----");
    assert_eq!(multiply("x", 0), "");
    assert_eq!(multiply("", 7), "");
}
