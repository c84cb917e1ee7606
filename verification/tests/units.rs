//! Unit tests of the numeric domain, the three-valued comparison, and the
//! turtle state.

use rslogo::ast::{Expression, RuntimeError};
use rslogo::canvas::new_image;
use rslogo::num::{add_fx, div_fx, mul_fx, sub_fx};
use rslogo::turtle::Turtle;
use rslogo::uncertain_bool::{is_option_eq, UncertainBool};

#[test]
fn fixed_point_arithmetic_is_exact() {
    assert_eq!(add_fx(1_500, 2_500), Some(4_000));
    assert_eq!(sub_fx(1_000, 2_500), Some(-1_500));
    assert_eq!(mul_fx(1_500, 2_000), Some(3_000));
    assert_eq!(div_fx(10_000, 4_000), Some(2_500));
    // truncation toward zero
    assert_eq!(div_fx(10_000, 3_000), Some(3_333));
    assert_eq!(div_fx(-10_000, 3_000), Some(-3_333));
    assert_eq!(mul_fx(-1, 500), Some(0));
}

#[test]
fn fixed_point_arithmetic_reports_overflow() {
    assert_eq!(add_fx(i64::MAX, 1), None);
    assert_eq!(sub_fx(i64::MIN, 1), None);
    assert_eq!(mul_fx(i64::MAX, 2_000), None);
    assert_eq!(div_fx(i64::MAX, 1), None);
    assert_eq!(add_fx(i64::MAX, -1), Some(i64::MAX - 1));
}

#[test]
fn option_equality_is_three_valued() {
    assert!(is_option_eq(Some(1i64), Some(1i64)).is_true());
    assert!(is_option_eq(Some(1i64), Some(2i64)).is_false());
    assert!(is_option_eq(Some(1i64), None).is_false());
    assert!(is_option_eq::<i64>(None, None) == UncertainBool::Unknown);
    assert!(!is_option_eq::<i64>(None, None).is_true());
    assert!(!is_option_eq::<i64>(None, None).is_false());
    assert!(is_option_eq(Some(b"ab".to_vec()), Some(b"ab".to_vec())).is_true());
    assert!(is_option_eq(Some(b"ab".to_vec()), Some(b"ac".to_vec())).is_false());
}

#[test]
fn new_turtle_starts_at_center_pen_up() {
    let t = Turtle::new(new_image(101, 40));
    assert_eq!(t.get_x(), 50_500);
    assert_eq!(t.get_y(), 20_000);
    assert_eq!(t.get_heading(), 0);
    assert_eq!(t.get_pen_color(), 7_000);
    assert!(!t.is_pen_down());
}

#[test]
fn turtle_setters_and_variables() {
    let mut t = Turtle::new(new_image(100, 100));
    t.pen_down();
    assert!(t.is_pen_down());
    t.set_heading(45_000);
    assert_eq!(t.get_heading(), 45_000);
    assert_eq!(t.turn(-50_000), Ok(()));
    assert_eq!(t.get_heading(), -5_000);
    assert_eq!(t.turn(i64::MIN), Err(RuntimeError::Overflow));
    t.add_variable(b"v".to_vec(), Expression::Float(7));
    t.add_variable(b"v".to_vec(), Expression::Float(8));
    match t.get_variable(&b"v".to_vec()) {
        Some(Expression::Float(v)) => assert_eq!(*v, 8),
        other => panic!("unexpected binding: {:?}", other),
    }
    assert!(t.get_variable(&b"w".to_vec()).is_none());
}

#[test]
fn set_pen_color_validates_palette_index() {
    let mut t = Turtle::new(new_image(100, 100));
    assert_eq!(t.set_pen_color(15_999), Ok(()));
    assert_eq!(t.get_pen_color(), 15_000);
    assert_eq!(t.set_pen_color(16_000), Err(RuntimeError::PaletteOutOfRange));
    assert_eq!(t.set_pen_color(-1_000), Err(RuntimeError::PaletteOutOfRange));
    assert_eq!(t.get_pen_color(), 15_000);
}
