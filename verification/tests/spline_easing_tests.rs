use beatcraft_editor::beatmap_data::BeatmapDataError;
use beatcraft_editor::easing::Easing;
use beatcraft_editor::part::Vec3Bits;
use beatcraft_editor::spline::{binomial_coefficient, BezierPath};

#[test]
fn binomial_values() {
    assert_eq!(binomial_coefficient(5, 2), 10);
    assert_eq!(binomial_coefficient(5, 3), 10);
    assert_eq!(binomial_coefficient(0, 0), 1);
    assert_eq!(binomial_coefficient(10, 0), 1);
    assert_eq!(binomial_coefficient(10, 10), 1);
    assert_eq!(binomial_coefficient(6, 3), 20);
}

#[test]
fn binomial_row_sums_to_power_of_two() {
    let n = 8;
    let sum: i32 = (0..=n).map(|k| binomial_coefficient(n, k)).sum();
    assert_eq!(sum, 256);
}

#[test]
fn easing_default_and_linear() {
    assert!(Easing::easeLinear.is_default());
    assert!(!Easing::easeStep.is_default());
    assert_eq!(Easing::default(), Easing::easeStep);
}

#[test]
fn easing_codes_roundtrip() {
    for (_, e) in Easing::iter_all() {
        let code = i8::from(e);
        assert_eq!(Easing::try_from(code).ok(), Some(e));
    }
    assert_eq!(i8::from(Easing::easeBeatSaberInOutBounce), 102);
    assert_eq!(i8::from(Easing::easeStep), -1);
}

#[test]
fn easing_bad_code_is_error() {
    match Easing::try_from(50i8) {
        Err(BeatmapDataError::ToEnum { enum_name, val }) => {
            assert_eq!(enum_name, "Easing");
            assert_eq!(val, 50);
        }
        Ok(_) => panic!("code 50 names no curve"),
    }
    assert!(Easing::try_from(-2i8).is_err());
    assert!(Easing::try_from(31i8).is_err());
}

#[test]
fn easing_names() {
    assert_eq!(Easing::easeLinear.display_name(), "Linear         ");
    assert_eq!(Easing::easeInOutCubic.display_name(), "Cubid      (IO)");
    let all = Easing::iter_all();
    assert_eq!(all.len(), 35);
    assert_eq!(all[0], ("Step           ", Easing::easeStep));
    assert_eq!(all[34].1, Easing::easeBeatSaberInOutBounce);
}

#[test]
fn bezier_path_needs_points() {
    assert!(BezierPath::new(vec![]).is_none());
    let p = BezierPath::new(vec![Vec3Bits { x: 1, y: 2, z: 3 }, Vec3Bits { x: 4, y: 5, z: 6 }]).unwrap();
    assert_eq!(p.points(), &[Vec3Bits { x: 1, y: 2, z: 3 }, Vec3Bits { x: 4, y: 5, z: 6 }]);
}
