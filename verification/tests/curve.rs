use arch_sense::fan_curve::{calculate_fan_speed, curve_is_wf, default_fan_curve};

#[test]
fn default_curve_is_well_formed() {
    let curve = default_fan_curve();
    assert_eq!(
        curve,
        vec![(40u8, 20u8), (55u8, 40u8), (70u8, 65u8), (85u8, 100u8)]
    );
    assert!(curve_is_wf(&curve));
}

#[test]
fn duty_below_first_point_is_first_duty() {
    let curve = default_fan_curve();
    assert_eq!(calculate_fan_speed(30, &curve), 20);
    assert_eq!(calculate_fan_speed(0, &curve), 20);
    assert_eq!(calculate_fan_speed(40, &curve), 20);
}

#[test]
fn duty_above_last_point_is_last_duty() {
    let curve = default_fan_curve();
    assert_eq!(calculate_fan_speed(85, &curve), 100);
    assert_eq!(calculate_fan_speed(95, &curve), 100);
    assert_eq!(calculate_fan_speed(255, &curve), 100);
}

#[test]
fn duty_at_interior_points_is_exact() {
    let curve = default_fan_curve();
    assert_eq!(calculate_fan_speed(55, &curve), 40);
    assert_eq!(calculate_fan_speed(70, &curve), 65);
}

#[test]
fn duty_interpolates_between_points() {
    let curve = default_fan_curve();
    // 48 lies in the (40,20)-(55,40) segment: 20 + 8*20/15 = 30.
    assert_eq!(calculate_fan_speed(48, &curve), 30);
    // 62 lies in the (55,40)-(70,65) segment: 40 + 7*25/15 = 51.
    assert_eq!(calculate_fan_speed(62, &curve), 51);
}

#[test]
fn duty_is_monotone_over_a_sweep() {
    let curve = default_fan_curve();
    let mut prev = calculate_fan_speed(0, &curve);
    for temp in 1..=255u8 {
        let duty = calculate_fan_speed(temp, &curve);
        assert!(duty >= prev, "duty fell from {} to {} at {}", prev, duty, temp);
        prev = duty;
    }
}

#[test]
fn empty_curve_yields_zero() {
    let curve: Vec<(u8, u8)> = Vec::new();
    assert!(curve_is_wf(&curve));
    assert_eq!(calculate_fan_speed(50, &curve), 0);
}

#[test]
fn malformed_curves_are_rejected() {
    assert!(!curve_is_wf(&[(50, 20), (40, 30)]));
    assert!(!curve_is_wf(&[(40, 30), (50, 20)]));
    assert!(!curve_is_wf(&[(40, 20), (40, 30)]));
    assert!(curve_is_wf(&[(40, 20)]));
}
