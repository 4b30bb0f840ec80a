use charts::{Rational, Scale, ScaleBand, ScaleDomainValue, ScaleError, ScaleKind, ScaleLinear};
use charts::{ScaleLogarithmic, ScaleType};

fn q(n: i64, d: i64) -> Rational {
    Rational::new(n, d).unwrap()
}

fn linear(d0: Rational, d1: Rational, r0: isize, r1: isize) -> ScaleLinear {
    ScaleLinear::new().set_domain(vec![d0, d1]).set_range(vec![r0, r1])
}

#[test]
fn linear_defaults() {
    let scale = ScaleLinear::new();
    assert!(scale.domain().is_empty());
    assert_eq!(scale.range(), &vec![0, 1]);
    assert_eq!(scale.tick_count(), 10);
    assert_eq!(scale.get_type(), ScaleKind::Linear);
    assert_eq!(scale.bandwidth(), Some(q(0, 1)));
}

#[test]
fn linear_ticks_zero_to_hundred() {
    let scale = linear(q(0, 1), q(100, 1), 0, 500);
    assert_eq!(scale.tick_step(&q(0, 1), &q(100, 1)), Ok(10));
    let ticks = scale.get_ticks().unwrap();
    assert_eq!(ticks.len(), 11);
    let expected: Vec<Rational> = (0..=10).map(|k| q(10 * k, 1)).collect();
    assert_eq!(ticks, expected);
}

#[test]
fn linear_ticks_zero_to_one() {
    let scale = linear(q(0, 1), q(1, 1), 0, 1);
    assert_eq!(scale.tick_step(&q(0, 1), &q(1, 1)), Ok(-10));
    let ticks = scale.get_ticks().unwrap();
    let expected: Vec<Rational> = (0..=10).map(|k| q(k, 10)).collect();
    assert_eq!(ticks, expected);
    let labels: Vec<String> = ticks.iter().map(|t| t.to_string()).collect();
    assert_eq!(labels, vec!["0", "0.1", "0.2", "0.3", "0.4", "0.5", "0.6", "0.7", "0.8", "0.9", "1"]);
}

#[test]
fn linear_scale_midpoint() {
    let scale = linear(q(0, 1), q(100, 1), 0, 500);
    assert_eq!(scale.scale(&q(50, 1)), Ok(q(250, 1)));
}

#[test]
fn linear_scale_maps_bounds_to_range_ends() {
    let scale = linear(q(-3, 7), q(22, 5), 40, 917);
    assert_eq!(scale.scale(&q(-3, 7)), Ok(q(40, 1)));
    assert_eq!(scale.scale(&q(22, 5)), Ok(q(917, 1)));
    assert_eq!(scale.range_start(), 40);
    assert_eq!(scale.range_end(), 917);
    assert_eq!(scale.domain_max(), Some(q(22, 5)));
}

#[test]
fn linear_scale_is_exact_between_the_bounds() {
    // 0 + 500 * (1 - 0) / (3 - 0)
    let scale = linear(q(0, 1), q(3, 1), 0, 500);
    assert_eq!(scale.scale(&q(1, 1)), Ok(q(500, 3)));
    // outside the domain the line goes on
    assert_eq!(scale.scale(&q(-3, 1)), Ok(q(-500, 1)));
}

#[test]
fn linear_scale_of_equal_bounds_is_the_middle_of_the_range() {
    let scale = linear(q(5, 1), q(5, 1), 0, 500);
    assert_eq!(scale.scale(&q(123, 1)), Ok(q(250, 1)));
    let near = linear(q(0, 1), q(1, 100_000_000), 0, 500);
    assert_eq!(near.scale(&q(1, 1)), Ok(q(250, 1)));
}

#[test]
fn linear_scale_is_monotonic() {
    let rising = linear(q(0, 1), q(10, 1), 0, 640);
    let falling = linear(q(0, 1), q(10, 1), 480, 0);
    assert!(!rising.is_range_reversed());
    assert!(falling.is_range_reversed());
    let xs = [q(-5, 2), q(0, 1), q(1, 3), q(2, 1), q(7, 2), q(10, 1), q(31, 3)];
    for pair in xs.windows(2) {
        let (a, b) = (rising.scale(&pair[0]).unwrap(), rising.scale(&pair[1]).unwrap());
        assert!(a.at_most(&b));
        let (c, d) = (falling.scale(&pair[0]).unwrap(), falling.scale(&pair[1]).unwrap());
        assert!(d.at_most(&c));
    }
}

#[test]
fn normalize_undoes_interpolate() {
    let scale = ScaleLinear::new();
    let (a, b) = (q(3, 2), q(-7, 5));
    for t in [q(0, 1), q(1, 1), q(1, 3), q(-9, 4), q(22, 7)] {
        let y = scale.interpolate(&a, &b, &t).unwrap();
        assert_eq!(scale.normalize(&a, &b, &y), Some(t));
    }
    // equal bounds always give one half
    assert_eq!(scale.normalize(&a, &a, &q(99, 1)), Some(q(1, 2)));
}

#[test]
fn interpolate_is_a_straight_line() {
    let scale = ScaleLinear::new();
    assert_eq!(scale.interpolate(&q(10, 1), &q(20, 1), &q(1, 4)), Some(q(25, 2)));
    assert_eq!(scale.interpolate(&q(10, 1), &q(20, 1), &q(0, 1)), Some(q(10, 1)));
    assert_eq!(scale.interpolate(&q(10, 1), &q(20, 1), &q(1, 1)), Some(q(20, 1)));
}

#[test]
fn tick_step_snaps_to_one_two_five_ten() {
    let scale = ScaleLinear::new();
    // raw steps 1.4, 1.5, 3.1, 3.2, 7, 7.1
    assert_eq!(scale.tick_step(&q(0, 1), &q(14, 1)), Ok(1));
    assert_eq!(scale.tick_step(&q(0, 1), &q(15, 1)), Ok(2));
    assert_eq!(scale.tick_step(&q(0, 1), &q(31, 1)), Ok(2));
    assert_eq!(scale.tick_step(&q(0, 1), &q(32, 1)), Ok(5));
    assert_eq!(scale.tick_step(&q(0, 1), &q(70, 1)), Ok(5));
    assert_eq!(scale.tick_step(&q(0, 1), &q(71, 1)), Ok(10));
    assert_eq!(scale.tick_step(&q(0, 1), &q(4000, 1)), Ok(500));
}

#[test]
fn tick_step_below_one_is_a_negated_reciprocal() {
    let scale = ScaleLinear::new();
    // raw steps 0.05, 0.02, 0.003, 0.0071
    assert_eq!(scale.tick_step(&q(0, 1), &q(1, 2)), Ok(-20));
    assert_eq!(scale.tick_step(&q(0, 1), &q(1, 5)), Ok(-50));
    assert_eq!(scale.tick_step(&q(0, 1), &q(3, 100)), Ok(-500));
    assert_eq!(scale.tick_step(&q(0, 1), &q(71, 1000)), Ok(-100));
}

#[test]
fn tick_step_has_no_answer_without_a_span() {
    let scale = ScaleLinear::new();
    assert_eq!(scale.tick_step(&q(1, 1), &q(1, 1)), Err(ScaleError::EmptySpan));
    assert_eq!(scale.tick_step(&q(2, 1), &q(1, 1)), Err(ScaleError::EmptySpan));
    let none = ScaleLinear::new().set_tick_count(0);
    assert_eq!(none.tick_step(&q(0, 1), &q(1, 1)), Err(ScaleError::EmptySpan));
}

#[test]
fn tick_step_rejects_a_span_beyond_its_magnitude() {
    let scale = ScaleLinear::new();
    let far = q(100_000_000_000_000_000, 1);
    assert_eq!(scale.tick_step(&q(0, 1), &far), Err(ScaleError::OutOfRange));
    assert_eq!(scale.tick_step(&q(0, 1), &q(99_999_999_999_999_999, 1)), Ok(10_000_000_000_000_000));
    let fine = q(1, 10_000_000_000_000_000);
    assert_eq!(scale.tick_step(&q(0, 1), &fine), Err(ScaleError::OutOfRange));
    assert_eq!(
        linear(q(0, 1), far, 0, 1).get_ticks(),
        Err(ScaleError::OutOfRange)
    );
}

#[test]
fn linear_ticks_are_the_multiples_inside_the_domain() {
    let scale = linear(q(-7, 2), q(47, 10), 0, 1);
    // raw step 0.82, nice step 1
    let ticks = scale.get_ticks().unwrap();
    let expected: Vec<Rational> = (-3..=4).map(|k| q(k, 1)).collect();
    assert_eq!(ticks, expected);
    let fine = linear(q(1, 3), q(2, 3), 0, 1);
    // raw step 1/30, nice step 0.05
    let expected: Vec<Rational> = (7..=13).map(|k| q(k, 20)).collect();
    assert_eq!(fine.get_ticks().unwrap(), expected);
}

#[test]
fn linear_ticks_of_equal_bounds_are_one_tick() {
    let scale = linear(q(7, 2), q(7, 2), 0, 1);
    assert_eq!(scale.get_ticks(), Ok(vec![q(7, 2)]));
    let near = linear(q(0, 1), q(1, 100_000_000), 0, 1);
    assert_eq!(near.get_ticks(), Ok(vec![q(0, 1)]));
}

#[test]
fn linear_ticks_are_none_without_a_step() {
    let none = linear(q(0, 1), q(100, 1), 0, 1).set_tick_count(0);
    assert_eq!(none.get_ticks(), Ok(vec![]));
    let equal = linear(q(3, 1), q(3, 1), 0, 1).set_tick_count(0);
    assert_eq!(equal.get_ticks(), Ok(vec![]));
    let reversed = linear(q(100, 1), q(0, 1), 0, 1);
    assert_eq!(reversed.get_ticks(), Ok(vec![]));
}

#[test]
fn logarithmic_defaults() {
    let scale = ScaleLogarithmic::new();
    assert_eq!(scale.domain(), &vec![q(1, 1), q(1000, 1)]);
    assert_eq!(scale.range(), &vec![0, 1]);
    assert_eq!(scale.tick_count(), 10);
    assert_eq!(scale.get_type(), ScaleKind::Logarithmic);
    assert_eq!(scale.bandwidth(), Some(q(0, 1)));
    assert_eq!(scale.domain_max(), Some(q(1000, 1)));
    assert_eq!(scale.get_domain(), vec![q(1, 1), q(1000, 1)]);
}

#[test]
fn logarithmic_default_tick_distance() {
    // raw step 99.9, power of ten 10, of which 99.9 fit: doubled
    let scale = ScaleLogarithmic::new();
    assert_eq!(scale.compute_tick_distance(), Ok(q(20, 1)));
    let ticks = scale.get_ticks().unwrap();
    assert_eq!(ticks.len(), 50);
    for (i, tick) in ticks.iter().enumerate() {
        assert_eq!(*tick, q(1 + 20 * i as i64, 1));
    }
}

#[test]
fn logarithmic_tick_distance_is_adjusted_once() {
    let one = ScaleLogarithmic::new().set_domain(vec![q(0, 1), q(15, 1)]).set_tick_count(1);
    // raw step 15, power of ten 10, of which 1.5 fit: halved
    assert_eq!(one.compute_tick_distance(), Ok(q(5, 1)));
    assert_eq!(one.get_ticks(), Ok(vec![q(0, 1), q(5, 1), q(10, 1), q(15, 1)]));
    let kept = ScaleLogarithmic::new().set_domain(vec![q(0, 1), q(5, 1)]).set_tick_count(3);
    // raw step 5/3, power of ten 1, of which 5 fit: kept
    assert_eq!(kept.compute_tick_distance(), Ok(q(1, 1)));
    let small = ScaleLogarithmic::new().set_domain(vec![q(1, 10), q(3, 10)]).set_tick_count(4);
    // raw step 0.05, power of ten 0.01, of which 20 fit: doubled
    assert_eq!(small.compute_tick_distance(), Ok(q(1, 50)));
    let ticks = small.get_ticks().unwrap();
    let expected: Vec<Rational> = (0..=10).map(|i| q(5 + i, 50)).collect();
    assert_eq!(ticks, expected);
}

#[test]
fn logarithmic_ticks_without_a_distance() {
    let equal = ScaleLogarithmic::new().set_domain(vec![q(4, 1), q(4, 1)]);
    assert_eq!(equal.compute_tick_distance(), Err(ScaleError::EmptySpan));
    assert_eq!(equal.get_ticks(), Ok(vec![q(4, 1)]));
    let none = ScaleLogarithmic::new().set_tick_count(0);
    assert_eq!(none.get_ticks(), Ok(vec![q(1, 1)]));
    let reversed = ScaleLogarithmic::new().set_domain(vec![q(4, 1), q(1, 1)]);
    assert_eq!(reversed.get_ticks(), Ok(vec![]));
    let far = ScaleLogarithmic::new().set_domain(vec![q(0, 1), q(i64::MAX, 1)]);
    assert_eq!(far.compute_tick_distance(), Err(ScaleError::OutOfRange));
    assert_eq!(far.get_ticks(), Err(ScaleError::OutOfRange));
}

#[test]
fn logarithmic_scale_maps_linearly() {
    let scale = ScaleLogarithmic::new().set_range(vec![0, 999]);
    assert_eq!(scale.scale(&q(1, 1)), Ok(q(0, 1)));
    assert_eq!(scale.scale(&q(1000, 1)), Ok(q(999, 1)));
    assert_eq!(scale.scale(&q(10, 1)), Ok(q(9, 1)));
    assert!(!scale.is_range_reversed());
    assert_eq!(scale.denormalize(&q(1, 1), &q(1000, 1), &q(1, 3)), Some(q(334, 1)));
    assert_eq!(scale.denormalize(&q(2, 1), &q(2, 1), &q(1, 3)), Some(q(1, 2)));
    assert_eq!(scale.normalize(&q(1, 1), &q(1000, 1), &q(334, 1)), Some(q(1, 3)));
    assert_eq!(scale.interpolate(&q(0, 1), &q(999, 1), &q(1, 3)), Some(q(333, 1)));
}

#[test]
fn scale_reports_what_does_not_fit() {
    let scale = linear(q(0, 1), q(1, 1000), 0, 2);
    assert_eq!(scale.scale(&q(1, 1000)), Ok(q(2, 1)));
    assert_eq!(scale.scale(&q(i64::MAX, 1)), Err(ScaleError::OutOfRange));
    let lowest = linear(q(0, 1), q(1, 1), isize::MIN, 0);
    if isize::MIN as i128 == i64::MIN as i128 {
        assert_eq!(lowest.scale(&q(0, 1)), Err(ScaleError::OutOfRange));
    }
}

fn band() -> ScaleBand {
    ScaleBand::new(
        vec!["a".to_string(), "bcd".to_string(), "é€".to_string()],
        vec![q(0, 1), q(100, 3), q(200, 3)],
        q(100, 3),
        vec![0, 100],
    )
}

#[test]
fn band_scale_holds_its_layout() {
    let scale = band();
    assert_eq!(scale.get_type(), ScaleKind::Band);
    assert_eq!(scale.scale(&"bcd".to_string()), Ok(q(100, 3)));
    assert_eq!(scale.scale(&"zz".to_string()), Err(ScaleError::UnknownCategory));
    assert_eq!(scale.bandwidth(), Some(q(100, 3)));
    assert_eq!(scale.domain_max(), None);
    assert_eq!(scale.get_ticks(), Ok(scale.get_domain()));
    assert_eq!(scale.get_domain(), vec!["a", "bcd", "é€"]);
    assert_eq!((scale.range_start(), scale.range_end()), (0, 100));
    assert!(!scale.is_range_reversed());
}

#[test]
fn scale_type_dispatches_by_kind() {
    let lin = ScaleType::Linear(linear(q(0, 1), q(100, 1), 500, 0));
    assert_eq!(lin.scale(&ScaleDomainValue::Linear(q(50, 1))), Ok(q(250, 1)));
    assert_eq!(
        lin.scale(&ScaleDomainValue::Logarithmic(q(50, 1))),
        Err(ScaleError::KindMismatch)
    );
    assert_eq!(
        lin.scale(&ScaleDomainValue::Band("a".to_string())),
        Err(ScaleError::KindMismatch)
    );
    assert_eq!(lin.is_range_reversed(), Ok(true));
    assert_eq!(lin.bandwidth(), None);

    let log = ScaleType::Logarithmic(ScaleLogarithmic::new());
    assert_eq!(log.scale(&ScaleDomainValue::Logarithmic(q(1000, 1))), Ok(q(1, 1)));
    assert_eq!(log.scale(&ScaleDomainValue::Linear(q(1, 1))), Err(ScaleError::KindMismatch));
    assert_eq!(log.is_range_reversed(), Ok(false));

    let cat = ScaleType::Band(band());
    assert_eq!(cat.scale(&ScaleDomainValue::Band("a".to_string())), Ok(q(0, 1)));
    assert_eq!(
        cat.scale(&ScaleDomainValue::Band("none".to_string())),
        Err(ScaleError::UnknownCategory)
    );
    assert_eq!(cat.scale(&ScaleDomainValue::Linear(q(0, 1))), Err(ScaleError::KindMismatch));
    assert_eq!(cat.bandwidth(), Some(q(100, 3)));

    let ordinal = ScaleType::Ordinal;
    assert_eq!(ordinal.scale(&ScaleDomainValue::Linear(q(0, 1))), Err(ScaleError::Unimplemented));
    assert_eq!(ordinal.is_range_reversed(), Err(ScaleError::Unimplemented));
    assert_eq!(ordinal.bandwidth(), None);
}
