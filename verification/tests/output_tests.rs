use std::cmp::Ordering;

use ta_utils::{Bar, MarketData, OutputError, OutputShape, OutputType, Statics, TaUtilsError};

fn bits(x: f64) -> u64 {
    x.to_bits()
}

fn sample() -> MarketData {
    MarketData::Bar(
        Bar::new()
            .set_open(bits(10.0))
            .set_close(bits(12.0))
            .set_high(bits(15.0))
            .set_low(bits(9.0))
            .set_volume(bits(100.0)),
    )
}

#[test]
fn validate_flat_positive() {
    for n in 1..6usize {
        let r = OutputShape::Shape(n).validate();
        assert_eq!(r.unwrap(), OutputShape::Shape(n));
    }
}

#[test]
fn validate_flat_zero_fails() {
    let r = OutputShape::Shape(0).validate();
    match r {
        Err(TaUtilsError::Cmp(OutputError::InvalidOutputShape(bad))) => {
            assert_eq!(bad, OutputShape::Shape(0));
        }
        _ => panic!("expected an invalid-shape error"),
    }
}

#[test]
fn validate_empty_tensor_fails() {
    let r = OutputShape::Tensor(vec![]).validate();
    match r {
        Err(TaUtilsError::Cmp(OutputError::InvalidOutputShape(bad))) => {
            assert_eq!(bad, OutputShape::Tensor(vec![]));
        }
        _ => panic!("expected an invalid-shape error"),
    }
}

#[test]
fn validate_collapses_all_unit_tensor() {
    for k in 1..5usize {
        let children: Vec<OutputShape> = (0..k).map(|_| OutputShape::Shape(1)).collect();
        let r = OutputShape::Tensor(children).validate();
        assert_eq!(r.unwrap(), OutputShape::Shape(k));
    }
}

#[test]
fn validate_keeps_mixed_tensor() {
    let t = OutputShape::Tensor(vec![OutputShape::Shape(2), OutputShape::Shape(1)]);
    let r = t.validate();
    assert_eq!(
        r.unwrap(),
        OutputShape::Tensor(vec![OutputShape::Shape(2), OutputShape::Shape(1)])
    );
}

#[test]
fn validate_reports_first_bad_child() {
    let t = OutputShape::Tensor(vec![
        OutputShape::Shape(2),
        OutputShape::Tensor(vec![]),
        OutputShape::Shape(0),
    ]);
    match t.validate() {
        Err(TaUtilsError::Cmp(OutputError::InvalidOutputShape(bad))) => {
            assert_eq!(bad, OutputShape::Tensor(vec![]));
        }
        _ => panic!("expected an invalid-shape error"),
    }
}

#[test]
fn validate_recurses_into_nested_tensor() {
    let t = OutputShape::Tensor(vec![
        OutputShape::Shape(3),
        OutputShape::Tensor(vec![OutputShape::Shape(1), OutputShape::Shape(1)]),
    ]);
    // Children validate, at least one is not Shape(1): the tensor is kept
    // unchanged (inner tensors are not rewritten).
    assert_eq!(
        t.validate().unwrap(),
        OutputShape::Tensor(vec![
            OutputShape::Shape(3),
            OutputShape::Tensor(vec![OutputShape::Shape(1), OutputShape::Shape(1)]),
        ])
    );
}

#[test]
fn shape_of_scalars_and_refs() {
    assert_eq!(OutputType::Single(bits(1.5)).output_shape().unwrap(), OutputShape::Shape(1));
    assert_eq!(OutputType::Open.output_shape().unwrap(), OutputShape::Shape(1));
    assert_eq!(OutputType::Volume.output_shape().unwrap(), OutputShape::Shape(1));
    assert_eq!(OutputType::Static(Statics::True).output_shape().unwrap(), OutputShape::Shape(1));
}

#[test]
fn shape_of_vectors() {
    let v = OutputType::Array(vec![bits(1.0), bits(2.0)]);
    assert_eq!(v.output_shape().unwrap(), OutputShape::Shape(2));
    let empty = OutputType::Array(vec![]);
    assert!(empty.output_shape().is_err());
    let outcomes = OutputType::Statics(vec![Statics::Greater, Statics::Less, Statics::True]);
    assert_eq!(outcomes.output_shape().unwrap(), OutputShape::Shape(3));
}

#[test]
fn shape_of_composite_collapses_transitively() {
    let c = OutputType::Custom(vec![
        OutputType::Single(bits(1.0)),
        OutputType::Single(bits(2.0)),
        OutputType::Single(bits(3.0)),
    ]);
    assert_eq!(c.output_shape().unwrap(), OutputShape::Shape(3));
}

#[test]
fn shape_of_composite_keeps_structure() {
    let c = OutputType::Custom(vec![
        OutputType::Single(bits(1.0)),
        OutputType::Array(vec![bits(2.0), bits(3.0)]),
    ]);
    assert_eq!(
        c.output_shape().unwrap(),
        OutputShape::Tensor(vec![OutputShape::Shape(1), OutputShape::Shape(2)])
    );
}

#[test]
fn resolve_field_references() {
    let s = sample();
    assert_eq!(OutputType::Open.resolve(&s).unwrap(), OutputType::Single(bits(10.0)));
    assert_eq!(OutputType::Close.resolve(&s).unwrap(), OutputType::Single(bits(12.0)));
    assert_eq!(OutputType::High.resolve(&s).unwrap(), OutputType::Single(bits(15.0)));
    assert_eq!(OutputType::Low.resolve(&s).unwrap(), OutputType::Single(bits(9.0)));
    assert_eq!(OutputType::Volume.resolve(&s).unwrap(), OutputType::Single(bits(100.0)));
}

#[test]
fn resolve_composite_of_references() {
    let s = sample();
    let c = OutputType::Custom(vec![OutputType::Open, OutputType::Close]);
    assert_eq!(
        c.resolve(&s).unwrap(),
        OutputType::Custom(vec![
            OutputType::Single(bits(10.0)),
            OutputType::Single(bits(12.0)),
        ])
    );
}

#[test]
fn resolve_concrete_values_unchanged() {
    let s = sample();
    let v = OutputType::Array(vec![bits(1.0), bits(2.0)]);
    assert_eq!(v.resolve(&s).unwrap(), OutputType::Array(vec![bits(1.0), bits(2.0)]));
    let st = OutputType::Statics(vec![Statics::True, Statics::False]);
    assert_eq!(st.resolve(&s).unwrap(), OutputType::Statics(vec![Statics::True, Statics::False]));
}

#[test]
fn resolve_rejects_vector_child() {
    let s = sample();
    let c = OutputType::Custom(vec![OutputType::Array(vec![bits(100.0)])]);
    match c.resolve(&s) {
        Err(TaUtilsError::IncorrectOutputType { expected, actual }) => {
            assert_eq!(expected, "Single");
            assert_eq!(actual, "Array");
        }
        _ => panic!("expected an incorrect-output-type error"),
    }
}

#[test]
fn resolve_rejects_nested_composite_child() {
    let s = sample();
    let c = OutputType::Custom(vec![OutputType::Custom(vec![OutputType::Open])]);
    assert!(matches!(c.resolve(&s), Err(TaUtilsError::IncorrectOutputType { .. })));
}

#[test]
fn resolve_is_idempotent_on_resolved_values() {
    let s = sample();
    let v = OutputType::Custom(vec![OutputType::Open, OutputType::Static(Statics::True)]);
    let once = v.resolve(&s).unwrap();
    let twice = once.resolve(&s).unwrap();
    assert_eq!(once, twice);
}

#[test]
fn compare_scalars_numerically() {
    let a = OutputType::Single(bits(1.0));
    let b = OutputType::Single(bits(2.0));
    assert_eq!(a.compare(&b), Some(Ordering::Less));
    assert_eq!(b.compare(&a), Some(Ordering::Greater));
    assert_eq!(a.compare(&OutputType::Single(bits(1.0))), Some(Ordering::Equal));
}

#[test]
fn compare_scalars_matches_float_semantics() {
    let pairs: [(f64, f64); 10] = [
        (1.0, 2.0),
        (-1.0, 1.0),
        (-2.0, -1.0),
        (0.0, -0.0),
        (f64::NAN, 1.0),
        (1.0, f64::NAN),
        (f64::INFINITY, 1.0e308),
        (f64::NEG_INFINITY, -1.0e308),
        (0.5, 0.5),
        (-0.0, 0.5),
    ];
    for (a, b) in pairs {
        let va = OutputType::Single(bits(a));
        let vb = OutputType::Single(bits(b));
        assert_eq!(va.compare(&vb), a.partial_cmp(&b), "comparing {a} and {b}");
    }
}

#[test]
fn compare_scalar_with_outcome_sentinels() {
    let five = OutputType::Single(bits(5.0));
    assert_eq!(five.compare(&OutputType::Static(Statics::Equal)), Some(Ordering::Equal));
    assert_eq!(five.compare(&OutputType::Static(Statics::Greater)), Some(Ordering::Less));
    assert_eq!(five.compare(&OutputType::Static(Statics::Less)), Some(Ordering::Greater));
    assert_eq!(five.compare(&OutputType::Static(Statics::True)), Some(Ordering::Equal));
    assert_eq!(five.compare(&OutputType::Static(Statics::False)), Some(Ordering::Equal));
    // With the outcome on the left its own ordering is reported.
    assert_eq!(OutputType::Static(Statics::Greater).compare(&five), Some(Ordering::Greater));
    assert_eq!(OutputType::Static(Statics::Less).compare(&five), Some(Ordering::Less));
    // The sentinel ignores the scalar's magnitude entirely.
    let big = OutputType::Single(bits(1.0e12));
    assert_eq!(big.compare(&OutputType::Static(Statics::Equal)), Some(Ordering::Equal));
}

#[test]
fn compare_vectors_elementwise() {
    let a = OutputType::Array(vec![bits(1.0), bits(2.0)]);
    let b = OutputType::Array(vec![bits(0.5), bits(1.5)]);
    assert_eq!(a.compare(&b), Some(Ordering::Greater));
    assert_eq!(b.compare(&a), Some(Ordering::Less));
    assert_eq!(a.compare(&OutputType::Array(vec![bits(1.0), bits(2.0)])), Some(Ordering::Equal));
}

#[test]
fn compare_vectors_length_mismatch_incomparable() {
    let a = OutputType::Array(vec![bits(1.0), bits(2.0)]);
    let b = OutputType::Array(vec![bits(1.0)]);
    assert_eq!(a.compare(&b), None);
}

#[test]
fn compare_vectors_mixed_orders_incomparable() {
    let a = OutputType::Array(vec![bits(1.0), bits(2.0)]);
    let b = OutputType::Array(vec![bits(0.0), bits(5.0)]);
    assert_eq!(a.compare(&b), None);
}

#[test]
fn compare_empty_vectors_incomparable() {
    let a = OutputType::Array(vec![]);
    let b = OutputType::Array(vec![]);
    assert_eq!(a.compare(&b), None);
}

#[test]
fn compare_vector_with_nan_element_incomparable() {
    let a = OutputType::Array(vec![bits(f64::NAN), bits(1.0)]);
    let b = OutputType::Array(vec![bits(f64::NAN), bits(0.0)]);
    assert_eq!(a.compare(&b), None);
}

#[test]
fn compare_vector_with_outcomes() {
    let a = OutputType::Array(vec![bits(1.0), bits(2.0)]);
    let gg = OutputType::Statics(vec![Statics::Greater, Statics::Greater]);
    assert_eq!(a.compare(&gg), Some(Ordering::Less));
    assert_eq!(gg.compare(&a), Some(Ordering::Greater));
    let mixed = OutputType::Statics(vec![Statics::Greater, Statics::Less]);
    assert_eq!(a.compare(&mixed), None);
    let short = OutputType::Statics(vec![Statics::Greater]);
    assert_eq!(a.compare(&short), None);
}

#[test]
fn compare_other_pairings_incomparable() {
    let single = OutputType::Single(bits(1.0));
    let array = OutputType::Array(vec![bits(1.0)]);
    let custom = OutputType::Custom(vec![OutputType::Single(bits(1.0))]);
    assert_eq!(single.compare(&array), None);
    assert_eq!(custom.compare(&custom), None);
    assert_eq!(OutputType::Open.compare(&single), None);
    assert_eq!(
        OutputType::Static(Statics::Equal).compare(&OutputType::Static(Statics::Equal)),
        None
    );
}

#[test]
fn statics_sentinel_tables() {
    assert_eq!(Statics::Greater.scalar_cmp(), Ordering::Greater);
    assert_eq!(Statics::Equal.scalar_cmp(), Ordering::Equal);
    assert_eq!(Statics::Less.scalar_cmp(), Ordering::Less);
    assert_eq!(Statics::True.scalar_cmp(), Ordering::Equal);
    assert_eq!(Statics::False.scalar_cmp(), Ordering::Equal);
    assert!(!Statics::Greater.scalar_eq());
    assert!(Statics::Equal.scalar_eq());
    assert!(!Statics::Less.scalar_eq());
    assert!(Statics::True.scalar_eq());
    assert!(!Statics::False.scalar_eq());
}

#[test]
fn conversion_round_trips_within_family() {
    let x = bits(7.25);
    assert_eq!(OutputType::from_single(x).try_single().unwrap(), x);
    let v = vec![bits(1.0), bits(2.0)];
    assert_eq!(OutputType::from_array(v.clone()).try_array().unwrap(), v);
}

#[test]
fn conversion_across_families_fails() {
    match OutputType::Array(vec![bits(1.0)]).try_single() {
        Err(TaUtilsError::IncorrectOutputType { expected, actual }) => {
            assert_eq!(expected, "scalar");
            assert_eq!(actual, "Array");
        }
        _ => panic!("expected an incorrect-output-type error"),
    }
    match OutputType::Single(bits(1.0)).try_array() {
        Err(TaUtilsError::IncorrectOutputType { expected, actual }) => {
            assert_eq!(expected, "vector");
            assert_eq!(actual, "Single");
        }
        _ => panic!("expected an incorrect-output-type error"),
    }
    assert!(OutputType::Open.try_single().is_err());
    assert!(OutputType::Custom(vec![]).try_array().is_err());
}

#[test]
fn value_equality_follows_float_rules() {
    let nan = OutputType::Single(bits(f64::NAN));
    assert!(nan != nan.resolve(&sample()).unwrap());
    assert_eq!(OutputType::Single(bits(0.0)), OutputType::Single(bits(-0.0)));
    assert_eq!(
        OutputType::Custom(vec![OutputType::Single(bits(0.0)), OutputType::Open]),
        OutputType::Custom(vec![OutputType::Single(bits(-0.0)), OutputType::Open])
    );
    assert!(OutputType::Single(bits(1.0)) != OutputType::Array(vec![bits(1.0)]));
}

#[test]
fn error_equality_table() {
    let a = TaUtilsError::InvalidParameter(String::from("x"));
    let b = TaUtilsError::InvalidParameter(String::from("x"));
    let c = TaUtilsError::InvalidParameter(String::from("y"));
    assert!(a == b);
    assert!(a != c);
    let d = TaUtilsError::Cmp(OutputError::TypeMismatch);
    let e = TaUtilsError::Cmp(OutputError::TypeMismatch);
    // Wrapped comparison errors never compare equal, not even to themselves.
    assert!(d != e);
    let f = TaUtilsError::Lang(String::from("z"));
    let g = TaUtilsError::Lang(String::from("z"));
    assert!(f != g);
}

#[test]
fn render_flat_shape() {
    assert_eq!(OutputShape::Shape(1).render(), "Shape(1)");
    assert_eq!(OutputShape::Shape(42).render(), "Shape(42)");
    assert_eq!(OutputShape::Shape(1050).render(), "Shape(1050)");
    assert_eq!(OutputShape::Shape(0).render(), "Shape(0)");
}

#[test]
fn render_tensor_shape() {
    let t = OutputShape::Tensor(vec![
        OutputShape::Shape(2),
        OutputShape::Tensor(vec![OutputShape::Shape(1), OutputShape::Shape(3)]),
    ]);
    assert_eq!(t.render(), "Tensor(Shape(2), Tensor(Shape(1), Shape(3)))");
    assert_eq!(OutputShape::Tensor(vec![]).render(), "Tensor()");
}

#[test]
fn value_clone_preserves_structure() {
    let v = OutputType::Custom(vec![
        OutputType::Single(bits(1.0)),
        OutputType::Open,
        OutputType::Statics(vec![Statics::Less]),
    ]);
    let w = v.clone();
    assert_eq!(v, w);
}
