use ta_utils::{Bar, Candle, MarketData, Next, Period, Queue, Reset, TaUtilsError};

fn bits(x: f64) -> u64 {
    x.to_bits()
}

#[test]
fn bar_builder_sets_fields() {
    let b = Bar::new()
        .set_open(bits(1.0))
        .set_high(bits(4.0))
        .set_low(bits(0.5))
        .set_close(bits(2.0))
        .set_price(bits(2.5))
        .set_volume(bits(9.0));
    assert_eq!(b.open(), bits(1.0));
    assert_eq!(b.high(), bits(4.0));
    assert_eq!(b.low(), bits(0.5));
    assert_eq!(b.close(), bits(2.0));
    assert_eq!(b.price(), bits(2.5));
    assert_eq!(b.volume(), bits(9.0));
}

#[test]
fn bar_default_is_all_zeros() {
    let b = Bar::default();
    assert_eq!(f64::from_bits(b.open()), 0.0);
    assert_eq!(f64::from_bits(b.volume()), 0.0);
}

#[test]
fn market_data_bar_accessors() {
    let b = Bar::new().set_open(bits(3.0)).set_close(bits(4.0));
    let m = MarketData::Bar(b);
    assert_eq!(m.open(), bits(3.0));
    assert_eq!(m.close(), bits(4.0));
}

#[test]
fn market_data_float_accessors() {
    let m = MarketData::Float(bits(7.0));
    assert_eq!(m.open(), bits(7.0));
    assert_eq!(m.close(), bits(7.0));
    assert_eq!(m.high(), bits(7.0));
    assert_eq!(m.low(), bits(7.0));
    assert_eq!(m.price(), bits(7.0));
    // Volume is not applicable to a plain scalar.
    assert!(f64::from_bits(m.volume()).is_nan());
}

#[test]
fn to_bar_collects_accessors() {
    let m = MarketData::Float(bits(7.0));
    let b = m.to_bar();
    assert_eq!(b.open, bits(7.0));
    assert_eq!(b.price, bits(7.0));
}

#[test]
fn queue_rejects_zero_period() {
    let q: Result<Queue<u64>, TaUtilsError> = Queue::new(0);
    match q {
        Err(TaUtilsError::InvalidParameter(m)) => {
            assert_eq!(m, "Period must be greater than 0");
        }
        _ => panic!("expected an invalid-parameter error"),
    }
}

#[test]
fn queue_evicts_oldest_beyond_period() {
    let mut q: Queue<u64> = Queue::new(2).unwrap();
    assert_eq!(q.push(1), None);
    assert_eq!(q.push(2), None);
    assert_eq!(q.push(3), Some(1));
    assert_eq!(q.push(4), Some(2));
    assert_eq!(q.items().as_slice(), &[3, 4]);
}

#[test]
fn queue_period_and_reset() {
    let mut q: Queue<u64> = Queue::new(3).unwrap();
    assert_eq!(q.period(), 3);
    q.push(1);
    q.push(2);
    q.reset();
    assert!(q.items().is_empty());
    assert_eq!(q.period(), 3);
}

#[test]
fn next_on_unit_type_fails() {
    let m = MarketData::Float(bits(1.0));
    let r: Result<u64, TaUtilsError> = ().next(&m);
    match r {
        Err(TaUtilsError::InvalidParameter(msg)) => {
            assert_eq!(msg, "Cannot call next on unit type");
        }
        _ => panic!("expected an invalid-parameter error"),
    }
}
