use workshop::calc::{perform_calculation, try_calculation, Op};

#[test]
fn calc_add() {
    assert_eq!(perform_calculation(0, Op::Add(1)), 1);
    assert_eq!(perform_calculation(3, Op::Add(10)), 13);
}

#[test]
fn calc_sub() {
    assert_eq!(perform_calculation(0, Op::Sub(10)), -10);
    assert_eq!(perform_calculation(3000, Op::Sub(-5)), 3005);
}

#[test]
fn calc_clamp() {
    assert_eq!(perform_calculation(0, Op::Clamp { low: 0, high: 0 }), 0);
    assert_eq!(perform_calculation(5, Op::Clamp { low: 0, high: 0 }), 0);
    assert_eq!(perform_calculation(3, Op::Clamp { low: 2, high: 8 }), 3);
    assert_eq!(perform_calculation(-5, Op::Clamp { low: 0, high: 10 }), 0);
    assert_eq!(perform_calculation(50, Op::Clamp { low: 3, high: 10 }), 10);
    assert_eq!(perform_calculation(50, Op::Clamp { low: 3, high: 100 }), 50);
}

#[test]
fn calculation_that_does_not_fit() {
    assert_eq!(try_calculation(i32::MAX, Op::Add(1)), None);
    assert_eq!(try_calculation(i32::MIN, Op::Sub(1)), None);
    assert_eq!(try_calculation(7, Op::Clamp { low: 3, high: 2 }), None);
    assert_eq!(try_calculation(7, Op::Clamp { low: 8, high: 9 }), Some(8));
    assert_eq!(try_calculation(i32::MAX - 1, Op::Add(1)), Some(i32::MAX));
}
