use workshop::patterns::{exercise_1, exercise_2, exercise_3, exercise_4, exercise_5};

#[test]
fn test_exercise_1() {
    assert_eq!(exercise_1(1), 1);
    assert_eq!(exercise_1(3), 1);
    assert_eq!(exercise_1(5), 1);
    assert_eq!(exercise_1(0), 2);
    assert_eq!(exercise_1(2), 2);
    assert_eq!(exercise_1(4), 2);

    for i in 0..=255u8 {
        if i > 5 {
            assert_eq!(exercise_1(i), 3);
        }
    }
}

#[test]
fn test_exercise_2() {
    for i in 0..100u8 {
        assert_eq!(exercise_2(i), 1);
    }
    for i in 100..200u8 {
        assert_eq!(exercise_2(i), 2);
    }
    for i in 200..=255 {
        assert_eq!(exercise_2(i), 3);
    }
}

#[test]
fn test_exercise_3() {
    for i in 'a'..='n' {
        assert_eq!(exercise_3(i), 1);
    }
    for i in 'o'..='z' {
        assert_eq!(exercise_3(i), 2);
    }
    for i in 'A'..='N' {
        assert_eq!(exercise_3(i), 1);
    }
    for i in 'O'..='Z' {
        assert_eq!(exercise_3(i), 2);
    }
    for i in '0'..='9' {
        assert_eq!(exercise_3(i), 3);
    }
}

#[test]
fn test_exercise_4() {
    for i in '0'..='9' {
        assert!(exercise_4(i));
    }
    for i in 'A'..='z' {
        assert!(!exercise_4(i));
    }
}

#[test]
fn test_exercise_5() {
    for i in '0'..='z' {
        assert_eq!(exercise_5(i), i.to_digit(10));
    }
}
