use workshop::poker::{Card, Hand, HandValue};

fn check_value(input: &str, value: HandValue) {
    let hand = hand(input);
    assert_eq!(hand.value(), value);
}

fn hand(input: &str) -> Hand {
    Hand::parse(input).unwrap()
}

#[test]
fn value_high_card() {
    check_value("23456", HandValue::HighCard);
}

#[test]
fn value_one_pair() {
    check_value("22345", HandValue::OnePair);
    check_value("23425", HandValue::OnePair);
    check_value("JQ23J", HandValue::OnePair);
}

#[test]
fn value_two_pairs() {
    check_value("22335", HandValue::TwoPairs);
    check_value("23J32", HandValue::TwoPairs);
    check_value("KKQQJ", HandValue::TwoPairs);
}

#[test]
fn value_three_of_a_kind() {
    check_value("22235", HandValue::ThreeOfAKind);
    check_value("J2Q22", HandValue::ThreeOfAKind);
    check_value("QKJJJ", HandValue::ThreeOfAKind);
}

#[test]
fn value_full_house() {
    check_value("22233", HandValue::FullHouse);
    check_value("23232", HandValue::FullHouse);
    check_value("QQJJJ", HandValue::FullHouse);
}

#[test]
fn value_four_of_a_kind() {
    check_value("22223", HandValue::FourOfAKind);
    check_value("32222", HandValue::FourOfAKind);
    check_value("JQJJJ", HandValue::FourOfAKind);
}

#[test]
fn value_five_of_a_kind() {
    check_value("22222", HandValue::FiveOfAKind);
    check_value("JJJJJ", HandValue::FiveOfAKind);
}

#[test]
fn compare_exact() {
    assert_eq!(hand("22222"), hand("22222"));
    assert_eq!(hand("2345J"), hand("2345J"));
}

#[test]
fn compare_different() {
    assert!(hand("Q2345") < hand("22222"));
    assert!(hand("JQJK2") < hand("23232"));
    assert!(hand("45444") > hand("23232"));
    assert!(hand("45444") > hand("44544"));
}

#[test]
fn compare_same_value_different_hands() {
    assert!(hand("22222") < hand("33333"));
    assert!(hand("TTTTT") < hand("QQQQQ"));
    assert!(hand("23423") < hand("23432"));
    assert!(hand("JJQQQ") < hand("QJQQJ"));
    assert!(hand("QQQQ2") < hand("QQQQ4"));
    assert!(hand("44544") < hand("45444"));
}

#[test]
fn sort_hands() {
    let mut hands = vec![
        hand("QQQQQ"),
        hand("22222"),
        hand("58685"),
        hand("Q8Q4Q"),
        hand("56884"),
        hand("QJKA5"),
        hand("QQQ2Q"),
        hand("KJKKJ"),
        hand("58658"),
    ];
    hands.sort();
    assert_eq!(
        hands,
        vec![
            hand("QJKA5"),
            hand("56884"),
            hand("58658"),
            hand("58685"),
            hand("Q8Q4Q"),
            hand("KJKKJ"),
            hand("QQQ2Q"),
            hand("22222"),
            hand("QQQQQ"),
        ]
    );
}

#[test]
fn parse_rejects_what_is_no_hand() {
    assert_eq!(
        Hand::parse("2345"),
        Err(String::from("Wrong hand length. It has to contain exactly 5 cards"))
    );
    assert_eq!(Hand::parse("2345X"), Err(String::from("Invalid card X")));
    assert_eq!(Hand::parse("23451"), Err(String::from("Invalid card value 1")));
    assert_eq!(
        Hand::parse("T9AKQ"),
        Ok(Hand::new([Card::Numeric(10), Card::Numeric(9), Card::Ace, Card::King, Card::Queen]))
    );
}

#[test]
fn compare_agrees_with_the_operators() {
    let hands = ["QQQQQ", "22222", "58685", "Q8Q4Q", "56884", "QJKA5", "QQQ2Q", "KJKKJ", "58658"];
    for a in hands {
        for b in hands {
            let (x, y) = (hand(a), hand(b));
            let expected = if x < y {
                -1
            } else if x > y {
                1
            } else {
                0
            };
            assert_eq!(x.compare(&y), expected);
        }
    }
}
