use brainworms::decimal::to_decimal;

#[test]
fn decimal_of_small_numbers() {
    assert_eq!(to_decimal(0), "0");
    assert_eq!(to_decimal(7), "7");
    assert_eq!(to_decimal(10), "10");
    assert_eq!(to_decimal(42), "42");
    assert_eq!(to_decimal(1005), "1005");
}

#[test]
fn decimal_of_negative_numbers() {
    assert_eq!(to_decimal(-1), "-1");
    assert_eq!(to_decimal(-450), "-450");
}

#[test]
fn decimal_of_the_limits() {
    assert_eq!(to_decimal(i64::MAX), "9223372036854775807");
    assert_eq!(to_decimal(i64::MIN), "-9223372036854775808");
}

#[test]
fn decimal_agrees_with_std() {
    let samples: [i64; 12] = [
        0,
        1,
        -1,
        9,
        10,
        99,
        100,
        -100,
        123456789,
        -987654321,
        i64::MAX,
        i64::MIN,
    ];
    for n in samples {
        assert_eq!(to_decimal(n), n.to_string());
    }
}

#[test]
fn decimal_tells_numbers_apart() {
    let samples: [i64; 8] = [0, 1, -1, 10, -10, 11, 101, 110];
    for (i, a) in samples.iter().enumerate() {
        for (j, b) in samples.iter().enumerate() {
            assert_eq!(to_decimal(*a) == to_decimal(*b), i == j);
        }
    }
}
