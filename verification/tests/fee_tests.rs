//! Tests of the rate model and the fee calculator.

use rates::{calculate_fee, Coin, Decimal, Error, PercentRate, Rate, Thredshold};

fn coin(amount: u128, denom: &str) -> Coin {
    Coin::new(amount, denom)
}

#[test]
fn test_calculate_fee() {
    let payment = coin(101, "uluna");
    let expected = Ok(coin(5, "uluna"));
    let fee = Rate::from(Decimal::percent(4));

    let received = calculate_fee(fee, &payment, None, 0, 0);

    assert_eq!(expected, received);

    let payment = coin(125, "uluna");
    let fee = Rate::Flat(Coin {
        amount: 5_u128,
        denom: "uluna".to_string(),
    });

    let received = calculate_fee(fee, &payment, None, 0, 0);

    assert_eq!(expected, received);
}

#[test]
fn test_calculate_fee_threshold_fiat() {
    let payment = coin(100, "uluna");
    let fee = Rate::Flat(Coin {
        amount: 10_u128,
        denom: "uluna".to_string(),
    });

    // After 60 seconds, fee will be 8 = (10 - 2 * 1)
    let received = calculate_fee(
        fee.clone(),
        &payment,
        Some(Thredshold {
            unit: 2,
            duration: 60,
            value: 5,
        }),
        61,
        1,
    );

    assert_eq!(Ok(coin(8, "uluna")), received);

    // After 100 seconds, fee will be 8 = (10 - 2 * 1) (Because not till 120s)
    let received = calculate_fee(
        fee.clone(),
        &payment,
        Some(Thredshold {
            unit: 2,
            duration: 60,
            value: 5,
        }),
        101,
        1,
    );

    assert_eq!(Ok(coin(8, "uluna")), received);

    // After 300 seconds, fee will be 5 (limited to thredshold value)
    let received = calculate_fee(
        fee.clone(),
        &payment,
        Some(Thredshold {
            unit: 2,
            duration: 60,
            value: 5,
        }),
        301,
        1,
    );

    assert_eq!(Ok(coin(5, "uluna")), received);
}

#[test]
fn percent_fee_of_whole_payment() {
    // A fraction of exactly one takes the whole payment.
    let payment = coin(7, "uusd");
    let received = calculate_fee(Rate::from(Decimal::one()), &payment, None, 0, 0);
    assert_eq!(Ok(coin(7, "uusd")), received);
}

#[test]
fn percent_fee_exact_division_does_not_round() {
    // 10% of 100 divides evenly: no rounding unit is added.
    let payment = coin(100, "uusd");
    let received = calculate_fee(Rate::from(Decimal::percent(10)), &payment, None, 0, 0);
    assert_eq!(Ok(coin(10, "uusd")), received);
}

#[test]
fn timestamp_violation_is_temporal_error() {
    // current_timestamp <= last_timestamp with last_timestamp != 0
    let payment = coin(100, "uusd");
    let received = calculate_fee(
        Rate::from(Decimal::percent(10)),
        &payment,
        None,
        10,
        10,
    );
    assert_eq!(Err(Error::TemporalError), received);

    let received = calculate_fee(
        Rate::Flat(coin(5, "uusd")),
        &payment,
        None,
        9,
        10,
    );
    assert_eq!(Err(Error::TemporalError), received);
}

#[test]
fn out_of_bounds_percent_is_invalid_rate() {
    let payment = coin(100, "uusd");
    // a zero fraction
    let received = calculate_fee(Rate::from(Decimal::percent(0)), &payment, None, 0, 0);
    assert_eq!(Err(Error::InvalidRate), received);
    // a fraction above one
    let received = calculate_fee(Rate::from(Decimal::percent(101)), &payment, None, 0, 0);
    assert_eq!(Err(Error::InvalidRate), received);
}

#[test]
fn decay_below_zero_is_underflow() {
    // elapsed 600 s at 20 per 60 s strips 200 from a flat 10: underflow,
    // not a silent floor.
    let payment = coin(100, "uusd");
    let received = calculate_fee(
        Rate::Flat(coin(10, "uusd")),
        &payment,
        Some(Thredshold {
            unit: 20,
            duration: 60,
            value: 0,
        }),
        601,
        1,
    );
    assert_eq!(Err(Error::Underflow), received);
}

#[test]
fn first_sale_ignores_threshold() {
    // last_timestamp == 0 means "never evaluated": the raw flat amount.
    let payment = coin(100, "uusd");
    let received = calculate_fee(
        Rate::Flat(coin(10, "uusd")),
        &payment,
        Some(Thredshold {
            unit: 2,
            duration: 60,
            value: 5,
        }),
        1000,
        0,
    );
    assert_eq!(Ok(coin(10, "uusd")), received);
}

#[test]
fn flat_fee_keeps_its_own_denomination() {
    let payment = coin(100, "uusd");
    let received = calculate_fee(Rate::Flat(coin(3, "uluna")), &payment, None, 0, 0);
    assert_eq!(Ok(coin(3, "uluna")), received);
}

#[test]
fn rate_validation() {
    let valid_flat = Rate::Flat(coin(1, "uusd"));
    assert_eq!(Ok(true), valid_flat.is_non_zero());
    assert_eq!(Ok(valid_flat.clone()), valid_flat.validate());

    let zero_flat = Rate::Flat(coin(0, "uusd"));
    assert_eq!(Ok(false), zero_flat.is_non_zero());
    assert_eq!(Err(Error::InvalidRate), zero_flat.validate());

    let valid_percent = Rate::Percent(PercentRate {
        percent: Decimal::percent(25),
    });
    assert_eq!(Ok(true), valid_percent.is_non_zero());
    assert_eq!(Ok(valid_percent.clone()), valid_percent.validate());

    let zero_percent = Rate::from(Decimal::percent(0));
    assert_eq!(Ok(false), zero_percent.is_non_zero());
    assert_eq!(Err(Error::InvalidRate), zero_percent.validate());

    let too_big = Rate::from(Decimal::percent(150));
    assert_eq!(Ok(true), too_big.is_non_zero());
    assert_eq!(Err(Error::InvalidRate), too_big.validate());
}

#[test]
fn decimal_values() {
    assert_eq!(Decimal::percent(4).atomics, 40_000_000_000_000_000);
    assert_eq!(Decimal::one().atomics, 1_000_000_000_000_000_000);
    assert!(Decimal::percent(0).is_zero());
    assert!(!Decimal::percent(1).is_zero());
    assert_eq!(
        Rate::from(Decimal::percent(10)),
        Rate::Percent(PercentRate {
            percent: Decimal::percent(10)
        })
    );
}
