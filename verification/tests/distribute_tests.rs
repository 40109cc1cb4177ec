//! Tests of the distribution engine against native and token payments.

use rates::{
    distribute, Attribute, Coin, Cw20Coin, Decimal, DistributionResult, Error, Event, Funds,
    Instruction, Rate, RateInfo, Thredshold,
};

fn coin(amount: u128, denom: &str) -> Coin {
    Coin::new(amount, denom)
}

fn attr(key: &str, value: &str) -> Attribute {
    Attribute {
        key: key.to_string(),
        value: value.to_string(),
    }
}

#[test]
fn test_query_deducted_funds_native() {
    let rates = vec![
        RateInfo {
            rate: Rate::Flat(Coin {
                amount: 20_u128,
                denom: "uusd".to_string(),
            }),
            is_additive: true,
            description: Some("desc2".to_string()),
            recipients: vec!["recipient1".to_string()],
            threshold: None,
        },
        RateInfo {
            rate: Rate::from(Decimal::percent(10)),
            is_additive: false,
            description: Some("desc1".to_string()),
            recipients: vec!["recipient2".to_string()],
            threshold: None,
        },
    ];

    let cur_timestamp = 1571797419_u64;
    let res = distribute(&rates, &Funds::Native(coin(100, "uusd")), cur_timestamp, 0).unwrap();

    let expected_msgs = vec![
        Instruction::NativeTransfer {
            to_address: "recipient1".to_string(),
            amount: coin(20, "uusd"),
        },
        Instruction::NativeTransfer {
            to_address: "recipient2".to_string(),
            amount: coin(10, "uusd"),
        },
        Instruction::UpdateTimestamp {
            last_timestamp: cur_timestamp,
        },
    ];

    assert_eq!(
        DistributionResult {
            msgs: expected_msgs,
            // Deduct 10% from the percent rate.
            leftover_funds: Funds::Native(coin(90, "uusd")),
            events: vec![
                Event {
                    ty: "tax".to_string(),
                    attributes: vec![
                        attr("description", "desc2"),
                        attr("payment", "recipient1<20uusd"),
                    ],
                },
                Event {
                    ty: "royalty".to_string(),
                    attributes: vec![
                        attr("description", "desc1"),
                        attr("deducted", "10uusd"),
                        attr("payment", "recipient2<10uusd"),
                    ],
                },
            ],
        },
        res
    );
}

#[test]
fn test_query_deducted_funds_cw20() {
    let cw20_address = "address";
    let rates = vec![
        RateInfo {
            rate: Rate::Flat(Coin {
                amount: 20_u128,
                denom: cw20_address.to_string(),
            }),
            is_additive: true,
            description: Some("desc2".to_string()),
            recipients: vec!["recipient1".to_string()],
            threshold: None,
        },
        RateInfo {
            rate: Rate::from(Decimal::percent(10)),
            is_additive: false,
            description: Some("desc1".to_string()),
            recipients: vec!["recipient2".to_string()],
            threshold: None,
        },
    ];

    let cur_timestamp = 1571797419_u64;
    let res = distribute(
        &rates,
        &Funds::Cw20(Cw20Coin {
            amount: 100_u128,
            address: cw20_address.to_string(),
        }),
        cur_timestamp,
        0,
    )
    .unwrap();

    let expected_msgs = vec![
        Instruction::Cw20Transfer {
            contract_addr: cw20_address.to_string(),
            recipient: "recipient1".to_string(),
            amount: 20_u128,
        },
        Instruction::Cw20Transfer {
            contract_addr: cw20_address.to_string(),
            recipient: "recipient2".to_string(),
            amount: 10_u128,
        },
        Instruction::UpdateTimestamp {
            last_timestamp: cur_timestamp,
        },
    ];

    assert_eq!(
        DistributionResult {
            msgs: expected_msgs,
            // Deduct 10% from the percent rate.
            leftover_funds: Funds::Cw20(Cw20Coin {
                amount: 90_u128,
                address: cw20_address.to_string(),
            }),
            events: vec![
                Event {
                    ty: "tax".to_string(),
                    attributes: vec![
                        attr("description", "desc2"),
                        attr("payment", "recipient1<20address"),
                    ],
                },
                Event {
                    ty: "royalty".to_string(),
                    attributes: vec![
                        attr("description", "desc1"),
                        attr("deducted", "10address"),
                        attr("payment", "recipient2<10address"),
                    ],
                },
            ],
        },
        res
    );
}

#[test]
fn test_query_deducted_funds_threshold_fiat() {
    let rates = vec![RateInfo {
        rate: Rate::Flat(Coin {
            amount: 20_u128,
            denom: "uusd".to_string(),
        }),
        is_additive: true,
        description: Some("desc2".to_string()),
        recipients: vec!["recipient1".to_string()],
        threshold: Some(Thredshold {
            unit: 2,
            duration: 60,
            value: 5,
        }),
    }];

    let cur_timestamp = 1571797419_u64;
    let last_timestamp = cur_timestamp - 300;
    let res = distribute(
        &rates,
        &Funds::Native(coin(100, "uusd")),
        cur_timestamp,
        last_timestamp,
    )
    .unwrap();

    // Should be get 10 uusd fee => (20 - (300 / 60) * 2)
    let expected_msgs = vec![
        Instruction::NativeTransfer {
            to_address: "recipient1".to_string(),
            amount: coin(10, "uusd"),
        },
        Instruction::UpdateTimestamp {
            last_timestamp: cur_timestamp,
        },
    ];

    assert_eq!(
        DistributionResult {
            msgs: expected_msgs,
            leftover_funds: Funds::Native(coin(100, "uusd")),
            events: vec![Event {
                ty: "tax".to_string(),
                attributes: vec![
                    attr("description", "desc2"),
                    attr("payment", "recipient1<10uusd"),
                ],
            }],
        },
        res
    );
}

#[test]
fn test_query_deducted_funds_threshold_fiat_limited() {
    let rates = vec![RateInfo {
        rate: Rate::Flat(Coin {
            amount: 20_u128,
            denom: "uusd".to_string(),
        }),
        is_additive: true,
        description: Some("desc2".to_string()),
        recipients: vec!["recipient1".to_string()],
        threshold: Some(Thredshold {
            unit: 2,
            duration: 60,
            value: 5,
        }),
    }];

    let cur_timestamp = 1571797419_u64;
    let last_timestamp = cur_timestamp - 600;
    let res = distribute(
        &rates,
        &Funds::Native(coin(100, "uusd")),
        cur_timestamp,
        last_timestamp,
    )
    .unwrap();

    // Should be get 5 uusd fee => max((20 - (600 / 60) * 2), 5)
    let expected_msgs = vec![
        Instruction::NativeTransfer {
            to_address: "recipient1".to_string(),
            amount: coin(5, "uusd"),
        },
        Instruction::UpdateTimestamp {
            last_timestamp: cur_timestamp,
        },
    ];

    assert_eq!(
        DistributionResult {
            msgs: expected_msgs,
            leftover_funds: Funds::Native(coin(100, "uusd")),
            events: vec![Event {
                ty: "tax".to_string(),
                attributes: vec![
                    attr("description", "desc2"),
                    attr("payment", "recipient1<5uusd"),
                ],
            }],
        },
        res
    );
}

#[test]
fn empty_configuration_only_updates_timestamp() {
    let res = distribute(&vec![], &Funds::Native(coin(100, "uusd")), 42, 0).unwrap();
    assert_eq!(
        DistributionResult {
            msgs: vec![Instruction::UpdateTimestamp { last_timestamp: 42 }],
            leftover_funds: Funds::Native(coin(100, "uusd")),
            events: vec![],
        },
        res
    );
}

#[test]
fn fee_split_gives_remainder_to_first_recipient() {
    // A flat 7 split across two recipients: 4 (3 + remainder 1) and 3.
    let rates = vec![RateInfo {
        rate: Rate::Flat(coin(7, "uusd")),
        is_additive: false,
        description: None,
        recipients: vec!["first".to_string(), "second".to_string()],
        threshold: None,
    }];
    let res = distribute(&rates, &Funds::Native(coin(100, "uusd")), 1, 0).unwrap();
    assert_eq!(
        vec![
            Instruction::NativeTransfer {
                to_address: "first".to_string(),
                amount: coin(4, "uusd"),
            },
            Instruction::NativeTransfer {
                to_address: "second".to_string(),
                amount: coin(3, "uusd"),
            },
            Instruction::UpdateTimestamp { last_timestamp: 1 },
        ],
        res.msgs
    );
    // The whole fee of 7 is deducted once.
    assert_eq!(Funds::Native(coin(93, "uusd")), res.leftover_funds);
    assert_eq!(
        vec![Event {
            ty: "royalty".to_string(),
            attributes: vec![
                attr("deducted", "7uusd"),
                attr("payment", "first<4uusd"),
                attr("payment", "second<3uusd"),
            ],
        }],
        res.events
    );
}

#[test]
fn royalties_exceeding_payment_underflow() {
    let rates = vec![RateInfo {
        rate: Rate::Flat(coin(200, "uusd")),
        is_additive: false,
        description: None,
        recipients: vec!["someone".to_string()],
        threshold: None,
    }];
    let res = distribute(&rates, &Funds::Native(coin(100, "uusd")), 1, 0);
    assert_eq!(Err(Error::Underflow), res);
}

#[test]
fn invalid_entry_aborts_whole_distribution() {
    let rates = vec![
        RateInfo {
            rate: Rate::Flat(coin(0, "uusd")),
            is_additive: true,
            description: None,
            recipients: vec!["someone".to_string()],
            threshold: None,
        },
        RateInfo {
            rate: Rate::from(Decimal::percent(10)),
            is_additive: false,
            description: None,
            recipients: vec!["other".to_string()],
            threshold: None,
        },
    ];
    let res = distribute(&rates, &Funds::Native(coin(100, "uusd")), 1, 0);
    assert_eq!(Err(Error::InvalidRate), res);
}

#[test]
fn timestamp_violation_returns_no_instructions() {
    let rates = vec![RateInfo {
        rate: Rate::from(Decimal::percent(10)),
        is_additive: false,
        description: None,
        recipients: vec!["someone".to_string()],
        threshold: None,
    }];
    // current_timestamp <= last_timestamp with last_timestamp != 0
    let res = distribute(&rates, &Funds::Native(coin(100, "uusd")), 10, 10);
    assert_eq!(Err(Error::TemporalError), res);
}

#[test]
fn event_order_matches_entry_order() {
    // Three entries in a fixed order: events and transfers come out in
    // the same order.
    let rates = vec![
        RateInfo {
            rate: Rate::Flat(coin(1, "uusd")),
            is_additive: true,
            description: None,
            recipients: vec!["a".to_string()],
            threshold: None,
        },
        RateInfo {
            rate: Rate::from(Decimal::percent(10)),
            is_additive: false,
            description: None,
            recipients: vec!["b".to_string()],
            threshold: None,
        },
        RateInfo {
            rate: Rate::Flat(coin(2, "uusd")),
            is_additive: false,
            description: None,
            recipients: vec!["c".to_string()],
            threshold: None,
        },
    ];
    let res = distribute(&rates, &Funds::Native(coin(100, "uusd")), 1, 0).unwrap();
    assert_eq!(3, res.events.len());
    assert_eq!("tax", res.events[0].ty);
    assert_eq!("royalty", res.events[1].ty);
    assert_eq!("royalty", res.events[2].ty);
    assert_eq!(4, res.msgs.len());
    assert_eq!(
        Instruction::NativeTransfer {
            to_address: "a".to_string(),
            amount: coin(1, "uusd"),
        },
        res.msgs[0]
    );
    assert_eq!(
        Instruction::NativeTransfer {
            to_address: "b".to_string(),
            amount: coin(10, "uusd"),
        },
        res.msgs[1]
    );
    assert_eq!(
        Instruction::NativeTransfer {
            to_address: "c".to_string(),
            amount: coin(2, "uusd"),
        },
        res.msgs[2]
    );
    // leftover 100 - 10 - 2
    assert_eq!(Funds::Native(coin(88, "uusd")), res.leftover_funds);
}
