use nois_oracle::sink::{AshStore, Coin, QueriedAsh, SinkError};
use nois_oracle::store::Order;

const DEFAULT_TIME: u64 = 1_571_797_419_879_305_533;

fn first_attr(attrs: &[(String, String)], search_key: &str) -> Option<String> {
    attrs.iter().find_map(|(k, v)| {
        if k == search_key {
            Some(v.clone())
        } else {
            None
        }
    })
}

#[test]
fn burn_works() {
    let mut store = AshStore::new();

    let err = store
        .burn("creator".to_string(), vec![Coin::new(1_000, "bitcoin")], DEFAULT_TIME)
        .unwrap_err();
    assert_eq!(err, SinkError::WrongDenom);
    let err = store
        .burn(
            "creator".to_string(),
            vec![Coin::new(1_000, "unois"), Coin::new(1_000, "bitcoin")],
            DEFAULT_TIME,
        )
        .unwrap_err();
    assert_eq!(err, SinkError::TooManyCoins);
    let err = store.burn("creator".to_string(), vec![], DEFAULT_TIME).unwrap_err();
    assert_eq!(err, SinkError::NoCoins);

    let receipt = store
        .burn("burner-1".to_string(), vec![Coin::new(1_000, "unois")], DEFAULT_TIME)
        .unwrap();
    assert_eq!(
        first_attr(&receipt.attributes, "burnt_amount").unwrap(),
        "1000unois"
    );
    assert_eq!(first_attr(&receipt.attributes, "burner").unwrap(), "burner-1");
    assert_eq!(
        first_attr(&receipt.attributes, "time").unwrap(),
        "1571797419.879305533"
    );

    store
        .burn("burner-2".to_string(), vec![Coin::new(2_000, "unois")], DEFAULT_TIME)
        .unwrap();
    store
        .burn("burner-3".to_string(), vec![Coin::new(3_000, "unois")], DEFAULT_TIME)
        .unwrap();
    store
        .burn("burner-4".to_string(), vec![Coin::new(4_000, "unois")], DEFAULT_TIME)
        .unwrap();

    let ashes = store.query_ashes(None, None, Order::Ascending);
    assert_eq!(
        ashes,
        [
            QueriedAsh {
                id: 1,
                burner: Some("burner-1".to_string()),
                amount: Coin::new(1_000, "unois"),
                time: DEFAULT_TIME
            },
            QueriedAsh {
                id: 2,
                burner: Some("burner-2".to_string()),
                amount: Coin::new(2_000, "unois"),
                time: DEFAULT_TIME
            },
            QueriedAsh {
                id: 3,
                burner: Some("burner-3".to_string()),
                amount: Coin::new(3_000, "unois"),
                time: DEFAULT_TIME
            },
            QueriedAsh {
                id: 4,
                burner: Some("burner-4".to_string()),
                amount: Coin::new(4_000, "unois"),
                time: DEFAULT_TIME
            },
        ]
    );

    let ashes = store.query_ashes(None, None, Order::Descending);
    assert_eq!(
        ashes,
        [
            QueriedAsh {
                id: 4,
                burner: Some("burner-4".to_string()),
                amount: Coin::new(4_000, "unois"),
                time: DEFAULT_TIME
            },
            QueriedAsh {
                id: 3,
                burner: Some("burner-3".to_string()),
                amount: Coin::new(3_000, "unois"),
                time: DEFAULT_TIME
            },
            QueriedAsh {
                id: 2,
                burner: Some("burner-2".to_string()),
                amount: Coin::new(2_000, "unois"),
                time: DEFAULT_TIME
            },
            QueriedAsh {
                id: 1,
                burner: Some("burner-1".to_string()),
                amount: Coin::new(1_000, "unois"),
                time: DEFAULT_TIME
            },
        ]
    );
}

#[test]
fn burn_native_works() {
    let mut store = AshStore::new();

    let err = store
        .burn_balance(&vec![Coin::new(1_000, "unois")], Coin::new(0, "unois"), DEFAULT_TIME)
        .unwrap_err();
    assert_eq!(err, SinkError::NonPayableMessage);

    let err = store
        .burn_balance(&vec![], Coin::new(0, "unois"), DEFAULT_TIME)
        .unwrap_err();
    assert_eq!(err, SinkError::NoFundsToBurn);

    let receipt = store
        .burn_balance(&vec![], Coin::new(100_000_000, "unois"), DEFAULT_TIME)
        .unwrap();
    assert_eq!(receipt.burn, vec![Coin::new(100_000_000, "unois")]);

    for a in [1, 2] {
        store
            .burn("joe".to_string(), vec![Coin::new(a, "unois")], DEFAULT_TIME)
            .unwrap();
    }
    store
        .burn_balance(&vec![], Coin::new(5_000, "unois"), DEFAULT_TIME)
        .unwrap();

    let ashes = store.query_ashes(None, None, Order::Ascending);
    assert_eq!(
        ashes,
        [
            QueriedAsh {
                id: 1,
                burner: None,
                amount: Coin::new(100_000_000, "unois"),
                time: DEFAULT_TIME
            },
            QueriedAsh {
                id: 2,
                burner: Some("joe".to_string()),
                amount: Coin::new(1, "unois"),
                time: DEFAULT_TIME
            },
            QueriedAsh {
                id: 3,
                burner: Some("joe".to_string()),
                amount: Coin::new(2, "unois"),
                time: DEFAULT_TIME
            },
            QueriedAsh {
                id: 4,
                burner: None,
                amount: Coin::new(5000, "unois"),
                time: DEFAULT_TIME
            },
        ]
    );
}

#[test]
fn query_works_for_more_than_10_elements() {
    let mut store = AshStore::new();

    for a in [1, 2, 3, 4, 5, 6, 7, 8, 9, 10, 11, 12] {
        store
            .burn("joe".to_string(), vec![Coin::new(a, "unois")], DEFAULT_TIME)
            .unwrap();
    }

    let joe_ash = |id: u32| QueriedAsh {
        id,
        burner: Some("joe".to_string()),
        amount: Coin::new(id as u128, "unois"),
        time: DEFAULT_TIME,
    };

    // asc, limit 3
    let ashes = store.query_ashes(None, Some(3), Order::Ascending);
    assert_eq!(ashes, [joe_ash(1), joe_ash(2), joe_ash(3)]);

    // asc, limit 3, start after 2
    let ashes = store.query_ashes(Some(2), Some(3), Order::Ascending);
    assert_eq!(ashes, [joe_ash(3), joe_ash(4), joe_ash(5)]);

    // asc, limit None
    let ashes = store.query_ashes(None, None, Order::Ascending);
    assert_eq!(
        ashes,
        [
            joe_ash(1),
            joe_ash(2),
            joe_ash(3),
            joe_ash(4),
            joe_ash(5),
            joe_ash(6),
            joe_ash(7),
            joe_ash(8),
            joe_ash(9),
            joe_ash(10),
            joe_ash(11),
            joe_ash(12),
        ]
    );

    // desc, limit 3, start after 6
    let ashes = store.query_ashes(Some(6), Some(3), Order::Descending);
    assert_eq!(ashes, [joe_ash(5), joe_ash(4), joe_ash(3)]);

    // desc, limit 5, start after 3
    let ashes = store.query_ashes(Some(3), Some(5), Order::Descending);
    assert_eq!(ashes, [joe_ash(2), joe_ash(1)]);
}
