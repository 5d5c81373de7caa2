use over_the_counter::asset::Asset;
use over_the_counter::error::ContractError;
use over_the_counter::identity::Identity;
use over_the_counter::state::{
    add_deposit, all_deposits, fee_config, get_deposits, load_deposit, next_id, remove_deposit,
    restore, set_fee_config, Deposit, FeeConfig, Ledger, Offer,
};

fn party(name: &str) -> Identity {
    Identity::new(name).unwrap()
}

fn offer(escrow: u128, want: u128) -> Deposit {
    Deposit {
        deposit: Asset::new_native(escrow, "ujuno"),
        offer: Offer { exchange: Asset::new_native(want, "uusdc"), from: None },
    }
}

#[test]
fn next_id_counts_from_zero() {
    let mut ledger = Ledger::new();
    assert_eq!(next_id(&mut ledger), Ok(0));
    assert_eq!(next_id(&mut ledger), Ok(1));
    assert_eq!(next_id(&mut ledger), Ok(2));
}

#[test]
fn identifiers_are_distinct_and_increasing() {
    let mut ledger = Ledger::new();
    let alice = party("alice");
    let bob = party("bob");
    let mut ids = vec![];
    for turn in 0..20u128 {
        let owner = if turn % 3 == 0 { &bob } else { &alice };
        ids.push(add_deposit(&mut ledger, owner, &offer(turn, turn + 1)).unwrap());
    }
    let expected: Vec<u64> = (0..20).collect();
    assert_eq!(ids, expected);
}

#[test]
fn identifiers_are_not_reused_after_removal() {
    let mut ledger = Ledger::new();
    let alice = party("alice");
    assert_eq!(add_deposit(&mut ledger, &alice, &offer(1, 1)), Ok(0));
    assert_eq!(add_deposit(&mut ledger, &alice, &offer(2, 2)), Ok(1));
    assert_eq!(remove_deposit(&mut ledger, &alice, None), Ok(()));
    assert_eq!(add_deposit(&mut ledger, &alice, &offer(3, 3)), Ok(2));
    assert_eq!(get_deposits(&ledger, &alice), Ok(vec![(2, offer(3, 3))]));
}

#[test]
fn get_deposits_lists_one_owner_in_ascending_order() {
    let mut ledger = Ledger::new();
    let alice = party("alice");
    let bob = party("bob");
    add_deposit(&mut ledger, &alice, &offer(10, 1)).unwrap();
    add_deposit(&mut ledger, &bob, &offer(20, 2)).unwrap();
    add_deposit(&mut ledger, &alice, &offer(30, 3)).unwrap();
    add_deposit(&mut ledger, &alice, &offer(40, 4)).unwrap();
    assert_eq!(
        get_deposits(&ledger, &alice),
        Ok(vec![(0, offer(10, 1)), (2, offer(30, 3)), (3, offer(40, 4))])
    );
    assert_eq!(get_deposits(&ledger, &bob), Ok(vec![(1, offer(20, 2))]));
    assert_eq!(get_deposits(&ledger, &party("carol")), Ok(vec![]));
}

#[test]
fn get_deposits_orders_by_number_not_by_text() {
    let mut ledger = Ledger::new();
    let alice = party("alice");
    for turn in 0..300u128 {
        add_deposit(&mut ledger, &alice, &offer(turn, 1)).unwrap();
    }
    let listed = get_deposits(&ledger, &alice).unwrap();
    let ids: Vec<u64> = listed.iter().map(|entry| entry.0).collect();
    let expected: Vec<u64> = (0..300).collect();
    assert_eq!(ids, expected);
    assert_eq!(listed[256].1, offer(256, 1));
}

#[test]
fn owners_with_a_common_prefix_are_kept_apart() {
    let mut ledger = Ledger::new();
    let short = party("al");
    let long = party("alice");
    add_deposit(&mut ledger, &short, &offer(1, 1)).unwrap();
    add_deposit(&mut ledger, &long, &offer(2, 2)).unwrap();
    assert_eq!(get_deposits(&ledger, &short), Ok(vec![(0, offer(1, 1))]));
    assert_eq!(get_deposits(&ledger, &long), Ok(vec![(1, offer(2, 2))]));
    remove_deposit(&mut ledger, &short, None).unwrap();
    assert_eq!(get_deposits(&ledger, &short), Ok(vec![]));
    assert_eq!(get_deposits(&ledger, &long), Ok(vec![(1, offer(2, 2))]));
}

#[test]
fn stored_deposit_comes_back_as_it_was() {
    let mut ledger = Ledger::new();
    let alice = party("alice");
    let deposit = Deposit {
        deposit: Asset::new_cw20(u128::MAX, "token \"quoted\" \\ \u{e9}"),
        offer: Offer { exchange: Asset::new_native(0, ""), from: Some("bob".to_owned()) },
    };
    let id = add_deposit(&mut ledger, &alice, &deposit).unwrap();
    assert_eq!(load_deposit(&ledger, &alice, id), Ok(deposit));
}

#[test]
fn load_deposit_misses_under_another_owner() {
    let mut ledger = Ledger::new();
    let alice = party("alice");
    let id = add_deposit(&mut ledger, &alice, &offer(1, 1)).unwrap();
    assert_eq!(
        load_deposit(&ledger, &party("bob"), id),
        Err(ContractError::DepositNotFound { id })
    );
    assert_eq!(
        load_deposit(&ledger, &alice, id + 1),
        Err(ContractError::DepositNotFound { id: id + 1 })
    );
}

#[test]
fn remove_deposit_by_identifier_takes_one() {
    let mut ledger = Ledger::new();
    let alice = party("alice");
    add_deposit(&mut ledger, &alice, &offer(1, 1)).unwrap();
    add_deposit(&mut ledger, &alice, &offer(2, 2)).unwrap();
    assert_eq!(remove_deposit(&mut ledger, &alice, Some(0)), Ok(()));
    assert_eq!(get_deposits(&ledger, &alice), Ok(vec![(1, offer(2, 2))]));
    // A deposit that is not there is not missed.
    assert_eq!(remove_deposit(&mut ledger, &alice, Some(0)), Ok(()));
    assert_eq!(remove_deposit(&mut ledger, &party("bob"), Some(1)), Ok(()));
    assert_eq!(get_deposits(&ledger, &alice), Ok(vec![(1, offer(2, 2))]));
}

#[test]
fn remove_deposit_without_identifier_takes_all_of_one_owner() {
    let mut ledger = Ledger::new();
    let alice = party("alice");
    let bob = party("bob");
    add_deposit(&mut ledger, &alice, &offer(1, 1)).unwrap();
    add_deposit(&mut ledger, &bob, &offer(2, 2)).unwrap();
    add_deposit(&mut ledger, &alice, &offer(3, 3)).unwrap();
    assert_eq!(remove_deposit(&mut ledger, &alice, None), Ok(()));
    assert_eq!(get_deposits(&ledger, &alice), Ok(vec![]));
    assert_eq!(get_deposits(&ledger, &bob), Ok(vec![(1, offer(2, 2))]));
}

#[test]
fn all_deposits_lists_every_owner() {
    let mut ledger = Ledger::new();
    let alice = party("alice");
    let bob = party("bob");
    add_deposit(&mut ledger, &bob, &offer(1, 1)).unwrap();
    add_deposit(&mut ledger, &alice, &offer(2, 2)).unwrap();
    add_deposit(&mut ledger, &bob, &offer(3, 3)).unwrap();
    let mut listed = all_deposits(&ledger).unwrap();
    listed.sort_by_key(|entry| entry.1);
    assert_eq!(
        listed,
        vec![
            (party("bob"), 0, offer(1, 1)),
            (party("alice"), 1, offer(2, 2)),
            (party("bob"), 2, offer(3, 3)),
        ]
    );
}

#[test]
fn a_new_ledger_is_empty() {
    let ledger = Ledger::new();
    assert_eq!(all_deposits(&ledger), Ok(vec![]));
    assert_eq!(fee_config(&ledger), Ok(None));
}

#[test]
fn fee_config_is_what_was_set() {
    let mut ledger = Ledger::new();
    assert_eq!(set_fee_config(&mut ledger, &party("treasury"), 1), Ok(()));
    assert_eq!(
        fee_config(&ledger),
        Ok(Some(FeeConfig {
            fee_address: "treasury".to_owned(),
            service_fee: 10_000_000_000_000_000
        }))
    );
    assert_eq!(set_fee_config(&mut ledger, &party("other"), 250), Ok(()));
    assert_eq!(
        fee_config(&ledger),
        Ok(Some(FeeConfig {
            fee_address: "other".to_owned(),
            service_fee: 2_500_000_000_000_000_000
        }))
    );
}

#[test]
fn fee_config_does_not_touch_the_deposits() {
    let mut ledger = Ledger::new();
    let alice = party("alice");
    add_deposit(&mut ledger, &alice, &offer(1, 1)).unwrap();
    assert_eq!(set_fee_config(&mut ledger, &party("treasury"), 1), Ok(()));
    assert_eq!(all_deposits(&ledger), Ok(vec![(party("alice"), 0, offer(1, 1))]));
    assert_eq!(add_deposit(&mut ledger, &alice, &offer(2, 2)), Ok(1));
}

#[test]
fn every_kind_of_text_comes_back_as_it_was() {
    let mut ledger = Ledger::new();
    let mut names: Vec<String> = vec![
        String::new(),
        "null".to_owned(),
        "\"".to_owned(),
        "\\".to_owned(),
        "\\u0041".to_owned(),
        "a/b".to_owned(),
        "\u{1F600}".to_owned(),
        "\u{FFFF}".to_owned(),
        "\u{10FFFF}".to_owned(),
        "[1,2]".to_owned(),
        " padded ".to_owned(),
    ];
    for code in 0u32..0x300 {
        let name = char::from_u32(code).unwrap().to_string();
        if !names.contains(&name) {
            names.push(name);
        }
    }
    let mut expected = vec![];
    for name in &names {
        let owner = party(name);
        let deposit = Deposit {
            deposit: Asset::new_cw20(1, name),
            offer: Offer { exchange: Asset::new_native(2, name), from: Some(name.clone()) },
        };
        let id = add_deposit(&mut ledger, &owner, &deposit).unwrap();
        assert_eq!(load_deposit(&ledger, &owner, id), Ok(deposit.clone()));
        assert_eq!(get_deposits(&ledger, &owner), Ok(vec![(id, deposit.clone())]));
        expected.push((owner, id, deposit));
    }
    let mut listed = all_deposits(&ledger).unwrap();
    listed.sort_by_key(|entry| entry.1);
    assert_eq!(listed, expected);
}

#[test]
fn count_is_the_number_of_identifiers_issued() {
    let mut ledger = Ledger::new();
    assert_eq!(ledger.count(), 0);
    add_deposit(&mut ledger, &party("alice"), &offer(1, 1)).unwrap();
    add_deposit(&mut ledger, &party("alice"), &offer(2, 2)).unwrap();
    remove_deposit(&mut ledger, &party("alice"), None).unwrap();
    assert_eq!(ledger.count(), 2);
}

#[test]
fn restore_gives_back_a_ledger() {
    let entries = vec![
        (party("alice"), 4, offer(1, 1)),
        (party("bob"), 2, offer(2, 2)),
        (party("alice"), 0, offer(3, 3)),
    ];
    let mut ledger = restore(7, &entries).ok().unwrap();
    assert_eq!(ledger.count(), 7);
    assert_eq!(get_deposits(&ledger, &party("alice")), Ok(vec![(0, offer(3, 3)), (4, offer(1, 1))]));
    assert_eq!(get_deposits(&ledger, &party("bob")), Ok(vec![(2, offer(2, 2))]));
    assert_eq!(fee_config(&ledger), Ok(None));
    assert_eq!(add_deposit(&mut ledger, &party("bob"), &offer(4, 4)), Ok(7));
}

#[test]
fn restore_of_nothing_is_a_new_ledger() {
    let ledger = restore(0, &vec![]).ok().unwrap();
    assert_eq!(ledger.count(), 0);
    assert_eq!(all_deposits(&ledger), Ok(vec![]));
}

#[test]
fn restore_refuses_an_identifier_that_was_not_issued() {
    let entries = vec![(party("alice"), 0, offer(1, 1)), (party("bob"), 3, offer(2, 2))];
    assert_eq!(restore(3, &entries).err(), Some(ContractError::UnknownIdentifier { id: 3 }));
    assert!(restore(4, &entries).is_ok());
}

#[test]
fn restore_refuses_an_identifier_held_twice() {
    let entries = vec![
        (party("alice"), 0, offer(1, 1)),
        (party("bob"), 1, offer(2, 2)),
        (party("carol"), 1, offer(3, 3)),
    ];
    assert_eq!(restore(5, &entries).err(), Some(ContractError::DuplicateDeposit { id: 1 }));
}

#[test]
fn all_deposits_walks_by_name_length_then_name_then_identifier() {
    let mut ledger = Ledger::new();
    for owner in ["bob", "alice", "bob", "al", "zed", "bo\u{e9}", "Bob"] {
        add_deposit(&mut ledger, &party(owner), &offer(1, 1)).unwrap();
    }
    let walked: Vec<(String, u64)> = all_deposits(&ledger)
        .unwrap()
        .into_iter()
        .map(|entry| (entry.0.to_text(), entry.1))
        .collect();
    let expected: Vec<(String, u64)> = [
        ("al", 3),
        ("Bob", 6),
        ("bob", 0),
        ("bob", 2),
        ("zed", 4),
        ("bo\u{e9}", 5),
        ("alice", 1),
    ]
    .into_iter()
    .map(|(owner, id)| (owner.to_owned(), id))
    .collect();
    assert_eq!(walked, expected);
}
