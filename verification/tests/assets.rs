use over_the_counter::asset::{decimal_text, Asset, AssetType};
use over_the_counter::error::ContractError;
use over_the_counter::identity::Identity;
use over_the_counter::state::{Deposit, Offer};

#[test]
fn decimal_text_of_small_numbers() {
    assert_eq!(decimal_text(0), "0");
    assert_eq!(decimal_text(7), "7");
    assert_eq!(decimal_text(9), "9");
    assert_eq!(decimal_text(10), "10");
    assert_eq!(decimal_text(1234567890), "1234567890");
}

#[test]
fn decimal_text_of_the_largest_amount() {
    assert_eq!(decimal_text(u128::MAX), "340282366920938463463374607431768211455");
}

#[test]
fn new_native_holds_amount_and_symbol() {
    let asset = Asset::new_native(100, "ujuno");
    assert_eq!(asset.amount, 100);
    assert_eq!(asset.denom, AssetType::Native("ujuno".to_owned()));
}

#[test]
fn new_cw20_holds_amount_and_address() {
    let asset = Asset::new_cw20(5, "tokenaddress");
    assert_eq!(asset.amount, 5);
    assert_eq!(asset.denom, AssetType::Cw20("tokenaddress".to_owned()));
}

#[test]
fn asset_text_is_amount_then_unit() {
    assert_eq!(Asset::new_native(100, "ujuno").to_text(), "100ujuno");
    assert_eq!(Asset::new_cw20(0, "token").to_text(), "0token");
}

#[test]
fn unit_text_is_its_name() {
    assert_eq!(AssetType::Native("ujuno".to_owned()).to_text(), "ujuno");
    assert_eq!(AssetType::Cw20("addr".to_owned()).to_text(), "addr");
}

#[test]
fn units_of_different_kinds_differ() {
    let native = AssetType::Native("same".to_owned());
    let token = AssetType::Cw20("same".to_owned());
    assert!(native.same_as(&AssetType::Native("same".to_owned())));
    assert!(token.same_as(&AssetType::Cw20("same".to_owned())));
    assert!(!native.same_as(&token));
    assert!(!token.same_as(&native));
    assert!(!native.same_as(&AssetType::Native("other".to_owned())));
}

#[test]
fn identity_of_a_short_name() {
    let alice = Identity::new("alice").unwrap();
    assert_eq!(alice.as_str(), "alice");
    assert_eq!(alice.to_text(), "alice");
    assert_eq!(alice.clone(), alice);
}

#[test]
fn identity_at_the_length_limit() {
    let longest = "a".repeat(0xFFFF);
    assert!(Identity::new(&longest).is_some());
    let too_long = "a".repeat(0x10000);
    assert!(Identity::new(&too_long).is_none());
}

#[test]
fn identity_length_counts_bytes() {
    // Each of these characters takes two bytes.
    let fits = "\u{e9}".repeat(0x7FFF);
    assert!(Identity::new(&fits).is_some());
    let too_long = "\u{e9}".repeat(0x8000);
    assert!(Identity::new(&too_long).is_none());
}

#[test]
fn row_round_trip() {
    let deposit = Deposit {
        deposit: Asset::new_cw20(100, "token"),
        offer: Offer { exchange: Asset::new_native(50, "uusdc"), from: Some("bob".to_owned()) },
    };
    let row = deposit.to_row();
    assert_eq!(
        row,
        (true, "token".to_owned(), 100, false, "uusdc".to_owned(), 50, Some("bob".to_owned()))
    );
    assert_eq!(Deposit::from_row(&row), deposit);
}

#[test]
fn clones_are_equal() {
    let deposit = Deposit {
        deposit: Asset::new_native(1, "a"),
        offer: Offer { exchange: Asset::new_cw20(2, "b"), from: None },
    };
    assert_eq!(deposit.clone(), deposit);
    assert_eq!(deposit.offer.clone(), deposit.offer);
    assert_eq!(deposit.deposit.clone(), deposit.deposit);
    assert_eq!(deposit.deposit.denom.clone(), deposit.deposit.denom);
}

#[test]
fn error_texts() {
    assert_eq!(ContractError::Unauthorized {}.to_text(), "Unauthorized");
    assert_eq!(ContractError::NoFundsWithDeposit {}.to_text(), "No funds provided during deposit");
    assert_eq!(
        ContractError::NoNativeForExchange {}.to_text(),
        "No native token provided for exchange"
    );
    assert_eq!(
        ContractError::ExchangeIncorrectDenom {
            expected: AssetType::Native("uusdc".to_owned()),
            received: AssetType::Cw20("token".to_owned()),
        }
        .to_text(),
        "Offer expected tokens: uusdc, user provided tokens: token"
    );
    assert_eq!(
        ContractError::ExchangeIncorrectAmount { expected_amount: 50, provided_amount: 40 }
            .to_text(),
        "Incorrect amount has been provided, exchange expected 50 while user provided 40"
    );
    assert_eq!(
        ContractError::InvalidAddress { address: "x".to_owned() }.to_text(),
        "Invalid address: x"
    );
    assert_eq!(
        ContractError::DepositNotFound { id: 12 }.to_text(),
        "No deposit with given ID was found: 12"
    );
    assert_eq!(
        ContractError::DuplicateDeposit { id: u64::MAX }.to_text(),
        "Something went wrong; More then 1 deposit with searched ID: 18446744073709551615"
    );
    assert_eq!(ContractError::IdentifiersExhausted {}.to_text(), "No identifier is left to issue");
    assert_eq!(
        ContractError::UnknownIdentifier { id: 0 }.to_text(),
        "Deposit held under an ID that was never issued: 0"
    );
}

#[test]
fn error_text_of_an_outside_error_is_its_own() {
    let error = cosmwasm_std::StdError::generic_err("the store is closed");
    assert_eq!(ContractError::Std(error).to_text(), "Generic error: the store is closed");
}
