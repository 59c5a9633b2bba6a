use shiden34::contract::Shiden34Contract;
use shiden34::error::PSP34Error::{BadPaymentAmount, NotAuthorized, SupplyExceeded, TokenNotExists};


const PRICE: u128 = 100_000_000_000_000_000;
const BASE_URI: &str = "ipfs://myIpfsUri/";
const MAX_SUPPLY: u64 = 10;
const ALICE: u64 = 1;
const BOB: u64 = 2;

fn init() -> Shiden34Contract {
    Shiden34Contract::new(
        String::from("Shiden34"),
        String::from("SH34"),
        String::from(BASE_URI),
        MAX_SUPPLY,
        PRICE,
        ALICE,
    )
}

#[test]
fn init_works() {
    let sh34 = init();
    assert_eq!(
        sh34.get_attribute(0, &String::from("name")),
        Some(String::from("Shiden34"))
    );
    assert_eq!(
        sh34.get_attribute(0, &String::from("symbol")),
        Some(String::from("SH34"))
    );
    assert_eq!(
        sh34.get_attribute(0, &String::from("baseUri")),
        Some(String::from(BASE_URI))
    );
    assert_eq!(sh34.max_supply(), MAX_SUPPLY);
    assert_eq!(sh34.price_per_mint(), PRICE);
}

#[test]
fn mint_single_works() {
    let mut sh34 = init();
    assert_eq!(sh34.total_supply(), 0);
    assert!(sh34.mint(PRICE, ALICE, 0).is_ok());
    assert_eq!(sh34.total_supply(), 1);
    assert_eq!(sh34.owner_of(1), Some(ALICE));
    assert_eq!(sh34.balance_of(ALICE), 1);
    assert_eq!(sh34.owners_token_by_index(ALICE, 0), Ok(1));
    assert_eq!(sh34.last_token_id(), 1);
}

#[test]
fn mint_multiple_works() {
    let mut sh34 = init();
    let num_of_mints: u64 = 5;
    assert_eq!(sh34.total_supply(), 0);
    assert!(sh34.mint_for(PRICE * num_of_mints as u128, BOB, num_of_mints).is_ok());
    assert_eq!(sh34.total_supply(), num_of_mints as u128);
    assert_eq!(sh34.balance_of(BOB), 5);
    assert_eq!(sh34.owners_token_by_index(BOB, 0), Ok(1));
    assert_eq!(sh34.owners_token_by_index(BOB, 1), Ok(2));
    assert_eq!(sh34.owners_token_by_index(BOB, 2), Ok(3));
    assert_eq!(sh34.owners_token_by_index(BOB, 3), Ok(4));
    assert_eq!(sh34.owners_token_by_index(BOB, 4), Ok(5));
    assert_eq!(sh34.owners_token_by_index(BOB, 5), Err(TokenNotExists));
}

#[test]
fn mint_above_limit_fails() {
    let mut sh34 = init();
    let num_of_mints: u64 = MAX_SUPPLY + 1;
    assert_eq!(sh34.total_supply(), 0);
    assert_eq!(
        sh34.mint_for(PRICE * num_of_mints as u128, BOB, num_of_mints),
        Err(SupplyExceeded)
    );
}

#[test]
fn mint_low_value_fails() {
    let mut sh34 = init();
    let num_of_mints = 1;
    assert_eq!(sh34.total_supply(), 0);
    assert_eq!(
        sh34.mint_for(PRICE * num_of_mints as u128 - 1, BOB, num_of_mints),
        Err(BadPaymentAmount)
    );
}

#[test]
fn token_uri_works() {
    let mut sh34 = init();
    assert!(sh34.mint(PRICE, ALICE, 0).is_ok());
    assert_eq!(sh34.token_uri(1), Ok(String::from("ipfs://myIpfsUri/1.json")));
    assert_eq!(sh34.token_uri(42), Err(TokenNotExists));
}

#[test]
fn owner_is_set() {
    let sh34 = init();
    assert_eq!(sh34.owner(), ALICE);
}

#[test]
fn set_base_uri_works() {
    const NEW_BASE_URI: &str = "new_uri/";
    let mut sh34 = init();
    assert!(sh34.set_base_uri(ALICE, NEW_BASE_URI.to_string()).is_ok());
    assert_eq!(
        sh34.get_attribute(0, &String::from("baseUri")),
        Some(String::from(NEW_BASE_URI))
    );
    assert_eq!(
        sh34.set_base_uri(BOB, "shallFail".to_string()),
        Err(NotAuthorized)
    );
}
