use shiden34::contract::Shiden34Contract;
use shiden34::error::PSP34Error::{BadPaymentAmount, NotAuthorized, SupplyExceeded, TokenNotExists, ZeroQuantity};
use shiden34::uri::{compose_token_uri, push_decimal};

fn contract(max_supply: u64, price: u128) -> Shiden34Contract {
    Shiden34Contract::new(
        String::from("Collection"),
        String::from("COL"),
        String::from("base/"),
        max_supply,
        price,
        7,
    )
}

#[test]
fn paid_batch_issues_ascending_ids() {
    let mut c = contract(10, 100);
    assert_eq!(c.mint_for(200, 3, 2), Ok(()));
    assert_eq!(c.mint_for(300, 4, 3), Ok(()));
    assert_eq!(c.last_token_id(), 5);
    assert_eq!(c.balance_of(3), 2);
    assert_eq!(c.balance_of(4), 3);
    assert_eq!(c.owners_token_by_index(4, 0), Ok(3));
    assert_eq!(c.owners_token_by_index(4, 2), Ok(5));
    assert_eq!(c.owners_token_by_index(3, 2), Err(TokenNotExists));
    assert_eq!(c.owner_of(2), Some(3));
    assert_eq!(c.owner_of(3), Some(4));
    assert_eq!(c.owner_of(6), None);
    assert_eq!(c.owner_of(0), None);
}

#[test]
fn batch_up_to_the_cap_succeeds() {
    let mut c = contract(10, 100);
    assert_eq!(c.mint_for(1000, 3, 10), Ok(()));
    assert_eq!(c.last_token_id(), 10);
    assert_eq!(c.mint_for(100, 3, 1), Err(SupplyExceeded));
    assert_eq!(c.last_token_id(), 10);
}

#[test]
fn over_cap_leaves_counter_at_zero() {
    let mut c = contract(10, 100);
    assert_eq!(c.mint_for(1100, 2, 11), Err(SupplyExceeded));
    assert_eq!(c.last_token_id(), 0);
    assert_eq!(c.total_supply(), 0);
}

#[test]
fn one_below_price_is_bad_payment() {
    let mut c = contract(10, 100);
    assert_eq!(c.mint_for(99, 2, 1), Err(BadPaymentAmount));
    assert_eq!(c.mint(99, 2, 0), Err(BadPaymentAmount));
    assert_eq!(c.last_token_id(), 0);
}

#[test]
fn overpayment_is_bad_payment() {
    let mut c = contract(10, 100);
    assert_eq!(c.mint_for(301, 2, 3), Err(BadPaymentAmount));
    assert_eq!(c.balance_of(2), 0);
}

#[test]
fn payment_overflowing_the_price_is_bad_payment() {
    let mut c = contract(10, u128::MAX);
    assert_eq!(c.mint_for(u128::MAX, 2, 2), Err(BadPaymentAmount));
    assert_eq!(c.mint_for(u128::MAX, 2, 1), Ok(()));
}

#[test]
fn zero_quantity_fails() {
    let mut c = contract(10, 100);
    assert_eq!(c.mint_for(0, 2, 0), Err(ZeroQuantity));
    assert_eq!(c.last_token_id(), 0);
}

#[test]
fn free_mint_with_zero_price() {
    let mut c = contract(3, 0);
    assert_eq!(c.mint_for(0, 2, 3), Ok(()));
    assert_eq!(c.mint(0, 2, 0), Err(SupplyExceeded));
}

#[test]
fn single_mint_goes_to_recipient() {
    let mut c = contract(10, 100);
    assert_eq!(c.mint(100, 9, 42), Ok(()));
    assert_eq!(c.owner_of(1), Some(9));
    assert_eq!(c.last_token_id(), 1);
}

#[test]
fn uri_of_unissued_token_fails() {
    let mut c = contract(10, 100);
    assert_eq!(c.token_uri(0), Err(TokenNotExists));
    assert_eq!(c.token_uri(1), Err(TokenNotExists));
    assert_eq!(c.mint_for(100, 2, 1), Ok(()));
    assert_eq!(c.token_uri(2), Err(TokenNotExists));
}

#[test]
fn uri_of_multi_digit_id() {
    let mut c = contract(20, 1);
    assert_eq!(c.mint_for(12, 2, 12), Ok(()));
    assert_eq!(c.token_uri(10), Ok(String::from("base/10.json")));
    assert_eq!(c.token_uri(12), Ok(String::from("base/12.json")));
}

#[test]
fn new_base_path_applies_to_earlier_tokens() {
    let mut c = contract(10, 100);
    assert_eq!(c.mint_for(100, 2, 1), Ok(()));
    assert_eq!(c.set_base_uri(7, String::from("new/")), Ok(()));
    assert_eq!(c.token_uri(1), Ok(String::from("new/1.json")));
}

#[test]
fn non_admin_cannot_change_base_path() {
    let mut c = contract(10, 100);
    assert_eq!(c.mint_for(100, 2, 1), Ok(()));
    assert_eq!(c.set_base_uri(2, String::from("evil/")), Err(NotAuthorized));
    assert_eq!(c.get_attribute(0, &String::from("baseUri")), Some(String::from("base/")));
    assert_eq!(c.token_uri(1), Ok(String::from("base/1.json")));
}

#[test]
fn base_path_without_separator_is_concatenated() {
    let mut c = contract(10, 100);
    assert_eq!(c.set_base_uri(7, String::from("ipfs://x")), Ok(()));
    assert_eq!(c.mint_for(100, 2, 1), Ok(()));
    assert_eq!(c.token_uri(1), Ok(String::from("ipfs://x1.json")));
}

#[test]
fn unset_attribute_is_none() {
    let c = contract(10, 100);
    assert_eq!(c.get_attribute(0, &String::from("missing")), None);
    assert_eq!(c.get_attribute(1, &String::from("name")), None);
}

#[test]
fn decimal_forms() {
    let mut s = String::from("id:");
    push_decimal(&mut s, 0);
    assert_eq!(s, "id:0");
    let mut t = String::new();
    push_decimal(&mut t, u64::MAX);
    assert_eq!(t, "18446744073709551615");
    assert_eq!(compose_token_uri(&String::from("a/"), 907), "a/907.json");
}
