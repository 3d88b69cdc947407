use certify_backend::{
    CanisterError, DataType, GenericValue, Identity, InitArguments, Ledger, NftError, TokenData,
};

fn id(b: &[u8]) -> Identity {
    Identity::from_bytes(b.to_vec())
}

fn data() -> TokenData {
    TokenData { bytes: vec![1, 2, 3], data_type: DataType::Raw }
}

fn ledger_with(c: &Identity) -> Ledger {
    Ledger::init(c, 100, None)
}

#[test]
fn scenario_mint_collide_burn_and_guard() {
    let c = id(&[10, 1]);
    let a = id(&[20, 2]);
    let b = id(&[30, 3]);
    let mut l = ledger_with(&c);

    let r = l.mint_token(&c, 5, a.clone(), None, data(), None);
    assert_eq!(r, Ok(Ok(1)));
    assert_eq!(l.get_token_owner(1).unwrap().to_bytes(), vec![20, 2]);
    assert_eq!(l.get_canister_supply(), 1);

    let r = l.mint_token(&c, 6, a.clone(), Some(1), data(), None);
    assert_eq!(r, Ok(Err(NftError::ExistedNFT)));
    assert_eq!(l.get_canister_supply(), 1);
    assert_eq!(l.get_token_metadata(1).unwrap().minted_at, 5);

    assert_eq!(l.burn_token(&c, 7, 1), Ok(Ok(())));
    assert_eq!(l.get_token_owner(1).unwrap().to_bytes(), Identity::anonymous().to_bytes());
    assert_eq!(l.get_canister_supply(), 0);

    let r = l.mint_token(&b, 8, b.clone(), None, data(), None);
    assert_eq!(r, Err(CanisterError::NotCustodian));
    assert_eq!(l.get_canister_supply(), 0);
}

#[test]
fn anonymous_identity_is_tag_four() {
    assert_eq!(Identity::anonymous().to_bytes(), vec![4u8]);
}

#[test]
fn identity_comparison() {
    assert!(id(&[1, 2]).same_as(&id(&[1, 2])));
    assert!(!id(&[1, 2]).same_as(&id(&[1, 3])));
    assert!(!id(&[1, 2]).same_as(&id(&[1])));
}

#[test]
fn not_custodian_message() {
    assert_eq!(CanisterError::NotCustodian.message(), "You are not a custodian in this canister");
}

#[test]
fn init_defaults_custodian_to_caller() {
    let c = id(&[9]);
    let l = ledger_with(&c);
    assert!(l.is_custodian(&c).is_ok());
    assert_eq!(l.is_custodian(&id(&[8])), Err(CanisterError::NotCustodian));
    let m = l.get_canister_metadata();
    assert_eq!(m.created_at, 0);
    assert_eq!(m.name, None);
    assert_eq!(l.get_canister_custodians().len(), 1);
}

#[test]
fn init_with_arguments() {
    let c = id(&[9]);
    let other = id(&[7]);
    let args = InitArguments {
        name: Some("Certs".to_string()),
        symbol: Some("CRT".to_string()),
        logo: None,
        custodians: Some(vec![other.clone()]),
    };
    let l = Ledger::init(&c, 42, Some(args));
    assert_eq!(l.get_canister_name(), Some("Certs".to_string()));
    assert_eq!(l.get_canister_symbol(), Some("CRT".to_string()));
    assert_eq!(l.get_canister_logo(), None);
    assert_eq!(l.get_canister_metadata().created_at, 42);
    assert_eq!(l.get_canister_metadata().upgraded_at, 42);
    assert!(l.is_custodian(&other).is_ok());
    assert!(l.is_custodian(&c).is_err());
}

#[test]
fn auto_id_follows_supply() {
    let c = id(&[1]);
    let mut l = ledger_with(&c);
    assert_eq!(l.mint_token(&c, 1, id(&[2]), None, data(), None), Ok(Ok(1)));
    assert_eq!(l.mint_token(&c, 1, id(&[2]), None, data(), None), Ok(Ok(2)));
    assert_eq!(l.mint_token(&c, 1, id(&[3]), Some(50), data(), None), Ok(Ok(50)));
    assert_eq!(l.mint_token(&c, 1, id(&[3]), None, data(), None), Ok(Ok(4)));
}

#[test]
fn auto_id_collision_fails() {
    let c = id(&[1]);
    let mut l = ledger_with(&c);
    assert_eq!(l.mint_token(&c, 1, id(&[2]), Some(2), data(), None), Ok(Ok(2)));
    assert_eq!(l.mint_token(&c, 1, id(&[2]), None, data(), None), Ok(Err(NftError::ExistedNFT)));
    assert_eq!(l.get_canister_supply(), 1);
}

#[test]
fn burn_twice_keeps_decrementing() {
    let c = id(&[1]);
    let mut l = ledger_with(&c);
    l.mint_token(&c, 1, id(&[2]), None, data(), None).unwrap().unwrap();
    l.mint_token(&c, 1, id(&[2]), None, data(), None).unwrap().unwrap();
    assert_eq!(l.burn_token(&c, 3, 1), Ok(Ok(())));
    assert_eq!(l.burn_token(&c, 4, 1), Ok(Ok(())));
    assert_eq!(l.get_canister_supply(), 0);
    let m = l.get_token_metadata(1).unwrap();
    assert!(m.is_burned);
    assert_eq!(m.burned_at, Some(4));
    assert_eq!(m.burned_by.as_ref().unwrap().to_bytes(), vec![1]);
    assert_eq!(m.minted_by.to_bytes(), vec![2]);
}

#[test]
fn burn_below_zero_wraps() {
    let c = id(&[1]);
    let mut l = ledger_with(&c);
    l.mint_token(&c, 1, id(&[2]), None, data(), None).unwrap().unwrap();
    l.burn_token(&c, 2, 1).unwrap().unwrap();
    l.burn_token(&c, 2, 1).unwrap().unwrap();
    assert_eq!(l.get_canister_supply(), u64::MAX);
}

#[test]
fn burn_unknown_token() {
    let c = id(&[1]);
    let mut l = ledger_with(&c);
    assert_eq!(l.burn_token(&c, 2, 9), Ok(Err(NftError::TokenNotFound)));
    assert_eq!(l.burn_token(&id(&[5]), 2, 9), Err(CanisterError::NotCustodian));
}

#[test]
fn burn_keeps_owner_index() {
    let c = id(&[1]);
    let a = id(&[2]);
    let mut l = ledger_with(&c);
    l.mint_token(&c, 1, a.clone(), None, data(), None).unwrap().unwrap();
    l.mint_token(&c, 1, a.clone(), None, data(), None).unwrap().unwrap();
    l.burn_token(&c, 2, 1).unwrap().unwrap();
    assert_eq!(l.get_tokens_by_owner(&a), Ok(vec![1, 2]));
    assert_eq!(l.get_user_token_count(&a), Ok(2));
    assert_eq!(l.get_total_unique_holders(), 1);
}

#[test]
fn queries_on_unknown_entries() {
    let c = id(&[1]);
    let l = ledger_with(&c);
    assert!(matches!(l.get_token_metadata(3), Err(NftError::TokenNotFound)));
    assert!(matches!(l.get_token_data(3), Err(NftError::TokenNotFound)));
    assert!(matches!(l.get_token_owner(3), Err(NftError::TokenNotFound)));
    assert_eq!(l.get_user_token_count(&c), Err(NftError::OwnerNotFound));
    assert_eq!(l.get_tokens_by_owner(&c), Err(NftError::OwnerNotFound));
    assert!(matches!(l.get_tokens_metadata_by_owner(&c), Err(NftError::OwnerNotFound)));
}

#[test]
fn token_data_and_properties_are_kept() {
    let c = id(&[1]);
    let a = id(&[2]);
    let mut l = ledger_with(&c);
    let props = vec![
        ("level".to_string(), GenericValue::Nat8Content(3)),
        (
            "nested".to_string(),
            GenericValue::NestedContent(vec![("t".to_string(), GenericValue::BoolContent(true))]),
        ),
    ];
    let d = TokenData { bytes: vec![9, 9], data_type: DataType::Link };
    l.mint_token(&c, 11, a.clone(), Some(7), d, Some(props)).unwrap().unwrap();
    let got = l.get_token_data(7).unwrap();
    assert_eq!(got.bytes, vec![9, 9]);
    assert_eq!(got.data_type, DataType::Link);
    let m = l.get_token_metadata(7).unwrap();
    assert_eq!(m.properties.len(), 2);
    assert!(matches!(m.properties[0].1, GenericValue::Nat8Content(3)));
    assert!(!m.is_burned);
    assert_eq!(m.burned_at, None);
    assert!(m.burned_by.is_none());
    let all = l.get_tokens_metadata_by_owner(&a).unwrap();
    assert_eq!(all.len(), 1);
    assert_eq!(all[0].minted_at, 11);
}

#[test]
fn unique_holders_and_stats() {
    let c = id(&[1]);
    let mut l = ledger_with(&c);
    l.mint_token(&c, 1, id(&[2]), None, data(), None).unwrap().unwrap();
    l.mint_token(&c, 1, id(&[3]), None, data(), None).unwrap().unwrap();
    l.mint_token(&c, 1, id(&[2]), None, data(), None).unwrap().unwrap();
    assert_eq!(l.get_total_unique_holders(), 2);
    let s = l.get_canister_stats();
    assert_eq!(s.total_supply, 3);
    assert_eq!(s.total_transactions, 0);
    assert_eq!(l.get_canister_cycles(), 0);
}

#[test]
fn setters_need_custodian() {
    let c = id(&[1]);
    let x = id(&[2]);
    let mut l = ledger_with(&c);
    assert_eq!(l.set_canister_logo(&x, Some("l".to_string())), Err(CanisterError::NotCustodian));
    assert_eq!(l.get_canister_logo(), None);
    assert_eq!(l.set_canister_logo(&c, Some("l".to_string())), Ok(()));
    assert_eq!(l.get_canister_logo(), Some("l".to_string()));
    assert_eq!(l.set_canister_name(&c, Some("n".to_string())), Ok(()));
    assert_eq!(l.set_canister_symbol(&c, Some("s".to_string())), Ok(()));
    assert_eq!(l.get_canister_name(), Some("n".to_string()));
    assert_eq!(l.get_canister_symbol(), Some("s".to_string()));
    assert_eq!(l.set_canister_custodians(&c, vec![x.clone()]), Ok(()));
    assert!(l.is_custodian(&c).is_err());
    assert_eq!(l.set_canister_name(&c, None), Err(CanisterError::NotCustodian));
    assert_eq!(l.set_canister_name(&x, None), Ok(()));
    assert_eq!(l.get_canister_name(), None);
}
