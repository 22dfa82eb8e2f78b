use simple_nft::registry::Registry;
use simple_nft::token::AuthRule;
use simple_nft::token::Caller;
use simple_nft::token::TokenId;
use simple_nft::token::VaultError;
use simple_nft::token::is_authorized;
use simple_nft::vault::SimpleNFT;

#[test]
fn test_mint_and_transfer_nft() {
    // Instantiate the component
    let mut component = SimpleNFT::instantiate_component();

    // Mint an NFT
    let nft_bucket = component.mint_nft().unwrap();

    // Check that the NFT is of correct type
    assert_eq!(
        nft_bucket.resource_address(),
        component.get_nft_resource_address()
    );
    assert_eq!(nft_bucket.amount(), 1);

    // Extract NFT ID
    let nft_ids: Vec<TokenId> = nft_bucket.non_fungible_local_ids();
    assert_eq!(nft_ids.len(), 1);
    let nft_id = nft_ids[0].clone();

    // Deposit the NFT into the component
    component.deposit_nft(nft_bucket).unwrap();

    // Withdraw the NFT back
    let returned_nft = component.withdraw_nft(nft_id.clone()).unwrap();

    // Check that the returned NFT has the same ID
    let returned_ids: Vec<TokenId> = returned_nft.non_fungible_local_ids();
    assert_eq!(returned_ids.len(), 1);
    assert_eq!(returned_ids[0], nft_id);
}

#[test]
fn test_minted_ids_are_distinct() {
    let mut component = SimpleNFT::instantiate_component();
    let first = component.mint_nft().unwrap();
    let second = component.mint_nft().unwrap();
    let first_id = first.non_fungible_local_ids()[0];
    let second_id = second.non_fungible_local_ids()[0];
    assert_ne!(first_id, second_id);
}

#[test]
fn test_deposit_and_withdraw_change_count_exactly() {
    let mut component = SimpleNFT::instantiate_component();
    assert_eq!(component.vault_size(), 0);

    // Merge two minted tokens into one container and deposit both at once.
    let mut combined = component.mint_nft().unwrap();
    let other = component.mint_nft().unwrap();
    let kept_id = combined.non_fungible_local_ids()[0];
    combined.put(other).unwrap();
    assert_eq!(combined.amount(), 2);

    component.deposit_nft(combined).unwrap();
    assert_eq!(component.vault_size(), 2);

    // A successful withdraw removes exactly one token.
    let taken = component.withdraw_nft(kept_id).unwrap();
    assert_eq!(taken.amount(), 1);
    assert_eq!(component.vault_size(), 1);
}

#[test]
fn test_deposit_of_foreign_class_is_rejected_whole() {
    let mut component = SimpleNFT::instantiate_component();
    let mut stranger = SimpleNFT::instantiate_component();

    let own = component.mint_nft().unwrap();
    component.deposit_nft(own).unwrap();
    assert_eq!(component.vault_size(), 1);

    let foreign = stranger.mint_nft().unwrap();
    let outcome = component.deposit_nft(foreign);
    assert_eq!(outcome, Err(VaultError::WrongResourceType));
    assert_eq!(component.vault_size(), 1);
}

#[test]
fn test_withdraw_of_absent_id_is_not_found() {
    let mut component = SimpleNFT::instantiate_component();

    // An identifier never issued at all.
    let outcome = component.withdraw_nft(TokenId { value: 7 });
    assert!(matches!(outcome, Err(VaultError::NotFound)));
    assert_eq!(component.vault_size(), 0);

    // An identifier minted but never deposited.
    let detached = component.mint_nft().unwrap();
    let detached_id = detached.non_fungible_local_ids()[0];
    let outcome = component.withdraw_nft(detached_id);
    assert!(matches!(outcome, Err(VaultError::NotFound)));
    assert_eq!(component.vault_size(), 0);
}

#[test]
fn test_mint_deposit_withdraw_scenario() {
    let mut component = SimpleNFT::instantiate_component();

    let b1 = component.mint_nft().unwrap();
    let x = b1.non_fungible_local_ids()[0];

    component.deposit_nft(b1).unwrap();
    assert_eq!(component.vault_size(), 1);

    let b2 = component.withdraw_nft(x).unwrap();
    let b2_ids = b2.non_fungible_local_ids();
    assert_eq!(b2.amount(), 1);
    assert_eq!(b2_ids.len(), 1);
    assert_eq!(b2_ids[0], x);
    assert_eq!(component.vault_size(), 0);

    let again = component.withdraw_nft(x);
    assert!(matches!(again, Err(VaultError::NotFound)));
}

#[test]
fn test_each_instantiation_declares_its_own_class() {
    let a = SimpleNFT::instantiate_component();
    let b = SimpleNFT::instantiate_component();
    assert_ne!(a.get_nft_resource_address(), b.get_nft_resource_address());
}

#[test]
fn test_bucket_merge_of_foreign_class_is_rejected() {
    let mut component = SimpleNFT::instantiate_component();
    let mut stranger = SimpleNFT::instantiate_component();

    let mut own = component.mint_nft().unwrap();
    let foreign = stranger.mint_nft().unwrap();
    let outcome = own.put(foreign);
    assert_eq!(outcome, Err(VaultError::WrongResourceType));
    assert_eq!(own.amount(), 1);
}

#[test]
fn test_bucket_take_by_id() {
    let mut component = SimpleNFT::instantiate_component();

    let mut combined = component.mint_nft().unwrap();
    let other = component.mint_nft().unwrap();
    let other_id = other.non_fungible_local_ids()[0];
    combined.put(other).unwrap();

    let taken = combined.take_by_id(&other_id);
    assert!(taken.is_some());
    assert_eq!(taken.unwrap().id, other_id);
    assert_eq!(combined.amount(), 1);

    let absent = combined.take_by_id(&other_id);
    assert!(absent.is_none());
    assert_eq!(combined.amount(), 1);
}

#[test]
fn test_bucket_take_all_hands_every_token_out() {
    let mut component = SimpleNFT::instantiate_component();
    let class = component.get_nft_resource_address();

    let mut combined = component.mint_nft().unwrap();
    let other = component.mint_nft().unwrap();
    combined.put(other).unwrap();

    let tokens = combined.take_all();
    assert_eq!(tokens.len(), 2);
    assert!(tokens.iter().all(|t| t.class == class));
    assert_ne!(tokens[0].id, tokens[1].id);
}

#[test]
fn test_registry_never_reissues_an_identifier() {
    let mut registry = Registry::new();
    let id = registry.allocate_id().unwrap();
    assert!(registry.was_issued(id.value));
    assert!(!registry.try_claim(id.value));

    assert!(!registry.was_issued(id.value.wrapping_add(1)));
    assert!(registry.try_claim(id.value.wrapping_add(1)));
    assert!(!registry.try_claim(id.value.wrapping_add(1)));
}

#[test]
fn test_authorization_rules() {
    assert!(is_authorized(&AuthRule::AllowAll, &Caller::Component));
    assert!(is_authorized(&AuthRule::AllowAll, &Caller::Holder));
    assert!(!is_authorized(&AuthRule::DenyAll, &Caller::Component));
    assert!(!is_authorized(&AuthRule::DenyAll, &Caller::Holder));
    assert!(is_authorized(&AuthRule::ComponentOnly, &Caller::Component));
    assert!(!is_authorized(&AuthRule::ComponentOnly, &Caller::Holder));
}

#[test]
fn test_burning_is_open_to_any_holder() {
    let component = SimpleNFT::instantiate_component();
    assert!(component.burn_is_authorized(&Caller::Holder));
    assert!(component.burn_is_authorized(&Caller::Component));
}
