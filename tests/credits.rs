use aid_ledger::impact_credit_nft::ImpactCreditNFTContract;
use aid_ledger::types::{Address, Auth, LedgerError, Transfer, TransferError};

const ADMIN: Address = Address(1);
const TOKEN: Address = Address(2);
const BENEFICIARY: Address = Address(3);
const MERCHANT: Address = Address(4);
const INVESTOR: Address = Address(5);
const OTHER: Address = Address(6);

fn mint(c: &mut ImpactCreditNFTContract, redemption_id: u32, amount: i128) -> Result<u32, LedgerError> {
    c.mint_impact_nft(
        &Auth::signed_by(ADMIN),
        redemption_id,
        BENEFICIARY,
        MERCHANT,
        1,
        amount,
        String::from("QmProof"),
        1_700_000_000,
    )
}

#[test]
fn test_nft_minting() {
    let c = ImpactCreditNFTContract::initialize(ADMIN, TOKEN);
    assert_eq!(c.get_total_supply(), 0);
}

#[test]
fn mint_and_buy_scenario() {
    let mut c = ImpactCreditNFTContract::initialize(ADMIN, TOKEN);
    assert_eq!(mint(&mut c, 1, 60), Ok(1));
    let nft = c.get_nft(1).unwrap();
    assert_eq!(nft.token_id, 1);
    assert_eq!(nft.redemption_id, 1);
    assert_eq!(nft.owner, ADMIN);
    assert!(nft.for_sale);
    assert_eq!(nft.price, 60);
    assert_eq!(nft.amount, 60);
    assert_eq!(nft.beneficiary, BENEFICIARY);
    assert_eq!(nft.merchant, MERCHANT);
    assert_eq!(nft.proof_hash, "QmProof");
    assert_eq!(nft.metadata_uri, "ipfs://impact-credit/metadata");
    assert_eq!(c.buy_nft(&Auth::signed_by(INVESTOR), INVESTOR, 1, Ok(())), Ok(()));
    let nft = c.get_nft(1).unwrap();
    assert_eq!(nft.owner, INVESTOR);
    assert!(!nft.for_sale);
    assert_eq!(c.owner_of(1), Some(INVESTOR));
}

#[test]
fn one_credential_per_redemption() {
    let mut c = ImpactCreditNFTContract::initialize(ADMIN, TOKEN);
    assert_eq!(mint(&mut c, 7, 10), Ok(1));
    assert_eq!(mint(&mut c, 7, 10), Err(LedgerError::AlreadyExists));
    assert_eq!(mint(&mut c, 8, 10), Ok(2));
    assert_eq!(c.get_total_supply(), 2);
    assert!(c.is_minted(7));
    assert!(c.is_minted(8));
    assert!(!c.is_minted(9));
}

#[test]
fn mint_errors() {
    let mut c = ImpactCreditNFTContract::initialize(ADMIN, TOKEN);
    assert_eq!(
        c.mint_impact_nft(&Auth::signed_by(OTHER), 1, BENEFICIARY, MERCHANT, 1, 5, String::new(), 0),
        Err(LedgerError::Unauthorized)
    );
    assert_eq!(mint(&mut c, 1, -5), Err(LedgerError::InvalidAmount));
    assert_eq!(c.get_total_supply(), 0);
    assert!(c.get_nft(1).is_none());
    assert_eq!(c.owner_of(1), None);
}

#[test]
fn transfer_hands_over_and_delists() {
    let mut c = ImpactCreditNFTContract::initialize(ADMIN, TOKEN);
    mint(&mut c, 1, 60).unwrap();
    let admin = Auth::signed_by(ADMIN);
    assert_eq!(c.transfer(&Auth::signed_by(OTHER), ADMIN, OTHER, 1), Err(LedgerError::Unauthorized));
    assert_eq!(c.transfer(&Auth::signed_by(OTHER), OTHER, INVESTOR, 1), Err(LedgerError::NotOwner));
    assert_eq!(c.transfer(&admin, ADMIN, OTHER, 2), Err(LedgerError::NotFound));
    assert_eq!(c.owner_of(1), Some(ADMIN));
    assert_eq!(c.transfer(&admin, ADMIN, OTHER, 1), Ok(()));
    assert_eq!(c.owner_of(1), Some(OTHER));
    assert!(!c.get_nft(1).unwrap().for_sale);
    assert_eq!(c.get_owned_nfts(OTHER), 1);
    assert_eq!(c.get_owned_nfts(ADMIN), 0);
}

#[test]
fn listing_and_market_errors() {
    let mut c = ImpactCreditNFTContract::initialize(ADMIN, TOKEN);
    mint(&mut c, 1, 60).unwrap();
    let admin = Auth::signed_by(ADMIN);
    let investor = Auth::signed_by(INVESTOR);
    c.transfer(&admin, ADMIN, OTHER, 1).unwrap();
    assert_eq!(c.buy_nft(&investor, INVESTOR, 1, Ok(())), Err(LedgerError::NotForSale));
    assert_eq!(c.list_for_sale(&admin, ADMIN, 1, 80), Err(LedgerError::NotOwner));
    assert_eq!(c.list_for_sale(&admin, OTHER, 1, 80), Err(LedgerError::Unauthorized));
    let other = Auth::signed_by(OTHER);
    assert_eq!(c.list_for_sale(&other, OTHER, 1, -1), Err(LedgerError::InvalidAmount));
    assert_eq!(c.list_for_sale(&other, OTHER, 2, 80), Err(LedgerError::NotFound));
    assert_eq!(c.list_for_sale(&other, OTHER, 1, 80), Ok(()));
    assert!(c.get_nft(1).unwrap().for_sale);
    assert_eq!(c.get_nft(1).unwrap().price, 80);
    assert_eq!(c.buy_nft(&Auth::none(), INVESTOR, 1, Ok(())), Err(LedgerError::Unauthorized));
    assert_eq!(c.buy_nft(&investor, INVESTOR, 3, Ok(())), Err(LedgerError::NotFound));
    assert_eq!(
        c.buy_nft(&investor, INVESTOR, 1, Err(TransferError::Rejected)),
        Err(LedgerError::TransferFailed)
    );
    assert_eq!(c.owner_of(1), Some(OTHER));
    assert_eq!(c.buy_nft(&investor, INVESTOR, 1, Ok(())), Ok(()));
    assert_eq!(c.owner_of(1), Some(INVESTOR));
    assert!(!c.get_nft(1).unwrap().for_sale);
}

#[test]
fn owned_counts_follow_sales() {
    let mut c = ImpactCreditNFTContract::initialize(ADMIN, TOKEN);
    for r in 1..=3u32 {
        mint(&mut c, r, 10).unwrap();
    }
    assert_eq!(c.get_owned_nfts(ADMIN), 3);
    c.buy_nft(&Auth::signed_by(INVESTOR), INVESTOR, 2, Ok(())).unwrap();
    assert_eq!(c.get_owned_nfts(ADMIN), 2);
    assert_eq!(c.get_owned_nfts(INVESTOR), 1);
}

#[test]
fn purchase_plan_names_the_payment() {
    let mut c = ImpactCreditNFTContract::initialize(ADMIN, TOKEN);
    mint(&mut c, 1, 60).unwrap();
    let investor = Auth::signed_by(INVESTOR);
    assert_eq!(
        c.plan_buy_nft(&investor, INVESTOR, 1),
        Ok(Transfer { from: INVESTOR, to: ADMIN, amount: 60 })
    );
    assert_eq!(c.plan_buy_nft(&investor, INVESTOR, 2), Err(LedgerError::NotFound));
    c.buy_nft(&investor, INVESTOR, 1, Ok(())).unwrap();
    assert_eq!(c.plan_buy_nft(&Auth::signed_by(OTHER), OTHER, 1), Err(LedgerError::NotForSale));
    c.list_for_sale(&investor, INVESTOR, 1, 75).unwrap();
    assert_eq!(
        c.plan_buy_nft(&Auth::signed_by(OTHER), OTHER, 1),
        Ok(Transfer { from: OTHER, to: INVESTOR, amount: 75 })
    );
}
