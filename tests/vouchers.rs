use aid_ledger::merchant_registry::MerchantRegistry;
use aid_ledger::types::{Address, Auth, LedgerError, Transfer, TransferError};
use aid_ledger::voucher_manager::VoucherManager;

const ADMIN: Address = Address(1);
const ACCOUNT: Address = Address(40);
const TOKEN: Address = Address(2);
const BENEFICIARY: Address = Address(3);
const MERCHANT: Address = Address(4);
const OTHER: Address = Address(5);

fn hash() -> String {
    String::from("QmReceiptGpsTime")
}

fn verified_registry() -> MerchantRegistry {
    let mut reg = MerchantRegistry::initialize(ADMIN);
    reg.register_merchant(
        &Auth::signed_by(MERCHANT),
        MERCHANT,
        String::from("Corner Grocery"),
        String::from("food"),
        String::from("QmLicense"),
    )
    .unwrap();
    reg.verify_merchant(&Auth::signed_by(ADMIN), MERCHANT).unwrap();
    reg
}

#[test]
fn test_voucher_flow() {
    let vm = VoucherManager::initialize(ACCOUNT, TOKEN, ADMIN);
    assert_eq!(vm.get_redemption_count(), 0);
}

#[test]
fn issue_then_redeem_scenario() {
    let mut reg = verified_registry();
    let mut vm = VoucherManager::initialize(ACCOUNT, TOKEN, ADMIN);
    assert_eq!(vm.issue_voucher(&Auth::signed_by(ADMIN), BENEFICIARY, 1, 100), Ok(()));
    let id = vm.redeem_voucher(
        &mut reg,
        &Auth::signed_by(BENEFICIARY),
        BENEFICIARY,
        MERCHANT,
        1,
        60,
        hash(),
        1_700_000_000,
        Ok(()),
    );
    assert_eq!(id, Ok(1));
    assert_eq!(vm.get_voucher_balance(BENEFICIARY, 1), 40);
    let r = vm.get_redemption(1).unwrap();
    assert_eq!(r.id, 1);
    assert_eq!(r.beneficiary, BENEFICIARY);
    assert_eq!(r.merchant, MERCHANT);
    assert_eq!(r.program_id, 1);
    assert_eq!(r.amount, 60);
    assert_eq!(r.timestamp, 1_700_000_000);
    assert_eq!(r.proof_hash, "QmReceiptGpsTime");
    assert!(!r.verified);
    let m = reg.get_merchant(MERCHANT).unwrap();
    assert_eq!(m.total_redemptions, 1);
    assert_eq!(m.total_volume, 60);
}

#[test]
fn issues_add_up_per_program() {
    let mut vm = VoucherManager::initialize(ACCOUNT, TOKEN, ADMIN);
    let admin = Auth::signed_by(ADMIN);
    vm.issue_voucher(&admin, BENEFICIARY, 1, 100).unwrap();
    vm.issue_voucher(&admin, BENEFICIARY, 1, 25).unwrap();
    vm.issue_voucher(&admin, BENEFICIARY, 2, 7).unwrap();
    assert_eq!(vm.get_voucher_balance(BENEFICIARY, 1), 125);
    assert_eq!(vm.get_voucher_balance(BENEFICIARY, 2), 7);
    assert_eq!(vm.get_voucher_balance(OTHER, 1), 0);
}

#[test]
fn issue_errors() {
    let mut vm = VoucherManager::initialize(ACCOUNT, TOKEN, ADMIN);
    let admin = Auth::signed_by(ADMIN);
    assert_eq!(
        vm.issue_voucher(&Auth::signed_by(BENEFICIARY), BENEFICIARY, 1, 100),
        Err(LedgerError::Unauthorized)
    );
    assert_eq!(vm.issue_voucher(&admin, BENEFICIARY, 1, -1), Err(LedgerError::InvalidAmount));
    vm.issue_voucher(&admin, BENEFICIARY, 1, i128::MAX).unwrap();
    assert_eq!(vm.issue_voucher(&admin, BENEFICIARY, 1, 1), Err(LedgerError::Overflow));
    assert_eq!(vm.get_voucher_balance(BENEFICIARY, 1), i128::MAX);
}

#[test]
fn redeeming_beyond_the_balance_fails_and_keeps_it() {
    let mut reg = verified_registry();
    let mut vm = VoucherManager::initialize(ACCOUNT, TOKEN, ADMIN);
    vm.issue_voucher(&Auth::signed_by(ADMIN), BENEFICIARY, 1, 100).unwrap();
    let ben = Auth::signed_by(BENEFICIARY);
    assert_eq!(
        vm.redeem_voucher(&mut reg, &ben, BENEFICIARY, MERCHANT, 1, 101, hash(), 0, Ok(())),
        Err(LedgerError::InsufficientVoucherBalance)
    );
    assert_eq!(vm.get_voucher_balance(BENEFICIARY, 1), 100);
    assert_eq!(vm.get_redemption_count(), 0);
    assert_eq!(
        vm.redeem_voucher(&mut reg, &ben, BENEFICIARY, MERCHANT, 2, 1, hash(), 0, Ok(())),
        Err(LedgerError::InsufficientVoucherBalance)
    );
    assert_eq!(
        vm.redeem_voucher(&mut reg, &ben, BENEFICIARY, MERCHANT, 1, 100, hash(), 0, Ok(())),
        Ok(1)
    );
    assert_eq!(vm.get_voucher_balance(BENEFICIARY, 1), 0);
}

#[test]
fn redemption_ids_count_up_from_one() {
    let mut reg = verified_registry();
    let mut vm = VoucherManager::initialize(ACCOUNT, TOKEN, ADMIN);
    vm.issue_voucher(&Auth::signed_by(ADMIN), BENEFICIARY, 1, 100).unwrap();
    vm.issue_voucher(&Auth::signed_by(ADMIN), OTHER, 1, 100).unwrap();
    let ben = Auth::signed_by(BENEFICIARY);
    let other = Auth::signed_by(OTHER);
    let ids = vec![
        vm.redeem_voucher(&mut reg, &ben, BENEFICIARY, MERCHANT, 1, 10, hash(), 0, Ok(())),
        vm.redeem_voucher(&mut reg, &other, OTHER, MERCHANT, 1, 10, hash(), 0, Ok(())),
        vm.redeem_voucher(&mut reg, &ben, BENEFICIARY, MERCHANT, 1, 10, hash(), 0, Ok(())),
    ];
    assert_eq!(ids, vec![Ok(1), Ok(2), Ok(3)]);
    assert_eq!(
        vm.redeem_voucher(&mut reg, &ben, BENEFICIARY, MERCHANT, 1, 1000, hash(), 0, Ok(())),
        Err(LedgerError::InsufficientVoucherBalance)
    );
    assert_eq!(
        vm.redeem_voucher(&mut reg, &ben, BENEFICIARY, MERCHANT, 1, 10, hash(), 0, Ok(())),
        Ok(4)
    );
    assert_eq!(vm.get_redemption_count(), 4);
    for id in 1..=4u32 {
        assert_eq!(vm.get_redemption(id).unwrap().id, id);
    }
    assert!(vm.get_redemption(5).is_none());
    assert!(vm.get_redemption(0).is_none());
    assert_eq!(vm.get_beneficiary_redemptions(BENEFICIARY), 3);
    assert_eq!(vm.get_beneficiary_redemptions(OTHER), 1);
    assert_eq!(vm.get_beneficiary_redemptions(MERCHANT), 0);
    assert_eq!(reg.get_merchant(MERCHANT).unwrap().total_redemptions, 4);
    assert_eq!(reg.get_merchant(MERCHANT).unwrap().total_volume, 40);
}

#[test]
fn redemption_requires_beneficiary_and_verified_merchant() {
    let mut reg = verified_registry();
    let mut vm = VoucherManager::initialize(ACCOUNT, TOKEN, ADMIN);
    vm.issue_voucher(&Auth::signed_by(ADMIN), BENEFICIARY, 1, 100).unwrap();
    let ben = Auth::signed_by(BENEFICIARY);
    assert_eq!(
        vm.redeem_voucher(&mut reg, &Auth::signed_by(MERCHANT), BENEFICIARY, MERCHANT, 1, 10, hash(), 0, Ok(())),
        Err(LedgerError::Unauthorized)
    );
    assert_eq!(
        vm.redeem_voucher(&mut reg, &ben, BENEFICIARY, OTHER, 1, 10, hash(), 0, Ok(())),
        Err(LedgerError::MerchantNotVerified)
    );
    reg.suspend_merchant(&Auth::signed_by(ADMIN), MERCHANT).unwrap();
    assert_eq!(
        vm.redeem_voucher(&mut reg, &ben, BENEFICIARY, MERCHANT, 1, 10, hash(), 0, Ok(())),
        Err(LedgerError::MerchantNotVerified)
    );
    assert_eq!(
        vm.redeem_voucher(&mut reg, &ben, BENEFICIARY, MERCHANT, 1, -10, hash(), 0, Ok(())),
        Err(LedgerError::InvalidAmount)
    );
    reg.verify_merchant(&Auth::signed_by(ADMIN), MERCHANT).unwrap();
    assert_eq!(
        vm.redeem_voucher(&mut reg, &ben, BENEFICIARY, MERCHANT, 1, 10, hash(), 0, Err(TransferError::Rejected)),
        Err(LedgerError::TransferFailed)
    );
    assert_eq!(vm.get_voucher_balance(BENEFICIARY, 1), 100);
    assert_eq!(vm.get_redemption_count(), 0);
    assert_eq!(reg.get_merchant(MERCHANT).unwrap().total_redemptions, 0);
}

#[test]
fn verification_flips_once() {
    let mut reg = verified_registry();
    let mut vm = VoucherManager::initialize(ACCOUNT, TOKEN, ADMIN);
    vm.issue_voucher(&Auth::signed_by(ADMIN), BENEFICIARY, 1, 100).unwrap();
    vm.redeem_voucher(&mut reg, &Auth::signed_by(BENEFICIARY), BENEFICIARY, MERCHANT, 1, 10, hash(), 0, Ok(()))
        .unwrap();
    let verifier = Address(77);
    assert_eq!(vm.verify_redemption(&Auth::none(), 1, verifier), Err(LedgerError::Unauthorized));
    assert!(!vm.get_redemption(1).unwrap().verified);
    assert_eq!(vm.verify_redemption(&Auth::signed_by(verifier), 2, verifier), Err(LedgerError::NotFound));
    assert_eq!(vm.verify_redemption(&Auth::signed_by(verifier), 1, verifier), Ok(()));
    assert!(vm.get_redemption(1).unwrap().verified);
    assert_eq!(vm.verify_redemption(&Auth::signed_by(verifier), 1, verifier), Ok(()));
    assert!(vm.get_redemption(1).unwrap().verified);
    assert_eq!(vm.get_redemption(1).unwrap().amount, 10);
}

#[test]
fn redemption_plan_names_the_payment() {
    let reg = verified_registry();
    let mut vm = VoucherManager::initialize(ACCOUNT, TOKEN, ADMIN);
    vm.issue_voucher(&Auth::signed_by(ADMIN), BENEFICIARY, 1, 100).unwrap();
    let ben = Auth::signed_by(BENEFICIARY);
    assert_eq!(
        vm.plan_redeem_voucher(&reg, &ben, BENEFICIARY, MERCHANT, 1, 60),
        Ok(Transfer { from: ACCOUNT, to: MERCHANT, amount: 60 })
    );
    assert_eq!(
        vm.plan_redeem_voucher(&reg, &ben, BENEFICIARY, MERCHANT, 1, 101),
        Err(LedgerError::InsufficientVoucherBalance)
    );
    assert_eq!(
        vm.plan_redeem_voucher(&reg, &ben, BENEFICIARY, OTHER, 1, 60),
        Err(LedgerError::MerchantNotVerified)
    );
    assert_eq!(vm.get_voucher_balance(BENEFICIARY, 1), 100);
}
