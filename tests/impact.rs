use aid_ledger::impact_contract::{ImpactContract, ProofStatus};
use aid_ledger::types::{Address, Auth, LedgerError};

const ADMIN: Address = Address(1);
const VAULT: Address = Address(2);
const MERCHANT: Address = Address(3);

#[test]
fn test_initialize() {
    let c = ImpactContract::initialize(ADMIN);
    assert_eq!(c.get_total_proofs(), 0);
    assert_eq!(c.get_yield_balance(), 0);
}

#[test]
fn yield_accumulates() {
    let mut c = ImpactContract::initialize(ADMIN);
    let vault = Auth::signed_by(VAULT);
    assert_eq!(c.receive_yield(&vault, VAULT, 120), Ok(()));
    assert_eq!(c.receive_yield(&vault, VAULT, 30), Ok(()));
    assert_eq!(c.get_yield_balance(), 150);
    assert_eq!(c.receive_yield(&Auth::none(), VAULT, 30), Err(LedgerError::Unauthorized));
    assert_eq!(c.receive_yield(&vault, VAULT, -30), Err(LedgerError::InvalidAmount));
    assert_eq!(c.receive_yield(&vault, VAULT, i128::MAX), Err(LedgerError::Overflow));
    assert_eq!(c.get_yield_balance(), 150);
}

#[test]
fn proofs_are_submitted_then_verified() {
    let mut c = ImpactContract::initialize(ADMIN);
    let m = Auth::signed_by(MERCHANT);
    assert_eq!(
        c.submit_proof(&m, MERCHANT, String::from("meals"), 40, String::from("QmA")),
        Ok(1)
    );
    assert_eq!(
        c.submit_proof(&m, MERCHANT, String::from("meals"), 20, String::from("QmB")),
        Ok(2)
    );
    assert_eq!(c.get_total_proofs(), 2);
    assert_eq!(c.get_proof(1).unwrap().status, ProofStatus::Pending);
    assert_eq!(c.verify_proof(&m, 1), Err(LedgerError::Unauthorized));
    assert_eq!(c.verify_proof(&Auth::signed_by(ADMIN), 3), Err(LedgerError::NotFound));
    assert_eq!(c.verify_proof(&Auth::signed_by(ADMIN), 1), Ok(1));
    let p = c.get_proof(1).unwrap();
    assert_eq!(p.status, ProofStatus::Verified);
    assert_eq!(p.amount, 40);
    assert_eq!(p.proof_hash, "QmA");
    assert_eq!(c.get_proof(2).unwrap().status, ProofStatus::Pending);
}

#[test]
fn proof_submission_errors() {
    let mut c = ImpactContract::initialize(ADMIN);
    assert_eq!(
        c.submit_proof(&Auth::signed_by(ADMIN), MERCHANT, String::new(), 1, String::new()),
        Err(LedgerError::Unauthorized)
    );
    assert_eq!(
        c.submit_proof(&Auth::signed_by(MERCHANT), MERCHANT, String::new(), -1, String::new()),
        Err(LedgerError::InvalidAmount)
    );
    assert_eq!(c.get_total_proofs(), 0);
}
