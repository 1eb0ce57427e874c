use aid_ledger::program_manager::{ProgramCategory, ProgramManager};
use aid_ledger::types::{Address, Auth, LedgerError, Transfer, TransferError};

const ADMIN: Address = Address(1);
const ACCOUNT: Address = Address(40);
const TOKEN: Address = Address(2);
const NGO: Address = Address(3);
const BENEFICIARY: Address = Address(4);
const VOUCHERS: Address = Address(5);

fn manager() -> ProgramManager {
    ProgramManager::initialize(ACCOUNT, ADMIN, TOKEN)
}

fn food_program(pm: &mut ProgramManager, budget: i128) -> u32 {
    pm.create_program(
        &Auth::signed_by(NGO),
        NGO,
        String::from("Food"),
        ProgramCategory::Food,
        budget,
    )
    .unwrap()
}

#[test]
fn test_create_program() {
    let pm = manager();
    assert_eq!(pm.get_program_count(), 0);
    assert!(pm.get_program(1).is_none());
}

#[test]
fn budget_scenario() {
    let mut pm = manager();
    assert_eq!(food_program(&mut pm, 500), 1);
    let admin = Auth::signed_by(ADMIN);
    assert_eq!(pm.allocate_to_program(&admin, 1, 600), Err(LedgerError::BudgetExceeded));
    assert_eq!(pm.get_program(1).unwrap().allocated, 0);
    assert_eq!(pm.allocate_to_program(&admin, 1, 400), Ok(()));
    let p = pm.get_program(1).unwrap();
    assert_eq!(p.allocated, 400);
    assert_eq!(p.total_budget, 500);
    assert_eq!(p.name, "Food");
    assert_eq!(p.ngo, NGO);
    assert!(p.active);
}

#[test]
fn allocation_reaches_but_never_passes_the_budget() {
    let mut pm = manager();
    food_program(&mut pm, 500);
    let admin = Auth::signed_by(ADMIN);
    assert_eq!(pm.allocate_to_program(&admin, 1, 300), Ok(()));
    assert_eq!(pm.allocate_to_program(&admin, 1, 201), Err(LedgerError::BudgetExceeded));
    assert_eq!(pm.allocate_to_program(&admin, 1, 200), Ok(()));
    assert_eq!(pm.allocate_to_program(&admin, 1, 1), Err(LedgerError::BudgetExceeded));
    let p = pm.get_program(1).unwrap();
    assert!(p.allocated <= p.total_budget);
    assert_eq!(p.allocated, 500);
}

#[test]
fn program_ids_are_sequential() {
    let mut pm = manager();
    assert_eq!(food_program(&mut pm, 1), 1);
    assert_eq!(food_program(&mut pm, 2), 2);
    assert_eq!(food_program(&mut pm, 3), 3);
    assert_eq!(pm.get_program_count(), 3);
    assert_eq!(pm.get_program(2).unwrap().id, 2);
}

#[test]
fn create_program_checks() {
    let mut pm = manager();
    assert_eq!(
        pm.create_program(&Auth::signed_by(ADMIN), NGO, String::from("x"), ProgramCategory::Healthcare, 5),
        Err(LedgerError::Unauthorized)
    );
    assert_eq!(
        pm.create_program(&Auth::signed_by(NGO), NGO, String::from("x"), ProgramCategory::Housing, -5),
        Err(LedgerError::InvalidAmount)
    );
    assert_eq!(pm.get_program_count(), 0);
}

#[test]
fn allocation_errors() {
    let mut pm = manager();
    food_program(&mut pm, 100);
    let admin = Auth::signed_by(ADMIN);
    assert_eq!(pm.allocate_to_program(&Auth::signed_by(NGO), 1, 10), Err(LedgerError::Unauthorized));
    assert_eq!(pm.allocate_to_program(&admin, 1, -1), Err(LedgerError::InvalidAmount));
    assert_eq!(pm.allocate_to_program(&admin, 2, 10), Err(LedgerError::ProgramNotFound));
    assert_eq!(pm.allocate_to_program(&admin, 0, 10), Err(LedgerError::ProgramNotFound));
    assert_eq!(pm.deactivate_program(&admin, 1), Ok(()));
    assert_eq!(pm.allocate_to_program(&admin, 1, 10), Err(LedgerError::ProgramInactive));
    assert_eq!(pm.get_program(1).unwrap().allocated, 0);
}

#[test]
fn voucher_issue_spends_the_allocation() {
    let mut pm = manager();
    food_program(&mut pm, 1000);
    let admin = Auth::signed_by(ADMIN);
    let ngo = Auth::signed_by(NGO);
    pm.allocate_to_program(&admin, 1, 300).unwrap();
    assert_eq!(pm.issue_voucher(&ngo, 1, BENEFICIARY, 200, VOUCHERS, Ok(())), Ok(()));
    assert_eq!(pm.get_program(1).unwrap().spent, 200);
    assert_eq!(pm.get_program(1).unwrap().allocated, 300);
    assert_eq!(
        pm.issue_voucher(&ngo, 1, BENEFICIARY, 101, VOUCHERS, Ok(())),
        Err(LedgerError::InsufficientAllocation)
    );
    assert_eq!(
        pm.issue_voucher(&ngo, 1, BENEFICIARY, 301, VOUCHERS, Ok(())),
        Err(LedgerError::InsufficientAllocation)
    );
    assert_eq!(pm.issue_voucher(&ngo, 1, BENEFICIARY, 100, VOUCHERS, Ok(())), Ok(()));
    assert_eq!(pm.get_program(1).unwrap().spent, 300);
}

#[test]
fn voucher_issue_errors() {
    let mut pm = manager();
    food_program(&mut pm, 1000);
    let admin = Auth::signed_by(ADMIN);
    let ngo = Auth::signed_by(NGO);
    pm.allocate_to_program(&admin, 1, 300).unwrap();
    assert_eq!(
        pm.issue_voucher(&ngo, 7, BENEFICIARY, 1, VOUCHERS, Ok(())),
        Err(LedgerError::ProgramNotFound)
    );
    assert_eq!(
        pm.issue_voucher(&admin, 1, BENEFICIARY, 1, VOUCHERS, Ok(())),
        Err(LedgerError::Unauthorized)
    );
    assert_eq!(
        pm.issue_voucher(&ngo, 1, BENEFICIARY, -1, VOUCHERS, Ok(())),
        Err(LedgerError::InvalidAmount)
    );
    assert_eq!(
        pm.issue_voucher(&ngo, 1, BENEFICIARY, 10, VOUCHERS, Err(TransferError::Rejected)),
        Err(LedgerError::TransferFailed)
    );
    pm.deactivate_program(&admin, 1).unwrap();
    assert_eq!(
        pm.issue_voucher(&ngo, 1, BENEFICIARY, 10, VOUCHERS, Ok(())),
        Err(LedgerError::ProgramInactive)
    );
    assert_eq!(pm.get_program(1).unwrap().spent, 0);
}

#[test]
fn deactivation_is_admin_only_and_idempotent() {
    let mut pm = manager();
    food_program(&mut pm, 10);
    food_program(&mut pm, 20);
    food_program(&mut pm, 30);
    let admin = Auth::signed_by(ADMIN);
    assert_eq!(pm.deactivate_program(&Auth::signed_by(NGO), 2), Err(LedgerError::Unauthorized));
    assert_eq!(pm.get_active_programs(), vec![1, 2, 3]);
    assert_eq!(pm.deactivate_program(&admin, 2), Ok(()));
    assert_eq!(pm.deactivate_program(&admin, 2), Ok(()));
    assert_eq!(pm.deactivate_program(&admin, 4), Err(LedgerError::ProgramNotFound));
    assert!(!pm.get_program(2).unwrap().active);
    assert_eq!(pm.get_active_programs(), vec![1, 3]);
}

#[test]
fn voucher_issue_plan_names_the_transfer() {
    let mut pm = manager();
    food_program(&mut pm, 1000);
    let ngo = Auth::signed_by(NGO);
    pm.allocate_to_program(&Auth::signed_by(ADMIN), 1, 300).unwrap();
    assert_eq!(
        pm.plan_issue_voucher(&ngo, 1, 250, VOUCHERS),
        Ok(Transfer { from: ACCOUNT, to: VOUCHERS, amount: 250 })
    );
    assert_eq!(pm.plan_issue_voucher(&ngo, 1, 301, VOUCHERS), Err(LedgerError::InsufficientAllocation));
    assert_eq!(pm.plan_issue_voucher(&ngo, 2, 1, VOUCHERS), Err(LedgerError::ProgramNotFound));
    assert_eq!(pm.plan_issue_voucher(&Auth::none(), 1, 1, VOUCHERS), Err(LedgerError::Unauthorized));
    assert_eq!(pm.get_program(1).unwrap().spent, 0);
}
