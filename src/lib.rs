//! A humanitarian-aid disbursement ledger: donor deposits, program budgets,
//! beneficiary vouchers, merchant verification and proof-of-impact credentials,
//! each kept by a component whose operations are checked against its contract.
//!
//! Authorization, asset transfers and the current time come from the caller
//! as plain values: an [`Auth`] naming who signed the call, the outcome of the
//! transfer that an operation moves, and a timestamp.

pub mod types;
pub mod table;
pub mod merchant_registry;
pub mod voucher_manager;
pub mod impact_credit_nft;
pub mod impact_vault;
pub mod program_manager;
pub mod impact_contract;
pub mod donor_badge_nft;
pub mod mock_usdc;

pub use impact_credit_nft::ImpactCreditNFTContract;
pub use impact_vault::ImpactVault;
pub use merchant_registry::MerchantRegistry;
pub use program_manager::ProgramManager;
pub use types::{Address, Auth, LedgerError, Transfer, TransferError};
pub use voucher_manager::VoucherManager;
