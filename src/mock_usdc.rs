use vstd::prelude::*;

use crate::types::{Address, LedgerError};

verus! {

/// The settings a test token records when it is initialized.
#[derive(Clone, Copy, Debug, PartialEq, Eq, Structural)]
pub enum DataKey {
    Admin,
    Name,
    Symbol,
    Decimals,
}

/// A stand-in stablecoin for tests: it records its administrator, name,
/// symbol and decimals once.
pub struct MockUSDC {
    initialized: bool,
    admin: Address,
    name: String,
    symbol: String,
    decimals: u32,
}

impl MockUSDC {
    /// Whether the settings were recorded.
    pub closed spec fn is_initialized(&self) -> bool {
        self.initialized
    }

    pub closed spec fn spec_admin(&self) -> Address {
        self.admin
    }

    pub closed spec fn spec_name(&self) -> Seq<char> {
        self.name@
    }

    pub closed spec fn spec_symbol(&self) -> Seq<char> {
        self.symbol@
    }

    pub closed spec fn spec_decimals(&self) -> u32 {
        self.decimals
    }

    /// A token whose settings are not recorded yet.
    pub fn new() -> (r: Self)
        ensures
            !r.is_initialized(),
    {
        MockUSDC {
            initialized: false,
            admin: Address(0),
            name: String::new(),
            symbol: String::new(),
            decimals: 0,
        }
    }

    /// Records the token's settings; a second call fails with
    /// `AlreadyExists` and changes nothing.
    pub fn initialize(
        &mut self,
        admin: Address,
        name: String,
        symbol: String,
        decimals: u32,
    ) -> (r: Result<(), LedgerError>)
        ensures
            old(self).is_initialized() ==> r == Err::<(), LedgerError>(LedgerError::AlreadyExists)
                && *final(self) == *old(self),
            !old(self).is_initialized() ==> {
                &&& r == Ok::<(), LedgerError>(())
                &&& final(self).is_initialized()
                &&& final(self).spec_admin() == admin
                &&& final(self).spec_name() == name@
                &&& final(self).spec_symbol() == symbol@
                &&& final(self).spec_decimals() == decimals
            },
    {
        if self.has(DataKey::Admin) {
            return Err(LedgerError::AlreadyExists);
        }
        self.initialized = true;
        self.admin = admin;
        self.name = name;
        self.symbol = symbol;
        self.decimals = decimals;
        Ok(())
    }

    /// Whether the setting `key` is recorded; all of them are recorded
    /// together.
    pub fn has(&self, key: DataKey) -> (r: bool)
        ensures
            r == self.is_initialized(),
    {
        match key {
            DataKey::Admin | DataKey::Name | DataKey::Symbol | DataKey::Decimals => self.initialized,
        }
    }

    /// The token's name.
    pub fn name(&self) -> (r: &String)
        requires
            self.is_initialized(),
        ensures
            r@ == self.spec_name(),
    {
        &self.name
    }

    /// The token's symbol.
    pub fn symbol(&self) -> (r: &String)
        requires
            self.is_initialized(),
        ensures
            r@ == self.spec_symbol(),
    {
        &self.symbol
    }

    /// The token's number of decimals.
    pub fn decimals(&self) -> (r: u32)
        requires
            self.is_initialized(),
        ensures
            r == self.spec_decimals(),
    {
        self.decimals
    }
}

} // verus!
