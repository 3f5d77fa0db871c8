//! Who runs the contract, and the fees that a winner pays.

use crate::game::address::Address;
use crate::game::state::{ContractError, ContractView, Fees, GameContract};
use vstd::prelude::*;

verus! {

impl GameContract {
    /// Sets who runs the contract, the key of the backend, and the fees: `rate`
    /// thousandths of a pool go to the treasury. The contract takes them once.
    pub fn initialize_fees(
        &mut self,
        admin: Address,
        admin_key: Vec<u8>,
        rate: u32,
        treasury: Address,
    )
        requires
            old(self).valid(),
            old(self)@.admin is None,
            old(self)@.admin_key is None,
        ensures
            final(self).valid(),
            final(self)@ == (ContractView {
                admin: Some(admin),
                admin_key: Some(admin_key@),
                fees: Some(Fees { rate, treasury }),
                ..old(self)@
            }),
    {
        self.admin = Some(admin);
        self.admin_key = Some(admin_key);
        self.fees = Some(Fees { rate, treasury });
    }

    /// Changes the fees. Only the admin may.
    pub fn configure_fees(&mut self, caller: Address, rate: u32, treasury: Address) -> (result:
        Result<(), ContractError>)
        requires
            old(self).valid(),
        ensures
            final(self).valid(),
            match result {
                Ok(()) => {
                    &&& old(self)@.admin == Some(caller)
                    &&& final(self)@ == (ContractView {
                        fees: Some(Fees { rate, treasury }),
                        ..old(self)@
                    })
                },
                Err(error) => {
                    &&& error is Unauthorized
                    &&& old(self)@.admin != Some(caller)
                    &&& final(self)@ == old(self)@
                },
            },
    {
        if self.admin != Some(caller) {
            return Err(ContractError::Unauthorized);
        }
        self.fees = Some(Fees { rate, treasury });
        Ok(())
    }

    /// Names the admin of a contract that has the key of its backend but no admin
    /// yet.
    pub fn upgrade_admin(&mut self, admin: Address) -> (result: Result<(), ContractError>)
        requires
            old(self).valid(),
        ensures
            final(self).valid(),
            match result {
                Ok(()) => {
                    &&& old(self)@.admin is None
                    &&& old(self)@.admin_key is Some
                    &&& final(self)@ == (ContractView { admin: Some(admin), ..old(self)@ })
                },
                Err(error) => {
                    &&& error is Unauthorized
                    &&& old(self)@.admin is Some || old(self)@.admin_key is None
                    &&& final(self)@ == old(self)@
                },
            },
    {
        if self.admin.is_some() || self.admin_key.is_none() {
            return Err(ContractError::Unauthorized);
        }
        self.admin = Some(admin);
        Ok(())
    }
}

} // verus!
