//! What holds of the settings of the contract: its token, its admin and its fees.

use crate::game::address::Address;
use crate::game::state::{ContractError, ContractView, GameContract};
use vstd::prelude::*;

verus! {

/// A new contract has no settings, no games and nothing in escrow.
pub proof fn law_new_contract_is_blank(contract: GameContract, game_id: u64, who: Address)
    requires
        call_ensures(GameContract::new, (), contract),
    ensures
        contract@.token_contract is None,
        contract@.admin is None,
        contract@.admin_key is None,
        contract@.fees is None,
        contract@.game_counter == 0,
        !contract@.games.contains_key(game_id),
        !contract@.escrow.contains_key(who),
{
}

/// The token that a contract was given is the one that it answers with; nothing else
/// changes, and a second token is not taken.
pub proof fn law_token_is_kept(
    contract: &mut GameContract,
    token_contract: Address,
    after: &GameContract,
    answer: Address,
)
    requires
        call_ensures(GameContract::initialize, (contract, token_contract), ()),
        *after == *final(contract),
        call_ensures(GameContract::token_contract_address, (after,), answer),
    ensures
        answer == token_contract,
        final(contract)@.token_contract == Some(token_contract),
        final(contract)@ == (ContractView {
            token_contract: final(contract)@.token_contract,
            ..old(contract)@
        }),
{
}

/// The first settings are those that were given; nothing else changes.
pub proof fn law_first_settings_are_kept(
    contract: &mut GameContract,
    admin: Address,
    admin_key: Vec<u8>,
    rate: u32,
    treasury: Address,
)
    requires
        call_ensures(
            GameContract::initialize_fees,
            (contract, admin, admin_key, rate, treasury),
            (),
        ),
    ensures
        final(contract)@.admin == Some(admin),
        final(contract)@.admin_key == Some(admin_key@),
        final(contract)@.fees is Some,
        final(contract)@.fees->0.rate == rate,
        final(contract)@.fees->0.treasury == treasury,
        final(contract)@.token_contract == old(contract)@.token_contract,
        final(contract)@.game_counter == old(contract)@.game_counter,
        final(contract)@.games == old(contract)@.games,
        final(contract)@.escrow == old(contract)@.escrow,
{
}

/// The admin, and nobody else, may change the fees, as often as it likes; the latest fees
/// count. Nothing else changes, and a refused call changes nothing.
pub proof fn law_only_admin_sets_fees(
    contract: &mut GameContract,
    caller: Address,
    rate: u32,
    treasury: Address,
    result: Result<(), ContractError>,
)
    requires
        call_ensures(GameContract::configure_fees, (contract, caller, rate, treasury), result),
    ensures
        result is Ok <==> old(contract)@.admin == Some(caller),
        result is Err ==> result == Err::<(), _>(ContractError::Unauthorized),
        result is Err ==> final(contract)@ == old(contract)@,
        result is Ok ==> {
            &&& final(contract)@.fees is Some
            &&& final(contract)@.fees->0.rate == rate
            &&& final(contract)@.fees->0.treasury == treasury
            &&& final(contract)@.token_contract == old(contract)@.token_contract
            &&& final(contract)@.admin == old(contract)@.admin
            &&& final(contract)@.admin_key == old(contract)@.admin_key
            &&& final(contract)@.game_counter == old(contract)@.game_counter
            &&& final(contract)@.games == old(contract)@.games
            &&& final(contract)@.escrow == old(contract)@.escrow
        },
{
}

/// An admin is named once, for a contract that has the key of its backend: the first call
/// names it, and all later calls are refused and change nothing.
pub proof fn law_admin_is_named_once(
    first: &mut GameContract,
    second: &mut GameContract,
    admin: Address,
    other: Address,
    named: Result<(), ContractError>,
    named_again: Result<(), ContractError>,
)
    requires
        call_ensures(GameContract::upgrade_admin, (first, admin), named),
        *second == *final(first),
        call_ensures(GameContract::upgrade_admin, (second, other), named_again),
    ensures
        named is Ok <==> old(first)@.admin is None && old(first)@.admin_key is Some,
        named is Err ==> named == Err::<(), _>(ContractError::Unauthorized),
        named is Err ==> final(first)@ == old(first)@,
        named is Ok ==> {
            &&& final(first)@.admin == Some(admin)
            &&& final(first)@.admin_key == old(first)@.admin_key
            &&& final(first)@.fees == old(first)@.fees
            &&& final(first)@.token_contract == old(first)@.token_contract
            &&& final(first)@.game_counter == old(first)@.game_counter
            &&& final(first)@.games == old(first)@.games
            &&& final(first)@.escrow == old(first)@.escrow
        },
        named_again == Err::<(), _>(ContractError::Unauthorized),
        final(second)@ == final(first)@,
{
}

/// Who was named admin may set the fees.
pub proof fn law_named_admin_sets_fees(
    first: &mut GameContract,
    second: &mut GameContract,
    admin: Address,
    caller: Address,
    rate: u32,
    treasury: Address,
    result: Result<(), ContractError>,
)
    requires
        call_ensures(GameContract::upgrade_admin, (first, admin), Ok::<(), ContractError>(())),
        *second == *final(first),
        call_ensures(GameContract::configure_fees, (second, caller, rate, treasury), result),
    ensures
        result is Ok <==> caller == admin,
{
}

/// The settings can be given to a contract that has none yet.
pub proof fn law_settings_are_open(
    contract: &mut GameContract,
    token_contract: Address,
    admin: Address,
    admin_key: Vec<u8>,
    rate: u32,
    treasury: Address,
)
    requires
        contract.valid(),
    ensures
        old(contract)@.token_contract is None ==> call_requires(
            GameContract::initialize,
            (contract, token_contract),
        ),
        old(contract)@.admin is None && old(contract)@.admin_key is None ==> call_requires(
            GameContract::initialize_fees,
            (contract, admin, admin_key, rate, treasury),
        ),
        call_requires(GameContract::configure_fees, (contract, admin, rate, treasury)),
        call_requires(GameContract::upgrade_admin, (contract, admin)),
{
}

} // verus!
