//! When the calls of the contract can be made: wherever the amounts that they take can
//! be held.

use crate::game::address::Address;
use crate::game::ending::fee_of;
use crate::game::escrow::balance_of;
use crate::game::state::{ContractError, GameContract, Transfer};
use crate::game::tournament::{
    creditable, credited, debited, lemma_share_bounds, lemma_share_sum_within, next_creditable,
    percentage_sum, share_sum, tournament_error,
};
use crate::game::tournament_laws::{hundredths, lemma_percentage_sum, stakes, sum_of};
use vstd::prelude::*;

verus! {

/// A wager can be taken exactly if there is a token, an identifier is left, and the
/// balance with the wager can be held; then the game can be created.
pub proof fn law_create_in_range(
    contract: &mut GameContract,
    before: &GameContract,
    player1: Address,
    wager_amount: i128,
    player_balance: i128,
    ledger: u32,
    transfers: &mut Vec<Transfer>,
    can: bool,
)
    requires
        contract.valid(),
        *before == *old(contract),
        call_ensures(GameContract::create_in_range, (before, player1, wager_amount), can),
    ensures
        can <==> {
            &&& before@.token_contract is Some
            &&& before@.game_counter < u64::MAX
            &&& i128::MIN <= balance_of(before@.escrow, player1) + wager_amount <= i128::MAX
        },
        can && player_balance >= wager_amount ==> call_requires(
            GameContract::create_game,
            (contract, player1, wager_amount, player_balance, ledger, transfers),
        ),
{
}

/// Joining can be tried wherever the contract has a token and the balance of the second
/// player with the wager can be held.
pub proof fn law_join_in_range(
    contract: &mut GameContract,
    before: &GameContract,
    game_id: u64,
    player2: Address,
    player2_balance: i128,
    transfers: &mut Vec<Transfer>,
    can: bool,
)
    requires
        contract.valid(),
        *before == *old(contract),
        call_ensures(GameContract::join_in_range, (before, game_id, player2, player2_balance), can),
    ensures
        ({
            &&& before@.token_contract is Some
            &&& i128::MIN <= balance_of(before@.escrow, player2)
                + before@.games[game_id].wager_amount <= i128::MAX
        }) ==> can,
        can ==> call_requires(
            GameContract::join_game,
            (contract, game_id, player2, player2_balance, transfers),
        ),
{
}

/// What joining is refused for before the balance of the player is known it is refused
/// for whatever the balance; otherwise the balance decides.
pub proof fn law_check_join_comes_first(
    contract: &mut GameContract,
    before: &GameContract,
    game_id: u64,
    player2: Address,
    player2_balance: i128,
    transfers: &mut Vec<Transfer>,
    checked: Result<(), ContractError>,
    result: Result<(), ContractError>,
)
    requires
        *before == *old(contract),
        call_ensures(GameContract::check_join, (before, game_id, player2), checked),
        call_ensures(
            GameContract::join_game,
            (contract, game_id, player2, player2_balance, transfers),
            result,
        ),
    ensures
        checked is Err ==> result == checked,
        checked is Ok && player2_balance >= before@.games[game_id].wager_amount ==> result is Ok,
        checked is Ok && player2_balance < before@.games[game_id].wager_amount ==> result
            == Err::<(), _>(ContractError::InsufficientFunds),
{
}

/// A move can be submitted at any time.
pub proof fn law_move_is_open(
    contract: &mut GameContract,
    game_id: u64,
    player: Address,
    move_data: Vec<u32>,
    ledger: u32,
)
    requires
        contract.valid(),
    ensures
        call_requires(
            GameContract::submit_move,
            (contract, game_id, player, move_data, ledger),
        ),
{
}

/// A draw can be claimed wherever the contract has a token and the balances of the
/// players without their wagers can be held.
pub proof fn law_draw_in_range(
    contract: &mut GameContract,
    before: &GameContract,
    game_id: u64,
    player: Address,
    transfers: &mut Vec<Transfer>,
    can: bool,
)
    requires
        contract.valid(),
        *before == *old(contract),
        call_ensures(GameContract::draw_in_range, (before, game_id, player), can),
    ensures
        ({
            let game = before@.games[game_id];
            let wager = game.wager_amount as int;
            &&& before@.token_contract is Some
            &&& i128::MIN <= balance_of(before@.escrow, game.player1) - wager <= i128::MAX
            &&& game.player2 matches Some(player2) ==> {
                &&& player2 != game.player1
                &&& i128::MIN <= balance_of(before@.escrow, player2) - wager <= i128::MAX
            }
        }) ==> can,
        can ==> call_requires(GameContract::claim_draw, (contract, game_id, player, transfers)),
{
}

/// A game can be given up wherever the contract has a token and the amounts that this
/// takes can be held.
pub proof fn law_forfeit_in_range(
    contract: &mut GameContract,
    before: &GameContract,
    game_id: u64,
    player: Address,
    transfers: &mut Vec<Transfer>,
    other: Address,
    can: bool,
)
    requires
        contract.valid(),
        *before == *old(contract),
        call_ensures(GameContract::forfeit_in_range, (before, game_id, player), can),
        other != player,
        other == before@.games[game_id].player1 || before@.games[game_id].player2 == Some(other),
    ensures
        ({
            let wager = before@.games[game_id].wager_amount as int;
            &&& before@.token_contract is Some
            &&& i128::MIN <= wager + wager <= i128::MAX
            &&& i128::MIN <= balance_of(before@.escrow, other) + wager + wager <= i128::MAX
            &&& i128::MIN <= balance_of(before@.escrow, player) - wager <= i128::MAX
        }) ==> can,
        can ==> call_requires(GameContract::forfeit, (contract, game_id, player, transfers)),
{
}

/// A winner can be paid wherever the contract has a token and the amounts that this
/// takes can be held.
pub proof fn law_payout_in_range(
    contract: &mut GameContract,
    before: &GameContract,
    game_id: u64,
    winner: Address,
    transfers: &mut Vec<Transfer>,
    loser: Address,
    can: bool,
)
    requires
        contract.valid(),
        *before == *old(contract),
        call_ensures(GameContract::payout_in_range, (before, game_id, winner), can),
        if winner == before@.games[game_id].player1 {
            before@.games[game_id].player2 == Some(loser)
        } else {
            loser == before@.games[game_id].player1
        },
        loser != winner,
    ensures
        ({
            let wager = before@.games[game_id].wager_amount as int;
            &&& before@.token_contract is Some
            &&& 0 <= wager
            &&& 2 * wager <= i128::MAX
            &&& wager <= balance_of(before@.escrow, winner)
            &&& wager <= balance_of(before@.escrow, loser)
            &&& balance_of(before@.escrow, winner) + 2 * wager <= i128::MAX
            &&& balance_of(before@.escrow, loser) + 2 * wager <= i128::MAX
            &&& before@.fees matches Some(fees) ==> {
                &&& 2 * wager * fees.rate <= i128::MAX
                &&& 0 <= balance_of(before@.escrow, fees.treasury)
                &&& balance_of(before@.escrow, fees.treasury) + 2 * wager + 2 * wager
                    * fees.rate <= i128::MAX
            }
        }) ==> can,
        can ==> call_requires(GameContract::payout, (contract, game_id, winner, transfers)),
{
    if before@.fees is Some {
        let fees = before@.fees->0;
        let pool = before@.games[game_id].wager_amount * 2;
        if pool >= 0 {
            assert(0 <= pool * fees.rate) by (nonlinear_arith)
                requires
                    pool >= 0,
            ;
            assert(0 <= fee_of(pool, fees) <= pool * fees.rate);
        }
    }
}

/// While the shares are credited no amount grows by more than the pool.
proof fn lemma_creditable(
    escrow: Map<Address, int>,
    winners: Seq<Address>,
    percentages: Seq<u32>,
    pool: int,
    n: nat,
)
    requires
        n <= winners.len(),
        winners.len() == percentages.len(),
        percentage_sum(percentages, percentages.len()) == 100,
        0 <= pool,
        100 * pool <= i128::MAX,
        forall|who: Address|
            0 <= #[trigger] balance_of(escrow, who) && balance_of(escrow, who) + pool
                <= i128::MAX,
    ensures
        forall|who: Address|
            0 <= #[trigger] balance_of(credited(escrow, winners, percentages, pool, n), who)
                && balance_of(credited(escrow, winners, percentages, pool, n), who)
                <= balance_of(escrow, who) + share_sum(pool, percentages, n),
        creditable(escrow, winners, percentages, pool, n),
    decreases n,
{
    if n > 0 {
        let m = (n - 1) as nat;
        lemma_creditable(escrow, winners, percentages, pool, m);
        lemma_share_bounds(pool, percentages[n - 1]);
        lemma_share_sum_within(pool, percentages, n);
        lemma_percentage_within(percentages, n);
        let percentage = percentages[n - 1];
        assert(0 <= pool * percentage <= pool * 100) by (nonlinear_arith)
            requires
                0 <= percentage <= 100,
                0 <= pool,
        ;
        let before = credited(escrow, winners, percentages, pool, m);
        assert(balance_of(before, winners[m as int]) <= balance_of(escrow, winners[m as int])
            + share_sum(pool, percentages, m));
        assert(next_creditable(escrow, winners, percentages, pool, m));
        assert forall|i: nat| i < n implies #[trigger] next_creditable(
            escrow,
            winners,
            percentages,
            pool,
            i,
        ) by {
            if i < m {
                assert(creditable(escrow, winners, percentages, pool, m));
            }
        }
        assert forall|who: Address|
            0 <= #[trigger] balance_of(credited(escrow, winners, percentages, pool, n), who)
                && balance_of(credited(escrow, winners, percentages, pool, n), who)
                <= balance_of(escrow, who) + share_sum(pool, percentages, n) by {
            assert(0 <= balance_of(before, who));
            assert(balance_of(before, who) <= balance_of(escrow, who) + share_sum(
                pool,
                percentages,
                m,
            ));
        }
    }
}

/// Percentages that make up a hundred are at most a hundred each.
proof fn lemma_percentage_within(percentages: Seq<u32>, n: nat)
    requires
        0 < n <= percentages.len(),
        percentage_sum(percentages, percentages.len()) == 100,
    ensures
        percentages[n - 1] <= 100,
{
    lemma_percentage_grows(percentages, (n - 1) as nat, (n - 1) as nat);
    lemma_percentage_grows(percentages, n, percentages.len());
}

/// The sums of percentages grow with the number of terms.
proof fn lemma_percentage_grows(percentages: Seq<u32>, m: nat, n: nat)
    requires
        m <= n <= percentages.len(),
    ensures
        0 <= percentage_sum(percentages, m) <= percentage_sum(percentages, n),
    decreases n,
{
    if m < n {
        lemma_percentage_grows(percentages, m, (n - 1) as nat);
    } else if n > 0 {
        lemma_percentage_grows(percentages, (m - 1) as nat, (n - 1) as nat);
    }
}

/// A tournament can be paid out wherever the sum of the percentages can be held, nobody
/// has a negative amount in escrow, and every amount with the pool added, and a hundred
/// times the pool, can be held.
pub proof fn law_tournament_in_range(
    contract: &mut GameContract,
    before: &GameContract,
    game_id: u64,
    winners: &Vec<Address>,
    percentages: &Vec<u32>,
    can: bool,
)
    requires
        contract.valid(),
        *before == *old(contract),
        call_ensures(
            GameContract::tournament_in_range,
            (before, game_id, winners, percentages),
            can,
        ),
    ensures
        ({
            let game = before@.games[game_id];
            &&& sum_of(hundredths(percentages@)) <= u32::MAX
            &&& 0 <= game.wager_amount
            &&& 100 * stakes(game) <= i128::MAX
            &&& forall|who: Address|
                0 <= #[trigger] balance_of(before@.escrow, who) && balance_of(
                    before@.escrow,
                    who,
                ) + stakes(game) <= i128::MAX
        }) ==> can,
        can ==> call_requires(
            GameContract::payout_tournament,
            (contract, game_id, winners, percentages),
        ),
{
    let game = before@.games[game_id];
    let pool = stakes(game);
    lemma_percentage_sum(percentages@, percentages@.len());
    assert(hundredths(percentages@).take(percentages@.len() as int) =~= hundredths(
        percentages@,
    ));
    let start = debited(before@.escrow, game);
    if {
        &&& tournament_error(
            before@,
            game_id,
            winners@,
            percentages@,
        ) is None
        &&& 0 <= game.wager_amount
        &&& 100 * pool <= i128::MAX
        &&& forall|who: Address|
            0 <= #[trigger] balance_of(before@.escrow, who) && balance_of(before@.escrow, who)
                + pool <= i128::MAX
    } {
        assert forall|who: Address|
            0 <= #[trigger] balance_of(start, who) && balance_of(start, who) + pool
                <= i128::MAX by {
            assert(0 <= balance_of(before@.escrow, who));
        }
        lemma_creditable(start, winners@, percentages@, pool, winners@.len());
        lemma_share_sum_within(pool, percentages@, percentages@.len());
        assert(0 <= balance_of(before@.escrow, game.player1));
        if winners@.len() > 0 {
            let paid = credited(start, winners@, percentages@, pool, winners@.len());
            assert(balance_of(paid, winners@[0]) <= balance_of(start, winners@[0]) + share_sum(
                pool,
                percentages@,
                winners@.len(),
            ));
            assert(balance_of(start, winners@[0]) + pool <= i128::MAX);
        }
    }
}

/// A call that would be refused can always be made, whatever the amounts: its refusal is
/// the answer.
pub proof fn law_refused_calls_are_open(
    contract: &GameContract,
    game_id: u64,
    who: Address,
    balance: i128,
    can_join: bool,
    can_draw: bool,
    can_forfeit: bool,
    can_pay: bool,
)
    requires
        call_ensures(GameContract::join_in_range, (contract, game_id, who, balance), can_join),
        call_ensures(GameContract::draw_in_range, (contract, game_id, who), can_draw),
        call_ensures(GameContract::forfeit_in_range, (contract, game_id, who), can_forfeit),
        call_ensures(GameContract::payout_in_range, (contract, game_id, who), can_pay),
    ensures
        ({
            let game = contract@.games[game_id];
            let found = contract@.games.contains_key(game_id);
            let plays = who == game.player1 || game.player2 == Some(who);
            &&& !(found && game.state is Created && game.player2 is None && who != game.player1)
                ==> can_join
            &&& !(found && game.state is InProgress && plays) ==> can_draw && can_forfeit
            &&& game.player2 is None ==> can_forfeit
            &&& !(found && game.state is Completed && game.winner == Some(who)) ==> can_pay
        }),
{
}

/// So it is with a tournament, if the sum of the percentages can be held.
pub proof fn law_refused_tournament_is_open(
    contract: &GameContract,
    game_id: u64,
    winners: &Vec<Address>,
    percentages: &Vec<u32>,
    can: bool,
)
    requires
        call_ensures(
            GameContract::tournament_in_range,
            (contract, game_id, winners, percentages),
            can,
        ),
    ensures
        ({
            let game = contract@.games[game_id];
            let found = contract@.games.contains_key(game_id);
            let sum = sum_of(hundredths(percentages@));
            let funded = balance_of(contract@.escrow, game.player1) >= game.wager_amount && (
            game.player2 matches Some(player2) ==> balance_of(contract@.escrow, player2)
                >= game.wager_amount);
            &&& !(found && game.state is Completed) ==> can
            &&& winners@.len() != percentages@.len() ==> can
            &&& sum <= u32::MAX && (sum != 100 || !funded) ==> can
        }),
{
    lemma_percentage_sum(percentages@, percentages@.len());
    assert(hundredths(percentages@).take(percentages@.len() as int) =~= hundredths(
        percentages@,
    ));
}

} // verus!
