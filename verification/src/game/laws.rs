//! What holds of the contract as a whole.

use crate::game::address::Address;
use crate::game::contract::{
    join_error, join_refusal, move_error, with_created, with_joined, with_move,
};
use crate::game::ending::{
    draw_error, draw_transfers, fee_of, forfeit_error, opponent_of, payout_refusal, pool_of,
    shared_escrow, with_draw, with_forfeit,
};
use crate::game::escrow::{adjusted, balance_of, in_range};
use crate::game::state::{ContractError, ContractView, Fees, GameView, Transfer};
use crate::game::tournament::{
    credited, debited, lemma_share_bounds, lemma_share_sum_within, percentage_sum, remainder_of,
    share_of, share_sum, shared_out, stakes_of, tournament_error,
};
use vstd::prelude::*;

verus! {

/// Sum of all amounts in escrow.
pub open spec fn total(escrow: Map<Address, int>) -> int
    recommends
        escrow.dom().finite(),
    decreases escrow.dom().len(),
    when escrow.dom().finite()
{
    if escrow.dom().len() == 0 {
        0
    } else {
        let who = escrow.dom().choose();
        escrow[who] + total(escrow.remove(who))
    }
}

/// The sum does not depend on the order of the terms.
proof fn lemma_total_remove(escrow: Map<Address, int>, who: Address)
    requires
        escrow.dom().finite(),
        escrow.contains_key(who),
    ensures
        total(escrow) == escrow[who] + total(escrow.remove(who)),
    decreases escrow.dom().len(),
{
    let first = escrow.dom().choose();
    assert(escrow.dom().contains(first));
    if first != who {
        let rest = escrow.remove(first);
        lemma_total_remove(rest, who);
        lemma_total_remove(escrow.remove(who), first);
        assert(rest.remove(who) =~= escrow.remove(who).remove(first));
    }
}

/// Adding an amount for an address adds it to the sum.
proof fn lemma_total_adjusted(escrow: Map<Address, int>, who: Address, amount: int)
    requires
        escrow.dom().finite(),
    ensures
        adjusted(escrow, who, amount).dom().finite(),
        total(adjusted(escrow, who, amount)) == total(escrow) + amount,
{
    let after = adjusted(escrow, who, amount);
    lemma_total_remove(after, who);
    if escrow.contains_key(who) {
        lemma_total_remove(escrow, who);
        assert(after.remove(who) =~= escrow.remove(who));
    } else {
        assert(after.remove(who) =~= escrow);
    }
}

/// Creating a game adds exactly the wager to the escrow.
pub proof fn law_create_adds_wager(
    contract: ContractView,
    player1: Address,
    wager_amount: i128,
    ledger: u32,
)
    requires
        contract.escrow.dom().finite(),
    ensures
        total(with_created(contract, player1, wager_amount, ledger).escrow) == total(
            contract.escrow,
        ) + wager_amount,
{
    lemma_total_adjusted(contract.escrow, player1, wager_amount as int);
}

/// Joining a game adds exactly the wager of the game to the escrow.
pub proof fn law_join_adds_wager(contract: ContractView, game_id: u64, player2: Address)
    requires
        contract.escrow.dom().finite(),
    ensures
        total(with_joined(contract, game_id, player2).escrow) == total(contract.escrow)
            + contract.games[game_id].wager_amount,
{
    lemma_total_adjusted(
        contract.escrow,
        player2,
        contract.games[game_id].wager_amount as int,
    );
}

/// A draw takes exactly the stakes of the players out of escrow.
pub proof fn law_draw_returns_stakes(contract: ContractView, game_id: u64)
    requires
        contract.escrow.dom().finite(),
    ensures
        total(with_draw(contract, game_id).escrow) == total(contract.escrow) - stakes_of(
            contract.games[game_id],
        ),
{
    let game = contract.games[game_id];
    lemma_total_adjusted(contract.escrow, game.player1, -game.wager_amount);
    let first = adjusted(contract.escrow, game.player1, -game.wager_amount);
    if let Some(player2) = game.player2 {
        lemma_total_adjusted(first, player2, -game.wager_amount);
    }
}

/// A draw of a game that was created and joined undoes both deposits: both players
/// have in escrow what they had before.
pub proof fn law_draw_undoes_deposits(
    contract: ContractView,
    player1: Address,
    player2: Address,
    wager_amount: i128,
    ledger: u32,
    who: Address,
)
    requires
        contract.game_counter < u64::MAX,
        player1 != player2,
    ensures
        ({
            let created = with_created(contract, player1, wager_amount, ledger);
            let joined = with_joined(created, created.game_counter, player2);
            balance_of(with_draw(joined, created.game_counter).escrow, who) == balance_of(
                contract.escrow,
                who,
            )
        }),
{
}

/// What the contract holds of the token after the transfers.
pub open spec fn held(transfers: Seq<Transfer>) -> int
    decreases transfers.len(),
{
    if transfers.len() == 0 {
        0
    } else {
        held(transfers.drop_last()) + match transfers.last() {
            Transfer::Deposit { amount, .. } => amount as int,
            Transfer::Payout { amount, .. } => -amount,
        }
    }
}

/// The contract pays out exactly what the players of a game deposited, whether the
/// game ends by a draw or one of them gives it up.
pub proof fn law_ending_pays_out_deposits(game: GameView, player2: Address, winner: Address)
    requires
        game.player2 == Some(player2),
        in_range(pool_of(game)),
    ensures
        ({
            let deposits = seq![
                Transfer::Deposit { from: game.player1, amount: game.wager_amount },
                Transfer::Deposit { from: player2, amount: game.wager_amount },
            ];
            let payout = Transfer::Payout { to: winner, amount: pool_of(game) as i128 };
            &&& held(deposits) == pool_of(game)
            &&& held(deposits + draw_transfers(game)) == 0
            &&& held(deposits.push(payout)) == 0
        }),
{
    let first = Transfer::Deposit { from: game.player1, amount: game.wager_amount };
    let second = Transfer::Deposit { from: player2, amount: game.wager_amount };
    let back1 = Transfer::Payout { to: game.player1, amount: game.wager_amount };
    let back2 = Transfer::Payout { to: player2, amount: game.wager_amount };
    let payout = Transfer::Payout { to: winner, amount: pool_of(game) as i128 };
    let deposits = seq![first, second];
    lemma_held_push(Seq::empty(), first);
    lemma_held_push(seq![first], second);
    assert(Seq::empty().push(first) =~= seq![first]);
    assert(seq![first].push(second) =~= deposits);
    lemma_held_push(deposits, payout);
    lemma_held_push(deposits, back1);
    lemma_held_push(deposits.push(back1), back2);
    assert(deposits + draw_transfers(game) =~= deposits.push(back1).push(back2));
}

/// One more transfer changes what the contract holds by its amount.
proof fn lemma_held_push(transfers: Seq<Transfer>, transfer: Transfer)
    ensures
        held(transfers.push(transfer)) == held(transfers) + match transfer {
            Transfer::Deposit { amount, .. } => amount as int,
            Transfer::Payout { amount, .. } => -amount,
        },
{
    assert(transfers.push(transfer).drop_last() =~= transfers);
}

/// With fees the payout of a winner moves amounts within the escrow and keeps
/// their sum.
pub proof fn law_fees_keep_total(
    escrow: Map<Address, int>,
    winner: Address,
    loser: Address,
    wager_amount: int,
    fees: Fees,
)
    requires
        escrow.dom().finite(),
    ensures
        total(shared_escrow(escrow, winner, loser, wager_amount, fees)) == total(escrow),
{
    let fee = fee_of(wager_amount * 2, fees);
    let prize = wager_amount * 2 - fee;
    lemma_total_adjusted(escrow, loser, -wager_amount);
    let first = adjusted(escrow, loser, -wager_amount);
    lemma_total_adjusted(first, winner, -wager_amount);
    let second = adjusted(first, winner, -wager_amount);
    lemma_total_adjusted(second, winner, prize);
    lemma_total_adjusted(adjusted(second, winner, prize), fees.treasury, fee);
}

/// The shares of a tournament and what rounding leaves make up exactly the pool,
/// and rounding leaves less than one unit for each winner.
pub proof fn law_shares_make_up_pool(pool: int, percentages: Seq<u32>)
    requires
        pool >= 0,
        percentage_sum(percentages, percentages.len()) == 100,
    ensures
        share_sum(pool, percentages, percentages.len()) + remainder_of(pool, percentages) == pool,
        0 <= remainder_of(pool, percentages) < percentages.len(),
{
    lemma_share_sum_within(pool, percentages, percentages.len());
    lemma_rounding_loss(pool, percentages, percentages.len());
    assert(percentages.len() > 0);
}

/// Each share falls short of its exact part of the pool by less than one.
proof fn lemma_rounding_loss(pool: int, percentages: Seq<u32>, n: nat)
    requires
        pool >= 0,
        n <= percentages.len(),
    ensures
        pool * percentage_sum(percentages, n) <= 100 * share_sum(pool, percentages, n) + 99 * n,
    decreases n,
{
    if n == 0 {
        assert(pool * percentage_sum(percentages, n) == 0);
    } else {
        let m = (n - 1) as nat;
        lemma_rounding_loss(pool, percentages, m);
        let product = pool * percentages[n - 1];
        assert(product >= 0) by (nonlinear_arith)
            requires
                pool >= 0,
                product == pool * percentages[n - 1],
        ;
        assert(pool * percentage_sum(percentages, n) == pool * percentage_sum(percentages, m)
            + pool * percentages[n - 1]) by (nonlinear_arith)
            requires
                percentage_sum(percentages, n) == percentage_sum(percentages, m)
                    + percentages[n - 1],
        ;
    }
}

/// Crediting the winners adds their shares to the sum.
proof fn lemma_total_credited(
    escrow: Map<Address, int>,
    winners: Seq<Address>,
    percentages: Seq<u32>,
    pool: int,
    n: nat,
)
    requires
        escrow.dom().finite(),
    ensures
        credited(escrow, winners, percentages, pool, n).dom().finite(),
        total(credited(escrow, winners, percentages, pool, n)) == total(escrow) + share_sum(
            pool,
            percentages,
            n,
        ),
    decreases n,
{
    if n > 0 {
        let m = (n - 1) as nat;
        lemma_total_credited(escrow, winners, percentages, pool, m);
        lemma_total_adjusted(
            credited(escrow, winners, percentages, pool, m),
            winners[n - 1],
            share_of(pool, percentages[n - 1]),
        );
    }
}

/// Sharing out a tournament moves amounts within the escrow and keeps their sum:
/// what the players lose is exactly what the winners get.
pub proof fn law_tournament_keeps_total(
    escrow: Map<Address, int>,
    game: GameView,
    winners: Seq<Address>,
    percentages: Seq<u32>,
)
    requires
        escrow.dom().finite(),
        winners.len() == percentages.len(),
        percentage_sum(percentages, percentages.len()) == 100,
        game.wager_amount >= 0,
        game.player2 != Some(game.player1),
    ensures
        total(shared_out(escrow, game, winners, percentages)) == total(escrow),
{
    let pool = stakes_of(game);
    let start = debited(escrow, game);
    lemma_total_adjusted(escrow, game.player1, -game.wager_amount);
    if let Some(player2) = game.player2 {
        let first = adjusted(escrow, game.player1, -game.wager_amount);
        lemma_total_adjusted(first, player2, -game.wager_amount);
        assert(start =~= adjusted(first, player2, -game.wager_amount));
    }
    lemma_total_credited(start, winners, percentages, pool, winners.len());
    law_shares_make_up_pool(pool, percentages);
    let paid = credited(start, winners, percentages, pool, winners.len());
    lemma_total_adjusted(paid, winners[0], remainder_of(pool, percentages));
}

/// Crediting the winners takes nothing from anyone.
proof fn lemma_credited_grows(
    escrow: Map<Address, int>,
    winners: Seq<Address>,
    percentages: Seq<u32>,
    pool: int,
    n: nat,
    who: Address,
)
    requires
        pool >= 0,
        n <= winners.len(),
    ensures
        balance_of(credited(escrow, winners, percentages, pool, n), who) >= balance_of(
            escrow,
            who,
        ),
        !winners.contains(who) ==> balance_of(
            credited(escrow, winners, percentages, pool, n),
            who,
        ) == balance_of(escrow, who),
    decreases n,
{
    if n > 0 {
        lemma_credited_grows(escrow, winners, percentages, pool, (n - 1) as nat, who);
        lemma_share_bounds(pool, percentages[n - 1]);
        assert(winners.contains(winners[n - 1]));
    }
}

/// Sharing out a tournament leaves nobody with a negative amount in escrow.
pub proof fn law_tournament_keeps_escrow_nonnegative(
    contract: ContractView,
    game_id: u64,
    winners: Seq<Address>,
    percentages: Seq<u32>,
    who: Address,
)
    requires
        tournament_error(contract, game_id, winners, percentages) is None,
        contract.games[game_id].wager_amount >= 0,
        balance_of(contract.escrow, who) >= 0,
    ensures
        balance_of(
            shared_out(contract.escrow, contract.games[game_id], winners, percentages),
            who,
        ) >= 0,
{
    let game = contract.games[game_id];
    let start = debited(contract.escrow, game);
    assert(balance_of(start, who) >= 0);
    lemma_credited_grows(start, winners, percentages, stakes_of(game), winners.len(), who);
}

/// The pool is not paid out twice: where one of the players had less than two wagers in
/// escrow and is no winner, a second call is refused.
pub proof fn law_tournament_not_paid_twice(
    contract: ContractView,
    game_id: u64,
    player: Address,
    winners: Seq<Address>,
    percentages: Seq<u32>,
    next_winners: Seq<Address>,
    next_percentages: Seq<u32>,
)
    requires
        tournament_error(contract, game_id, winners, percentages) is None,
        contract.games[game_id].wager_amount >= 0,
        contract.games[game_id].has_player(player),
        balance_of(contract.escrow, player) < 2 * contract.games[game_id].wager_amount,
        !winners.contains(player),
        next_winners.len() == next_percentages.len(),
        percentage_sum(next_percentages, next_percentages.len()) == 100,
    ensures
        ({
            let paid = ContractView {
                escrow: shared_out(
                    contract.escrow,
                    contract.games[game_id],
                    winners,
                    percentages,
                ),
                ..contract
            };
            tournament_error(paid, game_id, next_winners, next_percentages) == Some(
                ContractError::InsufficientFunds,
            )
        }),
{
    let game = contract.games[game_id];
    let start = debited(contract.escrow, game);
    lemma_credited_grows(start, winners, percentages, stakes_of(game), winners.len(), player);
    if winners.len() > 0 {
        assert(winners.contains(winners[0]));
    }
}

/// The identifiers of all games are at most the counter.
pub open spec fn ids_counted(contract: ContractView) -> bool {
    forall|id: u64| #[trigger]
        contract.games.contains_key(id) ==> id <= contract.game_counter && contract.games[id].id
            == id
}

/// A new game gets an identifier that no other game has, and leaves the other games
/// as they are.
pub proof fn law_create_uses_fresh_id(
    contract: ContractView,
    player1: Address,
    wager_amount: i128,
    ledger: u32,
    other: u64,
)
    requires
        ids_counted(contract),
        contract.game_counter < u64::MAX,
    ensures
        ({
            let after = with_created(contract, player1, wager_amount, ledger);
            &&& !contract.games.contains_key(after.game_counter)
            &&& after.games.contains_key(after.game_counter)
            &&& contract.games.contains_key(other) ==> after.games.contains_pair(
                other,
                contract.games[other],
            )
            &&& ids_counted(after)
        }),
{
}

/// A game that has ended stays as it is: nobody can join it, move, claim a draw or
/// give it up.
pub proof fn law_ended_game_is_closed(
    contract: ContractView,
    game_id: u64,
    who: Address,
    balance: i128,
    move_data: Seq<u32>,
)
    requires
        contract.games.contains_key(game_id),
        contract.games[game_id].state is Completed || contract.games[game_id].state is Drawn
            || contract.games[game_id].state is Forfeited,
    ensures
        join_error(contract, game_id, who, balance) == Some(ContractError::GameAlreadyCompleted),
        move_error(contract, game_id, who, move_data) == Some(ContractError::GameNotInProgress),
        draw_error(contract, game_id, who) == Some(ContractError::GameNotInProgress),
        forfeit_error(contract, game_id, who) == Some(ContractError::GameNotInProgress),
{
}

/// A game is drawn or given up at most once, so its stakes leave escrow at most
/// once: afterwards neither is possible, and no winner can be paid.
pub proof fn law_game_ends_once(
    contract: ContractView,
    game_id: u64,
    player: Address,
    who: Address,
)
    requires
        contract.games.contains_key(game_id),
    ensures
        draw_error(with_draw(contract, game_id), game_id, who) == Some(
            ContractError::GameNotInProgress,
        ),
        forfeit_error(with_draw(contract, game_id), game_id, who) == Some(
            ContractError::GameNotInProgress,
        ),
        payout_refusal(with_draw(contract, game_id), game_id, who) == Some(
            ContractError::GameNotInProgress,
        ),
        draw_error(with_forfeit(contract, game_id, player), game_id, who) == Some(
            ContractError::GameNotInProgress,
        ),
        forfeit_error(with_forfeit(contract, game_id, player), game_id, who) == Some(
            ContractError::GameNotInProgress,
        ),
        payout_refusal(with_forfeit(contract, game_id, player), game_id, who) == Some(
            ContractError::GameNotInProgress,
        ),
{
}

/// Once a player has joined, no other can.
pub proof fn law_game_is_joined_once(
    contract: ContractView,
    game_id: u64,
    player2: Address,
    other: Address,
)
    ensures
        join_refusal(with_joined(contract, game_id, player2), game_id, other) == Some(
            ContractError::GameAlreadyCompleted,
        ),
{
}

/// The players take turns: after a move the same player has to wait, and the other
/// one may move.
pub proof fn law_players_take_turns(
    contract: ContractView,
    game_id: u64,
    player: Address,
    move_data: Seq<u32>,
    ledger: u32,
    next_data: Seq<u32>,
)
    requires
        move_error(contract, game_id, player, move_data) is None,
        contract.games[game_id].player2 is Some,
        contract.games[game_id].player2 != Some(contract.games[game_id].player1),
        next_data.len() > 0,
    ensures
        ({
            let after = with_move(contract, game_id, player, move_data, ledger);
            let other = opponent_of(contract.games[game_id], player)->0;
            &&& move_error(after, game_id, player, next_data) == Some(ContractError::NotYourTurn)
            &&& move_error(after, game_id, other, next_data) is None
        }),
{
}

} // verus!
