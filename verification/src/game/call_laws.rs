//! What the calls of the contract do: how their results and the state that they leave
//! follow from their arguments and the state that they find.

use crate::game::address::Address;
use crate::game::ending::fee_of;
use crate::game::escrow::{balance_of, Escrow};
use crate::game::state::{ContractError, Fees, Game, GameContract, Transfer};
use vstd::prelude::*;

verus! {

/// An address has in escrow what is entered for it, and nothing without an entry.
pub proof fn law_balance_is_the_entry(escrow: Map<Address, int>, who: Address, amount: int)
    ensures
        balance_of(escrow.insert(who, amount), who) == amount,
        balance_of(escrow.remove(who), who) == 0,
{
}

/// Setting the amount of an address is what a later query gives back; the amounts of all
/// others stay.
pub proof fn law_escrow_gives_back_what_was_set(
    escrow: &mut Escrow,
    who: Address,
    amount: i128,
    after: &Escrow,
    other: Address,
    read: i128,
)
    requires
        call_ensures(Escrow::set, (escrow, who, amount), ()),
        *after == *final(escrow),
        call_ensures(Escrow::balance, (after, other), read),
    ensures
        other == who ==> read == amount,
        other != who ==> read == balance_of(old(escrow)@, other),
        after@.contains_key(other) <==> other == who || old(escrow)@.contains_key(other),
{
}

/// Adding to an address and deducting as much again leaves every amount as it was;
/// where the sum cannot be held nothing changes.
pub proof fn law_escrow_deduct_undoes_adjust(
    first: &mut Escrow,
    second: &mut Escrow,
    who: Address,
    amount: i128,
    added: bool,
    deducted: bool,
    other: Address,
)
    requires
        first.valid(),
        call_ensures(Escrow::adjust, (first, who, amount), added),
        *second == *final(first),
        call_ensures(Escrow::deduct, (second, who, amount), deducted),
    ensures
        added <==> i128::MIN <= balance_of(old(first)@, who) + amount <= i128::MAX,
        added ==> deducted,
        added ==> balance_of(final(first)@, who) == balance_of(old(first)@, who) + amount,
        added && other != who ==> balance_of(final(first)@, other) == balance_of(
            old(first)@,
            other,
        ),
        added ==> (final(first)@.contains_key(other) <==> other == who || old(
            first,
        )@.contains_key(other)),
        added ==> balance_of(final(second)@, other) == balance_of(old(first)@, other),
        !added ==> final(first)@ == old(first)@,
{
    first.lemma_in_range(who);
}

/// What a game shows is what it holds.
pub proof fn law_game_shows_what_it_holds(game: Game, i: int)
    requires
        0 <= i < game.moves@.len(),
    ensures
        game@.id == game.id,
        game@.player1 == game.player1,
        game@.player2 == game.player2,
        game@.state == game.state,
        game@.wager_amount == game.wager_amount,
        game@.current_turn == game.current_turn,
        game@.created_at == game.created_at,
        game@.winner == game.winner,
        game@.moves.len() == game.moves@.len(),
        game@.moves[i].player == game.moves@[i].player,
        game@.moves[i].move_data == game.moves@[i].move_data@,
        game@.moves[i].timestamp == game.moves@[i].timestamp,
{
}

/// What a contract shows is what it holds.
pub proof fn law_contract_shows_what_it_holds(contract: GameContract, game_id: u64)
    ensures
        contract@.token_contract == contract.token_contract,
        contract@.admin == contract.admin,
        contract.admin_key is None <==> contract@.admin_key is None,
        contract.admin_key matches Some(key) ==> contract@.admin_key == Some(key@),
        contract@.fees == contract.fees,
        contract@.game_counter == contract.game_counter,
        contract@.games.contains_key(game_id) <==> contract.games@.contains_key(game_id),
        contract.games@.contains_key(game_id) ==> contract@.games[game_id]
            == contract.games@[game_id]@,
        contract@.escrow == contract.escrow@,
{
}

/// The numbers of the errors are those that callers of the contract rely on.
pub proof fn law_error_numbers(error: ContractError, code: u32)
    requires
        call_ensures(ContractError::code, (error,), code),
    ensures
        error is GameNotFound <==> code == 1,
        error is NotYourTurn <==> code == 2,
        error is GameNotInProgress <==> code == 3,
        error is InvalidMove <==> code == 4,
        error is InsufficientFunds <==> code == 5,
        error is AlreadyJoined <==> code == 6,
        error is GameFull <==> code == 7,
        error is NotPlayer <==> code == 8,
        error is GameAlreadyCompleted <==> code == 9,
        error is DrawNotAvailable <==> code == 10,
        error is ForfeitNotAllowed <==> code == 11,
        error is InvalidPercentage <==> code == 12,
        error is MismatchedLengths <==> code == 13,
        error is Unauthorized <==> code == 14,
        error is StakeLimitExceeded <==> code == 15,
{
}

/// A game is found exactly if there is one of the identifier, and as it is stored.
pub proof fn law_get_game_finds_stored_games(
    contract: &GameContract,
    game_id: u64,
    found: Result<&Game, ContractError>,
)
    requires
        call_ensures(GameContract::get_game, (contract, game_id), found),
    ensures
        found is Ok <==> contract.games@.contains_key(game_id),
        found matches Ok(game) ==> game@ == contract.games@[game_id]@,
        found matches Err(error) ==> error is GameNotFound,
{
}

/// A created game waits for a second player. It has the next identifier, the wager of
/// its creator has gone into escrow and is to be collected, and all else stays.
pub proof fn law_created_game_awaits_opponent(
    contract: &mut GameContract,
    player1: Address,
    wager_amount: i128,
    player_balance: i128,
    ledger: u32,
    transfers: &mut Vec<Transfer>,
    game_id: u64,
    who: Address,
)
    requires
        call_ensures(
            GameContract::create_game,
            (contract, player1, wager_amount, player_balance, ledger, transfers),
            game_id,
        ),
    ensures
        game_id == old(contract)@.game_counter + 1,
        final(contract)@.game_counter == game_id,
        final(contract)@.games == old(contract)@.games.insert(
            game_id,
            final(contract)@.games[game_id],
        ),
        ({
            let game = final(contract)@.games[game_id];
            &&& game.id == game_id
            &&& game.player1 == player1
            &&& game.player2 is None
            &&& game.state is Created
            &&& game.wager_amount == wager_amount
            &&& game.current_turn == 1
            &&& game.moves.len() == 0
            &&& game.created_at == ledger
            &&& game.winner is None
        }),
        balance_of(final(contract)@.escrow, who) == balance_of(old(contract)@.escrow, who) + (
        if who == player1 {
            wager_amount as int
        } else {
            0
        }),
        final(contract)@.escrow.dom() == old(contract)@.escrow.dom().insert(player1),
        final(transfers)@ == old(transfers)@.push(
            Transfer::Deposit { from: player1, amount: wager_amount },
        ),
        final(contract)@.token_contract == old(contract)@.token_contract,
        final(contract)@.admin == old(contract)@.admin,
        final(contract)@.admin_key == old(contract)@.admin_key,
        final(contract)@.fees == old(contract)@.fees,
{
    assert(final(contract)@.games =~= old(contract)@.games.insert(
        game_id,
        final(contract)@.games[game_id],
    ));
    assert(final(contract)@.escrow.dom() =~= old(contract)@.escrow.dom().insert(player1));
}

/// Anyone but its creator who has the wager may join a game that waits for a second
/// player, and nobody else; each refusal says what stands in the way.
pub proof fn law_who_may_join(
    contract: &mut GameContract,
    game_id: u64,
    player2: Address,
    player2_balance: i128,
    transfers: &mut Vec<Transfer>,
    result: Result<(), ContractError>,
)
    requires
        call_ensures(
            GameContract::join_game,
            (contract, game_id, player2, player2_balance, transfers),
            result,
        ),
    ensures
        ({
            let game = old(contract)@.games[game_id];
            let found = old(contract)@.games.contains_key(game_id);
            let open = found && game.state is Created;
            let free = open && game.player2 is None;
            &&& result is Ok <==> free && player2 != game.player1 && player2_balance
                >= game.wager_amount
            &&& result == Err::<(), _>(ContractError::GameNotFound) <==> !found
            &&& result == Err::<(), _>(ContractError::GameAlreadyCompleted) <==> found && !open
            &&& result == Err::<(), _>(ContractError::GameFull) <==> open && !free
            &&& result == Err::<(), _>(ContractError::AlreadyJoined) <==> free && player2
                == game.player1
            &&& result == Err::<(), _>(ContractError::InsufficientFunds) <==> free && player2
                != game.player1 && player2_balance < game.wager_amount
        }),
        result is Err ==> final(contract)@ == old(contract)@ && final(transfers)@ == old(
            transfers,
        )@,
{
}

/// Joining a game starts it with the move of its creator. The wager of the second player
/// has gone into escrow and is to be collected, and all else stays.
pub proof fn law_joined_game_is_in_progress(
    contract: &mut GameContract,
    game_id: u64,
    player2: Address,
    player2_balance: i128,
    transfers: &mut Vec<Transfer>,
    who: Address,
)
    requires
        call_ensures(
            GameContract::join_game,
            (contract, game_id, player2, player2_balance, transfers),
            Ok::<(), ContractError>(()),
        ),
    ensures
        final(contract)@.games == old(contract)@.games.insert(
            game_id,
            final(contract)@.games[game_id],
        ),
        ({
            let before = old(contract)@.games[game_id];
            let game = final(contract)@.games[game_id];
            &&& game.player2 == Some(player2)
            &&& game.state is InProgress
            &&& game.current_turn == 1
            &&& game.id == before.id
            &&& game.player1 == before.player1
            &&& game.wager_amount == before.wager_amount
            &&& game.moves == before.moves
            &&& game.created_at == before.created_at
            &&& game.winner == before.winner
        }),
        balance_of(final(contract)@.escrow, who) == balance_of(old(contract)@.escrow, who) + (
        if who == player2 {
            old(contract)@.games[game_id].wager_amount as int
        } else {
            0
        }),
        final(contract)@.escrow.dom() == old(contract)@.escrow.dom().insert(player2),
        final(transfers)@ == old(transfers)@.push(
            Transfer::Deposit {
                from: player2,
                amount: old(contract)@.games[game_id].wager_amount,
            },
        ),
        final(contract)@.game_counter == old(contract)@.game_counter,
        final(contract)@.token_contract == old(contract)@.token_contract,
        final(contract)@.admin == old(contract)@.admin,
        final(contract)@.admin_key == old(contract)@.admin_key,
        final(contract)@.fees == old(contract)@.fees,
{
    assert(final(contract)@.games =~= old(contract)@.games.insert(
        game_id,
        final(contract)@.games[game_id],
    ));
    assert(final(contract)@.escrow.dom() =~= old(contract)@.escrow.dom().insert(player2));
}

/// The player whose turn it is may make any move that is not empty in a game in
/// progress, and nobody else may; each refusal says what stands in the way.
pub proof fn law_who_may_move(
    contract: &mut GameContract,
    game_id: u64,
    player: Address,
    move_data: Vec<u32>,
    ledger: u32,
    result: Result<(), ContractError>,
)
    requires
        call_ensures(
            GameContract::submit_move,
            (contract, game_id, player, move_data, ledger),
            result,
        ),
    ensures
        ({
            let game = old(contract)@.games[game_id];
            let found = old(contract)@.games.contains_key(game_id);
            let running = found && game.state is InProgress;
            let plays = running && (player == game.player1 || game.player2 == Some(player));
            let on_turn = plays && if player == game.player1 {
                game.current_turn == 1
            } else {
                game.current_turn == 2
            };
            &&& result is Ok <==> on_turn && move_data@.len() > 0
            &&& result == Err::<(), _>(ContractError::GameNotFound) <==> !found
            &&& result == Err::<(), _>(ContractError::GameNotInProgress) <==> found && !running
            &&& result == Err::<(), _>(ContractError::NotPlayer) <==> running && !plays
            &&& result == Err::<(), _>(ContractError::NotYourTurn) <==> plays && !on_turn
            &&& result == Err::<(), _>(ContractError::InvalidMove) <==> on_turn
                && move_data@.len() == 0
        }),
        result is Err ==> final(contract)@ == old(contract)@,
{
}

/// A move is added at the end of the game's moves as it was submitted, with its player
/// and the ledger; the earlier moves stay. Then it is the turn of the other player. All
/// else stays.
pub proof fn law_move_is_recorded(
    contract: &mut GameContract,
    game_id: u64,
    player: Address,
    move_data: Vec<u32>,
    ledger: u32,
    i: int,
)
    requires
        call_ensures(
            GameContract::submit_move,
            (contract, game_id, player, move_data, ledger),
            Ok::<(), ContractError>(()),
        ),
    ensures
        final(contract)@.games == old(contract)@.games.insert(
            game_id,
            final(contract)@.games[game_id],
        ),
        ({
            let before = old(contract)@.games[game_id];
            let game = final(contract)@.games[game_id];
            &&& game.moves.len() == before.moves.len() + 1
            &&& 0 <= i < before.moves.len() ==> game.moves[i] == before.moves[i]
            &&& game.moves.last().player == player
            &&& game.moves.last().move_data == move_data@
            &&& game.moves.last().timestamp == ledger
            &&& player == before.player1 ==> game.current_turn == 2
            &&& player != before.player1 ==> game.current_turn == 1
            &&& game.id == before.id
            &&& game.player1 == before.player1
            &&& game.player2 == before.player2
            &&& game.state == before.state
            &&& game.wager_amount == before.wager_amount
            &&& game.created_at == before.created_at
            &&& game.winner == before.winner
        }),
        final(contract)@.escrow == old(contract)@.escrow,
        final(contract)@.game_counter == old(contract)@.game_counter,
        final(contract)@.token_contract == old(contract)@.token_contract,
        final(contract)@.admin == old(contract)@.admin,
        final(contract)@.admin_key == old(contract)@.admin_key,
        final(contract)@.fees == old(contract)@.fees,
{
    assert(final(contract)@.games =~= old(contract)@.games.insert(
        game_id,
        final(contract)@.games[game_id],
    ));
}

/// A player of a game in progress may end it by a draw, and nobody else may; each
/// refusal says what stands in the way.
pub proof fn law_who_may_draw(
    contract: &mut GameContract,
    game_id: u64,
    player: Address,
    transfers: &mut Vec<Transfer>,
    result: Result<(), ContractError>,
)
    requires
        call_ensures(GameContract::claim_draw, (contract, game_id, player, transfers), result),
    ensures
        ({
            let game = old(contract)@.games[game_id];
            let found = old(contract)@.games.contains_key(game_id);
            let running = found && game.state is InProgress;
            let plays = running && (player == game.player1 || game.player2 == Some(player));
            &&& result is Ok <==> plays
            &&& result == Err::<(), _>(ContractError::GameNotFound) <==> !found
            &&& result == Err::<(), _>(ContractError::GameNotInProgress) <==> found && !running
            &&& result == Err::<(), _>(ContractError::NotPlayer) <==> running && !plays
        }),
        result is Err ==> final(contract)@ == old(contract)@ && final(transfers)@ == old(
            transfers,
        )@,
{
}

/// A draw returns to each player exactly its wager, out of escrow and by a payout, and
/// names no winner. All else stays.
pub proof fn law_draw_returns_each_wager(
    contract: &mut GameContract,
    game_id: u64,
    player: Address,
    transfers: &mut Vec<Transfer>,
    player2: Address,
    who: Address,
)
    requires
        call_ensures(
            GameContract::claim_draw,
            (contract, game_id, player, transfers),
            Ok::<(), ContractError>(()),
        ),
        old(contract)@.games[game_id].player2 == Some(player2),
    ensures
        final(contract)@.games == old(contract)@.games.insert(
            game_id,
            final(contract)@.games[game_id],
        ),
        ({
            let before = old(contract)@.games[game_id];
            let game = final(contract)@.games[game_id];
            let wager = before.wager_amount;
            &&& game.state is Drawn
            &&& game.id == before.id
            &&& game.player1 == before.player1
            &&& game.player2 == before.player2
            &&& game.wager_amount == before.wager_amount
            &&& game.current_turn == before.current_turn
            &&& game.moves == before.moves
            &&& game.created_at == before.created_at
            &&& game.winner == before.winner
            &&& balance_of(final(contract)@.escrow, who) == balance_of(
                old(contract)@.escrow,
                who,
            ) - (if who == before.player1 {
                wager as int
            } else {
                0
            }) - (if who == player2 {
                wager as int
            } else {
                0
            })
            &&& final(contract)@.escrow.dom() == old(contract)@.escrow.dom().insert(
                before.player1,
            ).insert(player2)
            &&& final(transfers)@ == old(transfers)@.push(
                Transfer::Payout { to: before.player1, amount: wager },
            ).push(Transfer::Payout { to: player2, amount: wager })
        }),
        final(contract)@.game_counter == old(contract)@.game_counter,
        final(contract)@.token_contract == old(contract)@.token_contract,
        final(contract)@.admin == old(contract)@.admin,
        final(contract)@.admin_key == old(contract)@.admin_key,
        final(contract)@.fees == old(contract)@.fees,
{
    let before = old(contract)@.games[game_id];
    assert(final(contract)@.games =~= old(contract)@.games.insert(
        game_id,
        final(contract)@.games[game_id],
    ));
    assert(final(contract)@.escrow.dom() =~= old(contract)@.escrow.dom().insert(
        before.player1,
    ).insert(player2));
    assert(final(transfers)@ =~= old(transfers)@.push(
        Transfer::Payout { to: before.player1, amount: before.wager_amount },
    ).push(Transfer::Payout { to: player2, amount: before.wager_amount }));
}

/// A draw of a game without a second player returns the wager of the first. All else
/// stays.
pub proof fn law_lone_draw_returns_wager(
    contract: &mut GameContract,
    game_id: u64,
    player: Address,
    transfers: &mut Vec<Transfer>,
    who: Address,
)
    requires
        call_ensures(
            GameContract::claim_draw,
            (contract, game_id, player, transfers),
            Ok::<(), ContractError>(()),
        ),
        old(contract)@.games[game_id].player2 is None,
    ensures
        ({
            let before = old(contract)@.games[game_id];
            let game = final(contract)@.games[game_id];
            &&& game.state is Drawn
            &&& game.id == before.id
            &&& game.player1 == before.player1
            &&& game.player2 == before.player2
            &&& game.wager_amount == before.wager_amount
            &&& game.current_turn == before.current_turn
            &&& game.moves == before.moves
            &&& game.created_at == before.created_at
            &&& game.winner == before.winner
            &&& balance_of(final(contract)@.escrow, who) == balance_of(
                old(contract)@.escrow,
                who,
            ) - (if who == before.player1 {
                before.wager_amount as int
            } else {
                0
            })
            &&& final(contract)@.escrow.dom() == old(contract)@.escrow.dom().insert(
                before.player1,
            )
            &&& final(transfers)@ == old(transfers)@.push(
                Transfer::Payout { to: before.player1, amount: before.wager_amount },
            )
        }),
        final(contract)@.games == old(contract)@.games.insert(
            game_id,
            final(contract)@.games[game_id],
        ),
        final(contract)@.game_counter == old(contract)@.game_counter,
        final(contract)@.token_contract == old(contract)@.token_contract,
        final(contract)@.admin == old(contract)@.admin,
        final(contract)@.admin_key == old(contract)@.admin_key,
        final(contract)@.fees == old(contract)@.fees,
{
    let before = old(contract)@.games[game_id];
    assert(final(contract)@.games =~= old(contract)@.games.insert(
        game_id,
        final(contract)@.games[game_id],
    ));
    assert(final(contract)@.escrow.dom() =~= old(contract)@.escrow.dom().insert(before.player1));
    assert(final(transfers)@ =~= old(transfers)@.push(
        Transfer::Payout { to: before.player1, amount: before.wager_amount },
    ));
}

/// A player of a game in progress that has an opponent may give it up, and nobody else
/// may; each refusal says what stands in the way.
pub proof fn law_who_may_forfeit(
    contract: &mut GameContract,
    game_id: u64,
    player: Address,
    transfers: &mut Vec<Transfer>,
    result: Result<(), ContractError>,
)
    requires
        call_ensures(GameContract::forfeit, (contract, game_id, player, transfers), result),
    ensures
        ({
            let game = old(contract)@.games[game_id];
            let found = old(contract)@.games.contains_key(game_id);
            let running = found && game.state is InProgress;
            let plays = running && (player == game.player1 || game.player2 == Some(player));
            &&& result is Ok <==> plays && game.player2 is Some
            &&& result == Err::<(), _>(ContractError::GameNotFound) <==> !found
            &&& result == Err::<(), _>(ContractError::GameNotInProgress) <==> found && !running
            &&& result == Err::<(), _>(ContractError::NotPlayer) <==> running && !plays
            &&& result == Err::<(), _>(ContractError::GameFull) <==> plays && game.player2 is None
        }),
        result is Err ==> final(contract)@ == old(contract)@ && final(transfers)@ == old(
            transfers,
        )@,
{
}

/// Who gives a game up loses it to the other player: the other one is recorded as the
/// winner, is credited both wagers and is paid both of them, and the one who gave up is
/// debited a wager. All else stays.
pub proof fn law_forfeit_is_won_by_the_other(
    contract: &mut GameContract,
    game_id: u64,
    player: Address,
    transfers: &mut Vec<Transfer>,
    other: Address,
    who: Address,
)
    requires
        call_ensures(
            GameContract::forfeit,
            (contract, game_id, player, transfers),
            Ok::<(), ContractError>(()),
        ),
        other != player,
        other == old(contract)@.games[game_id].player1
            || old(contract)@.games[game_id].player2 == Some(other),
        i128::MIN <= 2 * old(contract)@.games[game_id].wager_amount <= i128::MAX,
    ensures
        final(contract)@.games == old(contract)@.games.insert(
            game_id,
            final(contract)@.games[game_id],
        ),
        ({
            let before = old(contract)@.games[game_id];
            let game = final(contract)@.games[game_id];
            let wager = before.wager_amount as int;
            &&& game.state is Forfeited
            &&& game.winner == Some(other)
            &&& game.id == before.id
            &&& game.player1 == before.player1
            &&& game.player2 == before.player2
            &&& game.wager_amount == before.wager_amount
            &&& game.current_turn == before.current_turn
            &&& game.moves == before.moves
            &&& game.created_at == before.created_at
            &&& balance_of(final(contract)@.escrow, who) == balance_of(
                old(contract)@.escrow,
                who,
            ) + (if who == other {
                wager + wager
            } else if who == player {
                -wager
            } else {
                0
            })
            &&& final(contract)@.escrow.dom() == old(contract)@.escrow.dom().insert(other).insert(
                player,
            )
            &&& final(transfers)@.len() == old(transfers)@.len() + 1
            &&& final(transfers)@.drop_last() == old(transfers)@
            &&& final(transfers)@.last() == (Transfer::Payout {
                to: other,
                amount: (wager + wager) as i128,
            })
        }),
        final(contract)@.game_counter == old(contract)@.game_counter,
        final(contract)@.token_contract == old(contract)@.token_contract,
        final(contract)@.admin == old(contract)@.admin,
        final(contract)@.admin_key == old(contract)@.admin_key,
        final(contract)@.fees == old(contract)@.fees,
{
    assert(final(contract)@.games =~= old(contract)@.games.insert(
        game_id,
        final(contract)@.games[game_id],
    ));
    assert(final(contract)@.escrow.dom() =~= old(contract)@.escrow.dom().insert(other).insert(
        player,
    ));
    assert(final(transfers)@.drop_last() =~= old(transfers)@);
}

/// The recorded winner of a completed game that has an opponent may be paid, and nobody
/// else; each refusal says what stands in the way.
pub proof fn law_who_may_be_paid(
    contract: &mut GameContract,
    game_id: u64,
    winner: Address,
    transfers: &mut Vec<Transfer>,
    result: Result<(), ContractError>,
)
    requires
        call_ensures(GameContract::payout, (contract, game_id, winner, transfers), result),
    ensures
        ({
            let game = old(contract)@.games[game_id];
            let found = old(contract)@.games.contains_key(game_id);
            let over = found && game.state is Completed;
            let won = over && game.winner == Some(winner);
            let lone = won && winner == game.player1 && game.player2 is None;
            &&& result is Ok <==> won && !lone
            &&& result == Err::<(), _>(ContractError::GameNotFound) <==> !found
            &&& result == Err::<(), _>(ContractError::GameNotInProgress) <==> found && !over
            &&& result == Err::<(), _>(ContractError::NotPlayer) <==> over && !won
            &&& result == Err::<(), _>(ContractError::GameFull) <==> lone
        }),
        result is Err ==> final(contract)@ == old(contract)@ && final(transfers)@ == old(
            transfers,
        )@,
{
}

/// Without fees the winner is paid and credited both wagers, and the loser is debited
/// one. All else stays.
pub proof fn law_winner_without_fees_gets_the_pool(
    contract: &mut GameContract,
    game_id: u64,
    winner: Address,
    transfers: &mut Vec<Transfer>,
    loser: Address,
    who: Address,
)
    requires
        call_ensures(
            GameContract::payout,
            (contract, game_id, winner, transfers),
            Ok::<(), ContractError>(()),
        ),
        old(contract)@.fees is None,
        if winner == old(contract)@.games[game_id].player1 {
            old(contract)@.games[game_id].player2 == Some(loser)
        } else {
            loser == old(contract)@.games[game_id].player1
        },
        i128::MIN <= 2 * old(contract)@.games[game_id].wager_amount <= i128::MAX,
    ensures
        ({
            let wager = old(contract)@.games[game_id].wager_amount as int;
            &&& balance_of(final(contract)@.escrow, who) == balance_of(
                old(contract)@.escrow,
                who,
            ) + (if who == winner {
                wager + wager
            } else {
                0
            }) - (if who == loser {
                wager
            } else {
                0
            })
            &&& final(contract)@.escrow.dom() == old(contract)@.escrow.dom().insert(
                winner,
            ).insert(loser)
            &&& final(transfers)@ == old(transfers)@.push(
                Transfer::Payout { to: winner, amount: (wager + wager) as i128 },
            )
        }),
        final(contract)@.games == old(contract)@.games,
        final(contract)@.game_counter == old(contract)@.game_counter,
        final(contract)@.token_contract == old(contract)@.token_contract,
        final(contract)@.admin == old(contract)@.admin,
        final(contract)@.admin_key == old(contract)@.admin_key,
        final(contract)@.fees == old(contract)@.fees,
{
    assert(final(contract)@.escrow.dom() =~= old(contract)@.escrow.dom().insert(winner).insert(
        loser,
    ));
}

/// `part` is `rate` of every `whole` units of the amount, rounded toward zero.
pub open spec fn is_rounded_part(part: int, amount: int, rate: int, whole: int) -> bool {
    if amount >= 0 {
        whole * part <= amount * rate < whole * (part + 1)
    } else {
        whole * (part - 1) < amount * rate <= whole * part
    }
}

/// With fees the winner is paid the pool less the fee: `rate` thousandths of the pool,
/// rounded toward zero. Both players are debited their wagers, the winner is credited
/// what it is paid, and the treasury the fee. All else stays.
pub proof fn law_winner_with_fees_gets_the_rest(
    contract: &mut GameContract,
    game_id: u64,
    winner: Address,
    transfers: &mut Vec<Transfer>,
    loser: Address,
    fees: Fees,
    who: Address,
)
    requires
        call_ensures(
            GameContract::payout,
            (contract, game_id, winner, transfers),
            Ok::<(), ContractError>(()),
        ),
        old(contract)@.fees == Some(fees),
        if winner == old(contract)@.games[game_id].player1 {
            old(contract)@.games[game_id].player2 == Some(loser)
        } else {
            loser == old(contract)@.games[game_id].player1
        },
        i128::MIN <= 2 * old(contract)@.games[game_id].wager_amount <= i128::MAX,
        i128::MIN <= 2 * old(contract)@.games[game_id].wager_amount * fees.rate <= i128::MAX,
    ensures
        final(transfers)@.len() == old(transfers)@.len() + 1,
        final(transfers)@.drop_last() == old(transfers)@,
        match final(transfers)@.last() {
            Transfer::Payout { to, amount } => {
                let wager = old(contract)@.games[game_id].wager_amount as int;
                let fee = wager + wager - amount;
                &&& to == winner
                &&& is_rounded_part(fee, wager + wager, fees.rate as int, 1000)
                &&& balance_of(final(contract)@.escrow, who) == balance_of(
                    old(contract)@.escrow,
                    who,
                ) + (if who == winner {
                    amount - wager
                } else {
                    0
                }) - (if who == loser {
                    wager
                } else {
                    0
                }) + (if who == fees.treasury {
                    fee
                } else {
                    0
                })
            },
            Transfer::Deposit { .. } => false,
        },
        final(contract)@.escrow.dom() == old(contract)@.escrow.dom().insert(winner).insert(
            loser,
        ).insert(fees.treasury),
        final(contract)@.games == old(contract)@.games,
        final(contract)@.game_counter == old(contract)@.game_counter,
        final(contract)@.token_contract == old(contract)@.token_contract,
        final(contract)@.admin == old(contract)@.admin,
        final(contract)@.admin_key == old(contract)@.admin_key,
        final(contract)@.fees == old(contract)@.fees,
{
    assert(final(contract)@.escrow.dom() =~= old(contract)@.escrow.dom().insert(winner).insert(
        loser,
    ).insert(fees.treasury));
    assert(final(transfers)@.drop_last() =~= old(transfers)@);
    let pool = old(contract)@.games[game_id].wager_amount * 2;
    let product = pool * fees.rate;
    lemma_product_sign(pool, fees.rate as int);
    let fee = fee_of(pool, fees);
    assert(pool >= 0 ==> 0 <= 1000 * fee <= product < 1000 * (fee + 1));
    assert(pool < 0 ==> 1000 * (fee - 1) < product <= 1000 * fee <= 0);
}

/// A product with a number that is not negative has the sign of the other factor.
proof fn lemma_product_sign(a: int, b: int)
    requires
        b >= 0,
    ensures
        a >= 0 ==> a * b >= 0,
        a <= 0 ==> a * b <= 0,
{
    assert(a >= 0 ==> a * b >= 0) by (nonlinear_arith)
        requires
            b >= 0,
    ;
    assert(a <= 0 ==> a * b <= 0) by (nonlinear_arith)
        requires
            b >= 0,
    ;
}

/// Deducting takes the amount from the address alone, exactly if the rest can be held.
pub proof fn law_escrow_deducts_from_one(
    escrow: &mut Escrow,
    who: Address,
    amount: i128,
    done: bool,
    other: Address,
)
    requires
        call_ensures(Escrow::deduct, (escrow, who, amount), done),
    ensures
        done <==> i128::MIN <= balance_of(old(escrow)@, who) - amount <= i128::MAX,
        done ==> balance_of(final(escrow)@, who) == balance_of(old(escrow)@, who) - amount,
        done && other != who ==> balance_of(final(escrow)@, other) == balance_of(
            old(escrow)@,
            other,
        ),
        done ==> (final(escrow)@.contains_key(other) <==> other == who || old(
            escrow,
        )@.contains_key(other)),
        !done ==> final(escrow)@ == old(escrow)@,
{
}

/// A new escrow has no entries; a second one of the same amounts has the same.
pub proof fn law_escrow_copies(empty: Escrow, escrow: &Escrow, copy: Escrow, who: Address)
    requires
        call_ensures(Escrow::new, (), empty),
        call_ensures(Escrow::duplicate, (escrow,), copy),
    ensures
        !empty@.contains_key(who),
        copy@.contains_key(who) <==> escrow@.contains_key(who),
        balance_of(copy@, who) == balance_of(escrow@, who),
{
}

/// The entries list each address that has one, once and with its amount, and no other.
pub proof fn law_escrow_entries_are_the_amounts(
    escrow: &Escrow,
    entries: &Vec<(Address, i128)>,
    who: Address,
    i: int,
    j: int,
)
    requires
        call_ensures(Escrow::entries, (escrow,), entries),
    ensures
        escrow@.contains_key(who) <==> exists|k: int|
            0 <= k < entries@.len() && (#[trigger] entries@[k]).0 == who,
        0 <= i < entries@.len() ==> balance_of(escrow@, entries@[i].0) == entries@[i].1,
        0 <= i < j < entries@.len() ==> entries@[i].0 != entries@[j].0,
{
    if exists|k: int| 0 <= k < entries@.len() && (#[trigger] entries@[k]).0 == who {
        let k = choose|k: int| 0 <= k < entries@.len() && (#[trigger] entries@[k]).0 == who;
        assert(escrow@.contains_pair(entries@[k].0, entries@[k].1 as int));
    }
    if 0 <= i < entries@.len() {
        assert(escrow@.contains_pair(entries@[i].0, entries@[i].1 as int));
    }
}

/// All games are those that are found one by one.
pub proof fn law_all_games_are_those_found(
    contract: &GameContract,
    games: &std::collections::BTreeMap<u64, Game>,
    game_id: u64,
    found: Result<&Game, ContractError>,
)
    requires
        call_ensures(GameContract::get_all_games, (contract,), games),
        call_ensures(GameContract::get_game, (contract, game_id), found),
    ensures
        games@.contains_key(game_id) <==> found is Ok,
        found matches Ok(game) ==> game@ == games@[game_id]@,
{
    let views = games@.map_values(|game: Game| game@);
    assert(views.contains_key(game_id) == games@.contains_key(game_id));
}

} // verus!
