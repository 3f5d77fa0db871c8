//! The calls that end a game: a draw, a forfeit, and the payout of a winner.

use crate::game::address::Address;
use crate::game::escrow::{adjustable, adjusted, in_range, Escrow};
use crate::game::state::{
    ContractError, ContractView, Fees, Game, GameContract, GameState, GameView, Transfer,
};
use vstd::prelude::*;

verus! {

/// The quotient of two numbers, rounded toward zero.
pub open spec fn quotient(a: int, b: int) -> int
    recommends
        b > 0,
{
    if a >= 0 {
        a / b
    } else {
        -((-a) / b)
    }
}

/// Both wagers of a game.
pub open spec fn pool_of(game: GameView) -> int {
    game.wager_amount * 2
}

/// Why a player may not end the game by a draw.
pub open spec fn draw_error(contract: ContractView, game_id: u64, player: Address) -> Option<
    ContractError,
> {
    let game = contract.games[game_id];
    if !contract.games.contains_key(game_id) {
        Some(ContractError::GameNotFound)
    } else if game.state != GameState::InProgress {
        Some(ContractError::GameNotInProgress)
    } else if !game.has_player(player) {
        Some(ContractError::NotPlayer)
    } else {
        None
    }
}

/// The escrow after both wagers were returned.
pub open spec fn drawn_escrow(escrow: Map<Address, int>, game: GameView) -> Map<Address, int> {
    let first = adjusted(escrow, game.player1, -game.wager_amount);
    match game.player2 {
        Some(player2) => adjusted(first, player2, -game.wager_amount),
        None => first,
    }
}

/// The escrow can return both wagers.
pub open spec fn drawable(escrow: Map<Address, int>, game: GameView) -> bool {
    &&& adjustable(escrow, game.player1, -game.wager_amount)
    &&& match game.player2 {
        Some(player2) => adjustable(
            adjusted(escrow, game.player1, -game.wager_amount),
            player2,
            -game.wager_amount,
        ),
        None => true,
    }
}

/// The token and the escrow allow a draw, where the player may claim it.
pub open spec fn can_draw(contract: ContractView, game_id: u64, player: Address) -> bool {
    draw_error(contract, game_id, player) is None ==> {
        &&& contract.token_contract is Some
        &&& drawable(contract.escrow, contract.games[game_id])
    }
}

/// The payouts of a draw.
pub open spec fn draw_transfers(game: GameView) -> Seq<Transfer> {
    let first = seq![Transfer::Payout { to: game.player1, amount: game.wager_amount }];
    match game.player2 {
        Some(player2) => first.push(Transfer::Payout { to: player2, amount: game.wager_amount }),
        None => first,
    }
}

/// The contract after a draw.
pub open spec fn with_draw(contract: ContractView, game_id: u64) -> ContractView {
    let game = contract.games[game_id];
    ContractView {
        games: contract.games.insert(game_id, GameView { state: GameState::Drawn, ..game }),
        escrow: drawn_escrow(contract.escrow, game),
        ..contract
    }
}

/// The player whom `who` plays against: the second player for the first, the first
/// for anyone else.
pub open spec fn opponent_of(game: GameView, who: Address) -> Option<Address> {
    if who == game.player1 {
        game.player2
    } else {
        Some(game.player1)
    }
}

/// The escrow after `winner` won both wagers from `loser`.
pub open spec fn won_escrow(
    escrow: Map<Address, int>,
    winner: Address,
    loser: Address,
    wager_amount: int,
) -> Map<Address, int> {
    adjusted(adjusted(escrow, winner, wager_amount * 2), loser, -wager_amount)
}

/// The escrow can give both wagers to `winner`.
pub open spec fn winnable(
    escrow: Map<Address, int>,
    winner: Address,
    loser: Option<Address>,
    wager_amount: int,
) -> bool {
    &&& in_range(wager_amount * 2)
    &&& adjustable(escrow, winner, wager_amount * 2)
    &&& match loser {
        Some(loser) => adjustable(
            adjusted(escrow, winner, wager_amount * 2),
            loser,
            -wager_amount,
        ),
        None => true,
    }
}

/// Why a player may not give the game up.
pub open spec fn forfeit_error(contract: ContractView, game_id: u64, player: Address) -> Option<
    ContractError,
> {
    match draw_error(contract, game_id, player) {
        Some(error) => Some(error),
        None => if opponent_of(contract.games[game_id], player) is None {
            Some(ContractError::GameFull)
        } else {
            None
        },
    }
}

/// The token and the escrow allow a forfeit, where the player may give up.
pub open spec fn can_forfeit(contract: ContractView, game_id: u64, player: Address) -> bool {
    let game = contract.games[game_id];
    forfeit_error(contract, game_id, player) is None ==> {
        let winner = opponent_of(game, player)->0;
        &&& contract.token_contract is Some
        &&& winnable(contract.escrow, winner, opponent_of(game, winner), game.wager_amount as int)
    }
}

/// The contract after `player` gave the game up.
pub open spec fn with_forfeit(contract: ContractView, game_id: u64, player: Address) -> ContractView {
    let game = contract.games[game_id];
    let winner = opponent_of(game, player)->0;
    ContractView {
        games: contract.games.insert(
            game_id,
            GameView { state: GameState::Forfeited, winner: Some(winner), ..game },
        ),
        escrow: won_escrow(
            contract.escrow,
            winner,
            opponent_of(game, winner)->0,
            game.wager_amount as int,
        ),
        ..contract
    }
}

/// What the treasury takes of a pool.
pub open spec fn fee_of(pool: int, fees: Fees) -> int {
    quotient(pool * fees.rate, 1000)
}

/// The escrow after the stakes of `winner` and `loser` were shared out between
/// `winner` and the treasury.
pub open spec fn shared_escrow(
    escrow: Map<Address, int>,
    winner: Address,
    loser: Address,
    wager_amount: int,
    fees: Fees,
) -> Map<Address, int> {
    let fee = fee_of(wager_amount * 2, fees);
    let debited = adjusted(adjusted(escrow, loser, -wager_amount), winner, -wager_amount);
    adjusted(adjusted(debited, winner, wager_amount * 2 - fee), fees.treasury, fee)
}

/// The escrow can share the stakes out between `winner` and the treasury.
pub open spec fn shareable(
    escrow: Map<Address, int>,
    winner: Address,
    loser: Address,
    wager_amount: int,
    fees: Fees,
) -> bool {
    let fee = fee_of(wager_amount * 2, fees);
    let first = adjusted(escrow, loser, -wager_amount);
    let debited = adjusted(first, winner, -wager_amount);
    &&& in_range(wager_amount * 2)
    &&& in_range(wager_amount * 2 * fees.rate)
    &&& in_range(wager_amount * 2 - fee)
    &&& adjustable(escrow, loser, -wager_amount)
    &&& adjustable(first, winner, -wager_amount)
    &&& adjustable(debited, winner, wager_amount * 2 - fee)
    &&& adjustable(adjusted(debited, winner, wager_amount * 2 - fee), fees.treasury, fee)
}

/// Why `winner` may not be paid, as far as the opponent does not decide.
pub open spec fn payout_refusal(contract: ContractView, game_id: u64, winner: Address) -> Option<
    ContractError,
> {
    let game = contract.games[game_id];
    if !contract.games.contains_key(game_id) {
        Some(ContractError::GameNotFound)
    } else if game.state != GameState::Completed {
        Some(ContractError::GameNotInProgress)
    } else if game.winner != Some(winner) {
        Some(ContractError::NotPlayer)
    } else {
        None
    }
}

/// Why `winner` may not be paid.
pub open spec fn payout_error(contract: ContractView, game_id: u64, winner: Address) -> Option<
    ContractError,
> {
    match payout_refusal(contract, game_id, winner) {
        Some(error) => Some(error),
        None => if opponent_of(contract.games[game_id], winner) is None {
            Some(ContractError::GameFull)
        } else {
            None
        },
    }
}

/// The token and the escrow allow the payout, where `winner` has won.
pub open spec fn can_pay(contract: ContractView, game_id: u64, winner: Address) -> bool {
    let game = contract.games[game_id];
    let loser = opponent_of(game, winner);
    payout_refusal(contract, game_id, winner) is None ==> {
        &&& contract.token_contract is Some
        &&& match contract.fees {
            None => winnable(contract.escrow, winner, loser, game.wager_amount as int),
            Some(fees) => loser is Some ==> shareable(
                contract.escrow,
                winner,
                loser->0,
                game.wager_amount as int,
                fees,
            ),
        }
    }
}

/// What `winner` is paid of the pool.
pub open spec fn prize_of(contract: ContractView, game_id: u64) -> int {
    let pool = pool_of(contract.games[game_id]);
    match contract.fees {
        None => pool,
        Some(fees) => pool - fee_of(pool, fees),
    }
}

/// The contract after `winner` was paid.
pub open spec fn with_payout(contract: ContractView, game_id: u64, winner: Address) -> ContractView {
    let game = contract.games[game_id];
    let loser = opponent_of(game, winner)->0;
    let wager_amount = game.wager_amount as int;
    ContractView {
        escrow: match contract.fees {
            None => won_escrow(contract.escrow, winner, loser, wager_amount),
            Some(fees) => shared_escrow(contract.escrow, winner, loser, wager_amount, fees),
        },
        ..contract
    }
}

/// Returns both wagers; tells whether the escrow can.
fn return_wagers(escrow: &mut Escrow, game: &Game) -> (done: bool)
    requires
        old(escrow).valid(),
    ensures
        final(escrow).valid(),
        done == drawable(old(escrow)@, game@),
        done ==> final(escrow)@ == drawn_escrow(old(escrow)@, game@),
{
    if !escrow.deduct(game.player1, game.wager_amount) {
        return false;
    }
    match game.player2 {
        Some(player2) => escrow.deduct(player2, game.wager_amount),
        None => true,
    }
}

/// Gives both wagers to `winner`; tells whether the escrow can.
fn give_wagers(
    escrow: &mut Escrow,
    winner: Address,
    loser: Option<Address>,
    wager_amount: i128,
) -> (done: bool)
    requires
        old(escrow).valid(),
    ensures
        final(escrow).valid(),
        done == winnable(old(escrow)@, winner, loser, wager_amount as int),
        done && loser is Some ==> final(escrow)@ == won_escrow(
            old(escrow)@,
            winner,
            loser->0,
            wager_amount as int,
        ),
{
    let pool: i128 = match wager_amount.checked_mul(2) {
        Some(pool) => pool,
        None => {
            return false;
        },
    };
    if !escrow.adjust(winner, pool) {
        return false;
    }
    match loser {
        Some(loser) => escrow.deduct(loser, wager_amount),
        None => true,
    }
}

/// What the treasury takes of a pool; `None` if the product is out of range.
fn fee_amount(pool: i128, fees: Fees) -> (fee: Option<i128>)
    ensures
        match fee {
            Some(amount) => in_range(pool * fees.rate) && amount == fee_of(pool as int, fees),
            None => !in_range(pool * fees.rate),
        },
{
    match pool.checked_mul(fees.rate as i128) {
        Some(product) => Some(product / 1000),
        None => None,
    }
}

/// Shares the stakes out between `winner` and the treasury; tells whether the
/// escrow can.
fn share_stakes(
    escrow: &mut Escrow,
    winner: Address,
    loser: Address,
    wager_amount: i128,
    fees: Fees,
) -> (done: bool)
    requires
        old(escrow).valid(),
    ensures
        final(escrow).valid(),
        done == shareable(old(escrow)@, winner, loser, wager_amount as int, fees),
        done ==> final(escrow)@ == shared_escrow(
            old(escrow)@,
            winner,
            loser,
            wager_amount as int,
            fees,
        ),
{
    let pool: i128 = match wager_amount.checked_mul(2) {
        Some(pool) => pool,
        None => {
            return false;
        },
    };
    let fee: i128 = match fee_amount(pool, fees) {
        Some(fee) => fee,
        None => {
            return false;
        },
    };
    let prize: i128 = match pool.checked_sub(fee) {
        Some(prize) => prize,
        None => {
            return false;
        },
    };
    escrow.deduct(loser, wager_amount) && escrow.deduct(winner, wager_amount) && escrow.adjust(
        winner,
        prize,
    ) && escrow.adjust(fees.treasury, fee)
}

/// The player whom `who` plays against.
fn opponent_in(game: &Game, who: Address) -> (opponent: Option<Address>)
    ensures
        opponent == opponent_of(game@, who),
{
    if who == game.player1 {
        game.player2
    } else {
        Some(game.player1)
    }
}

impl GameContract {
    /// Tells whether the player may claim a draw.
    fn check_draw(&self, game_id: u64, player: Address) -> (checked: Result<&Game, ContractError>)
        ensures
            match checked {
                Ok(game) => {
                    &&& draw_error(self@, game_id, player) is None
                    &&& game@ == self@.games[game_id]
                },
                Err(error) => draw_error(self@, game_id, player) == Some(error),
            },
    {
        let game = match self.get_game(game_id) {
            Ok(game) => game,
            Err(error) => {
                return Err(error);
            },
        };
        if game.state != GameState::InProgress {
            return Err(ContractError::GameNotInProgress);
        }
        if player != game.player1 && game.player2 != Some(player) {
            return Err(ContractError::NotPlayer);
        }
        Ok(game)
    }

    /// Tells whether `claim_draw` can return the wagers.
    pub fn draw_in_range(&self, game_id: u64, player: Address) -> (can: bool)
        requires
            self.valid(),
        ensures
            can == can_draw(self@, game_id, player),
    {
        match self.check_draw(game_id, player) {
            Ok(game) => {
                let mut trial = self.escrow.duplicate();
                self.token_contract.is_some() && return_wagers(&mut trial, game)
            },
            Err(_) => true,
        }
    }

    /// Ends the game by a draw: both players get their wagers back.
    pub fn claim_draw(
        &mut self,
        game_id: u64,
        player: Address,
        transfers: &mut Vec<Transfer>,
    ) -> (result: Result<(), ContractError>)
        requires
            old(self).valid(),
            can_draw(old(self)@, game_id, player),
        ensures
            final(self).valid(),
            match result {
                Ok(()) => {
                    &&& draw_error(old(self)@, game_id, player) is None
                    &&& final(self)@ == with_draw(old(self)@, game_id)
                    &&& final(transfers)@ == old(transfers)@ + draw_transfers(
                        old(self)@.games[game_id],
                    )
                },
                Err(error) => {
                    &&& draw_error(old(self)@, game_id, player) == Some(error)
                    &&& final(self)@ == old(self)@
                    &&& final(transfers)@ == old(transfers)@
                },
            },
    {
        match self.check_draw(game_id, player) {
            Ok(_) => {},
            Err(error) => {
                return Err(error);
            },
        }
        let mut game = self.take_game(game_id);
        return_wagers(&mut self.escrow, &game);
        transfers.push(Transfer::Payout { to: game.player1, amount: game.wager_amount });
        match game.player2 {
            Some(player2) => {
                transfers.push(Transfer::Payout { to: player2, amount: game.wager_amount });
            },
            None => {},
        }
        assert(transfers@ =~= old(transfers)@ + draw_transfers(old(self)@.games[game_id]));
        game.state = GameState::Drawn;
        self.store_game(game_id, game);
        assert(self@.games =~= with_draw(old(self)@, game_id).games);
        Ok(())
    }

    /// Tells whether `forfeit` can pay the winner.
    pub fn forfeit_in_range(&self, game_id: u64, player: Address) -> (can: bool)
        requires
            self.valid(),
        ensures
            can == can_forfeit(self@, game_id, player),
    {
        match self.check_draw(game_id, player) {
            Ok(game) => match opponent_in(game, player) {
                Some(winner) => {
                    let mut trial = self.escrow.duplicate();
                    self.token_contract.is_some() && give_wagers(
                        &mut trial,
                        winner,
                        opponent_in(game, winner),
                        game.wager_amount,
                    )
                },
                None => true,
            },
            Err(_) => true,
        }
    }

    /// Gives the game up: the other player wins both wagers.
    pub fn forfeit(
        &mut self,
        game_id: u64,
        player: Address,
        transfers: &mut Vec<Transfer>,
    ) -> (result: Result<(), ContractError>)
        requires
            old(self).valid(),
            can_forfeit(old(self)@, game_id, player),
        ensures
            final(self).valid(),
            match result {
                Ok(()) => {
                    let game = old(self)@.games[game_id];
                    &&& forfeit_error(old(self)@, game_id, player) is None
                    &&& final(self)@ == with_forfeit(old(self)@, game_id, player)
                    &&& final(transfers)@ == old(transfers)@.push(
                        Transfer::Payout {
                            to: opponent_of(game, player)->0,
                            amount: pool_of(game) as i128,
                        },
                    )
                },
                Err(error) => {
                    &&& forfeit_error(old(self)@, game_id, player) == Some(error)
                    &&& final(self)@ == old(self)@
                    &&& final(transfers)@ == old(transfers)@
                },
            },
    {
        let winner: Address = match self.check_draw(game_id, player) {
            Ok(game) => match opponent_in(game, player) {
                Some(winner) => winner,
                None => {
                    return Err(ContractError::GameFull);
                },
            },
            Err(error) => {
                return Err(error);
            },
        };
        let mut game = self.take_game(game_id);
        let loser = opponent_in(&game, winner);
        give_wagers(&mut self.escrow, winner, loser, game.wager_amount);
        transfers.push(Transfer::Payout { to: winner, amount: game.wager_amount * 2 });
        game.state = GameState::Forfeited;
        game.winner = Some(winner);
        self.store_game(game_id, game);
        assert(self@.games =~= with_forfeit(old(self)@, game_id, player).games);
        Ok(())
    }

    /// Tells whether `winner` has won the game, as far as the opponent does not
    /// decide.
    fn check_payout(&self, game_id: u64, winner: Address) -> (checked: Result<
        &Game,
        ContractError,
    >)
        ensures
            match checked {
                Ok(game) => {
                    &&& payout_refusal(self@, game_id, winner) is None
                    &&& game@ == self@.games[game_id]
                },
                Err(error) => payout_refusal(self@, game_id, winner) == Some(error),
            },
    {
        let game = match self.get_game(game_id) {
            Ok(game) => game,
            Err(error) => {
                return Err(error);
            },
        };
        if game.state != GameState::Completed {
            return Err(ContractError::GameNotInProgress);
        }
        if game.winner != Some(winner) {
            return Err(ContractError::NotPlayer);
        }
        Ok(game)
    }

    /// Tells whether `payout` can pay the winner.
    pub fn payout_in_range(&self, game_id: u64, winner: Address) -> (can: bool)
        requires
            self.valid(),
        ensures
            can == can_pay(self@, game_id, winner),
    {
        match self.check_payout(game_id, winner) {
            Ok(game) => {
                if self.token_contract.is_none() {
                    return false;
                }
                let mut trial = self.escrow.duplicate();
                let loser = opponent_in(game, winner);
                match self.fees {
                    None => give_wagers(&mut trial, winner, loser, game.wager_amount),
                    Some(fees) => match loser {
                        Some(loser) => share_stakes(
                            &mut trial,
                            winner,
                            loser,
                            game.wager_amount,
                            fees,
                        ),
                        None => true,
                    },
                }
            },
            Err(_) => true,
        }
    }

    /// Pays the winner of a completed game.
    ///
    /// Without fees the winner is credited both wagers. With fees both stakes are
    /// taken out of escrow, and the winner and the treasury are credited their
    /// shares.
    pub fn payout(
        &mut self,
        game_id: u64,
        winner: Address,
        transfers: &mut Vec<Transfer>,
    ) -> (result: Result<(), ContractError>)
        requires
            old(self).valid(),
            can_pay(old(self)@, game_id, winner),
        ensures
            final(self).valid(),
            match result {
                Ok(()) => {
                    &&& payout_error(old(self)@, game_id, winner) is None
                    &&& final(self)@ == with_payout(old(self)@, game_id, winner)
                    &&& final(transfers)@ == old(transfers)@.push(
                        Transfer::Payout {
                            to: winner,
                            amount: prize_of(old(self)@, game_id) as i128,
                        },
                    )
                },
                Err(error) => {
                    &&& payout_error(old(self)@, game_id, winner) == Some(error)
                    &&& final(self)@ == old(self)@
                    &&& final(transfers)@ == old(transfers)@
                },
            },
    {
        let (loser, wager_amount): (Address, i128) = match self.check_payout(game_id, winner) {
            Ok(game) => match opponent_in(game, winner) {
                Some(loser) => (loser, game.wager_amount),
                None => {
                    return Err(ContractError::GameFull);
                },
            },
            Err(error) => {
                return Err(error);
            },
        };
        let pool: i128 = wager_amount * 2;
        let prize: i128 = match self.fees {
            None => {
                give_wagers(&mut self.escrow, winner, Some(loser), wager_amount);
                pool
            },
            Some(fees) => {
                share_stakes(&mut self.escrow, winner, loser, wager_amount, fees);
                match fee_amount(pool, fees) {
                    Some(fee) => pool - fee,
                    None => pool,
                }
            },
        };
        transfers.push(Transfer::Payout { to: winner, amount: prize });
        Ok(())
    }
}

} // verus!
