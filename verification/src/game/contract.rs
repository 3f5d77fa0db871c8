//! The calls of the contract on single games.

use crate::game::address::Address;
use crate::game::escrow::{adjustable, adjusted};
use crate::game::state::{
    ChessMove, ContractError, ContractView, Game, GameContract, GameState, GameView,
    MoveView, Transfer,
};
use vstd::prelude::*;

verus! {

/// A game just created.
pub open spec fn created_game(id: u64, player1: Address, wager_amount: i128, ledger: u32) -> GameView {
    GameView {
        id,
        player1,
        player2: None,
        state: GameState::Created,
        wager_amount,
        current_turn: 1,
        moves: Seq::empty(),
        created_at: ledger as u64,
        winner: None,
    }
}

/// The contract can take a new game: it has a token, the identifiers are not used
/// up, and the wager can be added to what the player has in escrow.
pub open spec fn can_create(contract: ContractView, player1: Address, wager_amount: i128) -> bool {
    &&& contract.token_contract is Some
    &&& contract.game_counter < u64::MAX
    &&& adjustable(contract.escrow, player1, wager_amount as int)
}

/// The contract after creating a game.
pub open spec fn with_created(
    contract: ContractView,
    player1: Address,
    wager_amount: i128,
    ledger: u32,
) -> ContractView {
    let id = (contract.game_counter + 1) as u64;
    ContractView {
        game_counter: id,
        games: contract.games.insert(id, created_game(id, player1, wager_amount, ledger)),
        escrow: adjusted(contract.escrow, player1, wager_amount as int),
        ..contract
    }
}

/// Why a player may not join, before the balance of the player is known.
pub open spec fn join_refusal(contract: ContractView, game_id: u64, player2: Address) -> Option<
    ContractError,
> {
    let game = contract.games[game_id];
    if !contract.games.contains_key(game_id) {
        Some(ContractError::GameNotFound)
    } else if game.state != GameState::Created {
        Some(ContractError::GameAlreadyCompleted)
    } else if game.player2 is Some {
        Some(ContractError::GameFull)
    } else if game.player1 == player2 {
        Some(ContractError::AlreadyJoined)
    } else {
        None
    }
}

/// Why a player with the token balance may not join.
pub open spec fn join_error(
    contract: ContractView,
    game_id: u64,
    player2: Address,
    player2_balance: i128,
) -> Option<ContractError> {
    match join_refusal(contract, game_id, player2) {
        Some(error) => Some(error),
        None => if player2_balance < contract.games[game_id].wager_amount {
            Some(ContractError::InsufficientFunds)
        } else {
            None
        },
    }
}

/// The token and the escrow allow what joining takes, where the player may join.
pub open spec fn can_join(
    contract: ContractView,
    game_id: u64,
    player2: Address,
    player2_balance: i128,
) -> bool {
    &&& join_refusal(contract, game_id, player2) is None ==> contract.token_contract is Some
    &&& join_error(contract, game_id, player2, player2_balance) is None ==> adjustable(
        contract.escrow,
        player2,
        contract.games[game_id].wager_amount as int,
    )
}

/// The contract after a player joined.
pub open spec fn with_joined(contract: ContractView, game_id: u64, player2: Address) -> ContractView {
    let game = contract.games[game_id];
    ContractView {
        games: contract.games.insert(
            game_id,
            GameView {
                player2: Some(player2),
                state: GameState::InProgress,
                current_turn: 1,
                ..game
            },
        ),
        escrow: adjusted(contract.escrow, player2, game.wager_amount as int),
        ..contract
    }
}

/// The turn that the player moves on: 1 for the first player, 2 for the second.
pub open spec fn turn_of(game: GameView, player: Address) -> u32 {
    if player == game.player1 {
        1
    } else {
        2
    }
}

/// Why a move is refused.
pub open spec fn move_error(
    contract: ContractView,
    game_id: u64,
    player: Address,
    move_data: Seq<u32>,
) -> Option<ContractError> {
    let game = contract.games[game_id];
    if !contract.games.contains_key(game_id) {
        Some(ContractError::GameNotFound)
    } else if game.state != GameState::InProgress {
        Some(ContractError::GameNotInProgress)
    } else if !game.has_player(player) {
        Some(ContractError::NotPlayer)
    } else if turn_of(game, player) != game.current_turn {
        Some(ContractError::NotYourTurn)
    } else if move_data.len() == 0 {
        Some(ContractError::InvalidMove)
    } else {
        None
    }
}

/// The contract after a move.
pub open spec fn with_move(
    contract: ContractView,
    game_id: u64,
    player: Address,
    move_data: Seq<u32>,
    ledger: u32,
) -> ContractView {
    let game = contract.games[game_id];
    ContractView {
        games: contract.games.insert(
            game_id,
            GameView {
                moves: game.moves.push(
                    MoveView { player, move_data, timestamp: ledger as u64 },
                ),
                current_turn: if game.current_turn == 1 {
                    2
                } else {
                    1
                },
                ..game
            },
        ),
        ..contract
    }
}

impl GameContract {
    /// Sets the token that wagers are made in. The contract takes it once.
    pub fn initialize(&mut self, token_contract: Address)
        requires
            old(self).valid(),
            old(self)@.token_contract is None,
        ensures
            final(self).valid(),
            final(self)@ == (ContractView {
                token_contract: Some(token_contract),
                ..old(self)@
            }),
    {
        self.token_contract = Some(token_contract);
    }

    /// The contract of the token that wagers are made in.
    pub fn token_contract_address(&self) -> (token_contract: Address)
        requires
            self@.token_contract is Some,
        ensures
            self@.token_contract == Some(token_contract),
    {
        self.token_contract.unwrap()
    }

    /// Tells whether `create_game` can take the wager.
    pub fn create_in_range(&self, player1: Address, wager_amount: i128) -> (can: bool)
        requires
            self.valid(),
        ensures
            can == can_create(self@, player1, wager_amount),
    {
        self.token_contract.is_some() && self.game_counter < u64::MAX
            && self.escrow.balance(player1).checked_add(wager_amount).is_some()
    }

    /// Creates a game: the wager of the first player goes into escrow.
    ///
    /// `player_balance` is what the player has of the token, `ledger` the sequence
    /// number of the current ledger. Returns the identifier of the game.
    pub fn create_game(
        &mut self,
        player1: Address,
        wager_amount: i128,
        player_balance: i128,
        ledger: u32,
        transfers: &mut Vec<Transfer>,
    ) -> (game_id: u64)
        requires
            old(self).valid(),
            player_balance >= wager_amount,
            can_create(old(self)@, player1, wager_amount),
        ensures
            final(self).valid(),
            game_id == old(self)@.game_counter + 1,
            final(self)@ == with_created(old(self)@, player1, wager_amount, ledger),
            final(transfers)@ == old(transfers)@.push(
                Transfer::Deposit { from: player1, amount: wager_amount },
            ),
    {
        transfers.push(Transfer::Deposit { from: player1, amount: wager_amount });
        self.game_counter = self.game_counter + 1;
        let game_id: u64 = self.game_counter;
        let game = Game {
            id: game_id,
            player1,
            player2: None,
            state: GameState::Created,
            wager_amount,
            current_turn: 1,
            moves: Vec::new(),
            created_at: ledger as u64,
            winner: None,
        };
        assert(game@ =~= created_game(game_id, player1, wager_amount, ledger));
        self.store_game(game_id, game);
        self.escrow.adjust(player1, wager_amount);
        game_id
    }

    /// Tells whether the player may join, as far as the balance of the player does
    /// not decide.
    pub fn check_join(&self, game_id: u64, player2: Address) -> (checked: Result<
        (),
        ContractError,
    >)
        ensures
            checked == match join_refusal(self@, game_id, player2) {
                Some(error) => Err(error),
                None => Ok(()),
            },
    {
        let game = match self.get_game(game_id) {
            Ok(game) => game,
            Err(error) => {
                return Err(error);
            },
        };
        if game.state != GameState::Created {
            return Err(ContractError::GameAlreadyCompleted);
        }
        if game.player2.is_some() {
            return Err(ContractError::GameFull);
        }
        if game.player1 == player2 {
            return Err(ContractError::AlreadyJoined);
        }
        Ok(())
    }

    /// Tells whether `join_game` can take the wager.
    pub fn join_in_range(&self, game_id: u64, player2: Address, player2_balance: i128) -> (can:
        bool)
        requires
            self.valid(),
        ensures
            can == can_join(self@, game_id, player2, player2_balance),
    {
        match self.check_join(game_id, player2) {
            Ok(()) => {},
            Err(_) => {
                return true;
            },
        }
        let wager_amount: i128 = match self.get_game(game_id) {
            Ok(game) => game.wager_amount,
            Err(_) => {
                return true;
            },
        };
        self.token_contract.is_some() && (player2_balance < wager_amount || self.escrow.balance(
            player2,
        ).checked_add(wager_amount).is_some())
    }

    /// Joins an existing game: the wager of the second player goes into escrow and
    /// the game begins.
    pub fn join_game(
        &mut self,
        game_id: u64,
        player2: Address,
        player2_balance: i128,
        transfers: &mut Vec<Transfer>,
    ) -> (result: Result<(), ContractError>)
        requires
            old(self).valid(),
            can_join(old(self)@, game_id, player2, player2_balance),
        ensures
            final(self).valid(),
            match result {
                Ok(()) => {
                    &&& join_error(old(self)@, game_id, player2, player2_balance) is None
                    &&& final(self)@ == with_joined(old(self)@, game_id, player2)
                    &&& final(transfers)@ == old(transfers)@.push(
                        Transfer::Deposit {
                            from: player2,
                            amount: old(self)@.games[game_id].wager_amount,
                        },
                    )
                },
                Err(error) => {
                    &&& join_error(old(self)@, game_id, player2, player2_balance) == Some(error)
                    &&& final(self)@ == old(self)@
                    &&& final(transfers)@ == old(transfers)@
                },
            },
    {
        match self.check_join(game_id, player2) {
            Ok(()) => {},
            Err(error) => {
                return Err(error);
            },
        }
        let wager_amount: i128 = match self.get_game(game_id) {
            Ok(game) => game.wager_amount,
            Err(error) => {
                return Err(error);
            },
        };
        if player2_balance < wager_amount {
            return Err(ContractError::InsufficientFunds);
        }
        transfers.push(Transfer::Deposit { from: player2, amount: wager_amount });
        let mut game = self.take_game(game_id);
        game.player2 = Some(player2);
        game.state = GameState::InProgress;
        game.current_turn = 1;
        self.escrow.adjust(player2, wager_amount);
        self.store_game(game_id, game);
        assert(self@.games =~= with_joined(old(self)@, game_id, player2).games);
        Ok(())
    }

    /// Submits a move; then it is the turn of the other player.
    pub fn submit_move(
        &mut self,
        game_id: u64,
        player: Address,
        move_data: Vec<u32>,
        ledger: u32,
    ) -> (result: Result<(), ContractError>)
        requires
            old(self).valid(),
        ensures
            final(self).valid(),
            match result {
                Ok(()) => {
                    &&& move_error(old(self)@, game_id, player, move_data@) is None
                    &&& final(self)@ == with_move(
                        old(self)@,
                        game_id,
                        player,
                        move_data@,
                        ledger,
                    )
                },
                Err(error) => {
                    &&& move_error(old(self)@, game_id, player, move_data@) == Some(error)
                    &&& final(self)@ == old(self)@
                },
            },
    {
        let game = match self.get_game(game_id) {
            Ok(game) => game,
            Err(error) => {
                return Err(error);
            },
        };
        if game.state != GameState::InProgress {
            return Err(ContractError::GameNotInProgress);
        }
        let player_num: u32 = if player == game.player1 {
            1
        } else if game.player2 == Some(player) {
            2
        } else {
            return Err(ContractError::NotPlayer);
        };
        if player_num != game.current_turn {
            return Err(ContractError::NotYourTurn);
        }
        if move_data.len() == 0 {
            return Err(ContractError::InvalidMove);
        }
        let mut game = self.take_game(game_id);
        let ghost moves = game@.moves;
        let chess_move = ChessMove { player, move_data, timestamp: ledger as u64 };
        game.moves.push(chess_move);
        assert(game@.moves =~= moves.push(chess_move@));
        game.current_turn = if game.current_turn == 1 {
            2
        } else {
            1
        };
        self.store_game(game_id, game);
        assert(self@.games =~= with_move(old(self)@, game_id, player, move_data@, ledger).games);
        Ok(())
    }
}

} // verus!
