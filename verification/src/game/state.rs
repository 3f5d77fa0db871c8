//! Games and the state of the contract.

use crate::game::address::Address;
use crate::game::escrow::Escrow;
use std::collections::BTreeMap;
use vstd::prelude::*;

verus! {

/// How far a game has come.
#[derive(Debug, Clone, Copy, PartialEq, Eq, Structural)]
pub enum GameState {
    Created,
    InProgress,
    Completed,
    Drawn,
    Forfeited,
}

/// A move, as a player submitted it.
#[derive(Debug)]
pub struct ChessMove {
    pub player: Address,
    /// The move in serialized form.
    pub move_data: Vec<u32>,
    /// Sequence number of the ledger at the time of the move.
    pub timestamp: u64,
}

/// A game and its wager.
#[derive(Debug)]
pub struct Game {
    pub id: u64,
    pub player1: Address,
    pub player2: Option<Address>,
    pub state: GameState,
    pub wager_amount: i128,
    /// 1 while it is the turn of `player1`, 2 while it is that of `player2`.
    pub current_turn: u32,
    pub moves: Vec<ChessMove>,
    /// Sequence number of the ledger at the time of creation.
    pub created_at: u64,
    pub winner: Option<Address>,
}

/// Why the contract refuses a call.
#[derive(Debug, Clone, Copy, PartialEq, Eq, Structural)]
pub enum ContractError {
    GameNotFound,
    NotYourTurn,
    GameNotInProgress,
    InvalidMove,
    InsufficientFunds,
    AlreadyJoined,
    GameFull,
    NotPlayer,
    GameAlreadyCompleted,
    DrawNotAvailable,
    ForfeitNotAllowed,
    InvalidPercentage,
    MismatchedLengths,
    /// The caller may not do what it asks for.
    Unauthorized,
    StakeLimitExceeded,
}

impl ContractError {
    /// The number by which callers of the contract know the error.
    pub open spec fn number(self) -> u32 {
        match self {
            ContractError::GameNotFound => 1,
            ContractError::NotYourTurn => 2,
            ContractError::GameNotInProgress => 3,
            ContractError::InvalidMove => 4,
            ContractError::InsufficientFunds => 5,
            ContractError::AlreadyJoined => 6,
            ContractError::GameFull => 7,
            ContractError::NotPlayer => 8,
            ContractError::GameAlreadyCompleted => 9,
            ContractError::DrawNotAvailable => 10,
            ContractError::ForfeitNotAllowed => 11,
            ContractError::InvalidPercentage => 12,
            ContractError::MismatchedLengths => 13,
            ContractError::Unauthorized => 14,
            ContractError::StakeLimitExceeded => 15,
        }
    }

    /// The number by which callers of the contract know the error.
    pub fn code(self) -> (code: u32)
        ensures
            code == self.number(),
    {
        match self {
            ContractError::GameNotFound => 1,
            ContractError::NotYourTurn => 2,
            ContractError::GameNotInProgress => 3,
            ContractError::InvalidMove => 4,
            ContractError::InsufficientFunds => 5,
            ContractError::AlreadyJoined => 6,
            ContractError::GameFull => 7,
            ContractError::NotPlayer => 8,
            ContractError::GameAlreadyCompleted => 9,
            ContractError::DrawNotAvailable => 10,
            ContractError::ForfeitNotAllowed => 11,
            ContractError::InvalidPercentage => 12,
            ContractError::MismatchedLengths => 13,
            ContractError::Unauthorized => 14,
            ContractError::StakeLimitExceeded => 15,
        }
    }
}

/// A movement of tokens that a call of the contract brings about.
#[derive(Debug, Clone, Copy, PartialEq, Eq, Structural)]
pub enum Transfer {
    /// From an address to the contract.
    Deposit { from: Address, amount: i128 },
    /// From the contract to an address.
    Payout { to: Address, amount: i128 },
}

/// The share of a pool that goes to the treasury when a winner is paid.
#[derive(Debug, Clone, Copy, PartialEq, Eq, Structural)]
pub struct Fees {
    /// Thousandths of the pool.
    pub rate: u32,
    pub treasury: Address,
}

/// The state of the contract.
#[derive(Debug)]
pub struct GameContract {
    /// The contract of the token that wagers are made in.
    pub token_contract: Option<Address>,
    /// Who may configure the fees.
    pub admin: Option<Address>,
    /// Public key of the backend.
    pub admin_key: Option<Vec<u8>>,
    pub fees: Option<Fees>,
    /// Identifier of the latest game.
    pub game_counter: u64,
    pub games: BTreeMap<u64, Game>,
    pub escrow: Escrow,
}

/// What a `ChessMove` says.
pub struct MoveView {
    pub player: Address,
    pub move_data: Seq<u32>,
    pub timestamp: u64,
}

impl View for ChessMove {
    type V = MoveView;

    open spec fn view(&self) -> MoveView {
        MoveView {
            player: self.player,
            move_data: self.move_data@,
            timestamp: self.timestamp,
        }
    }
}

/// State of a `Game`.
#[verifier::ext_equal]
pub struct GameView {
    pub id: u64,
    pub player1: Address,
    pub player2: Option<Address>,
    pub state: GameState,
    pub wager_amount: i128,
    pub current_turn: u32,
    pub moves: Seq<MoveView>,
    pub created_at: u64,
    pub winner: Option<Address>,
}

impl View for Game {
    type V = GameView;

    open spec fn view(&self) -> GameView {
        GameView {
            id: self.id,
            player1: self.player1,
            player2: self.player2,
            state: self.state,
            wager_amount: self.wager_amount,
            current_turn: self.current_turn,
            moves: self.moves@.map_values(|chess_move: ChessMove| chess_move@),
            created_at: self.created_at,
            winner: self.winner,
        }
    }
}

impl GameView {
    /// The address plays in the game.
    pub open spec fn has_player(self, who: Address) -> bool {
        who == self.player1 || self.player2 == Some(who)
    }
}

/// State of a `GameContract`.
#[verifier::ext_equal]
pub struct ContractView {
    pub token_contract: Option<Address>,
    pub admin: Option<Address>,
    pub admin_key: Option<Seq<u8>>,
    pub fees: Option<Fees>,
    pub game_counter: u64,
    pub games: Map<u64, GameView>,
    pub escrow: Map<Address, int>,
}

impl View for GameContract {
    type V = ContractView;

    open spec fn view(&self) -> ContractView {
        ContractView {
            token_contract: self.token_contract,
            admin: self.admin,
            admin_key: match self.admin_key {
                Some(key) => Some(key@),
                None => None,
            },
            fees: self.fees,
            game_counter: self.game_counter,
            games: self.games@.map_values(|game: Game| game@),
            escrow: self.escrow@,
        }
    }
}

impl GameContract {
    /// Invariant of the contract.
    pub open spec fn valid(&self) -> bool {
        self.escrow.valid()
    }

    /// A contract that was not initialized yet.
    pub fn new() -> (contract: Self)
        ensures
            contract.valid(),
            contract@ == (ContractView {
                token_contract: None,
                admin: None,
                admin_key: None,
                fees: None,
                game_counter: 0,
                games: Map::empty(),
                escrow: Map::empty(),
            }),
    {
        let contract = GameContract {
            token_contract: None,
            admin: None,
            admin_key: None,
            fees: None,
            game_counter: 0,
            games: BTreeMap::new(),
            escrow: Escrow::new(),
        };
        assert(contract@.games =~= Map::empty());
        contract
    }

    /// The game with the identifier, if there is one.
    pub fn get_game(&self, game_id: u64) -> (found: Result<&Game, ContractError>)
        ensures
            match found {
                Ok(game) => self@.games.contains_pair(game_id, game@),
                Err(error) => {
                    &&& error is GameNotFound
                    &&& !self@.games.contains_key(game_id)
                },
            },
    {
        match self.games.get(&game_id) {
            Some(game) => Ok(game),
            None => Err(ContractError::GameNotFound),
        }
    }

    /// Takes out the game with the identifier.
    pub(crate) fn take_game(&mut self, game_id: u64) -> (game: Game)
        requires
            old(self).valid(),
            old(self)@.games.contains_key(game_id),
        ensures
            final(self).valid(),
            game@ == old(self)@.games[game_id],
            final(self)@ == (ContractView {
                games: old(self)@.games.remove(game_id),
                ..old(self)@
            }),
    {
        let taken = self.games.remove(&game_id);
        assert(self@.games =~= old(self)@.games.remove(game_id));
        taken.unwrap()
    }

    /// Stores the game under the identifier.
    pub(crate) fn store_game(&mut self, game_id: u64, game: Game)
        requires
            old(self).valid(),
        ensures
            final(self).valid(),
            final(self)@ == (ContractView {
                games: old(self)@.games.insert(game_id, game@),
                ..old(self)@
            }),
    {
        self.games.insert(game_id, game);
        assert(self@.games =~= old(self)@.games.insert(game_id, game@));
    }

    /// All games, by identifier.
    pub fn get_all_games(&self) -> (games: &BTreeMap<u64, Game>)
        ensures
            games@.map_values(|game: Game| game@) == self@.games,
    {
        &self.games
    }
}

} // verus!
