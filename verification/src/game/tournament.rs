//! The payout of a tournament: one pool shared out between several winners.

use crate::game::address::Address;
use crate::game::ending::quotient;
use crate::game::escrow::{adjustable, adjusted, balance_of, in_range, Escrow};
use crate::game::state::{ContractError, ContractView, Game, GameContract, GameState, GameView};
use vstd::prelude::*;

verus! {

/// Sum of the first `n` percentages.
pub open spec fn percentage_sum(percentages: Seq<u32>, n: nat) -> int
    decreases n,
{
    if n == 0 {
        0
    } else {
        percentage_sum(percentages, (n - 1) as nat) + percentages[n - 1]
    }
}

/// The share of `percentage` hundredths of the pool, rounded toward zero.
pub open spec fn share_of(pool: int, percentage: u32) -> int {
    quotient(pool * percentage, 100)
}

/// Sum of the first `n` shares.
pub open spec fn share_sum(pool: int, percentages: Seq<u32>, n: nat) -> int
    decreases n,
{
    if n == 0 {
        0
    } else {
        share_sum(pool, percentages, (n - 1) as nat) + share_of(pool, percentages[n - 1])
    }
}

/// The stakes that the tournament is about: one wager for each player.
pub open spec fn stakes_of(game: GameView) -> int {
    match game.player2 {
        Some(_) => game.wager_amount * 2,
        None => game.wager_amount as int,
    }
}

/// Why the organizer may not share out the pool, as far as the winners do not decide.
pub open spec fn tournament_refusal(contract: ContractView, game_id: u64) -> Option<
    ContractError,
> {
    if !contract.games.contains_key(game_id) {
        Some(ContractError::GameNotFound)
    } else if contract.games[game_id].state != GameState::Completed {
        Some(ContractError::GameNotInProgress)
    } else {
        None
    }
}

/// Why the pool may not be shared out.
pub open spec fn tournament_error(
    contract: ContractView,
    game_id: u64,
    winners: Seq<Address>,
    percentages: Seq<u32>,
) -> Option<ContractError> {
    let game = contract.games[game_id];
    if tournament_refusal(contract, game_id) is Some {
        tournament_refusal(contract, game_id)
    } else if winners.len() != percentages.len() {
        Some(ContractError::MismatchedLengths)
    } else if percentage_sum(percentages, percentages.len()) != 100 {
        Some(ContractError::InvalidPercentage)
    } else if balance_of(contract.escrow, game.player1) < game.wager_amount {
        Some(ContractError::InsufficientFunds)
    } else if game.player2 matches Some(player2) && balance_of(contract.escrow, player2)
        < game.wager_amount {
        Some(ContractError::InsufficientFunds)
    } else {
        None
    }
}

/// The escrow after the stakes of the players were taken out.
pub open spec fn debited(escrow: Map<Address, int>, game: GameView) -> Map<Address, int> {
    let first = adjusted(escrow, game.player1, -game.wager_amount);
    match game.player2 {
        Some(player2) => first.insert(player2, balance_of(escrow, player2) - game.wager_amount),
        None => first,
    }
}

/// The stakes of the players can be taken out of the escrow.
pub open spec fn debitable(escrow: Map<Address, int>, game: GameView) -> bool {
    &&& adjustable(escrow, game.player1, -game.wager_amount)
    &&& game.player2 matches Some(player2) ==> adjustable(escrow, player2, -game.wager_amount)
}

/// The escrow after the first `n` winners were credited their shares.
pub open spec fn credited(
    escrow: Map<Address, int>,
    winners: Seq<Address>,
    percentages: Seq<u32>,
    pool: int,
    n: nat,
) -> Map<Address, int>
    decreases n,
{
    if n == 0 {
        escrow
    } else {
        let before = credited(escrow, winners, percentages, pool, (n - 1) as nat);
        adjusted(before, winners[n - 1], share_of(pool, percentages[n - 1]))
    }
}

/// The winner at index `i` can be credited its share, after those before it.
pub open spec fn next_creditable(
    escrow: Map<Address, int>,
    winners: Seq<Address>,
    percentages: Seq<u32>,
    pool: int,
    i: nat,
) -> bool {
    &&& in_range(pool * percentages[i as int])
    &&& adjustable(
        credited(escrow, winners, percentages, pool, i),
        winners[i as int],
        share_of(pool, percentages[i as int]),
    )
}

/// The first `n` winners can be credited their shares.
pub open spec fn creditable(
    escrow: Map<Address, int>,
    winners: Seq<Address>,
    percentages: Seq<u32>,
    pool: int,
    n: nat,
) -> bool {
    forall|i: nat|
        i < n ==> #[trigger] next_creditable(escrow, winners, percentages, pool, i)
}

/// What rounding leaves of the pool.
pub open spec fn remainder_of(pool: int, percentages: Seq<u32>) -> int {
    pool - share_sum(pool, percentages, percentages.len())
}

/// The escrow after the pool was shared out; what rounding leaves goes to the first
/// winner.
pub open spec fn shared_out(
    escrow: Map<Address, int>,
    game: GameView,
    winners: Seq<Address>,
    percentages: Seq<u32>,
) -> Map<Address, int> {
    let pool = stakes_of(game);
    let paid = credited(debited(escrow, game), winners, percentages, pool, winners.len());
    let remainder = remainder_of(pool, percentages);
    if remainder > 0 && winners.len() > 0 {
        adjusted(paid, winners[0], remainder)
    } else {
        paid
    }
}

/// Every amount that sharing out the pool takes can be held.
pub open spec fn shareable_out(
    escrow: Map<Address, int>,
    game: GameView,
    winners: Seq<Address>,
    percentages: Seq<u32>,
) -> bool {
    let pool = stakes_of(game);
    let paid = credited(debited(escrow, game), winners, percentages, pool, winners.len());
    let remainder = remainder_of(pool, percentages);
    &&& in_range(pool)
    &&& debitable(escrow, game)
    &&& creditable(debited(escrow, game), winners, percentages, pool, winners.len())
    &&& remainder > 0 && winners.len() > 0 ==> adjustable(paid, winners[0], remainder)
}

/// The sum of the percentages can be held, and where the pool may be shared out so
/// can every amount that this takes.
pub open spec fn can_share_out(
    contract: ContractView,
    game_id: u64,
    winners: Seq<Address>,
    percentages: Seq<u32>,
) -> bool {
    &&& tournament_refusal(contract, game_id) is None && winners.len() == percentages.len()
        ==> percentage_sum(percentages, percentages.len()) <= u32::MAX
    &&& tournament_error(contract, game_id, winners, percentages) is None ==> shareable_out(
        contract.escrow,
        contract.games[game_id],
        winners,
        percentages,
    )
}

/// The sums of percentages grow with the number of terms.
proof fn lemma_percentage_sum_monotonic(percentages: Seq<u32>, m: nat, n: nat)
    requires
        m <= n <= percentages.len(),
    ensures
        0 <= percentage_sum(percentages, m) <= percentage_sum(percentages, n),
    decreases n,
{
    if m < n {
        lemma_percentage_sum_monotonic(percentages, m, (n - 1) as nat);
    } else if n > 0 {
        lemma_percentage_sum_monotonic(percentages, (m - 1) as nat, (n - 1) as nat);
    }
}

/// One share is at most its exact part of the pool, and on the same side of zero.
pub(crate) proof fn lemma_share_bounds(pool: int, percentage: u32)
    ensures
        pool >= 0 ==> 0 <= 100 * share_of(pool, percentage) <= pool * percentage,
        pool <= 0 ==> pool * percentage <= 100 * share_of(pool, percentage) <= 0,
{
    let product = pool * percentage;
    assert(pool >= 0 ==> product >= 0) by (nonlinear_arith)
        requires
            product == pool * percentage,
    ;
    assert(pool <= 0 ==> product <= 0) by (nonlinear_arith)
        requires
            product == pool * percentage,
    ;
}

/// The shares together are at most their exact part of the pool, and on the same
/// side of zero.
proof fn lemma_share_sum_bounds(pool: int, percentages: Seq<u32>, n: nat)
    requires
        n <= percentages.len(),
    ensures
        pool >= 0 ==> 0 <= 100 * share_sum(pool, percentages, n) <= pool * percentage_sum(
            percentages,
            n,
        ),
        pool <= 0 ==> pool * percentage_sum(percentages, n) <= 100 * share_sum(
            pool,
            percentages,
            n,
        ) <= 0,
    decreases n,
{
    if n == 0 {
        assert(pool * percentage_sum(percentages, n) == 0);
    } else {
        let m = (n - 1) as nat;
        lemma_share_sum_bounds(pool, percentages, m);
        lemma_share_bounds(pool, percentages[n - 1]);
        assert(pool * percentage_sum(percentages, n) == pool * percentage_sum(percentages, m)
            + pool * percentages[n - 1]) by (nonlinear_arith)
            requires
                percentage_sum(percentages, n) == percentage_sum(percentages, m)
                    + percentages[n - 1],
        ;
    }
}

/// While the percentages sum up to at most a hundred, the shares stay within the
/// pool.
pub(crate) proof fn lemma_share_sum_within(pool: int, percentages: Seq<u32>, n: nat)
    requires
        n <= percentages.len(),
        percentage_sum(percentages, percentages.len()) == 100,
    ensures
        pool >= 0 ==> 0 <= share_sum(pool, percentages, n) <= pool,
        pool <= 0 ==> pool <= share_sum(pool, percentages, n) <= 0,
{
    lemma_share_sum_bounds(pool, percentages, n);
    lemma_percentage_sum_monotonic(percentages, n, percentages.len());
    let sum = percentage_sum(percentages, n);
    assert(pool >= 0 ==> pool * sum <= pool * 100) by (nonlinear_arith)
        requires
            0 <= sum <= 100,
    ;
    assert(pool <= 0 ==> pool * sum >= pool * 100) by (nonlinear_arith)
        requires
            0 <= sum <= 100,
    ;
}

/// Sum of the percentages, if it can be held.
fn total_percentage(percentages: &Vec<u32>) -> (total: Option<u32>)
    ensures
        match total {
            Some(sum) => sum == percentage_sum(percentages@, percentages@.len()),
            None => percentage_sum(percentages@, percentages@.len()) > u32::MAX,
        },
{
    let mut total: u32 = 0;
    let mut i: usize = 0;
    while i < percentages.len()
        invariant
            i <= percentages@.len(),
            total == percentage_sum(percentages@, i as nat),
        decreases percentages@.len() - i,
    {
        proof {
            lemma_percentage_sum_monotonic(percentages@, (i + 1) as nat, percentages@.len());
        }
        total = match total.checked_add(percentages[i]) {
            Some(sum) => sum,
            None => {
                return None;
            },
        };
        i = i + 1;
    }
    Some(total)
}

/// Takes the stakes of the players out of escrow; tells whether it can.
fn debit_players(escrow: &mut Escrow, game: &Game) -> (done: bool)
    requires
        old(escrow).valid(),
    ensures
        final(escrow).valid(),
        done == debitable(old(escrow)@, game@),
        done ==> final(escrow)@ == debited(old(escrow)@, game@),
{
    let first: i128 = match escrow.balance(game.player1).checked_sub(game.wager_amount) {
        Some(rest) => rest,
        None => {
            return false;
        },
    };
    match game.player2 {
        Some(player2) => {
            let second: i128 = match escrow.balance(player2).checked_sub(game.wager_amount) {
                Some(rest) => rest,
                None => {
                    return false;
                },
            };
            escrow.set(game.player1, first);
            escrow.set(player2, second);
        },
        None => {
            escrow.set(game.player1, first);
        },
    }
    true
}

/// Shares the pool out; tells whether every amount that this takes can be held.
fn share_out(
    escrow: &mut Escrow,
    game: &Game,
    winners: &Vec<Address>,
    percentages: &Vec<u32>,
) -> (done: bool)
    requires
        old(escrow).valid(),
        winners@.len() == percentages@.len(),
        percentage_sum(percentages@, percentages@.len()) == 100,
    ensures
        final(escrow).valid(),
        done == shareable_out(old(escrow)@, game@, winners@, percentages@),
        done ==> final(escrow)@ == shared_out(old(escrow)@, game@, winners@, percentages@),
{
    let pool: i128 = match game.player2 {
        Some(_) => match game.wager_amount.checked_mul(2) {
            Some(pool) => pool,
            None => {
                return false;
            },
        },
        None => game.wager_amount,
    };
    if !debit_players(escrow, game) {
        return false;
    }
    let ghost start = escrow@;
    let mut distributed: i128 = 0;
    let mut i: usize = 0;
    while i < winners.len()
        invariant
            i <= winners@.len(),
            winners@.len() == percentages@.len(),
            percentage_sum(percentages@, percentages@.len()) == 100,
            escrow.valid(),
            escrow@ == credited(start, winners@, percentages@, pool as int, i as nat),
            creditable(start, winners@, percentages@, pool as int, i as nat),
            distributed == share_sum(pool as int, percentages@, i as nat),
            pool == stakes_of(game@),
            start == debited(old(escrow)@, game@),
        decreases winners@.len() - i,
    {
        let product: i128 = match pool.checked_mul(percentages[i] as i128) {
            Some(product) => product,
            None => {
                assert(!next_creditable(start, winners@, percentages@, pool as int, i as nat));
                return false;
            },
        };
        let share: i128 = product / 100;
        assert(share == share_of(pool as int, percentages@[i as int]));
        proof {
            lemma_share_sum_within(pool as int, percentages@, (i + 1) as nat);
        }
        distributed = distributed + share;
        if !escrow.adjust(winners[i], share) {
            assert(!next_creditable(start, winners@, percentages@, pool as int, i as nat));
            return false;
        }
        i = i + 1;
    }
    proof {
        lemma_share_sum_within(pool as int, percentages@, percentages@.len());
    }
    let remainder: i128 = pool - distributed;
    if remainder > 0 && winners.len() > 0 {
        escrow.adjust(winners[0], remainder)
    } else {
        true
    }
}

impl GameContract {
    /// The creator of a completed game, who may share out the pool.
    pub fn tournament_organizer(&self, game_id: u64) -> (found: Result<Address, ContractError>)
        ensures
            match found {
                Ok(organizer) => {
                    &&& tournament_refusal(self@, game_id) is None
                    &&& organizer == self@.games[game_id].player1
                },
                Err(error) => tournament_refusal(self@, game_id) == Some(error),
            },
    {
        let game = match self.get_game(game_id) {
            Ok(game) => game,
            Err(error) => {
                return Err(error);
            },
        };
        if game.state != GameState::Completed {
            return Err(ContractError::GameNotInProgress);
        }
        Ok(game.player1)
    }

    /// The escrow after sharing out the pool, or why it may not be; `None` where an
    /// amount that this takes cannot be held.
    fn plan_tournament(
        &self,
        game_id: u64,
        winners: &Vec<Address>,
        percentages: &Vec<u32>,
    ) -> (plan: Option<Result<Escrow, ContractError>>)
        requires
            self.valid(),
        ensures
            plan is Some == can_share_out(self@, game_id, winners@, percentages@),
            match plan {
                Some(Ok(escrow)) => {
                    &&& tournament_error(self@, game_id, winners@, percentages@) is None
                    &&& escrow.valid()
                    &&& escrow@ == shared_out(
                        self@.escrow,
                        self@.games[game_id],
                        winners@,
                        percentages@,
                    )
                },
                Some(Err(error)) => tournament_error(self@, game_id, winners@, percentages@)
                    == Some(error),
                None => true,
            },
    {
        match self.tournament_organizer(game_id) {
            Ok(_) => {},
            Err(error) => {
                return Some(Err(error));
            },
        }
        let game = match self.get_game(game_id) {
            Ok(game) => game,
            Err(error) => {
                return Some(Err(error));
            },
        };
        if winners.len() != percentages.len() {
            return Some(Err(ContractError::MismatchedLengths));
        }
        match total_percentage(percentages) {
            Some(total) => {
                if total != 100 {
                    return Some(Err(ContractError::InvalidPercentage));
                }
            },
            None => {
                return None;
            },
        }
        if self.escrow.balance(game.player1) < game.wager_amount {
            return Some(Err(ContractError::InsufficientFunds));
        }
        if let Some(player2) = game.player2 {
            if self.escrow.balance(player2) < game.wager_amount {
                return Some(Err(ContractError::InsufficientFunds));
            }
        }
        let mut escrow = self.escrow.duplicate();
        if share_out(&mut escrow, game, winners, percentages) {
            Some(Ok(escrow))
        } else {
            None
        }
    }

    /// Tells whether `payout_tournament` can share out the pool.
    pub fn tournament_in_range(
        &self,
        game_id: u64,
        winners: &Vec<Address>,
        percentages: &Vec<u32>,
    ) -> (can: bool)
        requires
            self.valid(),
        ensures
            can == can_share_out(self@, game_id, winners@, percentages@),
    {
        self.plan_tournament(game_id, winners, percentages).is_some()
    }

    /// Shares out the stakes of a completed game between the winners.
    ///
    /// Each winner is credited its percentage of the pool, rounded toward zero; the
    /// first one also gets what rounding leaves.
    pub fn payout_tournament(
        &mut self,
        game_id: u64,
        winners: &Vec<Address>,
        percentages: &Vec<u32>,
    ) -> (result: Result<(), ContractError>)
        requires
            old(self).valid(),
            can_share_out(old(self)@, game_id, winners@, percentages@),
        ensures
            final(self).valid(),
            match result {
                Ok(()) => {
                    &&& tournament_error(old(self)@, game_id, winners@, percentages@) is None
                    &&& final(self)@ == (ContractView {
                        escrow: shared_out(
                            old(self)@.escrow,
                            old(self)@.games[game_id],
                            winners@,
                            percentages@,
                        ),
                        ..old(self)@
                    })
                },
                Err(error) => {
                    &&& tournament_error(old(self)@, game_id, winners@, percentages@) == Some(
                        error,
                    )
                    &&& final(self)@ == old(self)@
                },
            },
    {
        match self.plan_tournament(game_id, winners, percentages) {
            Some(Ok(escrow)) => {
                self.escrow = escrow;
                Ok(())
            },
            Some(Err(error)) => Err(error),
            None => {
                assert(false);
                Err(ContractError::InvalidPercentage)
            },
        }
    }
}

} // verus!
