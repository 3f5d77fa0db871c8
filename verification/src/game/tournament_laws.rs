//! What the payout of a tournament gives to whom.

use crate::game::address::Address;
use crate::game::call_laws::is_rounded_part;
use crate::game::escrow::balance_of;
use crate::game::laws::law_shares_make_up_pool;
use crate::game::state::{ContractError, GameContract, GameView};
use crate::game::tournament::{
    credited, debited, lemma_share_bounds, percentage_sum, share_of, share_sum,
};
use vstd::prelude::*;

verus! {

/// Sum of the terms.
pub open spec fn sum_of(terms: Seq<int>) -> int {
    terms.fold_left(0int, |sum: int, term: int| sum + term)
}

/// The percentages as terms of a sum.
pub open spec fn hundredths(percentages: Seq<u32>) -> Seq<int> {
    Seq::new(percentages.len(), |i: int| percentages[i] as int)
}

/// Both wagers, or the one of a game without a second player.
pub open spec fn stakes(game: GameView) -> int {
    if game.player2 is Some {
        game.wager_amount + game.wager_amount
    } else {
        game.wager_amount as int
    }
}

/// The exact percentages of the pool, each rounded toward zero.
pub open spec fn rounded_parts(pool: int, percentages: Seq<u32>) -> Seq<int> {
    Seq::new(
        percentages.len(),
        |i: int|
            if pool >= 0 {
                pool * percentages[i] / 100
            } else {
                -((-pool) * percentages[i] / 100)
            },
    )
}

/// Of the parts those at the places where the address stands among the winners.
pub open spec fn parts_for(who: Address, winners: Seq<Address>, parts: Seq<int>) -> Seq<int> {
    Seq::new(
        parts.len(),
        |i: int|
            if winners[i] == who {
                parts[i]
            } else {
                0
            },
    )
}

/// One more term adds to the sum.
proof fn lemma_sum_next(terms: Seq<int>, n: int)
    requires
        0 <= n < terms.len(),
    ensures
        sum_of(terms.take(n + 1)) == sum_of(terms.take(n)) + terms[n],
{
    assert(terms.take(n + 1).drop_last() =~= terms.take(n));
}

/// Each part is its share of the pool.
proof fn lemma_part_is_share(pool: int, percentages: Seq<u32>, i: int)
    requires
        0 <= i < percentages.len(),
    ensures
        rounded_parts(pool, percentages)[i] == share_of(pool, percentages[i]),
{
    lemma_share_bounds(pool, percentages[i]);
    let product = pool * percentages[i];
    assert((-pool) * percentages[i] == -product) by (nonlinear_arith)
        requires
            product == pool * percentages[i],
    ;
    assert(pool >= 0 ==> product >= 0) by (nonlinear_arith)
        requires
            product == pool * percentages[i],
    ;
    assert(pool <= 0 ==> product <= 0) by (nonlinear_arith)
        requires
            product == pool * percentages[i],
    ;
}

/// The sum of the first percentages.
pub(crate) proof fn lemma_percentage_sum(percentages: Seq<u32>, n: nat)
    requires
        n <= percentages.len(),
    ensures
        percentage_sum(percentages, n) == sum_of(hundredths(percentages).take(n as int)),
    decreases n,
{
    if n > 0 {
        lemma_percentage_sum(percentages, (n - 1) as nat);
        lemma_sum_next(hundredths(percentages), n - 1);
    }
}

/// The sum of the first shares.
proof fn lemma_share_sum(pool: int, percentages: Seq<u32>, n: nat)
    requires
        n <= percentages.len(),
    ensures
        share_sum(pool, percentages, n) == sum_of(
            rounded_parts(pool, percentages).take(n as int),
        ),
    decreases n,
{
    if n > 0 {
        lemma_share_sum(pool, percentages, (n - 1) as nat);
        lemma_sum_next(rounded_parts(pool, percentages), n - 1);
        lemma_part_is_share(pool, percentages, n - 1);
    }
}

/// Crediting the first winners gives an address the parts at its places among them.
proof fn lemma_credited(
    escrow: Map<Address, int>,
    winners: Seq<Address>,
    percentages: Seq<u32>,
    pool: int,
    n: nat,
    who: Address,
)
    requires
        n <= winners.len(),
        winners.len() == percentages.len(),
    ensures
        balance_of(credited(escrow, winners, percentages, pool, n), who) == balance_of(
            escrow,
            who,
        ) + sum_of(parts_for(who, winners, rounded_parts(pool, percentages)).take(n as int)),
        credited(escrow, winners, percentages, pool, n).contains_key(who)
            <==> escrow.contains_key(who) || winners.take(n as int).contains(who),
    decreases n,
{
    if n > 0 {
        let m = (n - 1) as nat;
        let parts = parts_for(who, winners, rounded_parts(pool, percentages));
        lemma_credited(escrow, winners, percentages, pool, m, who);
        lemma_sum_next(parts, m as int);
        lemma_part_is_share(pool, percentages, m as int);
        let fewer = winners.take(m as int);
        let first = winners.take(n as int);
        assert(first =~= fewer.push(winners[m as int]));
        if fewer.contains(who) {
            let k = choose|k: int| 0 <= k < fewer.len() && fewer[k] == who;
            assert(first[k] == who);
        }
        if winners[m as int] == who {
            assert(first[m as int] == who);
        }
    }
}

/// The creator of a completed game organizes its tournament.
pub proof fn law_creator_organizes_tournament(
    contract: &GameContract,
    game_id: u64,
    found: Result<Address, ContractError>,
)
    requires
        call_ensures(GameContract::tournament_organizer, (contract, game_id), found),
    ensures
        found is Ok <==> contract@.games.contains_key(game_id)
            && contract@.games[game_id].state is Completed,
        found matches Ok(organizer) ==> organizer == contract@.games[game_id].player1,
        found == Err::<Address, _>(ContractError::GameNotFound)
            <==> !contract@.games.contains_key(game_id),
        found == Err::<Address, _>(ContractError::GameNotInProgress)
            <==> contract@.games.contains_key(game_id) && !(
        contract@.games[game_id].state is Completed),
{
}

/// The pool of a completed game is shared out exactly if there is a percentage for each
/// winner, the percentages make up a hundred, and each player has its wager in escrow;
/// each refusal says what stands in the way.
pub proof fn law_when_tournament_is_paid(
    contract: &mut GameContract,
    game_id: u64,
    winners: &Vec<Address>,
    percentages: &Vec<u32>,
    result: Result<(), ContractError>,
)
    requires
        call_ensures(
            GameContract::payout_tournament,
            (contract, game_id, winners, percentages),
            result,
        ),
    ensures
        ({
            let game = old(contract)@.games[game_id];
            let found = old(contract)@.games.contains_key(game_id);
            let over = found && game.state is Completed;
            let paired = over && winners@.len() == percentages@.len();
            let whole = paired && sum_of(hundredths(percentages@)) == 100;
            let funded = whole && balance_of(old(contract)@.escrow, game.player1)
                >= game.wager_amount && (game.player2 matches Some(player2) ==> balance_of(
                old(contract)@.escrow,
                player2,
            ) >= game.wager_amount);
            &&& result is Ok <==> funded
            &&& result == Err::<(), _>(ContractError::GameNotFound) <==> !found
            &&& result == Err::<(), _>(ContractError::GameNotInProgress) <==> found && !over
            &&& result == Err::<(), _>(ContractError::MismatchedLengths) <==> over && !paired
            &&& result == Err::<(), _>(ContractError::InvalidPercentage) <==> paired && !whole
            &&& result == Err::<(), _>(ContractError::InsufficientFunds) <==> whole && !funded
        }),
        result is Err ==> final(contract)@ == old(contract)@,
{
    lemma_percentage_sum(percentages@, percentages@.len());
    assert(hundredths(percentages@).take(percentages@.len() as int) =~= hundredths(
        percentages@,
    ));
}

/// A tournament takes one wager from each player and gives each address the parts at all
/// the places where it stands among the winners; the first winner also gets what
/// rounding leaves of the pool. Nothing but the escrow changes.
pub proof fn law_tournament_pays_each_place(
    contract: &mut GameContract,
    game_id: u64,
    winners: &Vec<Address>,
    percentages: &Vec<u32>,
    who: Address,
)
    requires
        call_ensures(
            GameContract::payout_tournament,
            (contract, game_id, winners, percentages),
            Ok::<(), ContractError>(()),
        ),
    ensures
        ({
            let game = old(contract)@.games[game_id];
            let parts = rounded_parts(stakes(game), percentages@);
            let rest = stakes(game) - sum_of(parts);
            let plays = who == game.player1 || game.player2 == Some(who);
            &&& winners@.len() > 0
            &&& balance_of(final(contract)@.escrow, who) == balance_of(
                old(contract)@.escrow,
                who,
            ) - (if plays {
                game.wager_amount as int
            } else {
                0
            }) + sum_of(parts_for(who, winners@, parts)) + (if who == winners@[0] && rest > 0 {
                rest
            } else {
                0
            })
            &&& final(contract)@.escrow.contains_key(who) <==> old(
                contract,
            )@.escrow.contains_key(who) || plays || winners@.contains(who)
        }),
        final(contract)@.games == old(contract)@.games,
        final(contract)@.game_counter == old(contract)@.game_counter,
        final(contract)@.token_contract == old(contract)@.token_contract,
        final(contract)@.admin == old(contract)@.admin,
        final(contract)@.admin_key == old(contract)@.admin_key,
        final(contract)@.fees == old(contract)@.fees,
{
    let game = old(contract)@.games[game_id];
    let pool = stakes(game);
    let n = winners@.len();
    let start = debited(old(contract)@.escrow, game);
    let parts = rounded_parts(pool, percentages@);
    lemma_credited(start, winners@, percentages@, pool, n, who);
    lemma_share_sum(pool, percentages@, n);
    assert(winners@.take(n as int) =~= winners@);
    assert(parts.take(n as int) =~= parts);
    assert(parts_for(who, winners@, parts).take(n as int) =~= parts_for(who, winners@, parts));
    assert(percentage_sum(percentages@, 0) == 0);
    assert(winners@.contains(winners@[0]));
}

/// A winner that stands only at place `i` gains its percentage of the pool, rounded
/// toward zero; at the first place also what rounding leaves, which is less than one
/// unit for each winner.
pub proof fn law_tournament_pays_percentages(
    contract: &mut GameContract,
    game_id: u64,
    winners: &Vec<Address>,
    percentages: &Vec<u32>,
    i: int,
)
    requires
        call_ensures(
            GameContract::payout_tournament,
            (contract, game_id, winners, percentages),
            Ok::<(), ContractError>(()),
        ),
        old(contract)@.games[game_id].wager_amount >= 0,
        0 <= i < winners@.len(),
        forall|j: int| 0 <= j < winners@.len() && j != i ==> winners@[j] != winners@[i],
    ensures
        ({
            let game = old(contract)@.games[game_id];
            let pool = stakes(game);
            let who = winners@[i];
            let staked = if who == game.player1 || game.player2 == Some(who) {
                game.wager_amount as int
            } else {
                0
            };
            let gain = balance_of(final(contract)@.escrow, who) - (balance_of(
                old(contract)@.escrow,
                who,
            ) - staked);
            let rest = pool - sum_of(rounded_parts(pool, percentages@));
            &&& 0 <= rest < winners@.len()
            &&& is_rounded_part(
                if i == 0 {
                    gain - rest
                } else {
                    gain
                },
                pool,
                percentages@[i] as int,
                100,
            )
        }),
{
    let game = old(contract)@.games[game_id];
    let pool = stakes(game);
    let who = winners@[i];
    let parts = rounded_parts(pool, percentages@);
    law_tournament_pays_each_place(contract, game_id, winners, percentages, who);
    lemma_only_part(parts_for(who, winners@, parts), i);
    lemma_part_is_share(pool, percentages@, i);
    lemma_share_bounds(pool, percentages@[i]);
    law_shares_make_up_pool(pool, percentages@);
    lemma_share_sum(pool, percentages@, percentages@.len());
    assert(parts.take(percentages@.len() as int) =~= parts);
    if i != 0 {
        assert(winners@[0] != winners@[i]);
    }
}

/// A sum with one term that is not zero is that term.
proof fn lemma_only_part(terms: Seq<int>, i: int)
    requires
        0 <= i < terms.len(),
        forall|j: int| 0 <= j < terms.len() && j != i ==> terms[j] == 0,
    ensures
        sum_of(terms) == terms[i],
{
    lemma_only_part_of(terms, i, terms.len());
    assert(terms.take(terms.len() as int) =~= terms);
}

/// So it is with the sum of the first terms, from that term on.
proof fn lemma_only_part_of(terms: Seq<int>, i: int, n: nat)
    requires
        0 <= i < terms.len(),
        n <= terms.len(),
        forall|j: int| 0 <= j < terms.len() && j != i ==> terms[j] == 0,
    ensures
        sum_of(terms.take(n as int)) == if i < n {
            terms[i]
        } else {
            0
        },
    decreases n,
{
    if n > 0 {
        lemma_only_part_of(terms, i, (n - 1) as nat);
        lemma_sum_next(terms, n - 1);
    }
}

} // verus!
