use xlmate::game::address::{Address, AddressKind};
use xlmate::game::escrow::Escrow;
use xlmate::game::state::{ContractError, Fees, Game, GameContract, GameState, Transfer};

fn account(n: u128) -> Address {
    Address { kind: AddressKind::Account, high: 0, low: n }
}

fn token() -> Address {
    Address { kind: AddressKind::Contract, high: 1, low: 1 }
}

fn seed_completed_game(
    contract: &mut GameContract,
    player1: Address,
    player2: Option<Address>,
    wager: i128,
) -> u64 {
    contract.game_counter += 1;
    let game_id = contract.game_counter;
    contract.games.insert(
        game_id,
        Game {
            id: game_id,
            player1,
            player2,
            state: GameState::Completed,
            wager_amount: wager,
            current_turn: 1,
            moves: Vec::new(),
            created_at: 0,
            winner: None,
        },
    );
    contract.escrow.set(player1, wager);
    if let Some(player2) = player2 {
        contract.escrow.set(player2, wager);
    }
    game_id
}

fn balances_after(transfers: &[Transfer], who: Address, start: i128) -> i128 {
    let mut balance = start;
    for transfer in transfers {
        match *transfer {
            Transfer::Deposit { from, amount } => {
                if from == who {
                    balance -= amount;
                }
            }
            Transfer::Payout { to, amount } => {
                if to == who {
                    balance += amount;
                }
            }
        }
    }
    balance
}

fn started_game(
    contract: &mut GameContract,
    player1: Address,
    player2: Address,
    wager: i128,
    transfers: &mut Vec<Transfer>,
) -> u64 {
    if contract.token_contract.is_none() {
        contract.initialize(token());
    }
    let game_id = contract.create_game(player1, wager, 1_000_000, 3, transfers);
    contract.join_game(game_id, player2, 1_000_000, transfers).unwrap();
    game_id
}

#[test]
fn test_payout_tournament() {
    let mut contract = GameContract::new();
    let (player1, player2) = (account(1), account(2));
    let wager: i128 = 1000;
    let game_id = seed_completed_game(&mut contract, player1, Some(player2), wager);
    let (winner1, winner2, winner3) = (account(3), account(4), account(5));
    let winners = vec![winner1, winner2, winner3];
    let percentages = vec![50, 30, 20];

    assert!(contract.tournament_in_range(game_id, &winners, &percentages));
    contract.payout_tournament(game_id, &winners, &percentages).unwrap();

    let w1_escrow = contract.escrow.balance(winner1);
    let w2_escrow = contract.escrow.balance(winner2);
    let w3_escrow = contract.escrow.balance(winner3);
    assert_eq!(w1_escrow, 1000);
    assert_eq!(w2_escrow, 600);
    assert_eq!(w3_escrow, 400);
    assert_eq!(w1_escrow + w2_escrow + w3_escrow, wager * 2);
    assert_eq!(contract.escrow.balance(player1), 0);
    assert_eq!(contract.escrow.balance(player2), 0);
}

#[test]
fn test_payout_tournament_dust() {
    let mut contract = GameContract::new();
    let wager: i128 = 333;
    let game_id = seed_completed_game(&mut contract, account(1), Some(account(2)), wager);
    let (winner1, winner2, winner3) = (account(3), account(4), account(5));
    let winners = vec![winner1, winner2, winner3];
    let percentages = vec![50, 30, 20];

    contract.payout_tournament(game_id, &winners, &percentages).unwrap();

    let w1_escrow = contract.escrow.balance(winner1);
    let w2_escrow = contract.escrow.balance(winner2);
    let w3_escrow = contract.escrow.balance(winner3);
    assert_eq!(w1_escrow, 334);
    assert_eq!(w2_escrow, 199);
    assert_eq!(w3_escrow, 133);
    assert_eq!(w1_escrow + w2_escrow + w3_escrow, wager * 2);
}

#[test]
fn test_payout_tournament_invalid_percentage() {
    let mut contract = GameContract::new();
    let wager: i128 = 1000;
    let game_id = seed_completed_game(&mut contract, account(1), Some(account(2)), wager);

    let result = contract.payout_tournament(game_id, &vec![account(3)], &vec![90]);

    assert!(result.is_err());
    assert_eq!(result, Err(ContractError::InvalidPercentage));
    assert_eq!(ContractError::InvalidPercentage.code(), 12);
}

#[test]
fn test_payout_with_fee() {
    let mut contract = GameContract::new();
    let mut transfers = Vec::new();
    let admin = account(10);
    let treasury_addr = account(11);
    let admin_key = vec![0u8; 32];
    contract.initialize_fees(admin, admin_key, 20, treasury_addr);

    let (player1, player2) = (account(1), account(2));
    let wager = 500;
    let game_id = started_game(&mut contract, player1, player2, wager, &mut transfers);
    let game = contract.games.get_mut(&game_id).unwrap();
    game.state = GameState::Completed;
    game.winner = Some(player1);

    assert!(contract.payout_in_range(game_id, player1));
    contract.payout(game_id, player1, &mut transfers).unwrap();

    assert_eq!(contract.escrow.balance(player1), 980);
    assert_eq!(contract.escrow.balance(treasury_addr), 20);
    assert_eq!(contract.escrow.balance(player2), 0);
    assert_eq!(transfers.last(), Some(&Transfer::Payout { to: player1, amount: 980 }));
}

#[test]
fn test_configure_fees_permissioned() {
    let mut contract = GameContract::new();
    let admin = account(10);
    let treasury_addr = account(11);
    let admin_key = vec![0u8; 32];
    contract.initialize_fees(admin, admin_key, 0, treasury_addr);

    let new_treasury = account(12);
    contract.configure_fees(admin, 50, new_treasury).unwrap();
    assert_eq!(contract.fees, Some(Fees { rate: 50, treasury: new_treasury }));

    let stranger = account(13);
    let result = contract.configure_fees(stranger, 100, new_treasury);
    assert!(result.is_err());
    assert_eq!(result, Err(ContractError::Unauthorized));
    assert_eq!(contract.fees, Some(Fees { rate: 50, treasury: new_treasury }));
}

#[test]
fn test_upgrade_admin_logic() {
    let mut contract = GameContract::new();
    contract.admin_key = Some(vec![0u8; 32]);

    let admin = account(10);
    contract.upgrade_admin(admin).unwrap();
    assert_eq!(contract.admin, Some(admin));

    let stranger = account(13);
    let result = contract.upgrade_admin(stranger);
    assert!(result.is_err());
    assert_eq!(contract.admin, Some(admin));
}

#[test]
fn test_usdc_staking_workflow() {
    let mut contract = GameContract::new();
    let mut transfers = Vec::new();
    let (player1, player2) = (account(1), account(2));
    let fund_amount: i128 = 1_000;
    contract.initialize(token());
    assert_eq!(contract.token_contract_address(), token());

    let initial_wager: i128 = 100;
    assert!(contract.create_in_range(player1, initial_wager));
    let game_id = contract.create_game(player1, initial_wager, fund_amount, 1, &mut transfers);
    contract.join_game(game_id, player2, fund_amount, &mut transfers).unwrap();
    assert!(contract.forfeit_in_range(game_id, player1));
    contract.forfeit(game_id, player1, &mut transfers).unwrap();

    assert_eq!(balances_after(&transfers, player2, fund_amount), 1_100);
    assert_eq!(balances_after(&transfers, player1, fund_amount), 900);
}

#[test]
fn created_game_awaits_a_second_player() {
    let mut contract = GameContract::new();
    let mut transfers = Vec::new();
    contract.initialize(token());
    let first = contract.create_game(account(1), 100, 100, 42, &mut transfers);
    let second = contract.create_game(account(1), 50, 100, 43, &mut transfers);
    assert_eq!((first, second), (1, 2));
    assert_eq!(contract.escrow.balance(account(1)), 150);
    let game = contract.get_game(first).unwrap();
    assert_eq!(game.id, 1);
    assert_eq!(game.player1, account(1));
    assert_eq!(game.player2, None);
    assert_eq!(game.state, GameState::Created);
    assert_eq!(game.wager_amount, 100);
    assert_eq!(game.current_turn, 1);
    assert_eq!(game.created_at, 42);
    assert_eq!(game.winner, None);
    assert!(game.moves.is_empty());
    assert_eq!(contract.get_all_games().len(), 2);
    assert_eq!(
        transfers,
        vec![
            Transfer::Deposit { from: account(1), amount: 100 },
            Transfer::Deposit { from: account(1), amount: 50 },
        ]
    );
    assert_eq!(contract.get_game(3).err(), Some(ContractError::GameNotFound));
}

#[test]
fn joining_is_refused_with_the_reason() {
    let mut contract = GameContract::new();
    let mut transfers = Vec::new();
    contract.initialize(token());
    let game_id = contract.create_game(account(1), 100, 100, 1, &mut transfers);
    assert_eq!(
        contract.join_game(9, account(2), 100, &mut transfers),
        Err(ContractError::GameNotFound)
    );
    assert_eq!(
        contract.join_game(game_id, account(1), 100, &mut transfers),
        Err(ContractError::AlreadyJoined)
    );
    assert_eq!(
        contract.join_game(game_id, account(2), 99, &mut transfers),
        Err(ContractError::InsufficientFunds)
    );
    assert_eq!(contract.check_join(game_id, account(2)), Ok(()));
    assert_eq!(contract.join_game(game_id, account(2), 100, &mut transfers), Ok(()));
    assert_eq!(
        contract.join_game(game_id, account(3), 100, &mut transfers),
        Err(ContractError::GameAlreadyCompleted)
    );
    assert_eq!(transfers.len(), 2);
    let game = contract.get_game(game_id).unwrap();
    assert_eq!(game.player2, Some(account(2)));
    assert_eq!(game.state, GameState::InProgress);
    assert_eq!(contract.escrow.balance(account(2)), 100);
    contract.games.get_mut(&game_id).unwrap().state = GameState::Created;
    assert_eq!(
        contract.check_join(game_id, account(3)),
        Err(ContractError::GameFull)
    );
}

#[test]
fn players_take_turns() {
    let mut contract = GameContract::new();
    let mut transfers = Vec::new();
    let game_id = started_game(&mut contract, account(1), account(2), 10, &mut transfers);
    assert_eq!(
        contract.submit_move(7, account(1), vec![1], 5),
        Err(ContractError::GameNotFound)
    );
    assert_eq!(
        contract.submit_move(game_id, account(3), vec![1], 5),
        Err(ContractError::NotPlayer)
    );
    assert_eq!(
        contract.submit_move(game_id, account(2), vec![1], 5),
        Err(ContractError::NotYourTurn)
    );
    assert_eq!(
        contract.submit_move(game_id, account(1), vec![], 5),
        Err(ContractError::InvalidMove)
    );
    assert_eq!(contract.submit_move(game_id, account(1), vec![12, 28], 5), Ok(()));
    assert_eq!(
        contract.submit_move(game_id, account(1), vec![1], 6),
        Err(ContractError::NotYourTurn)
    );
    assert_eq!(contract.submit_move(game_id, account(2), vec![52, 36], 6), Ok(()));
    let game = contract.get_game(game_id).unwrap();
    assert_eq!(game.current_turn, 1);
    assert_eq!(game.moves.len(), 2);
    assert_eq!(game.moves[0].player, account(1));
    assert_eq!(game.moves[0].move_data, vec![12, 28]);
    assert_eq!(game.moves[0].timestamp, 5);
    assert_eq!(game.moves[1].player, account(2));
    assert_eq!(game.moves[1].timestamp, 6);
}

#[test]
fn draw_returns_both_wagers() {
    let mut contract = GameContract::new();
    let mut transfers = Vec::new();
    let game_id = started_game(&mut contract, account(1), account(2), 10, &mut transfers);
    assert_eq!(
        contract.claim_draw(game_id, account(3), &mut transfers),
        Err(ContractError::NotPlayer)
    );
    assert!(contract.draw_in_range(game_id, account(2)));
    assert_eq!(contract.claim_draw(game_id, account(2), &mut transfers), Ok(()));
    assert_eq!(contract.escrow.balance(account(1)), 0);
    assert_eq!(contract.escrow.balance(account(2)), 0);
    assert_eq!(balances_after(&transfers, account(1), 100), 100);
    assert_eq!(balances_after(&transfers, account(2), 100), 100);
    assert_eq!(contract.get_game(game_id).unwrap().state, GameState::Drawn);
    assert_eq!(
        contract.claim_draw(game_id, account(2), &mut transfers),
        Err(ContractError::GameNotInProgress)
    );
    assert_eq!(
        contract.submit_move(game_id, account(1), vec![1], 5),
        Err(ContractError::GameNotInProgress)
    );
    assert_eq!(transfers.len(), 4);
}

#[test]
fn forfeit_gives_both_wagers_to_the_other_player() {
    let mut contract = GameContract::new();
    let mut transfers = Vec::new();
    let game_id = started_game(&mut contract, account(1), account(2), 10, &mut transfers);
    assert_eq!(
        contract.forfeit(9, account(2), &mut transfers),
        Err(ContractError::GameNotFound)
    );
    assert_eq!(contract.forfeit(game_id, account(2), &mut transfers), Ok(()));
    let game = contract.get_game(game_id).unwrap();
    assert_eq!(game.state, GameState::Forfeited);
    assert_eq!(game.winner, Some(account(1)));
    assert_eq!(transfers.last(), Some(&Transfer::Payout { to: account(1), amount: 20 }));
    assert_eq!(contract.escrow.balance(account(1)), 30);
    assert_eq!(contract.escrow.balance(account(2)), 0);
    assert_eq!(
        contract.forfeit(game_id, account(1), &mut transfers),
        Err(ContractError::GameNotInProgress)
    );
}

#[test]
fn forfeit_needs_an_opponent() {
    let mut contract = GameContract::new();
    let mut transfers = Vec::new();
    let game_id = started_game(&mut contract, account(1), account(2), 10, &mut transfers);
    contract.games.get_mut(&game_id).unwrap().player2 = None;
    assert!(contract.forfeit_in_range(game_id, account(1)));
    assert_eq!(
        contract.forfeit(game_id, account(1), &mut transfers),
        Err(ContractError::GameFull)
    );
    assert_eq!(contract.get_game(game_id).unwrap().state, GameState::InProgress);
}

#[test]
fn payout_without_fees_credits_the_winner() {
    let mut contract = GameContract::new();
    let mut transfers = Vec::new();
    let game_id = started_game(&mut contract, account(1), account(2), 500, &mut transfers);
    assert_eq!(
        contract.payout(game_id, account(1), &mut transfers),
        Err(ContractError::GameNotInProgress)
    );
    contract.games.get_mut(&game_id).unwrap().state = GameState::Completed;
    assert_eq!(
        contract.payout(game_id, account(1), &mut transfers),
        Err(ContractError::NotPlayer)
    );
    contract.games.get_mut(&game_id).unwrap().winner = Some(account(2));
    assert!(contract.payout_in_range(game_id, account(2)));
    assert_eq!(contract.payout(game_id, account(2), &mut transfers), Ok(()));
    assert_eq!(contract.escrow.balance(account(2)), 1500);
    assert_eq!(contract.escrow.balance(account(1)), 0);
    assert_eq!(transfers.last(), Some(&Transfer::Payout { to: account(2), amount: 1000 }));
    assert_eq!(
        contract.payout(99, account(2), &mut transfers),
        Err(ContractError::GameNotFound)
    );
}

#[test]
fn payout_needs_a_loser() {
    let mut contract = GameContract::new();
    let mut transfers = Vec::new();
    contract.initialize(token());
    let game_id = seed_completed_game(&mut contract, account(1), None, 10);
    contract.games.get_mut(&game_id).unwrap().winner = Some(account(1));
    assert_eq!(
        contract.payout(game_id, account(1), &mut transfers),
        Err(ContractError::GameFull)
    );
    assert!(transfers.is_empty());
    assert_eq!(contract.escrow.balance(account(1)), 10);
}

#[test]
fn tournament_is_refused_with_the_reason() {
    let mut contract = GameContract::new();
    let mut transfers = Vec::new();
    let winners = vec![account(3)];
    assert_eq!(
        contract.payout_tournament(1, &winners, &vec![100]),
        Err(ContractError::GameNotFound)
    );
    let open = started_game(&mut contract, account(1), account(2), 10, &mut transfers);
    assert_eq!(
        contract.tournament_organizer(open),
        Err(ContractError::GameNotInProgress)
    );
    let game_id = seed_completed_game(&mut contract, account(6), Some(account(7)), 10);
    assert_eq!(contract.tournament_organizer(game_id), Ok(account(6)));
    assert_eq!(
        contract.payout_tournament(game_id, &winners, &vec![50, 50]),
        Err(ContractError::MismatchedLengths)
    );
    contract.escrow.set(account(7), 9);
    assert_eq!(
        contract.payout_tournament(game_id, &winners, &vec![100]),
        Err(ContractError::InsufficientFunds)
    );
    contract.escrow.set(account(7), 10);
    contract.escrow.set(account(6), 9);
    assert_eq!(
        contract.payout_tournament(game_id, &winners, &vec![100]),
        Err(ContractError::InsufficientFunds)
    );
}

#[test]
fn tournament_pays_a_player_who_also_wins() {
    let mut contract = GameContract::new();
    let game_id = seed_completed_game(&mut contract, account(1), Some(account(2)), 50);
    let winners = vec![account(1), account(3), account(3)];
    assert_eq!(contract.payout_tournament(game_id, &winners, &vec![33, 33, 34]), Ok(()));
    assert_eq!(contract.escrow.balance(account(1)), 33);
    assert_eq!(contract.escrow.balance(account(2)), 0);
    assert_eq!(contract.escrow.balance(account(3)), 67);
    assert_eq!(
        contract.payout_tournament(game_id, &winners, &vec![33, 33, 34]),
        Err(ContractError::InsufficientFunds)
    );
}

#[test]
fn tournament_without_second_player_shares_one_wager() {
    let mut contract = GameContract::new();
    let game_id = seed_completed_game(&mut contract, account(1), None, 7);
    let winners = vec![account(3), account(4)];
    assert_eq!(contract.payout_tournament(game_id, &winners, &vec![50, 50]), Ok(()));
    assert_eq!(contract.escrow.balance(account(3)), 4);
    assert_eq!(contract.escrow.balance(account(4)), 3);
    assert_eq!(contract.escrow.balance(account(1)), 0);
}

#[test]
fn amounts_out_of_range_are_told() {
    let mut contract = GameContract::new();
    contract.initialize(token());
    assert!(!GameContract::new().create_in_range(account(1), 1));
    contract.escrow.set(account(1), i128::MAX);
    assert!(!contract.create_in_range(account(1), 1));
    assert!(contract.create_in_range(account(1), 0));
    let mut huge = GameContract::new();
    let game_id = seed_completed_game(&mut huge, account(1), Some(account(2)), i128::MAX / 4);
    assert!(!huge.tournament_in_range(game_id, &vec![account(3)], &vec![100]));
    assert!(!huge.tournament_in_range(game_id, &vec![account(3), account(4)], &vec![u32::MAX, 1]));
    assert!(huge.tournament_in_range(game_id, &vec![account(3)], &vec![1]));
    let mut winner = GameContract::new();
    winner.initialize(token());
    let game_id = seed_completed_game(&mut winner, account(1), Some(account(2)), i128::MAX);
    winner.games.get_mut(&game_id).unwrap().winner = Some(account(1));
    assert!(!winner.payout_in_range(game_id, account(1)));
    assert!(winner.payout_in_range(game_id, account(2)));
}

#[test]
fn negative_shares_round_toward_zero() {
    let mut contract = GameContract::new();
    let game_id = seed_completed_game(&mut contract, account(1), Some(account(2)), -1);
    let winners = vec![account(3), account(4)];
    assert_eq!(contract.payout_tournament(game_id, &winners, &vec![99, 1]), Ok(()));
    assert_eq!(contract.escrow.balance(account(3)), -1);
    assert_eq!(contract.escrow.balance(account(4)), 0);
}

#[test]
fn escrow_keeps_one_entry_for_each_address() {
    let mut escrow = Escrow::new();
    assert_eq!(escrow.balance(account(1)), 0);
    escrow.set(account(1), 5);
    escrow.set(account(2), 6);
    escrow.set(account(1), 7);
    assert_eq!(escrow.entries().len(), 2);
    assert_eq!(escrow.balance(account(1)), 7);
    assert!(escrow.adjust(account(1), -10));
    assert_eq!(escrow.balance(account(1)), -3);
    assert!(escrow.deduct(account(2), 6));
    assert_eq!(escrow.balance(account(2)), 0);
    escrow.set(account(3), i128::MIN);
    assert!(!escrow.deduct(account(3), 1));
    assert_eq!(escrow.balance(account(3)), i128::MIN);
    let copy = escrow.duplicate();
    assert_eq!(copy.balance(account(1)), -3);
}

#[test]
fn error_numbers_are_stable() {
    assert_eq!(ContractError::GameNotFound.code(), 1);
    assert_eq!(ContractError::NotYourTurn.code(), 2);
    assert_eq!(ContractError::GameNotInProgress.code(), 3);
    assert_eq!(ContractError::InvalidMove.code(), 4);
    assert_eq!(ContractError::InsufficientFunds.code(), 5);
    assert_eq!(ContractError::AlreadyJoined.code(), 6);
    assert_eq!(ContractError::GameFull.code(), 7);
    assert_eq!(ContractError::NotPlayer.code(), 8);
    assert_eq!(ContractError::GameAlreadyCompleted.code(), 9);
    assert_eq!(ContractError::DrawNotAvailable.code(), 10);
    assert_eq!(ContractError::ForfeitNotAllowed.code(), 11);
    assert_eq!(ContractError::InvalidPercentage.code(), 12);
    assert_eq!(ContractError::MismatchedLengths.code(), 13);
    assert_eq!(ContractError::Unauthorized.code(), 14);
    assert_eq!(ContractError::StakeLimitExceeded.code(), 15);
}

#[test]
fn tournament_is_not_paid_twice_where_the_second_player_is_drained() {
    let mut contract = GameContract::new();
    let game_id = seed_completed_game(&mut contract, account(1), Some(account(2)), 50);
    contract.escrow.set(account(1), 500);
    let winners = vec![account(3)];
    assert_eq!(contract.payout_tournament(game_id, &winners, &vec![100]), Ok(()));
    assert_eq!(
        contract.payout_tournament(game_id, &winners, &vec![100]),
        Err(ContractError::InsufficientFunds)
    );
}
