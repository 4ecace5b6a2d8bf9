use nifty_maze::engine::PingOutcome;
use nifty_maze::errors::GameError;
use nifty_maze::storage::{
    Block, GameState, GameStatus, Move, PaymentToken, PlayerPayment, Position, PrizeInfo,
    PrizeToWin, PrizeType, Status,
};

const TOKEN: u64 = 11;
const PRICE: u128 = 100;

/// A game on an `rows x cols` matrix of empty cells, public, priced, with
/// the player standing on (2, 2).
fn open_game(rows: usize, cols: usize) -> GameState {
    let mut g = GameState::init();
    let mut args: Vec<(usize, usize, Block)> = Vec::new();
    for r in 1..=rows {
        for c in 1..=cols {
            args.push((r, c, Block::Empty));
        }
    }
    g.set_matrix(&args);
    g.register_payment_token(TOKEN, PRICE);
    g.set_status(Status::Public);
    g.set_duration(10);
    g
}

fn cell_of(g: &GameState, row: usize, col: usize) -> Block {
    g.cell_at(row, col)
}

#[test]
fn resolve_with_empty_pool_is_a_noop() {
    let mut g = open_game(4, 4);
    // Open a round by hand with nothing in the pool.
    g.can_make_move = true;
    g.timer = 0;
    let before_pos = g.player_position;
    let before_status = g.game_status;
    let r = g.ping(50, 1);
    assert_eq!(r, Ok(PingOutcome::Resolved { winner: 0, reward: None }));
    assert_eq!(g.player_position, before_pos);
    assert_eq!(g.game_status, before_status);
    assert!(g.moves.is_empty());
    assert!(!g.can_make_move);
    assert_eq!(g.timer, 0);
}

#[test]
fn tick_while_closed_is_idle() {
    let mut g = open_game(4, 4);
    let r = g.ping(123, 1);
    assert_eq!(r, Ok(PingOutcome::Idle));
    assert!(!g.can_make_move);
}

#[test]
fn tick_before_duration_awaits() {
    let mut g = open_game(4, 4);
    assert_eq!(g.add_move(7, TOKEN, 0, PRICE, Move::Right, 100), Ok(()));
    assert!(g.can_make_move);
    assert_eq!(g.timer, 100);
    let r = g.ping(105, 1);
    assert_eq!(r, Ok(PingOutcome::AwaitTick));
    assert_eq!(g.moves.len(), 1);
}

#[test]
fn single_live_commitment_per_identity() {
    let mut g = open_game(6, 6);
    assert_eq!(g.add_move(7, TOKEN, 0, PRICE, Move::Right, 1), Ok(()));
    assert_eq!(g.add_move(7, TOKEN, 0, 2 * PRICE, Move::Down, 2), Ok(()));
    assert_eq!(g.add_move(7, TOKEN, 0, PRICE, Move::Up, 3), Ok(()));
    let mine: Vec<_> = g.moves.iter().filter(|m| m.address == 7).collect();
    assert_eq!(mine.len(), 1);
    assert_eq!(g.moves.len(), 1);
    assert_eq!(mine[0].player_move, Move::Up);
    assert_eq!(mine[0].payment_amount, PRICE);
    // A second identity lives beside it.
    assert_eq!(g.add_move(8, TOKEN, 0, PRICE, Move::Left, 4), Ok(()));
    assert_eq!(g.moves.len(), 2);
}

#[test]
fn wall_on_path_rejects_whole_jump() {
    let mut g = open_game(4, 6);
    // Player at (2, 2); wall two cells to the right, at (2, 4).
    g.set_cell(2, 4, Block::Wall);
    let before = g.player_position;
    let r = g.add_move(7, TOKEN, 0, 3 * PRICE, Move::Right, 1);
    assert_eq!(r, Err(GameError::GoThroughWall));
    assert_eq!(g.player_position, before);
    assert!(g.moves.is_empty());
    assert_eq!(g.collected_tokens, 0);
    assert!(g.player_payments.is_empty());
}

#[test]
fn leaving_the_matrix_counts_as_wall() {
    let mut g = open_game(4, 4);
    // Player at (2, 2): three cells up leaves the matrix.
    let r = g.add_move(7, TOKEN, 0, 3 * PRICE, Move::Up, 1);
    assert_eq!(r, Err(GameError::GoThroughWall));
}

#[test]
fn door_blocks_until_key_collected() {
    let mut g = open_game(4, 4);
    g.set_cell(2, 3, Block::Door(9));
    let r = g.add_move(7, TOKEN, 0, PRICE, Move::Right, 1);
    assert_eq!(r, Err(GameError::KeyNeeded));
    assert!(g.moves.is_empty());
    // Collect the key; the same move now succeeds.
    g.collected_keys_id.push(9);
    let r = g.add_move(7, TOKEN, 0, PRICE, Move::Right, 2);
    assert_eq!(r, Ok(()));
    assert_eq!(g.moves.len(), 1);
}

#[test]
fn trap_can_be_landed_on_but_not_vaulted() {
    let mut g = open_game(4, 6);
    g.set_cell(2, 3, Block::Trap);
    assert_eq!(
        g.add_move(7, TOKEN, 0, 2 * PRICE, Move::Right, 1),
        Err(GameError::JumpOverTrap)
    );
    assert_eq!(g.add_move(7, TOKEN, 0, PRICE, Move::Right, 2), Ok(()));
}

#[test]
fn payment_validation_errors() {
    let mut g = open_game(4, 4);
    assert_eq!(
        g.add_move(7, 99, 0, PRICE, Move::Right, 1),
        Err(GameError::PaymentIdentifier)
    );
    assert_eq!(
        g.add_move(7, TOKEN, 5, PRICE, Move::Right, 1),
        Err(GameError::PaymentNonce)
    );
    assert_eq!(
        g.add_move(7, TOKEN, 0, PRICE + 1, Move::Right, 1),
        Err(GameError::PaymentAmount)
    );
    assert_eq!(
        g.add_move(7, TOKEN, 0, 0, Move::Right, 1),
        Err(GameError::PaymentAmount)
    );
}

#[test]
fn paused_and_ended_gates() {
    let mut g = open_game(4, 4);
    g.set_status(Status::Frozen);
    assert_eq!(
        g.add_move(7, TOKEN, 0, PRICE, Move::Right, 1),
        Err(GameError::ContractPaused)
    );
    g.set_status(Status::Public);
    g.set_game_status(GameStatus::End);
    assert_eq!(
        g.add_move(7, TOKEN, 0, PRICE, Move::Right, 1),
        Err(GameError::GameEnded)
    );
}

#[test]
fn payment_conservation_across_submissions() {
    let mut g = open_game(6, 6);
    assert_eq!(g.add_move(1, TOKEN, 0, 3 * PRICE, Move::Right, 1), Ok(()));
    assert_eq!(g.add_move(2, TOKEN, 0, 3 * PRICE, Move::Down, 2), Ok(()));
    assert_eq!(g.add_move(3, TOKEN, 0, 2 * PRICE, Move::Right, 3), Ok(()));
    assert_eq!(g.add_move(1, TOKEN, 0, PRICE, Move::Left, 4), Ok(()));
    let sum: u128 = g.player_payments.iter().map(|p| p.amount).sum();
    assert_eq!(sum, g.collected_tokens);
    assert_eq!(g.collected_tokens, 9 * PRICE);
}

#[test]
fn mvp_is_first_encountered_greatest_payer() {
    let mut g = open_game(6, 6);
    // A pays 300 before B pays 300; C pays 200.
    assert_eq!(g.add_move(1, TOKEN, 0, 3 * PRICE, Move::Right, 1), Ok(()));
    assert_eq!(g.add_move(2, TOKEN, 0, 3 * PRICE, Move::Down, 2), Ok(()));
    assert_eq!(g.add_move(3, TOKEN, 0, 2 * PRICE, Move::Right, 3), Ok(()));
    let mvp = g.get_mvp();
    assert_eq!(mvp, PlayerPayment { address: 1, amount: 300 });
    // Deterministic across repeated calls.
    assert_eq!(g.get_mvp(), PlayerPayment { address: 1, amount: 300 });
}

#[test]
fn mvp_of_empty_ledger_is_the_sentinel() {
    let g = open_game(4, 4);
    assert_eq!(g.get_mvp(), PlayerPayment { address: 0, amount: 0 });
}

#[test]
fn mvp_claim_is_single_and_gated() {
    let mut g = open_game(10, 10);
    // Half of the pot goes to the MVP.
    g.set_mvp_percent(500000000000000000);
    assert_eq!(g.add_move(1, TOKEN, 0, 6 * PRICE, Move::Right, 1), Ok(()));
    assert_eq!(g.add_move(2, TOKEN, 0, 4 * PRICE, Move::Down, 2), Ok(()));
    // Claim before the session ends.
    assert_eq!(g.mvp_claim(1), Err(GameError::GameOngoing));
    g.set_game_status(GameStatus::End);
    // Claim by somebody else.
    assert_eq!(g.mvp_claim(2), Err(GameError::NotMvp));
    // The MVP claims exactly half of the 1000 collected.
    let r = g.mvp_claim(1);
    assert_eq!(
        r,
        Ok(PaymentToken { ticker: TOKEN, nonce: 0, amount: 500 })
    );
    assert!(g.mvp_claimed);
    // The second claim fails.
    assert_eq!(g.mvp_claim(1), Err(GameError::MvpClaimed));
}

#[test]
fn round_resolution_draws_and_moves() {
    let mut g = open_game(8, 8);
    g.set_player_position(5, 5);
    g.set_start_position(2, 2);
    // Pool: A moves up by 1, B moves right by 2.
    assert_eq!(g.add_move(1, TOKEN, 0, PRICE, Move::Up, 100), Ok(()));
    assert_eq!(g.add_move(2, TOKEN, 0, 2 * PRICE, Move::Right, 100), Ok(()));
    // The draw selects index 2: B.
    let r = g.ping(200, 2);
    assert_eq!(r, Ok(PingOutcome::Resolved { winner: 2, reward: None }));
    assert_eq!(g.player_position, Position { row: 5, col: 7 });
    assert!(g.moves.is_empty());
    assert!(!g.can_make_move);
    assert_eq!(g.timer, 0);
}

#[test]
fn round_resolution_onto_trap_resets_to_start() {
    let mut g = open_game(8, 8);
    g.set_player_position(5, 5);
    g.set_start_position(2, 2);
    assert_eq!(g.add_move(1, TOKEN, 0, PRICE, Move::Up, 100), Ok(()));
    assert_eq!(g.add_move(2, TOKEN, 0, 2 * PRICE, Move::Right, 100), Ok(()));
    // A trap may never be vaulted nor landed on from afar at admission
    // time, so the trap appears only after the commitments are in.
    g.set_cell(5, 7, Block::Trap);
    let r = g.ping(200, 2);
    assert_eq!(r, Ok(PingOutcome::Resolved { winner: 2, reward: None }));
    assert_eq!(g.player_position, Position { row: 2, col: 2 });
    assert!(g.moves.is_empty());
}

#[test]
fn round_resolution_collects_a_key_once() {
    let mut g = open_game(8, 8);
    g.set_player_position(5, 5);
    g.set_cell(5, 6, Block::Key(9));
    assert_eq!(g.add_move(1, TOKEN, 0, PRICE, Move::Right, 100), Ok(()));
    let r = g.ping(200, 1);
    assert_eq!(r, Ok(PingOutcome::Resolved { winner: 1, reward: None }));
    assert_eq!(g.collected_keys_id, vec![9]);
    // The key cell is consumed.
    assert_eq!(cell_of(&g, 5, 6), Block::Empty);
    // Collecting the same key again stays idempotent.
    g.set_cell(5, 7, Block::Key(9));
    assert_eq!(g.add_move(1, TOKEN, 0, PRICE, Move::Right, 300), Ok(()));
    let r = g.ping(400, 1);
    assert_eq!(r, Ok(PingOutcome::Resolved { winner: 1, reward: None }));
    assert_eq!(g.collected_keys_id, vec![9]);
}

#[test]
fn round_resolution_pays_a_prize_and_records_the_winner() {
    let mut g = open_game(8, 8);
    g.set_player_position(5, 5);
    let info = PrizeInfo { prize_type: PrizeType::Normal, ticker: 77, nonce: 3, quantity: 40 };
    g.set_cell(5, 6, Block::Prize(info));
    g.prizes_to_win.push(PrizeToWin { ticker: 77, nonce: 3, amount: 40, winner: 0 });
    assert_eq!(g.add_move(1, TOKEN, 0, PRICE, Move::Right, 100), Ok(()));
    let r = g.ping(200, 1);
    assert_eq!(
        r,
        Ok(PingOutcome::Resolved {
            winner: 1,
            reward: Some(PaymentToken { ticker: 77, nonce: 3, amount: 40 }),
        })
    );
    // The prize cell is consumed and the record carries the winner.
    assert_eq!(cell_of(&g, 5, 6), Block::Empty);
    assert_eq!(
        g.prizes_to_win,
        vec![PrizeToWin { ticker: 77, nonce: 3, amount: 40, winner: 1 }]
    );
    // The game goes on: this was no finish prize.
    assert_eq!(g.game_status, GameStatus::Start);
}

#[test]
fn finish_prize_ends_the_session() {
    let mut g = open_game(8, 8);
    g.set_player_position(5, 5);
    let info = PrizeInfo { prize_type: PrizeType::Finish, ticker: 77, nonce: 0, quantity: 1 };
    g.set_cell(5, 6, Block::Prize(info));
    assert_eq!(g.add_move(1, TOKEN, 0, PRICE, Move::Right, 100), Ok(()));
    let r = g.ping(200, 1);
    assert_eq!(
        r,
        Ok(PingOutcome::Resolved {
            winner: 1,
            reward: Some(PaymentToken { ticker: 77, nonce: 0, amount: 1 }),
        })
    );
    assert_eq!(g.game_status, GameStatus::End);
}

#[test]
fn finish_cell_ends_the_session() {
    let mut g = open_game(8, 8);
    g.set_player_position(5, 5);
    g.set_cell(5, 6, Block::Finish);
    assert_eq!(g.add_move(1, TOKEN, 0, PRICE, Move::Right, 100), Ok(()));
    let r = g.ping(200, 1);
    assert_eq!(r, Ok(PingOutcome::Resolved { winner: 1, reward: None }));
    assert_eq!(g.game_status, GameStatus::End);
}

#[test]
fn failed_resolution_changes_nothing() {
    let mut g = open_game(8, 8);
    g.set_player_position(5, 5);
    // The cell the commitment lands on is walled after admission;
    // resolution then fails closed and leaves every piece of state as it
    // was, pool included.
    assert_eq!(g.add_move(1, TOKEN, 0, 2 * PRICE, Move::Right, 100), Ok(()));
    g.set_cell(5, 7, Block::Wall);
    let before_pos = g.player_position;
    let before_moves = g.moves.clone();
    let r = g.ping(200, 1);
    assert_eq!(r, Err(GameError::GoThroughWall));
    assert_eq!(g.player_position, before_pos);
    assert_eq!(g.moves, before_moves);
    assert!(g.can_make_move);
}

#[test]
fn stay_move_resolves_on_the_standing_cell() {
    let mut g = open_game(8, 8);
    g.set_player_position(5, 5);
    // Validation treats a stay like a step to the left, which is empty.
    assert_eq!(g.add_move(1, TOKEN, 0, PRICE, Move::Stay, 100), Ok(()));
    let r = g.ping(200, 1);
    assert_eq!(r, Ok(PingOutcome::Resolved { winner: 1, reward: None }));
    assert_eq!(g.player_position, Position { row: 5, col: 5 });
}

#[test]
fn error_messages_match_their_reasons() {
    assert_eq!(GameError::ContractPaused.message(), "Contract is paused!");
    assert_eq!(GameError::GameEnded.message(), "Game has ended!");
    assert_eq!(
        GameError::GameOngoing.message(),
        "Game hasn't ended, action unauthorized!"
    );
    assert_eq!(GameError::PaymentIdentifier.message(), "Invalid payment token!");
    assert_eq!(GameError::PaymentNonce.message(), "Invalid payment nonce!");
    assert_eq!(
        GameError::PaymentAmount.message(),
        "Amount paid is not a multiple of the set move price!"
    );
    assert_eq!(
        GameError::KeyNeeded.message(),
        "You need a key to go through this door!"
    );
    assert_eq!(GameError::JumpOverTrap.message(), "You can't jump over a trap");
    assert_eq!(GameError::GoThroughWall.message(), "Can't go through a wall.");
    assert_eq!(GameError::MvpClaimed.message(), "MVP reward already claimed!");
    assert_eq!(GameError::NotMvp.message(), "You are not the mvp!");
}
