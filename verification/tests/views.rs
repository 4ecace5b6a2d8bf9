use nifty_maze::errors::GameError;
use nifty_maze::ping_proxy::PingProxy;
use nifty_maze::storage::{
    Block, GameState, GameStatus, PaymentToken, PrizeInfo, PrizeToWin, PrizeType, ReturnTypes,
    Status,
};

#[test]
fn set_matrix_authors_rows_and_registers_prizes() {
    let mut g = GameState::init();
    let info = PrizeInfo { prize_type: PrizeType::Normal, ticker: 5, nonce: 0, quantity: 9 };
    let args = vec![
        (1, 1, Block::Start),
        (1, 2, Block::Empty),
        (2, 1, Block::Prize(info)),
        (2, 2, Block::Wall),
    ];
    g.set_matrix(&args);
    assert_eq!(g.game_status, GameStatus::Start);
    assert!(!g.can_make_move);
    assert_eq!(g.player_position, nifty_maze::storage::Position { row: 2, col: 2 });
    assert_eq!(g.matrix.len(), 2);
    assert_eq!(g.matrix[0], vec![Block::Start, Block::Empty]);
    assert_eq!(g.matrix[1], vec![Block::Prize(info), Block::Wall]);
    assert_eq!(
        g.prizes_to_win,
        vec![PrizeToWin { ticker: 5, nonce: 0, amount: 9, winner: 0 }]
    );
    // The same prize authored again registers no second record.
    g.set_matrix(&vec![(3, 1, Block::Prize(info))]);
    assert_eq!(g.prizes_to_win.len(), 1);
}

#[test]
fn cells_beyond_the_matrix_are_walls() {
    let mut g = GameState::init();
    g.set_matrix(&vec![(1, 1, Block::Empty)]);
    assert_eq!(g.cell_at(1, 1), Block::Empty);
    assert_eq!(g.cell_at(0, 1), Block::Wall);
    assert_eq!(g.cell_at(1, 0), Block::Wall);
    assert_eq!(g.cell_at(1, 2), Block::Wall);
    assert_eq!(g.cell_at(2, 1), Block::Wall);
}

#[test]
fn clear_matrix_resets_the_session() {
    let mut g = GameState::init();
    g.set_matrix(&vec![(1, 1, Block::Empty), (1, 2, Block::Empty)]);
    g.register_payment_token(11, 100);
    g.set_status(Status::Public);
    g.set_player_position(1, 1);
    assert_eq!(g.add_move(7, 11, 0, 100, nifty_maze::storage::Move::Right, 1), Ok(()));
    g.collected_keys_id.push(4);
    g.clear_matrix();
    assert!(g.moves.is_empty());
    assert_eq!(g.timer, 0);
    assert!(!g.mvp_claimed);
    assert_eq!(g.collected_tokens, 0);
    assert!(g.prizes_to_win.is_empty());
    assert!(g.collected_keys_id.is_empty());
    assert!(g.matrix.is_empty());
    // The ledger keeps its identities with zeroed spend.
    assert_eq!(g.player_payments.len(), 1);
    assert_eq!(g.player_payments[0].address, 7);
    assert_eq!(g.player_payments[0].amount, 0);
    // Configuration survives the reset.
    assert_eq!(g.payment_token, 11);
    assert_eq!(g.payment_amount, 100);
}

#[test]
fn full_matrix_export_appends_dimensions() {
    let mut g = GameState::init();
    g.set_matrix(&vec![
        (1, 1, Block::Start),
        (1, 2, Block::Empty),
        (2, 1, Block::Wall),
    ]);
    let flat = g.get_full_matrix();
    assert_eq!(
        flat,
        vec![
            Block::Start,
            Block::Empty,
            Block::Wall,
            Block::MatrixDimensions(2, 1),
        ]
    );
}

#[test]
fn full_matrix_export_of_nothing() {
    let g = GameState::init();
    assert_eq!(g.get_full_matrix(), vec![Block::MatrixDimensions(0, 0)]);
}

#[test]
fn payment_info_reports_the_configuration() {
    let mut g = GameState::init();
    g.register_payment_token(42, 250);
    assert_eq!(
        g.get_payment_info(),
        PaymentToken { ticker: 42, nonce: 0, amount: 250 }
    );
}

#[test]
fn general_data_reports_the_session() {
    let mut g = GameState::init();
    g.set_matrix(&vec![(1, 1, Block::Empty), (1, 2, Block::Empty)]);
    g.register_payment_token(11, 100);
    g.set_status(Status::Public);
    g.set_duration(30);
    g.set_player_position(1, 1);
    assert_eq!(g.add_move(7, 11, 0, 100, nifty_maze::storage::Move::Right, 5), Ok(()));
    g.collected_keys_id.push(4);
    let data = g.get_general_data();
    assert_eq!(
        data[0],
        ReturnTypes::TypePosition(nifty_maze::storage::Position { row: 1, col: 1 })
    );
    assert_eq!(data[1], ReturnTypes::TypeGameStatus(GameStatus::Start));
    assert_eq!(data[2], ReturnTypes::TypeCooldown(30));
    assert_eq!(data[3], ReturnTypes::TypeTimerStart(5));
    assert_eq!(data[4], ReturnTypes::TypeCollectedTokens(100));
    assert_eq!(data[5], ReturnTypes::TypeKey(4));
    assert_eq!(data[6], ReturnTypes::TypePlayerMove(g.moves[0]));
    assert_eq!(data[7], ReturnTypes::TypeMvpClaimed(false));
    assert_eq!(data.len(), 8);
}

#[test]
fn unload_tokens_decides_the_transfer() {
    let g = GameState::init();
    assert_eq!(
        g.unload_tokens(11, 2, 500),
        PaymentToken { ticker: 11, nonce: 2, amount: 500 }
    );
}

#[test]
fn ping_proxy_gates_its_caller() {
    let mut p = PingProxy::init();
    assert_eq!(p.caller_address, 0);
    p.set_caller(33);
    assert_eq!(p.pong(33), Ok(33));
    assert_eq!(p.pong(34), Err(GameError::Unauthorized));
    assert_eq!(
        GameError::Unauthorized.message(),
        "Unauthorized call."
    );
}
