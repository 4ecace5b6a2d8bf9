//! The round engine: move admission, the round clock gate, random-draw
//! resolution, cell effects, and the MVP payout.
//!
//! Everything the host supplies — the caller's identity, the payment, the
//! block timestamp, the random draw — comes in as a plain argument, and
//! every custody transfer leaves as a plain [`PaymentToken`] decision, so
//! each operation here is a total, verified state transition.

use vstd::prelude::*;

use crate::errors::GameError;
use crate::path::{
    apply_col, apply_row, cell_at_spec, path_step_block, path_verdict, path_verdict_from,
    step_col, step_row,
};
use crate::storage::{
    index_of_prize, ledger_after_payment, lemma_ledger_entry_le_total,
    lemma_ledger_total_push, lemma_ledger_total_update, pool_after_submit, Address, Block,
    GameState, GameStatus, Move, PaymentToken, PlayerMove, PlayerPayment, Position, PrizeInfo,
    PrizeToWin, PrizeType, StateModel, Status, TokenId,
};

verus! {

/// The collected-key set after picking up `id`: collecting is idempotent.
pub open spec fn keys_after(keys: Seq<u64>, id: u64) -> Seq<u64> {
    if keys.contains(id) {
        keys
    } else {
        keys.push(id)
    }
}

/// The prize records after `winner` wins `prize`: the record with the
/// prize's key is re-written with the new winner, or appended if the prize
/// had no record yet.
pub open spec fn prizes_after_win(
    ps: Seq<PrizeToWin>,
    prize: PrizeInfo,
    winner: Address,
) -> Seq<PrizeToWin> {
    let i = index_of_prize(ps, prize.ticker, prize.nonce, prize.quantity);
    let rec = PrizeToWin {
        ticker: prize.ticker,
        nonce: prize.nonce,
        amount: prize.quantity,
        winner,
    };
    if i < 0 {
        ps.push(rec)
    } else {
        ps.update(i, rec)
    }
}

/// The matrix after the cell the player stands on is consumed to `Empty`.
pub open spec fn clear_player_cell(s: StateModel) -> Seq<Seq<Block>> {
    let r = s.player_position.row - 1;
    let c = s.player_position.col - 1;
    s.matrix.update(r as int, s.matrix[r as int].update(c as int, Block::Empty))
}

/// The cell the player stands on in `s` (a wall outside the matrix).
pub open spec fn standing_cell(s: StateModel) -> Block {
    cell_at_spec(s.matrix, s.player_position.row as int, s.player_position.col as int)
}

/// State after resolving the effect of the cell the player stands on:
/// a prize or key cell is consumed, a trap sends the player back to the
/// start position, a finish cell (or a prize of the finish category) ends
/// the session, and every other cell leaves the state as it is.
pub open spec fn effect_model(s: StateModel, caller: Address) -> StateModel {
    match standing_cell(s) {
        Block::Prize(info) => StateModel {
            game_status: if info.prize_type == PrizeType::Finish {
                GameStatus::End
            } else {
                s.game_status
            },
            matrix: clear_player_cell(s),
            prizes: prizes_after_win(s.prizes, info, caller),
            ..s
        },
        Block::Trap => StateModel { player_position: s.start_position, ..s },
        Block::Key(id) => StateModel {
            matrix: clear_player_cell(s),
            collected_keys: keys_after(s.collected_keys, id),
            ..s
        },
        Block::Finish => StateModel { game_status: GameStatus::End, ..s },
        _ => s,
    }
}

/// Result of resolving the cell the player stands on: standing on a wall
/// is an invariant violation, an unsatisfied door fails closed, a prize
/// cell yields the custody transfer owed to the winner.
pub open spec fn effect_result(s: StateModel) -> Result<Option<PaymentToken>, GameError> {
    match standing_cell(s) {
        Block::Wall => Err(GameError::GoThroughWall),
        Block::Door(id) => if s.collected_keys.contains(id) {
            Ok(None)
        } else {
            Err(GameError::KeyNeeded)
        },
        Block::Prize(info) => Ok(
            Some(
                PaymentToken { ticker: info.ticker, nonce: info.nonce, amount: info.quantity },
            ),
        ),
        _ => Ok(None),
    }
}

/// The round clock state after a round is resolved: the pool empties, the
/// timer drops to zero, and the engine stops accepting moves.
pub open spec fn close_round(s: StateModel) -> StateModel {
    StateModel { moves: Seq::empty(), timer: 0, can_make_move: false, ..s }
}

/// The reason a move submission is rejected, if any: the pause and
/// lifecycle gates first, then the payment's asset, sub-identifier and
/// amount, and finally the declared path, in that order.
pub open spec fn add_move_err(
    s: StateModel,
    payment_token: TokenId,
    payment_nonce: u64,
    payment_amount: u128,
    player_move: Move,
) -> Option<GameError> {
    if s.status != Status::Public {
        Some(GameError::ContractPaused)
    } else if s.game_status == GameStatus::End {
        Some(GameError::GameEnded)
    } else if payment_token != s.payment_token {
        Some(GameError::PaymentIdentifier)
    } else if payment_nonce != 0 {
        Some(GameError::PaymentNonce)
    } else if s.payment_amount == 0 || payment_amount == 0 || payment_amount % s.payment_amount
        != 0 {
        Some(GameError::PaymentAmount)
    } else {
        path_verdict(
            s.matrix,
            s.player_position,
            s.collected_keys,
            player_move,
            payment_amount as int / s.payment_amount as int,
        )
    }
}

/// What a tick of the round clock gate decided.
///
/// `Idle`: no round is open; nothing to do. `AwaitTick`: a round is open but
/// its duration has not elapsed; the host should ask the clock collaborator
/// for a later tick. `Resolved`: the round was resolved; `winner` is the
/// selected identity (`0` when the pool was empty and the round closed with
/// no draw) and `reward` is the custody transfer owed to the winner, if the
/// landed cell carried a prize.
#[derive(Clone, Copy, Debug, PartialEq, Eq, Structural)]
pub enum PingOutcome {
    Idle,
    AwaitTick,
    Resolved { winner: Address, reward: Option<PaymentToken> },
}

impl GameState {
    /// A fresh engine state: paused, lifecycle not started, no matrix, no
    /// round open, and every ledger empty.
    pub fn init() -> (s: GameState)
        ensures
            s@ == (StateModel {
                status: Status::Frozen,
                game_status: GameStatus::NotStarted,
                matrix: Seq::empty(),
                player_position: Position { row: 0, col: 0 },
                start_position: Position { row: 0, col: 0 },
                payment_token: 0,
                payment_amount: 0,
                mvp_percent: 0,
                duration: 0,
                timer: 0,
                can_make_move: false,
                pong_address: 0,
                moves: Seq::empty(),
                player_payments: Seq::empty(),
                collected_tokens: 0,
                collected_keys: Seq::empty(),
                prizes: Seq::empty(),
                mvp_claimed: false,
            }),
            s@.wf(),
    {
        let s = GameState {
            status: Status::Frozen,
            game_status: GameStatus::NotStarted,
            matrix: Vec::new(),
            player_position: Position { row: 0, col: 0 },
            start_position: Position { row: 0, col: 0 },
            payment_token: 0,
            payment_amount: 0,
            mvp_percent: 0,
            duration: 0,
            timer: 0,
            can_make_move: false,
            pong_address: 0,
            moves: Vec::new(),
            player_payments: Vec::new(),
            collected_tokens: 0,
            collected_keys_id: Vec::new(),
            prizes_to_win: Vec::new(),
            mvp_claimed: false,
        };
        proof {
            assert(s@ =~~= (StateModel {
                status: Status::Frozen,
                game_status: GameStatus::NotStarted,
                matrix: Seq::empty(),
                player_position: Position { row: 0, col: 0 },
                start_position: Position { row: 0, col: 0 },
                payment_token: 0,
                payment_amount: 0,
                mvp_percent: 0,
                duration: 0,
                timer: 0,
                can_make_move: false,
                pong_address: 0,
                moves: Seq::empty(),
                player_payments: Seq::empty(),
                collected_tokens: 0,
                collected_keys: Seq::empty(),
                prizes: Seq::empty(),
                mvp_claimed: false,
            }));
        }
        s
    }

    /// The position reached from the current player position after `jump`
    /// cells of path validation in direction `player_move`; `None` when that
    /// position cannot be addressed at all (it lies outside the machine's
    /// coordinate range, and therefore outside any authored matrix).
    pub fn get_new_position(&self, player_move: Move, jump: u128) -> (r: Option<Position>)
        ensures
            r is Some <==> {
                &&& 0 <= step_row(self.player_position, player_move, jump as int) <= usize::MAX
                &&& 0 <= step_col(self.player_position, player_move, jump as int) <= usize::MAX
            },
            r matches Some(p) ==> {
                &&& p.row == step_row(self.player_position, player_move, jump as int)
                &&& p.col == step_col(self.player_position, player_move, jump as int)
            },
    {
        let pos = self.player_position;
        match player_move {
            Move::Up => {
                if jump <= pos.row as u128 {
                    Some(Position { row: (pos.row as u128 - jump) as usize, col: pos.col })
                } else {
                    None
                }
            },
            Move::Right => {
                if jump <= u128::MAX - pos.col as u128 && pos.col as u128 + jump
                    <= usize::MAX as u128 {
                    Some(Position { row: pos.row, col: (pos.col as u128 + jump) as usize })
                } else {
                    None
                }
            },
            Move::Down => {
                if jump <= u128::MAX - pos.row as u128 && pos.row as u128 + jump
                    <= usize::MAX as u128 {
                    Some(Position { row: (pos.row as u128 + jump) as usize, col: pos.col })
                } else {
                    None
                }
            },
            Move::Left | Move::Stay => {
                if jump <= pos.col as u128 {
                    Some(Position { row: pos.row, col: (pos.col as u128 - jump) as usize })
                } else {
                    None
                }
            },
        }
    }

    /// The cell crossed at step `k` of a validated jump in direction `mv`.
    fn cell_at_step(&self, mv: Move, k: u128) -> (b: Block)
        ensures
            b == path_step_block(self@.matrix, self.player_position, mv, k as int),
    {
        match self.get_new_position(mv, k) {
            Some(p) => self.cell_at(p.row, p.col),
            None => {
                proof {
                    let r = step_row(self.player_position, mv, k as int);
                    let c = step_col(self.player_position, mv, k as int);
                    if 0 <= r && 0 <= c {
                        if r > usize::MAX {
                            assert(self.matrix.len() == self.matrix@.len());
                            assert(self@.matrix.len() <= usize::MAX);
                        } else {
                            assert(c > usize::MAX);
                            if 1 <= r <= self@.matrix.len() {
                                let rv = self.matrix@[r - 1];
                                assert(rv.len() == rv@.len());
                                assert(self@.matrix[r - 1].len() == rv@.len());
                                assert(self@.matrix[r - 1].len() <= usize::MAX);
                            }
                        }
                    }
                }
                Block::Wall
            },
        }
    }

    /// Validates a jump of `jump_size` cells in direction `player_move`
    /// from the current player position against the matrix and the
    /// collected keys: `Ok` accepts the move, `Err` reports the first
    /// blocking obstacle. Rejection is all-or-nothing: a wall anywhere on
    /// the path rejects the whole jump.
    pub fn check_move(&self, jump_size: u128, player_move: Move) -> (r: Result<(), GameError>)
        ensures
            r is Ok <==> path_verdict(
                self@.matrix,
                self.player_position,
                self@.collected_keys,
                player_move,
                jump_size as int,
            ) is None,
            r matches Err(e) ==> path_verdict(
                self@.matrix,
                self.player_position,
                self@.collected_keys,
                player_move,
                jump_size as int,
            ) == Some(e),
    {
        let ghost m = self@.matrix;
        let ghost pos = self.player_position;
        let ghost keys = self@.collected_keys;
        let ghost n = jump_size as int;
        let mut k: u128 = 1;
        while k <= jump_size
            invariant
                1 <= k,
                k <= jump_size + 1,
                m == self@.matrix,
                pos == self.player_position,
                keys == self@.collected_keys,
                n == jump_size as int,
                path_verdict(m, pos, keys, player_move, n) == path_verdict_from(
                    m,
                    pos,
                    keys,
                    player_move,
                    n,
                    k as int,
                ),
            decreases jump_size - k,
        {
            let cell = self.cell_at_step(player_move, k);
            match cell {
                Block::Wall => {
                    return Err(GameError::GoThroughWall);
                },
                Block::Door(id) => {
                    if self.has_key(id) {
                        return Ok(());
                    } else {
                        return Err(GameError::KeyNeeded);
                    }
                },
                Block::Trap => {
                    if jump_size <= 1 {
                        return Ok(());
                    } else {
                        return Err(GameError::JumpOverTrap);
                    }
                },
                _ => {},
            }
            if k == jump_size {
                return Ok(());
            }
            k = k + 1;
        }
        Ok(())
    }

    /// Admits one paid move intent for the current round.
    ///
    /// The submission is rejected — with no state change at all — while the
    /// contract is paused or the session has ended, when the payment's
    /// asset or sub-identifier is not the configured one, when the amount
    /// is not a positive multiple of the unit price, and when the declared
    /// jump (of `amount / price` cells) is blocked on its path. Otherwise
    /// the caller's previous commitment, if any, is replaced in full, the
    /// payment is recorded in the ledger and the session total whatever the
    /// eventual draw, and the round clock gate opens (or re-stamps) at
    /// `now`. After the call the caller holds exactly one live commitment:
    /// the one just submitted.
    pub fn add_move(
        &mut self,
        caller: Address,
        payment_token: TokenId,
        payment_nonce: u64,
        payment_amount: u128,
        player_move: Move,
        now: u64,
    ) -> (r: Result<(), GameError>)
        requires
            old(self)@.wf(),
            old(self)@.collected_tokens + payment_amount <= u128::MAX,
        ensures
            final(self)@.wf(),
            r is Ok <==> add_move_err(
                old(self)@,
                payment_token,
                payment_nonce,
                payment_amount,
                player_move,
            ) is None,
            r matches Err(e) ==> add_move_err(
                old(self)@,
                payment_token,
                payment_nonce,
                payment_amount,
                player_move,
            ) == Some(e),
            r is Err ==> final(self)@ == old(self)@,
            r is Ok ==> final(self)@ == (StateModel {
                moves: pool_after_submit(
                    old(self)@.moves,
                    (PlayerMove {
                        payment_token,
                        payment_nonce,
                        payment_amount,
                        player_move,
                        address: caller,
                    }),
                ),
                player_payments: ledger_after_payment(
                    old(self)@.player_payments,
                    caller,
                    payment_amount,
                ),
                collected_tokens: (old(self)@.collected_tokens + payment_amount) as u128,
                timer: now,
                can_make_move: true,
                ..old(self)@
            }),
            r is Ok ==> {
                &&& final(self)@.moves.len() >= 1
                &&& final(self)@.moves.last() == (PlayerMove {
                    payment_token,
                    payment_nonce,
                    payment_amount,
                    player_move,
                    address: caller,
                })
                &&& forall|j: int|
                    0 <= j < final(self)@.moves.len() - 1
                        ==> final(self)@.moves[j].address != caller
            },
    {
        if !(self.status == Status::Public) {
            return Err(GameError::ContractPaused);
        }
        if self.game_status == GameStatus::End {
            return Err(GameError::GameEnded);
        }
        if payment_token != self.payment_token {
            return Err(GameError::PaymentIdentifier);
        }
        if payment_nonce != 0 {
            return Err(GameError::PaymentNonce);
        }
        if self.payment_amount == 0 || payment_amount == 0 || payment_amount % self.payment_amount
            != 0 {
            return Err(GameError::PaymentAmount);
        }
        let jump_size = payment_amount / self.payment_amount;
        if let Err(e) = self.check_move(jump_size, player_move) {
            return Err(e);
        }
        let new_move = PlayerMove {
            payment_token,
            payment_nonce,
            payment_amount,
            player_move,
            address: caller,
        };
        let ghost old_moves = self@.moves;
        match self.find_move_index(caller) {
            Some(i) => {
                self.moves.swap_remove(i);
                proof {
                    let rm = old_moves.update(i as int, old_moves.last()).drop_last();
                    assert(self@.moves =~= rm);
                    assert forall|j: int| 0 <= j < rm.len() implies rm[j].address != caller by {
                        if j != i {
                            assert(rm[j] == old_moves[j]);
                        } else {
                            assert(rm[j] == old_moves[old_moves.len() - 1]);
                        }
                    }
                    assert forall|x: int, y: int| 0 <= x < y < rm.len() implies rm[x].address
                        != rm[y].address by {
                        if x == i {
                            assert(rm[x] == old_moves[old_moves.len() - 1]);
                            assert(rm[y] == old_moves[y]);
                        } else if y == i {
                            assert(rm[y] == old_moves[old_moves.len() - 1]);
                            assert(rm[x] == old_moves[x]);
                        }
                    }
                }
            },
            None => {},
        }
        self.moves.push(new_move);
        let ghost old_ps = self@.player_payments;
        match self.find_payment_index(caller) {
            Some(i) => {
                let cur = self.player_payments[i].amount;
                proof {
                    lemma_ledger_entry_le_total(old_ps, i as int);
                }
                self.player_payments[i] = PlayerPayment {
                    address: caller,
                    amount: cur + payment_amount,
                };
                proof {
                    lemma_ledger_total_update(
                        old_ps,
                        i as int,
                        PlayerPayment { address: caller, amount: (cur + payment_amount) as u128 },
                    );
                }
            },
            None => {
                self.player_payments.push(PlayerPayment { address: caller, amount: payment_amount });
                proof {
                    lemma_ledger_total_push(
                        old_ps,
                        PlayerPayment { address: caller, amount: payment_amount },
                    );
                }
            },
        }
        self.collected_tokens = self.collected_tokens + payment_amount;
        self.timer = now;
        self.can_make_move = true;
        proof {
            assert(self@ =~~= (StateModel {
                moves: pool_after_submit(old(self)@.moves, new_move),
                player_payments: ledger_after_payment(
                    old(self)@.player_payments,
                    caller,
                    payment_amount,
                ),
                collected_tokens: (old(self)@.collected_tokens + payment_amount) as u128,
                timer: now,
                can_make_move: true,
                ..old(self)@
            }));
        }
        Ok(())
    }

    /// Passing a door: succeeds exactly when its key has been collected.
    pub fn handle_door(&self, door_id: u64) -> (r: Result<(), GameError>)
        ensures
            r is Ok <==> self@.collected_keys.contains(door_id),
            r matches Err(e) ==> e == GameError::KeyNeeded,
    {
        if self.has_key(door_id) {
            Ok(())
        } else {
            Err(GameError::KeyNeeded)
        }
    }

    /// Landing on a key cell: the cell is consumed and the key id joins the
    /// collected set (idempotently).
    pub fn handle_key(&mut self, key_id: u64)
        requires
            old(self)@.wf(),
            1 <= old(self)@.player_position.row <= old(self)@.matrix.len(),
            1 <= old(self)@.player_position.col <= old(self)@.matrix[old(
                self,
            )@.player_position.row - 1].len(),
        ensures
            final(self)@.wf(),
            final(self)@ == (StateModel {
                matrix: clear_player_cell(old(self)@),
                collected_keys: keys_after(old(self)@.collected_keys, key_id),
                ..old(self)@
            }),
    {
        let pos = self.player_position;
        self.set_cell(pos.row, pos.col, Block::Empty);
        if !self.has_key(key_id) {
            self.collected_keys_id.push(key_id);
        }
        proof {
            assert(self@ =~~= (StateModel {
                matrix: clear_player_cell(old(self)@),
                collected_keys: keys_after(old(self)@.collected_keys, key_id),
                ..old(self)@
            }));
        }
    }

    /// Landing on a trap: the player is reset to the start position.
    pub fn handle_trap(&mut self)
        ensures
            final(self)@ == (StateModel { player_position: old(self)@.start_position, ..old(
                self,
            )@ }),
    {
        self.player_position = self.start_position;
        proof {
            assert(self@ =~~= (StateModel {
                player_position: old(self)@.start_position,
                ..old(self)@
            }));
        }
    }

    /// Landing on a prize cell: a prize of the finish category ends the
    /// session; the cell is consumed; the prize's ledger record is
    /// re-written with the winner; and the custody transfer owed to the
    /// winner is returned for the host to perform.
    pub fn handle_reward(&mut self, prize: PrizeInfo, caller: Address) -> (t: PaymentToken)
        requires
            old(self)@.wf(),
            1 <= old(self)@.player_position.row <= old(self)@.matrix.len(),
            1 <= old(self)@.player_position.col <= old(self)@.matrix[old(
                self,
            )@.player_position.row - 1].len(),
        ensures
            final(self)@.wf(),
            t == (PaymentToken { ticker: prize.ticker, nonce: prize.nonce, amount: prize.quantity }),
            final(self)@ == (StateModel {
                game_status: if prize.prize_type == PrizeType::Finish {
                    GameStatus::End
                } else {
                    old(self)@.game_status
                },
                matrix: clear_player_cell(old(self)@),
                prizes: prizes_after_win(old(self)@.prizes, prize, caller),
                ..old(self)@
            }),
    {
        if prize.prize_type == PrizeType::Finish {
            self.game_status = GameStatus::End;
        }
        let pos = self.player_position;
        self.set_cell(pos.row, pos.col, Block::Empty);
        let rec = PrizeToWin {
            ticker: prize.ticker,
            nonce: prize.nonce,
            amount: prize.quantity,
            winner: caller,
        };
        let ghost old_prizes = self@.prizes;
        match self.find_prize_index(prize.ticker, prize.nonce, prize.quantity) {
            Some(i) => {
                self.prizes_to_win[i] = rec;
                proof {
                    let ps2 = self@.prizes;
                    assert forall|x: int, y: int| 0 <= x < y < ps2.len() implies !crate::storage::same_prize_key(
                        ps2[x],
                        ps2[y],
                    ) by {
                        assert(rec.ticker == old_prizes[i as int].ticker);
                        assert(rec.nonce == old_prizes[i as int].nonce);
                        assert(rec.amount == old_prizes[i as int].amount);
                        if x == i {
                            assert(ps2[y] == old_prizes[y]);
                            assert(!crate::storage::same_prize_key(
                                old_prizes[i as int],
                                old_prizes[y],
                            ));
                        } else if y == i {
                            assert(ps2[x] == old_prizes[x]);
                            assert(!crate::storage::same_prize_key(
                                old_prizes[x],
                                old_prizes[i as int],
                            ));
                        } else {
                            assert(ps2[x] == old_prizes[x]);
                            assert(ps2[y] == old_prizes[y]);
                            assert(!crate::storage::same_prize_key(
                                old_prizes[x],
                                old_prizes[y],
                            ));
                        }
                    }
                }
            },
            None => {
                self.prizes_to_win.push(rec);
                proof {
                    let ps2 = self@.prizes;
                    assert forall|x: int, y: int| 0 <= x < y < ps2.len() implies !crate::storage::same_prize_key(
                        ps2[x],
                        ps2[y],
                    ) by {
                        if y < old_prizes.len() {
                            assert(ps2[x] == old_prizes[x]);
                            assert(ps2[y] == old_prizes[y]);
                        } else {
                            assert(ps2[x] == old_prizes[x]);
                            assert(ps2[y] == rec);
                        }
                    }
                }
            },
        }
        proof {
            assert(self@ =~~= (StateModel {
                game_status: if prize.prize_type == PrizeType::Finish {
                    GameStatus::End
                } else {
                    old(self)@.game_status
                },
                matrix: clear_player_cell(old(self)@),
                prizes: prizes_after_win(old(self)@.prizes, prize, caller),
                ..old(self)@
            }));
        }
        PaymentToken { ticker: prize.ticker, nonce: prize.nonce, amount: prize.quantity }
    }

    /// Resolves the cell the player stands on after a selected move was
    /// applied. Standing on a wall, or on a door without its key, is an
    /// error and leaves the state unchanged; every other cell applies its
    /// effect, and a prize cell yields the transfer owed to the winner.
    pub fn check_block(&mut self, caller: Address) -> (r: Result<Option<PaymentToken>, GameError>)
        requires
            old(self)@.wf(),
        ensures
            final(self)@.wf(),
            r == effect_result(old(self)@),
            r is Ok ==> final(self)@ == effect_model(old(self)@, caller),
            r is Err ==> final(self)@ == old(self)@,
    {
        let pos = self.player_position;
        let cell = self.cell_at(pos.row, pos.col);
        match cell {
            Block::Wall => Err(GameError::GoThroughWall),
            Block::Prize(info) => {
                let t = self.handle_reward(info, caller);
                Ok(Some(t))
            },
            Block::Trap => {
                self.handle_trap();
                Ok(None)
            },
            Block::Door(id) => {
                match self.handle_door(id) {
                    Ok(()) => Ok(None),
                    Err(e) => Err(e),
                }
            },
            Block::Key(id) => {
                self.handle_key(id);
                Ok(None)
            },
            Block::Finish => {
                self.game_status = GameStatus::End;
                proof {
                    assert(self@ =~~= (StateModel { game_status: GameStatus::End, ..old(self)@ }));
                }
                Ok(None)
            },
            _ => Ok(None),
        }
    }

    /// Applies the selected commitment's direction and distance (its paid
    /// amount divided by the unit price) to the player position. Applying
    /// `Stay` moves nowhere.
    pub fn set_new_position(&mut self, player_move: PlayerMove)
        requires
            old(self)@.payment_amount > 0,
            0 <= apply_row(
                old(self)@.player_position,
                player_move.player_move,
                player_move.payment_amount as int / old(self)@.payment_amount as int,
            ) <= usize::MAX,
            0 <= apply_col(
                old(self)@.player_position,
                player_move.player_move,
                player_move.payment_amount as int / old(self)@.payment_amount as int,
            ) <= usize::MAX,
        ensures
            final(self)@ == (StateModel {
                player_position: (Position {
                    row: apply_row(
                        old(self)@.player_position,
                        player_move.player_move,
                        player_move.payment_amount as int / old(self)@.payment_amount as int,
                    ) as usize,
                    col: apply_col(
                        old(self)@.player_position,
                        player_move.player_move,
                        player_move.payment_amount as int / old(self)@.payment_amount as int,
                    ) as usize,
                }),
                ..old(self)@
            }),
    {
        let jump = player_move.payment_amount / self.payment_amount;
        match player_move.player_move {
            Move::Stay => {},
            _ => {
                if let Some(p) = self.get_new_position(player_move.player_move, jump) {
                    self.player_position = p;
                }
            },
        }
        proof {
            let j = player_move.payment_amount as int / old(self)@.payment_amount as int;
            assert(self@ =~~= (StateModel {
                player_position: (Position {
                    row: apply_row(old(self)@.player_position, player_move.player_move, j) as usize,
                    col: apply_col(old(self)@.player_position, player_move.player_move, j) as usize,
                }),
                ..old(self)@
            }));
        }
    }

    /// Applies the commitment at 1-based `rand_index` of the pool: the
    /// player position moves by the commitment's direction and distance
    /// without re-validation, and the landed cell is resolved. Landing on
    /// a wall (including any address outside the matrix), or on a door
    /// whose key was never collected, fails with no state change at all.
    /// On success the selected identity is returned together with the
    /// custody transfer owed to it, if the landed cell carried a prize.
    pub fn pick_move(&mut self, rand_index: usize) -> (r: Result<
        (Address, Option<PaymentToken>),
        GameError,
    >)
        requires
            old(self)@.wf(),
            old(self)@.moves.len() > 0,
            1 <= rand_index <= old(self)@.moves.len(),
            old(self)@.payment_amount > 0,
        ensures
            final(self)@.wf(),
            ({
                let selected = old(self)@.moves[rand_index - 1];
                let jump = selected.payment_amount as int / old(self)@.payment_amount as int;
                let lr = apply_row(old(self)@.player_position, selected.player_move, jump);
                let lc = apply_col(old(self)@.player_position, selected.player_move, jump);
                let cell = cell_at_spec(old(self)@.matrix, lr, lc);
                let moved = (StateModel {
                    player_position: (Position { row: lr as usize, col: lc as usize }),
                    ..old(self)@
                });
                match cell {
                    Block::Wall => r == Err::<(Address, Option<PaymentToken>), GameError>(
                        GameError::GoThroughWall,
                    ) && final(self)@ == old(self)@,
                    Block::Door(id) => if old(self)@.collected_keys.contains(id) {
                        r == Ok::<(Address, Option<PaymentToken>), GameError>(
                            (selected.address, None),
                        ) && final(self)@ == moved
                    } else {
                        r == Err::<(Address, Option<PaymentToken>), GameError>(
                            GameError::KeyNeeded,
                        ) && final(self)@ == old(self)@
                    },
                    Block::Prize(info) => r == Ok::<(Address, Option<PaymentToken>), GameError>(
                        (
                            selected.address,
                            Some(
                                PaymentToken {
                                    ticker: info.ticker,
                                    nonce: info.nonce,
                                    amount: info.quantity,
                                },
                            ),
                        ),
                    ) && final(self)@ == effect_model(moved, selected.address),
                    _ => r == Ok::<(Address, Option<PaymentToken>), GameError>(
                        (selected.address, None),
                    ) && final(self)@ == effect_model(moved, selected.address),
                }
            }),
    {
        let selected = self.moves[rand_index - 1];
        let jump = selected.payment_amount / self.payment_amount;
        let target_opt: Option<Position> = match selected.player_move {
            Move::Stay => Some(self.player_position),
            _ => self.get_new_position(selected.player_move, jump),
        };
        let ghost lr = apply_row(self@.player_position, selected.player_move, jump as int);
        let ghost lc = apply_col(self@.player_position, selected.player_move, jump as int);
        match target_opt {
            None => {
                proof {
                    if lr > usize::MAX {
                        assert(self.matrix.len() == self.matrix@.len());
                    } else if 0 <= lr && 0 <= lc && lc > usize::MAX {
                        if 1 <= lr <= self@.matrix.len() {
                            let rv = self.matrix@[lr - 1];
                            assert(rv.len() == rv@.len());
                            assert(self@.matrix[lr - 1].len() == rv@.len());
                        }
                    }
                    assert(cell_at_spec(self@.matrix, lr, lc) == Block::Wall);
                }
                Err(GameError::GoThroughWall)
            },
            Some(target) => {
                let cell = self.cell_at(target.row, target.col);
                if let Block::Wall = cell {
                    return Err(GameError::GoThroughWall);
                }
                if let Block::Door(id) = cell {
                    if !self.has_key(id) {
                        return Err(GameError::KeyNeeded);
                    }
                }
                self.set_new_position(selected);
                match self.check_block(selected.address) {
                    Ok(reward) => Ok((selected.address, reward)),
                    Err(_) => Err(GameError::GoThroughWall),
                }
            },
        }
    }

    /// One tick of the round clock gate, at host time `now`, with the
    /// host's uniform random draw `rand_index` (1-based into the pool;
    /// ignored unless this tick resolves a non-empty pool).
    ///
    /// While no round is open the tick is an idempotent no-op. While a
    /// round is open but its duration has not elapsed since the last
    /// stamp, nothing changes and the host is told to await a later tick.
    /// Once the duration has elapsed, the round resolves: with an empty
    /// pool nothing is drawn and nothing changes beyond the round closing;
    /// otherwise the drawn commitment is applied and the landed cell
    /// resolved. Either way the pool empties, the timer drops to zero and
    /// the engine stops accepting moves; a failed resolution leaves the
    /// whole state untouched.
    pub fn ping(&mut self, now: u64, rand_index: usize) -> (r: Result<PingOutcome, GameError>)
        requires
            old(self)@.wf(),
            old(self)@.can_make_move ==> now >= old(self)@.timer,
            (old(self)@.can_make_move && now - old(self)@.timer >= old(self)@.duration && old(
                self,
            )@.moves.len() > 0) ==> {
                &&& 1 <= rand_index <= old(self)@.moves.len()
                &&& old(self)@.payment_amount > 0
            },
        ensures
            final(self)@.wf(),
            !old(self)@.can_make_move ==> r == Ok::<PingOutcome, GameError>(PingOutcome::Idle)
                && final(self)@ == old(self)@,
            old(self)@.can_make_move && now - old(self)@.timer < old(self)@.duration ==> r
                == Ok::<PingOutcome, GameError>(PingOutcome::AwaitTick) && final(self)@ == old(
                self,
            )@,
            old(self)@.can_make_move && now - old(self)@.timer >= old(self)@.duration && old(
                self,
            )@.moves.len() == 0 ==> r == Ok::<PingOutcome, GameError>(
                PingOutcome::Resolved { winner: 0, reward: None },
            ) && final(self)@ == close_round(old(self)@),
            old(self)@.can_make_move && now - old(self)@.timer >= old(self)@.duration && old(
                self,
            )@.moves.len() > 0 ==> ({
                let selected = old(self)@.moves[rand_index - 1];
                let jump = selected.payment_amount as int / old(self)@.payment_amount as int;
                let lr = apply_row(old(self)@.player_position, selected.player_move, jump);
                let lc = apply_col(old(self)@.player_position, selected.player_move, jump);
                let cell = cell_at_spec(old(self)@.matrix, lr, lc);
                let moved = (StateModel {
                    player_position: (Position { row: lr as usize, col: lc as usize }),
                    ..old(self)@
                });
                match cell {
                    Block::Wall => r == Err::<PingOutcome, GameError>(GameError::GoThroughWall)
                        && final(self)@ == old(self)@,
                    Block::Door(id) => if old(self)@.collected_keys.contains(id) {
                        r == Ok::<PingOutcome, GameError>(
                            PingOutcome::Resolved { winner: selected.address, reward: None },
                        ) && final(self)@ == close_round(moved)
                    } else {
                        r == Err::<PingOutcome, GameError>(GameError::KeyNeeded) && final(self)@
                            == old(self)@
                    },
                    Block::Prize(info) => r == Ok::<PingOutcome, GameError>(
                        PingOutcome::Resolved {
                            winner: selected.address,
                            reward: Some(
                                PaymentToken {
                                    ticker: info.ticker,
                                    nonce: info.nonce,
                                    amount: info.quantity,
                                },
                            ),
                        },
                    ) && final(self)@ == close_round(effect_model(moved, selected.address)),
                    _ => r == Ok::<PingOutcome, GameError>(
                        PingOutcome::Resolved { winner: selected.address, reward: None },
                    ) && final(self)@ == close_round(effect_model(moved, selected.address)),
                }
            }),
            r is Err ==> final(self)@ == old(self)@,
    {
        if !self.can_make_move {
            return Ok(PingOutcome::Idle);
        }
        if now - self.timer < self.duration {
            return Ok(PingOutcome::AwaitTick);
        }
        if self.moves.len() == 0 {
            self.timer = 0;
            self.can_make_move = false;
            proof {
                assert(self@.moves =~= Seq::<PlayerMove>::empty());
                assert(self@ =~~= close_round(old(self)@));
            }
            return Ok(PingOutcome::Resolved { winner: 0, reward: None });
        }
        match self.pick_move(rand_index) {
            Err(e) => Err(e),
            Ok((winner, reward)) => {
                self.timer = 0;
                self.can_make_move = false;
                self.moves.clear();
                Ok(PingOutcome::Resolved { winner, reward })
            },
        }
    }

    /// Pays the MVP its configured share of the collected funds, once.
    ///
    /// Fails with `MvpClaimed` after a successful claim, with `GameOngoing`
    /// before the session has ended, and with `NotMvp` for any caller other
    /// than the MVP; each failure leaves the state unchanged. On success
    /// the returned transfer of `collected × share / MULTIPLIER_TOTAL`
    /// units of the payment asset is owed to the caller, and the claimed
    /// flag is set irreversibly.
    pub fn mvp_claim(&mut self, caller: Address) -> (r: Result<PaymentToken, GameError>)
        requires
            old(self)@.wf(),
            old(self)@.collected_tokens * old(self)@.mvp_percent <= u128::MAX,
        ensures
            final(self)@.wf(),
            old(self)@.mvp_claimed ==> r == Err::<PaymentToken, GameError>(GameError::MvpClaimed)
                && final(self)@ == old(self)@,
            !old(self)@.mvp_claimed && old(self)@.game_status != GameStatus::End ==> r
                == Err::<PaymentToken, GameError>(GameError::GameOngoing) && final(self)@ == old(
                self,
            )@,
            !old(self)@.mvp_claimed && old(self)@.game_status == GameStatus::End && caller
                != crate::storage::mvp_of(old(self)@.player_payments).address ==> r
                == Err::<PaymentToken, GameError>(GameError::NotMvp) && final(self)@ == old(self)@,
            !old(self)@.mvp_claimed && old(self)@.game_status == GameStatus::End && caller
                == crate::storage::mvp_of(old(self)@.player_payments).address ==> {
                &&& r == Ok::<PaymentToken, GameError>(
                    (PaymentToken {
                        ticker: old(self)@.payment_token,
                        nonce: 0,
                        amount: (old(self)@.collected_tokens * old(self)@.mvp_percent / (
                        crate::MULTIPLIER_TOTAL as int)) as u128,
                    }),
                )
                &&& final(self)@ == (StateModel { mvp_claimed: true, ..old(self)@ })
            },
    {
        if self.mvp_claimed {
            return Err(GameError::MvpClaimed);
        }
        if !(self.game_status == GameStatus::End) {
            return Err(GameError::GameOngoing);
        }
        let mvp_info = self.get_mvp();
        if caller != mvp_info.address {
            return Err(GameError::NotMvp);
        }
        let amount = self.collected_tokens * self.mvp_percent / (crate::MULTIPLIER_TOTAL as u128);
        self.mvp_claimed = true;
        proof {
            assert(self@ =~~= (StateModel { mvp_claimed: true, ..old(self)@ }));
        }
        Ok(PaymentToken { ticker: self.payment_token, nonce: 0, amount })
    }
}

} // verus!
