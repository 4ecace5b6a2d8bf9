//! Administrative configuration of the engine: registering the payment
//! asset, authoring the maze, and the plain setters for positions, timing
//! and status flags.
//!
//! Authorization for these operations (an "is owner" predicate) is the
//! host's: the engine applies whatever configuration it is handed.

use vstd::prelude::*;

use crate::storage::{
    index_of_prize, ledger_total, Address, Block, GameState, GameStatus, PaymentToken,
    PlayerPayment, Position, PrizeToWin, StateModel, Status, TokenId,
};

verus! {

/// The matrix after one authoring step pushes `b` onto row `row` (1-based):
/// onto an existing row, or as the first cell of the next fresh row. A step
/// addressing any other row is setup misuse and changes nothing.
pub open spec fn matrix_after_push(m: Seq<Seq<Block>>, row: int, b: Block) -> Seq<Seq<Block>> {
    if 1 <= row <= m.len() {
        m.update(row - 1, m[row - 1].push(b))
    } else if row == m.len() + 1 {
        m.push(seq![b])
    } else {
        m
    }
}

/// The prize records after one authoring step: a prize cell registers a
/// record with an unset winner, unless a record with the prize's key
/// already exists.
pub open spec fn prizes_after_setup(ps: Seq<PrizeToWin>, b: Block) -> Seq<PrizeToWin> {
    match b {
        Block::Prize(info) => if index_of_prize(ps, info.ticker, info.nonce, info.quantity) < 0 {
            ps.push(
                PrizeToWin {
                    ticker: info.ticker,
                    nonce: info.nonce,
                    amount: info.quantity,
                    winner: 0,
                },
            )
        } else {
            ps
        },
        _ => ps,
    }
}

/// The matrix and prize records after all authoring steps of `args`, in
/// order. Each step is `(row, column, block)`; the column is informative
/// only, cells append in step order.
pub open spec fn setup_fold(
    m: Seq<Seq<Block>>,
    ps: Seq<PrizeToWin>,
    args: Seq<(usize, usize, Block)>,
) -> (Seq<Seq<Block>>, Seq<PrizeToWin>)
    decreases args.len(),
{
    if args.len() == 0 {
        (m, ps)
    } else {
        setup_fold(
            matrix_after_push(m, args[0].0 as int, args[0].2),
            prizes_after_setup(ps, args[0].2),
            args.drop_first(),
        )
    }
}

/// A ledger with every line zeroed sums to nothing.
proof fn lemma_ledger_total_zeroed(ps: Seq<PlayerPayment>)
    ensures
        ledger_total(
            ps.map_values(|p: PlayerPayment| PlayerPayment { address: p.address, amount: 0 }),
        ) == 0,
    decreases ps.len(),
{
    let f = |p: PlayerPayment| PlayerPayment { address: p.address, amount: 0 };
    if ps.len() > 0 {
        assert(ps.map_values(f).drop_first() =~= ps.drop_first().map_values(f));
        lemma_ledger_total_zeroed(ps.drop_first());
    }
}

impl GameState {
    /// Registers the asset players pay with and the unit price of one cell
    /// of movement.
    pub fn register_payment_token(&mut self, token: TokenId, quantity: u128)
        ensures
            final(self)@ == (StateModel {
                payment_token: token,
                payment_amount: quantity,
                ..old(self)@
            }),
    {
        self.payment_token = token;
        self.payment_amount = quantity;
        proof {
            assert(self@ =~~= (StateModel {
                payment_token: token,
                payment_amount: quantity,
                ..old(self)@
            }));
        }
    }

    /// Admits a load of assets into the host's custody. Custody is the
    /// host's business: admitting a load changes no engine state.
    pub fn load_tokens(&self)
    {
    }

    /// Decides the transfer that returns `amount` of `(ticker, nonce)`
    /// from the host's custody to the owner; no engine state changes.
    pub fn unload_tokens(&self, ticker: TokenId, nonce: u64, amount: u128) -> (t: PaymentToken)
        ensures
            t == (PaymentToken { ticker, nonce, amount }),
    {
        PaymentToken { ticker, nonce, amount }
    }

    /// Authors the maze from `(row, column, block)` steps, registering a
    /// prize record for every prize cell, and starts the session: the
    /// lifecycle moves to `Start`, the round gate closes, and both player
    /// and start position are initialized to `(2, 2)`.
    pub fn set_matrix(&mut self, args: &Vec<(usize, usize, Block)>)
        requires
            old(self)@.wf(),
        ensures
            final(self)@.wf(),
            final(self)@ == (StateModel {
                game_status: GameStatus::Start,
                can_make_move: false,
                player_position: (Position { row: 2, col: 2 }),
                start_position: (Position { row: 2, col: 2 }),
                matrix: setup_fold(old(self)@.matrix, old(self)@.prizes, args@).0,
                prizes: setup_fold(old(self)@.matrix, old(self)@.prizes, args@).1,
                ..old(self)@
            }),
    {
        self.game_status = GameStatus::Start;
        self.set_can_make_move();
        self.init_position(2, 2);
        let ghost m0 = self@.matrix;
        let ghost ps0 = self@.prizes;
        proof {
            assert(args@.skip(0) =~= args@);
        }
        let mut i: usize = 0;
        while i < args.len()
            invariant
                0 <= i <= args.len(),
                self@.game_status == GameStatus::Start,
                self@.can_make_move == false,
                self@.player_position == (Position { row: 2, col: 2 }),
                self@.start_position == (Position { row: 2, col: 2 }),
                self@.moves == old(self)@.moves,
                self@.player_payments == old(self)@.player_payments,
                self@.collected_keys == old(self)@.collected_keys,
                self@.collected_tokens == old(self)@.collected_tokens,
                self@.timer == old(self)@.timer,
                self@.duration == old(self)@.duration,
                self@.status == old(self)@.status,
                self@.payment_token == old(self)@.payment_token,
                self@.payment_amount == old(self)@.payment_amount,
                self@.mvp_percent == old(self)@.mvp_percent,
                self@.mvp_claimed == old(self)@.mvp_claimed,
                self@.pong_address == old(self)@.pong_address,
                setup_fold(m0, ps0, args@) == setup_fold(
                    self@.matrix,
                    self@.prizes,
                    args@.skip(i as int),
                ),
                forall|x: int, y: int|
                    0 <= x < y < self@.prizes.len() ==> !crate::storage::same_prize_key(
                        self@.prizes[x],
                        self@.prizes[y],
                    ),
            decreases args.len() - i,
        {
            let ghost pre = self@;
            let (row, _col, block) = args[i];
            if row >= 1 && row <= self.matrix.len() {
                let rv = &mut self.matrix[row - 1];
                rv.push(block);
            } else if row >= 1 && row - 1 == self.matrix.len() {
                let mut nr: Vec<Block> = Vec::new();
                nr.push(block);
                self.matrix.push(nr);
            }
            proof {
                assert(self@.matrix =~~= matrix_after_push(pre.matrix, row as int, block));
            }
            let ghost old_prizes = self@.prizes;
            match block {
                Block::Prize(info) => {
                    match self.find_prize_index(info.ticker, info.nonce, info.quantity) {
                        None => {
                            self.prizes_to_win.push(
                                PrizeToWin {
                                    ticker: info.ticker,
                                    nonce: info.nonce,
                                    amount: info.quantity,
                                    winner: 0,
                                },
                            );
                            proof {
                                let ps2 = self@.prizes;
                                let rec = PrizeToWin {
                                    ticker: info.ticker,
                                    nonce: info.nonce,
                                    amount: info.quantity,
                                    winner: 0,
                                };
                                assert forall|x: int, y: int|
                                    0 <= x < y < ps2.len() implies !crate::storage::same_prize_key(
                                    ps2[x],
                                    ps2[y],
                                ) by {
                                    assert(ps2[x] == old_prizes[x]);
                                    if y < old_prizes.len() {
                                        assert(ps2[y] == old_prizes[y]);
                                    } else {
                                        assert(ps2[y] == rec);
                                    }
                                }
                            }
                        },
                        Some(_) => {},
                    }
                },
                _ => {},
            }
            proof {
                assert(self@.prizes =~= prizes_after_setup(pre.prizes, block));
                assert(args@.skip(i as int).drop_first() =~= args@.skip(i as int + 1));
                assert(args@.skip(i as int)[0] == args@[i as int]);
            }
            i = i + 1;
        }
        proof {
            assert(args@.skip(args@.len() as int) =~= Seq::<(usize, usize, Block)>::empty());
            assert(self@ =~~= (StateModel {
                game_status: GameStatus::Start,
                can_make_move: false,
                player_position: (Position { row: 2, col: 2 }),
                start_position: (Position { row: 2, col: 2 }),
                matrix: setup_fold(old(self)@.matrix, old(self)@.prizes, args@).0,
                prizes: setup_fold(old(self)@.matrix, old(self)@.prizes, args@).1,
                ..old(self)@
            }));
        }
    }

    /// Resets the session: the pool, the timer, the claimed flag, the
    /// collected total, the prize records, every ledger line's amount, the
    /// collected keys and the matrix are all cleared. The lifecycle flag,
    /// the configuration and the positions keep their values.
    pub fn clear_matrix(&mut self)
        requires
            old(self)@.wf(),
        ensures
            final(self)@.wf(),
            final(self)@ == (StateModel {
                moves: Seq::empty(),
                timer: 0,
                mvp_claimed: false,
                collected_tokens: 0,
                prizes: Seq::empty(),
                player_payments: old(self)@.player_payments.map_values(
                    |p: PlayerPayment| PlayerPayment { address: p.address, amount: 0 },
                ),
                collected_keys: Seq::empty(),
                matrix: Seq::empty(),
                ..old(self)@
            }),
    {
        self.moves.clear();
        self.timer = 0;
        self.mvp_claimed = false;
        self.collected_tokens = 0;
        self.prizes_to_win.clear();
        let ghost ps0 = self@.player_payments;
        let mut i: usize = 0;
        while i < self.player_payments.len()
            invariant
                0 <= i <= self.player_payments.len(),
                self@.player_payments.len() == ps0.len(),
                forall|j: int|
                    0 <= j < i ==> self@.player_payments[j] == (PlayerPayment {
                        address: ps0[j].address,
                        amount: 0,
                    }),
                forall|j: int| i <= j < ps0.len() ==> self@.player_payments[j] == ps0[j],
                self@.moves == Seq::<crate::storage::PlayerMove>::empty(),
                self@.timer == 0,
                self@.mvp_claimed == false,
                self@.collected_tokens == 0,
                self@.prizes == Seq::<PrizeToWin>::empty(),
                self@.collected_keys == old(self)@.collected_keys,
                self@.matrix == old(self)@.matrix,
                self@.player_position == old(self)@.player_position,
                self@.start_position == old(self)@.start_position,
                self@.game_status == old(self)@.game_status,
                self@.status == old(self)@.status,
                self@.payment_token == old(self)@.payment_token,
                self@.payment_amount == old(self)@.payment_amount,
                self@.mvp_percent == old(self)@.mvp_percent,
                self@.duration == old(self)@.duration,
                self@.can_make_move == old(self)@.can_make_move,
                self@.pong_address == old(self)@.pong_address,
            decreases self.player_payments.len() - i,
        {
            let a = self.player_payments[i].address;
            self.player_payments[i] = PlayerPayment { address: a, amount: 0 };
            i = i + 1;
        }
        self.collected_keys_id.clear();
        self.matrix.clear();
        proof {
            let f = |p: PlayerPayment| PlayerPayment { address: p.address, amount: 0 };
            assert(self@.player_payments =~= ps0.map_values(f));
            lemma_ledger_total_zeroed(ps0);
            assert(self@.matrix =~~= Seq::<Seq<Block>>::empty());
            assert(self@ =~~= (StateModel {
                moves: Seq::empty(),
                timer: 0,
                mvp_claimed: false,
                collected_tokens: 0,
                prizes: Seq::empty(),
                player_payments: ps0.map_values(f),
                collected_keys: Seq::empty(),
                matrix: Seq::empty(),
                ..old(self)@
            }));
        }
    }

    /// Sets the session lifecycle flag directly.
    pub fn set_game_status(&mut self, status: GameStatus)
        ensures
            final(self)@ == (StateModel { game_status: status, ..old(self)@ }),
    {
        self.game_status = status;
        proof {
            assert(self@ =~~= (StateModel { game_status: status, ..old(self)@ }));
        }
    }

    /// Sets the MVP share of the collected funds, scaled by
    /// `MULTIPLIER_TOTAL`.
    pub fn set_mvp_percent(&mut self, percent: u128)
        ensures
            final(self)@ == (StateModel { mvp_percent: percent, ..old(self)@ }),
    {
        self.mvp_percent = percent;
        proof {
            assert(self@ =~~= (StateModel { mvp_percent: percent, ..old(self)@ }));
        }
    }

    /// Initializes both the player position and the start position.
    pub fn init_position(&mut self, row: usize, col: usize)
        ensures
            final(self)@ == (StateModel {
                player_position: (Position { row, col }),
                start_position: (Position { row, col }),
                ..old(self)@
            }),
    {
        self.player_position = Position { row, col };
        self.start_position = Position { row, col };
        proof {
            assert(self@ =~~= (StateModel {
                player_position: (Position { row, col }),
                start_position: (Position { row, col }),
                ..old(self)@
            }));
        }
    }

    /// Sets the clock collaborator that re-delivers ticks.
    pub fn set_pong_address(&mut self, pong_address: Address)
        ensures
            final(self)@ == (StateModel { pong_address, ..old(self)@ }),
    {
        self.pong_address = pong_address;
        proof {
            assert(self@ =~~= (StateModel { pong_address, ..old(self)@ }));
        }
    }

    /// Sets only the start position, to which a trap resets the player.
    pub fn set_start_position(&mut self, row: usize, col: usize)
        ensures
            final(self)@ == (StateModel {
                start_position: (Position { row, col }),
                ..old(self)@
            }),
    {
        self.start_position = Position { row, col };
        proof {
            assert(self@ =~~= (StateModel {
                start_position: (Position { row, col }),
                ..old(self)@
            }));
        }
    }

    /// Sets the player's active position.
    pub fn set_player_position(&mut self, row: usize, col: usize)
        ensures
            final(self)@ == (StateModel {
                player_position: (Position { row, col }),
                ..old(self)@
            }),
    {
        self.player_position = Position { row, col };
        proof {
            assert(self@ =~~= (StateModel {
                player_position: (Position { row, col }),
                ..old(self)@
            }));
        }
    }

    /// Sets the round duration lower bound.
    pub fn set_duration(&mut self, duration: u64)
        ensures
            final(self)@ == (StateModel { duration, ..old(self)@ }),
    {
        self.duration = duration;
        proof {
            assert(self@ =~~= (StateModel { duration, ..old(self)@ }));
        }
    }

    /// Sets the round-open timestamp directly.
    pub fn set_timer(&mut self, start_timer: u64)
        ensures
            final(self)@ == (StateModel { timer: start_timer, ..old(self)@ }),
    {
        self.timer = start_timer;
        proof {
            assert(self@ =~~= (StateModel { timer: start_timer, ..old(self)@ }));
        }
    }

    /// Sets the pause gate; only move submission consults it.
    pub fn set_status(&mut self, status: Status)
        ensures
            final(self)@ == (StateModel { status, ..old(self)@ }),
    {
        self.status = status;
        proof {
            assert(self@ =~~= (StateModel { status, ..old(self)@ }));
        }
    }

    /// Closes the round gate, so that the next admitted move opens a fresh
    /// round.
    pub fn set_can_make_move(&mut self)
        ensures
            final(self)@ == (StateModel { can_make_move: false, ..old(self)@ }),
    {
        self.can_make_move = false;
        proof {
            assert(self@ =~~= (StateModel { can_make_move: false, ..old(self)@ }));
        }
    }
}

} // verus!
