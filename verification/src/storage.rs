//! The engine's data model: cells, moves, payments, prize records, and the
//! single owned state value that every operation reads and mutates.

use vstd::prelude::*;

verus! {

/// A caller identity, as handed in by the host for every operation.
/// The value `0` is the sentinel for "no identity" (an unset prize winner,
/// the MVP of an empty ledger).
pub type Address = u64;

/// A fungible asset identifier, as configured by the owner.
pub type TokenId = u64;

/// Coordinates of the player: 1-based row and column in the maze matrix.
#[derive(Clone, Copy, Debug, PartialEq, Eq, Structural)]
pub struct Position {
    pub row: usize,
    pub col: usize,
}

/// Category of a prize: an ordinary reward, or one that ends the session
/// when won.
#[derive(Clone, Copy, Debug, PartialEq, Eq, Structural)]
pub enum PrizeType {
    NoPrize,
    Finish,
    Normal,
}

/// The reward attached to a prize cell.
#[derive(Clone, Copy, Debug, PartialEq, Eq, Structural)]
pub struct PrizeInfo {
    pub prize_type: PrizeType,
    pub ticker: TokenId,
    pub nonce: u64,
    pub quantity: u128,
}

/// One square of the maze. Addresses beyond the authored matrix behave as
/// `Wall`. `MatrixDimensions` never stands in the matrix itself: it is the
/// dimension marker appended to the flattened matrix export.
#[derive(Clone, Copy, Debug, PartialEq, Eq, Structural)]
pub enum Block {
    Empty,
    Start,
    Finish,
    Wall,
    Trap,
    Prize(PrizeInfo),
    Random,
    Teleport,
    Key(u64),
    Door(u64),
    MatrixDimensions(usize, usize),
}

/// A declared direction. `Stay` is the degenerate direction that moves
/// nowhere when applied; path validation treats it like `Left`.
#[derive(Clone, Copy, Debug, PartialEq, Eq, Structural)]
pub enum Move {
    Stay,
    Up,
    Right,
    Down,
    Left,
}

/// One player's pending, paid move intent for the current round.
#[derive(Clone, Copy, Debug, PartialEq, Eq, Structural)]
pub struct PlayerMove {
    pub payment_token: TokenId,
    pub payment_nonce: u64,
    pub payment_amount: u128,
    pub player_move: Move,
    pub address: Address,
}

/// The game's coarse lifecycle: not started, in progress, or ended.
#[derive(Clone, Copy, Debug, PartialEq, Eq, Structural)]
pub enum GameStatus {
    NotStarted,
    Start,
    End,
}

/// Whether the contract accepts player operations at all.
#[derive(Clone, Copy, Debug, PartialEq, Eq, Structural)]
pub enum Status {
    Frozen,
    Public,
}

/// An asset transfer decision: which asset, which sub-identifier, and how
/// much. The engine hands these out; the host performs the custody work.
#[derive(Clone, Copy, Debug, PartialEq, Eq, Structural)]
pub struct PaymentToken {
    pub ticker: TokenId,
    pub nonce: u64,
    pub amount: u128,
}

/// A ledger line recording that a prize is offered and, once won, by whom.
/// `winner` is the `0` sentinel until a winner is selected.
#[derive(Clone, Copy, Debug, PartialEq, Eq, Structural)]
pub struct PrizeToWin {
    pub ticker: TokenId,
    pub nonce: u64,
    pub amount: u128,
    pub winner: Address,
}

/// One identity's cumulative spend this session.
#[derive(Clone, Copy, Debug, PartialEq, Eq, Structural)]
pub struct PlayerPayment {
    pub address: Address,
    pub amount: u128,
}

/// One entry of the general-data export: a tagged value of whichever piece
/// of state the entry reports.
#[derive(Clone, Copy, Debug, PartialEq, Eq, Structural)]
pub enum ReturnTypes {
    NoData,
    TypePosition(Position),
    TypeGameStatus(GameStatus),
    TypeCooldown(u64),
    TypeTimerStart(u64),
    TypeCollectedTokens(u128),
    TypeAmount(u128),
    TypeAddress(Address),
    TypePlayerPayment(PlayerPayment),
    TypeMvpClaimed(bool),
    TypeKey(u64),
    TypePrize(PrizeToWin),
    TypePlayerMove(PlayerMove),
}

/// The whole game state, owned by the engine: the maze matrix, the session,
/// the current round's move pool, and the reward ledger.
pub struct GameState {
    /// Pause gate: player operations are admitted only while `Public`.
    pub status: Status,
    /// Lifecycle of the session.
    pub game_status: GameStatus,
    /// The maze, row-major; rows and columns are addressed 1-based.
    pub matrix: Vec<Vec<Block>>,
    /// The shared player position.
    pub player_position: Position,
    /// Where the player is reset to when landing on a trap.
    pub start_position: Position,
    /// The asset players must pay with.
    pub payment_token: TokenId,
    /// Unit price of one cell of movement.
    pub payment_amount: u128,
    /// MVP share of the collected funds, scaled by `MULTIPLIER_TOTAL`.
    pub mvp_percent: u128,
    /// Round duration lower bound, in the host clock's unit.
    pub duration: u64,
    /// Timestamp stamped when the round opened or was last re-stamped.
    pub timer: u64,
    /// Round gate: true while a round is open and accepting moves.
    pub can_make_move: bool,
    /// The clock collaborator that re-delivers ticks.
    pub pong_address: Address,
    /// The round's move pool: at most one live commitment per identity.
    pub moves: Vec<PlayerMove>,
    /// Cumulative spend per identity, in order of first payment.
    pub player_payments: Vec<PlayerPayment>,
    /// Total collected this session; equals the sum of the ledger.
    pub collected_tokens: u128,
    /// Identifiers of the keys collected so far, each at most once.
    pub collected_keys_id: Vec<u64>,
    /// Prize records, one per distinct prize key.
    pub prizes_to_win: Vec<PrizeToWin>,
    /// Whether the MVP share has been paid out.
    pub mvp_claimed: bool,
}

/// The mathematical model of [`GameState`]: the same fields with every
/// collection abstracted to a sequence.
#[verifier::ext_equal]
pub struct StateModel {
    pub status: Status,
    pub game_status: GameStatus,
    pub matrix: Seq<Seq<Block>>,
    pub player_position: Position,
    pub start_position: Position,
    pub payment_token: TokenId,
    pub payment_amount: u128,
    pub mvp_percent: u128,
    pub duration: u64,
    pub timer: u64,
    pub can_make_move: bool,
    pub pong_address: Address,
    pub moves: Seq<PlayerMove>,
    pub player_payments: Seq<PlayerPayment>,
    pub collected_tokens: u128,
    pub collected_keys: Seq<u64>,
    pub prizes: Seq<PrizeToWin>,
    pub mvp_claimed: bool,
}

impl View for GameState {
    type V = StateModel;

    open spec fn view(&self) -> StateModel {
        StateModel {
            status: self.status,
            game_status: self.game_status,
            matrix: self.matrix@.map_values(|r: Vec<Block>| r@),
            player_position: self.player_position,
            start_position: self.start_position,
            payment_token: self.payment_token,
            payment_amount: self.payment_amount,
            mvp_percent: self.mvp_percent,
            duration: self.duration,
            timer: self.timer,
            can_make_move: self.can_make_move,
            pong_address: self.pong_address,
            moves: self.moves@,
            player_payments: self.player_payments@,
            collected_tokens: self.collected_tokens,
            collected_keys: self.collected_keys_id@,
            prizes: self.prizes_to_win@,
            mvp_claimed: self.mvp_claimed,
        }
    }
}

impl GameState {
    /// The cell at 1-based `(row, col)`; addresses outside the authored
    /// matrix behave as `Wall`.
    pub fn cell_at(&self, row: usize, col: usize) -> (b: Block)
        ensures
            b == crate::path::cell_at_spec(self@.matrix, row as int, col as int),
    {
        if 1 <= row && row <= self.matrix.len() {
            let r = &self.matrix[row - 1];
            if 1 <= col && col <= r.len() {
                r[col - 1]
            } else {
                Block::Wall
            }
        } else {
            Block::Wall
        }
    }

    /// Overwrites the cell at 1-based `(row, col)`, which must exist.
    pub fn set_cell(&mut self, row: usize, col: usize, b: Block)
        requires
            1 <= row <= old(self)@.matrix.len(),
            1 <= col <= old(self)@.matrix[row - 1].len(),
        ensures
            final(self)@ == (StateModel {
                matrix: old(self)@.matrix.update(
                    row - 1,
                    old(self)@.matrix[row - 1].update(col - 1, b),
                ),
                ..old(self)@
            }),
    {
        let r = &mut self.matrix[row - 1];
        r[col - 1] = b;
        proof {
            assert(self@.matrix =~= old(self)@.matrix.update(
                row - 1,
                old(self)@.matrix[row - 1].update(col - 1, b),
            ));
            assert(final(self)@ =~= (StateModel {
                matrix: old(self)@.matrix.update(
                    row - 1,
                    old(self)@.matrix[row - 1].update(col - 1, b),
                ),
                ..old(self)@
            }));
        }
    }

    /// Index of the live commitment registered by `a`, if any.
    pub fn find_move_index(&self, a: Address) -> (r: Option<usize>)
        ensures
            r matches Some(i) ==> {
                &&& index_of_move(self@.moves, a) == i as int
                &&& i < self@.moves.len()
                &&& self@.moves[i as int].address == a
            },
            r is None ==> {
                &&& index_of_move(self@.moves, a) == -1
                &&& forall|j: int| 0 <= j < self@.moves.len() ==> self@.moves[j].address != a
            },
    {
        let mut i: usize = 0;
        while i < self.moves.len()
            invariant
                0 <= i <= self.moves.len(),
                forall|j: int| 0 <= j < i ==> self@.moves[j].address != a,
            decreases self.moves.len() - i,
        {
            if self.moves[i].address == a {
                proof {
                    lemma_index_of_move_found(self@.moves, a, i as int);
                }
                return Some(i);
            }
            i = i + 1;
        }
        proof {
            lemma_index_of_move_none(self@.moves, a);
        }
        None
    }

    /// Index of the ledger line of `a`, if any.
    pub fn find_payment_index(&self, a: Address) -> (r: Option<usize>)
        ensures
            r matches Some(i) ==> {
                &&& index_of_payment(self@.player_payments, a) == i as int
                &&& i < self@.player_payments.len()
                &&& self@.player_payments[i as int].address == a
            },
            r is None ==> {
                &&& index_of_payment(self@.player_payments, a) == -1
                &&& forall|j: int|
                    0 <= j < self@.player_payments.len() ==> self@.player_payments[j].address != a
            },
    {
        let mut i: usize = 0;
        while i < self.player_payments.len()
            invariant
                0 <= i <= self.player_payments.len(),
                forall|j: int| 0 <= j < i ==> self@.player_payments[j].address != a,
            decreases self.player_payments.len() - i,
        {
            if self.player_payments[i].address == a {
                proof {
                    lemma_index_of_payment_found(self@.player_payments, a, i as int);
                }
                return Some(i);
            }
            i = i + 1;
        }
        proof {
            lemma_index_of_payment_none(self@.player_payments, a);
        }
        None
    }

    /// The whole matrix flattened row-major, with a dimension marker
    /// appended: the number of rows and the width of the last row.
    pub fn get_full_matrix(&self) -> (r: Vec<Block>)
        ensures
            r@ == flatten_matrix(self@.matrix).push(
                Block::MatrixDimensions(
                    self@.matrix.len() as usize,
                    if self@.matrix.len() == 0 {
                        0
                    } else {
                        self@.matrix.last().len() as usize
                    },
                ),
            ),
    {
        let mut r: Vec<Block> = Vec::new();
        proof {
            assert(self@.matrix.take(0) =~= Seq::<Seq<Block>>::empty());
        }
        let mut i: usize = 0;
        while i < self.matrix.len()
            invariant
                0 <= i <= self.matrix.len(),
                self@.matrix.len() == self.matrix.len(),
                r@ == flatten_matrix(self@.matrix.take(i as int)),
            decreases self.matrix.len() - i,
        {
            let mut j: usize = 0;
            proof {
                assert(self@.matrix[i as int].take(0) =~= Seq::<Block>::empty());
                assert(r@ + self@.matrix[i as int].take(0) =~= r@);
            }
            let ghost head = r@;
            while j < self.matrix[i].len()
                invariant
                    0 <= i < self.matrix.len(),
                    0 <= j <= self.matrix[i as int]@.len(),
                    self@.matrix.len() == self.matrix.len(),
                    self@.matrix[i as int] == self.matrix[i as int]@,
                    head == flatten_matrix(self@.matrix.take(i as int)),
                    r@ == head + self@.matrix[i as int].take(j as int),
                decreases self.matrix[i as int]@.len() - j,
            {
                r.push(self.matrix[i][j]);
                proof {
                    assert(self@.matrix[i as int].take(j as int).push(
                        self@.matrix[i as int][j as int],
                    ) =~= self@.matrix[i as int].take(j as int + 1));
                    assert(r@ =~= head + self@.matrix[i as int].take(j as int + 1));
                }
                j = j + 1;
            }
            proof {
                assert(self@.matrix[i as int].take(self.matrix[i as int]@.len() as int)
                    =~= self@.matrix[i as int]);
                assert(self@.matrix.take(i as int).push(self@.matrix[i as int])
                    =~= self@.matrix.take(i as int + 1));
                lemma_flatten_matrix_push(self@.matrix.take(i as int), self@.matrix[i as int]);
                assert(r@ =~= flatten_matrix(self@.matrix.take(i as int + 1)));
            }
            i = i + 1;
        }
        proof {
            assert(self@.matrix.take(self.matrix.len() as int) =~= self@.matrix);
        }
        let rows = self.matrix.len();
        if rows == 0 {
            r.push(Block::MatrixDimensions(0, 0));
        } else {
            let last_len = self.matrix[rows - 1].len();
            r.push(Block::MatrixDimensions(rows, last_len));
        }
        r
    }

    /// The configured payment asset and unit price, as one record.
    pub fn get_payment_info(&self) -> (t: PaymentToken)
        ensures
            t == (PaymentToken {
                ticker: self@.payment_token,
                nonce: 0,
                amount: self@.payment_amount,
            }),
    {
        PaymentToken { ticker: self.payment_token, nonce: 0, amount: self.payment_amount }
    }

    /// General data about the session in one export: position, lifecycle,
    /// cooldown, round timestamp, collected total, every collected key,
    /// every prize record, every live commitment, and the claimed flag.
    pub fn get_general_data(&self) -> (r: Vec<ReturnTypes>)
        ensures
            r@ == general_data_of(self@),
    {
        let mut r: Vec<ReturnTypes> = Vec::new();
        r.push(ReturnTypes::TypePosition(self.player_position));
        r.push(ReturnTypes::TypeGameStatus(self.game_status));
        r.push(ReturnTypes::TypeCooldown(self.duration));
        r.push(ReturnTypes::TypeTimerStart(self.timer));
        r.push(ReturnTypes::TypeCollectedTokens(self.collected_tokens));
        let ghost head0 = r@;
        let ghost kfs = |k: u64| ReturnTypes::TypeKey(k);
        let mut i: usize = 0;
        proof {
            assert(self@.collected_keys.take(0).map_values(kfs) =~= Seq::<ReturnTypes>::empty());
            assert(r@ =~= head0 + self@.collected_keys.take(0).map_values(kfs));
        }
        while i < self.collected_keys_id.len()
            invariant
                0 <= i <= self.collected_keys_id.len(),
                forall|k: u64| #[trigger] kfs(k) == ReturnTypes::TypeKey(k),
                r@ == head0 + self@.collected_keys.take(i as int).map_values(kfs),
            decreases self.collected_keys_id.len() - i,
        {
            r.push(ReturnTypes::TypeKey(self.collected_keys_id[i]));
            proof {
                lemma_map_take_push(self@.collected_keys, kfs, i as int);
                assert(kfs(self@.collected_keys[i as int]) == ReturnTypes::TypeKey(
                    self@.collected_keys[i as int],
                ));
                assert(r@ == (head0 + self@.collected_keys.take(i as int).map_values(kfs)).push(
                    ReturnTypes::TypeKey(self@.collected_keys[i as int]),
                ));
                assert(r@ =~= head0 + self@.collected_keys.take(i as int + 1).map_values(kfs));
            }
            i = i + 1;
        }
        proof {
            assert(self@.collected_keys.take(self.collected_keys_id.len() as int)
                =~= self@.collected_keys);
        }
        let ghost head1 = r@;
        let ghost pfs = |p: PrizeToWin| ReturnTypes::TypePrize(p);
        let mut i: usize = 0;
        proof {
            assert(self@.prizes.take(0).map_values(pfs) =~= Seq::<ReturnTypes>::empty());
            assert(r@ =~= head1 + self@.prizes.take(0).map_values(pfs));
        }
        while i < self.prizes_to_win.len()
            invariant
                0 <= i <= self.prizes_to_win.len(),
                forall|p: PrizeToWin| #[trigger] pfs(p) == ReturnTypes::TypePrize(p),
                r@ == head1 + self@.prizes.take(i as int).map_values(pfs),
            decreases self.prizes_to_win.len() - i,
        {
            r.push(ReturnTypes::TypePrize(self.prizes_to_win[i]));
            proof {
                lemma_map_take_push(self@.prizes, pfs, i as int);
                assert(r@ =~= head1 + self@.prizes.take(i as int + 1).map_values(pfs));
            }
            i = i + 1;
        }
        proof {
            assert(self@.prizes.take(self.prizes_to_win.len() as int) =~= self@.prizes);
        }
        let ghost head2 = r@;
        let ghost mfs = |m: PlayerMove| ReturnTypes::TypePlayerMove(m);
        let mut i: usize = 0;
        proof {
            assert(self@.moves.take(0).map_values(mfs) =~= Seq::<ReturnTypes>::empty());
            assert(r@ =~= head2 + self@.moves.take(0).map_values(mfs));
        }
        while i < self.moves.len()
            invariant
                0 <= i <= self.moves.len(),
                forall|m: PlayerMove| #[trigger] mfs(m) == ReturnTypes::TypePlayerMove(m),
                r@ == head2 + self@.moves.take(i as int).map_values(mfs),
            decreases self.moves.len() - i,
        {
            r.push(ReturnTypes::TypePlayerMove(self.moves[i]));
            proof {
                lemma_map_take_push(self@.moves, mfs, i as int);
                assert(r@ =~= head2 + self@.moves.take(i as int + 1).map_values(mfs));
            }
            i = i + 1;
        }
        proof {
            assert(self@.moves.take(self.moves.len() as int) =~= self@.moves);
        }
        r.push(ReturnTypes::TypeMvpClaimed(self.mvp_claimed));
        proof {
            assert(r@ =~= general_data_of(self@));
        }
        r
    }

    /// The identity that has spent the most this session, with its spend:
    /// the first-encountered strictly-greatest cumulative payer,
    /// deterministically, or the `0` sentinel when nobody has paid.
    pub fn get_mvp(&self) -> (r: PlayerPayment)
        ensures
            r == mvp_of(self@.player_payments),
            (forall|j: int|
                0 <= j < self@.player_payments.len() ==> self@.player_payments[j].amount == 0)
                ==> r == (PlayerPayment { address: 0, amount: 0 }),
            (exists|j: int|
                0 <= j < self@.player_payments.len() && self@.player_payments[j].amount > 0)
                ==> exists|i: int|
                is_first_max(self@.player_payments, i) && r == self@.player_payments[i],
    {
        let ghost ps = self@.player_payments;
        let mut best = PlayerPayment { address: 0, amount: 0 };
        let mut i: usize = 0;
        while i < self.player_payments.len()
            invariant
                0 <= i <= self.player_payments.len(),
                ps == self@.player_payments,
                mvp_of(ps) == mvp_scan(ps, best, i as int),
                forall|j: int| 0 <= j < i ==> ps[j].amount <= best.amount,
                best.amount == 0 ==> best == (PlayerPayment { address: 0, amount: 0 }),
                best.amount > 0 ==> exists|b: int|
                    0 <= b < i && ps[b] == best && (forall|j: int|
                        0 <= j < b ==> ps[j].amount < best.amount),
            decreases self.player_payments.len() - i,
        {
            let p = self.player_payments[i];
            if p.amount > best.amount {
                best = p;
                proof {
                    assert(ps[i as int] == best);
                    assert(forall|j: int| 0 <= j < i as int ==> ps[j].amount < best.amount);
                }
            }
            i = i + 1;
        }
        proof {
            if best.amount > 0 {
                let b = choose|b: int|
                    0 <= b < ps.len() && ps[b] == best && (forall|j: int|
                        0 <= j < b ==> ps[j].amount < best.amount);
                assert(is_first_max(ps, b));
            }
        }
        best
    }

    /// Index of the prize record with key `(ticker, nonce, amount)`, if any.
    pub fn find_prize_index(&self, ticker: TokenId, nonce: u64, amount: u128) -> (r: Option<
        usize,
    >)
        ensures
            r matches Some(i) ==> {
                &&& index_of_prize(self@.prizes, ticker, nonce, amount) == i as int
                &&& i < self@.prizes.len()
                &&& self@.prizes[i as int].ticker == ticker
                &&& self@.prizes[i as int].nonce == nonce
                &&& self@.prizes[i as int].amount == amount
            },
            r is None ==> {
                &&& index_of_prize(self@.prizes, ticker, nonce, amount) == -1
                &&& forall|j: int|
                    0 <= j < self@.prizes.len() ==> !(self@.prizes[j].ticker == ticker
                        && self@.prizes[j].nonce == nonce && self@.prizes[j].amount == amount)
            },
    {
        let mut i: usize = 0;
        while i < self.prizes_to_win.len()
            invariant
                0 <= i <= self.prizes_to_win.len(),
                forall|j: int|
                    0 <= j < i ==> !(self@.prizes[j].ticker == ticker && self@.prizes[j].nonce
                        == nonce && self@.prizes[j].amount == amount),
            decreases self.prizes_to_win.len() - i,
        {
            let p = &self.prizes_to_win[i];
            if p.ticker == ticker && p.nonce == nonce && p.amount == amount {
                proof {
                    lemma_index_of_prize_found(self@.prizes, ticker, nonce, amount, i as int);
                }
                return Some(i);
            }
            i = i + 1;
        }
        proof {
            lemma_index_of_prize_none(self@.prizes, ticker, nonce, amount);
        }
        None
    }

    /// Whether the key `id` has been collected.
    pub fn has_key(&self, id: u64) -> (r: bool)
        ensures
            r <==> self@.collected_keys.contains(id),
    {
        let mut i: usize = 0;
        while i < self.collected_keys_id.len()
            invariant
                0 <= i <= self.collected_keys_id.len(),
                forall|j: int| 0 <= j < i ==> self@.collected_keys[j] != id,
            decreases self.collected_keys_id.len() - i,
        {
            if self.collected_keys_id[i] == id {
                proof {
                    assert(self@.collected_keys[i as int] == id);
                }
                return true;
            }
            i = i + 1;
        }
        false
    }
}

/// Sum of all cumulative ledger entries.
pub open spec fn ledger_total(ps: Seq<PlayerPayment>) -> int
    decreases ps.len(),
{
    if ps.len() == 0 {
        0
    } else {
        ps[0].amount + ledger_total(ps.drop_first())
    }
}

/// Whether two prize records offer the same prize (same key).
pub open spec fn same_prize_key(a: PrizeToWin, b: PrizeToWin) -> bool {
    a.ticker == b.ticker && a.nonce == b.nonce && a.amount == b.amount
}

impl StateModel {
    /// Well-formedness of the whole state: one live commitment per identity,
    /// one ledger line per identity, one record per prize key, each key
    /// collected at most once, and the session total equal to the ledger sum.
    pub open spec fn wf(self) -> bool {
        &&& forall|i: int, j: int|
            0 <= i < j < self.moves.len() ==> self.moves[i].address != self.moves[j].address
        &&& forall|i: int, j: int|
            0 <= i < j < self.player_payments.len()
                ==> self.player_payments[i].address != self.player_payments[j].address
        &&& forall|i: int, j: int|
            0 <= i < j < self.prizes.len() ==> !same_prize_key(self.prizes[i], self.prizes[j])
        &&& forall|i: int, j: int|
            0 <= i < j < self.collected_keys.len()
                ==> self.collected_keys[i] != self.collected_keys[j]
        &&& self.collected_tokens == ledger_total(self.player_payments)
    }
}

/// First index of the commitment registered by `a`, or `-1` when `a` has
/// none.
pub open spec fn index_of_move(moves: Seq<PlayerMove>, a: Address) -> int
    decreases moves.len(),
{
    if moves.len() == 0 {
        -1
    } else if moves[0].address == a {
        0
    } else {
        let r = index_of_move(moves.drop_first(), a);
        if r < 0 {
            -1
        } else {
            r + 1
        }
    }
}

/// First index of the ledger line of `a`, or `-1` when `a` has none.
pub open spec fn index_of_payment(ps: Seq<PlayerPayment>, a: Address) -> int
    decreases ps.len(),
{
    if ps.len() == 0 {
        -1
    } else if ps[0].address == a {
        0
    } else {
        let r = index_of_payment(ps.drop_first(), a);
        if r < 0 {
            -1
        } else {
            r + 1
        }
    }
}

/// The move pool after `m` is submitted: the submitter's previous
/// commitment, if any, is removed by swapping the pool's last entry into
/// its place, and the new commitment is appended.
pub open spec fn pool_after_submit(moves: Seq<PlayerMove>, m: PlayerMove) -> Seq<PlayerMove> {
    let i = index_of_move(moves, m.address);
    if i < 0 {
        moves.push(m)
    } else {
        moves.update(i, moves.last()).drop_last().push(m)
    }
}

/// First index of the prize record with key `(ticker, nonce, amount)`, or
/// `-1` when there is none.
pub open spec fn index_of_prize(
    ps: Seq<PrizeToWin>,
    ticker: TokenId,
    nonce: u64,
    amount: u128,
) -> int
    decreases ps.len(),
{
    if ps.len() == 0 {
        -1
    } else if ps[0].ticker == ticker && ps[0].nonce == nonce && ps[0].amount == amount {
        0
    } else {
        let r = index_of_prize(ps.drop_first(), ticker, nonce, amount);
        if r < 0 {
            -1
        } else {
            r + 1
        }
    }
}

/// `index_of_prize` finds exactly the first record with the key.
pub proof fn lemma_index_of_prize_found(
    ps: Seq<PrizeToWin>,
    ticker: TokenId,
    nonce: u64,
    amount: u128,
    i: int,
)
    requires
        0 <= i < ps.len(),
        ps[i].ticker == ticker && ps[i].nonce == nonce && ps[i].amount == amount,
        forall|j: int|
            0 <= j < i ==> !(ps[j].ticker == ticker && ps[j].nonce == nonce && ps[j].amount
                == amount),
    ensures
        index_of_prize(ps, ticker, nonce, amount) == i,
    decreases ps.len(),
{
    if i > 0 {
        lemma_index_of_prize_found(ps.drop_first(), ticker, nonce, amount, i - 1);
    }
}

/// Without a record with the key, `index_of_prize` reports `-1`.
pub proof fn lemma_index_of_prize_none(ps: Seq<PrizeToWin>, ticker: TokenId, nonce: u64, amount: u128)
    requires
        forall|j: int|
            0 <= j < ps.len() ==> !(ps[j].ticker == ticker && ps[j].nonce == nonce && ps[j].amount
                == amount),
    ensures
        index_of_prize(ps, ticker, nonce, amount) == -1,
    decreases ps.len(),
{
    if ps.len() > 0 {
        lemma_index_of_prize_none(ps.drop_first(), ticker, nonce, amount);
    }
}

/// The ledger after `a` pays `amount` more: `a`'s line grows by `amount`,
/// or a fresh line is appended for a first payment.
pub open spec fn ledger_after_payment(
    ps: Seq<PlayerPayment>,
    a: Address,
    amount: u128,
) -> Seq<PlayerPayment> {
    let i = index_of_payment(ps, a);
    if i < 0 {
        ps.push(PlayerPayment { address: a, amount })
    } else {
        ps.update(i, PlayerPayment { address: a, amount: (ps[i].amount + amount) as u128 })
    }
}

/// `index_of_move` finds exactly the first index whose commitment is `a`'s.
pub proof fn lemma_index_of_move_found(moves: Seq<PlayerMove>, a: Address, i: int)
    requires
        0 <= i < moves.len(),
        moves[i].address == a,
        forall|j: int| 0 <= j < i ==> moves[j].address != a,
    ensures
        index_of_move(moves, a) == i,
    decreases moves.len(),
{
    if i > 0 {
        lemma_index_of_move_found(moves.drop_first(), a, i - 1);
    }
}

/// Without a commitment by `a`, `index_of_move` reports `-1`.
pub proof fn lemma_index_of_move_none(moves: Seq<PlayerMove>, a: Address)
    requires
        forall|j: int| 0 <= j < moves.len() ==> moves[j].address != a,
    ensures
        index_of_move(moves, a) == -1,
    decreases moves.len(),
{
    if moves.len() > 0 {
        lemma_index_of_move_none(moves.drop_first(), a);
    }
}

/// `index_of_payment` finds exactly the first index whose line is `a`'s.
pub proof fn lemma_index_of_payment_found(ps: Seq<PlayerPayment>, a: Address, i: int)
    requires
        0 <= i < ps.len(),
        ps[i].address == a,
        forall|j: int| 0 <= j < i ==> ps[j].address != a,
    ensures
        index_of_payment(ps, a) == i,
    decreases ps.len(),
{
    if i > 0 {
        lemma_index_of_payment_found(ps.drop_first(), a, i - 1);
    }
}

/// Without a line of `a`, `index_of_payment` reports `-1`.
pub proof fn lemma_index_of_payment_none(ps: Seq<PlayerPayment>, a: Address)
    requires
        forall|j: int| 0 <= j < ps.len() ==> ps[j].address != a,
    ensures
        index_of_payment(ps, a) == -1,
    decreases ps.len(),
{
    if ps.len() > 0 {
        lemma_index_of_payment_none(ps.drop_first(), a);
    }
}

/// The matrix flattened row-major into one sequence of cells.
pub open spec fn flatten_matrix(m: Seq<Seq<Block>>) -> Seq<Block>
    decreases m.len(),
{
    if m.len() == 0 {
        Seq::empty()
    } else {
        m[0] + flatten_matrix(m.drop_first())
    }
}

/// Flattening one more row appends that row's cells.
pub proof fn lemma_flatten_matrix_push(m: Seq<Seq<Block>>, row: Seq<Block>)
    ensures
        flatten_matrix(m.push(row)) == flatten_matrix(m) + row,
    decreases m.len(),
{
    assert(m.push(row)[0] == if m.len() == 0 {
        row
    } else {
        m[0]
    });
    if m.len() == 0 {
        assert(m.push(row).drop_first() =~= Seq::<Seq<Block>>::empty());
        assert(flatten_matrix(m.push(row)) == row + flatten_matrix(Seq::<Seq<Block>>::empty()));
        assert(flatten_matrix(m.push(row)) =~= flatten_matrix(m) + row);
    } else {
        assert(m.push(row).drop_first() =~= m.drop_first().push(row));
        lemma_flatten_matrix_push(m.drop_first(), row);
        assert(flatten_matrix(m.push(row)) == m[0] + (flatten_matrix(m.drop_first()) + row));
        assert(flatten_matrix(m.push(row)) =~= flatten_matrix(m) + row);
    }
}

/// Mapping over one more element appends that element's image.
pub proof fn lemma_map_take_push<A, B>(s: Seq<A>, f: spec_fn(A) -> B, i: int)
    requires
        0 <= i < s.len(),
    ensures
        s.take(i + 1).map_values(f) =~= s.take(i).map_values(f).push(f(s[i])),
{
    let lhs = s.take(i + 1).map_values(f);
    let rhs = s.take(i).map_values(f).push(f(s[i]));
    assert(lhs.len() == rhs.len());
    assert forall|j: int| 0 <= j < i + 1 implies lhs[j] == rhs[j] by {
        if j < i {
            assert(s.take(i + 1)[j] == s[j]);
            assert(s.take(i)[j] == s[j]);
        } else {
            assert(s.take(i + 1)[j] == s[i]);
        }
    }
}

/// The general-data export: the position, lifecycle, cooldown, round
/// timestamp and collected total, then every collected key, every prize
/// record and every live commitment, and last the claimed flag.
pub open spec fn general_data_of(s: StateModel) -> Seq<ReturnTypes> {
    seq![
        ReturnTypes::TypePosition(s.player_position),
        ReturnTypes::TypeGameStatus(s.game_status),
        ReturnTypes::TypeCooldown(s.duration),
        ReturnTypes::TypeTimerStart(s.timer),
        ReturnTypes::TypeCollectedTokens(s.collected_tokens),
    ] + s.collected_keys.map_values(|k: u64| ReturnTypes::TypeKey(k))
        + s.prizes.map_values(|p: PrizeToWin| ReturnTypes::TypePrize(p))
        + s.moves.map_values(|m: PlayerMove| ReturnTypes::TypePlayerMove(m))
        + seq![ReturnTypes::TypeMvpClaimed(s.mvp_claimed)]
}

/// Left-to-right MVP scan over the ledger from index `i` with the best
/// line seen so far: a line supersedes the best only by paying strictly
/// more, so ties resolve to the earlier line.
pub open spec fn mvp_scan(ps: Seq<PlayerPayment>, best: PlayerPayment, i: int) -> PlayerPayment
    decreases ps.len() - i,
{
    if i < 0 || i >= ps.len() {
        best
    } else {
        mvp_scan(
            ps,
            if ps[i].amount > best.amount {
                ps[i]
            } else {
                best
            },
            i + 1,
        )
    }
}

/// The session's MVP: the first-encountered strictly-greatest cumulative
/// payer, or the `0` sentinel when nobody has paid anything.
pub open spec fn mvp_of(ps: Seq<PlayerPayment>) -> PlayerPayment {
    mvp_scan(ps, PlayerPayment { address: 0, amount: 0 }, 0)
}

/// Whether line `i` is the first line attaining the ledger's maximum, and
/// that maximum is positive.
pub open spec fn is_first_max(ps: Seq<PlayerPayment>, i: int) -> bool {
    &&& 0 <= i < ps.len()
    &&& ps[i].amount > 0
    &&& forall|j: int| 0 <= j < ps.len() ==> ps[j].amount <= ps[i].amount
    &&& forall|j: int| 0 <= j < i ==> ps[j].amount < ps[i].amount
}

/// Appending a ledger line adds its amount to the ledger sum.
pub proof fn lemma_ledger_total_push(ps: Seq<PlayerPayment>, p: PlayerPayment)
    ensures
        ledger_total(ps.push(p)) == ledger_total(ps) + p.amount,
    decreases ps.len(),
{
    if ps.len() == 0 {
        assert(ps.push(p).drop_first() =~= ps);
    } else {
        assert(ps.push(p).drop_first() =~= ps.drop_first().push(p));
        lemma_ledger_total_push(ps.drop_first(), p);
    }
}

/// Replacing one ledger line changes the ledger sum by the difference.
pub proof fn lemma_ledger_total_update(ps: Seq<PlayerPayment>, i: int, p: PlayerPayment)
    requires
        0 <= i < ps.len(),
    ensures
        ledger_total(ps.update(i, p)) == ledger_total(ps) - ps[i].amount + p.amount,
    decreases ps.len(),
{
    if i == 0 {
        assert(ps.update(i, p).drop_first() =~= ps.drop_first());
    } else {
        assert(ps.update(i, p).drop_first() =~= ps.drop_first().update(i - 1, p));
        lemma_ledger_total_update(ps.drop_first(), i - 1, p);
    }
}

/// Every single ledger line is at most the ledger sum.
pub proof fn lemma_ledger_entry_le_total(ps: Seq<PlayerPayment>, i: int)
    requires
        0 <= i < ps.len(),
    ensures
        ps[i].amount <= ledger_total(ps),
    decreases ps.len(),
{
    if i > 0 {
        lemma_ledger_entry_le_total(ps.drop_first(), i - 1);
    } else {
        lemma_ledger_total_nonneg(ps.drop_first());
    }
}

/// The ledger sum is never negative.
pub proof fn lemma_ledger_total_nonneg(ps: Seq<PlayerPayment>)
    ensures
        ledger_total(ps) >= 0,
    decreases ps.len(),
{
    if ps.len() > 0 {
        lemma_ledger_total_nonneg(ps.drop_first());
    }
}

/// Payment conservation: in every well-formed state, the sum of the
/// per-identity ledger entries equals the session total.
pub proof fn lemma_payment_conservation(s: StateModel)
    requires
        s.wf(),
    ensures
        s.collected_tokens == ledger_total(s.player_payments),
{
}

} // verus!
