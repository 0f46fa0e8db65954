//! A verified rules engine for Senet, the ancient Egyptian race game: two
//! players move five pieces each along a 30-square track, capturing one
//! another and falling into the House of Water, until one side has borne all
//! of its pieces off the board.
//!
//! The engine is a single state machine, [`GameState`], whose mathematical
//! model is [`GameView`]: a sequence of 30 squares together with the turn,
//! dice and outcome state. Every operation's contract pins the successor
//! state down exactly over that model.

use vstd::prelude::*;

pub mod laws;

verus! {

/// One of the two sides of a game.
#[derive(Clone, Copy, Debug, PartialEq, Eq, Structural)]
pub enum Player {
    Light,
    Dark,
}

/// The fixed tag of a board square, independent of occupancy. The tags are
/// set when the board is built and never change during play; only the
/// House of Water alters move legality.
#[derive(Clone, Copy, Debug, PartialEq, Eq, Structural)]
pub enum SquareType {
    Empty,
    LightPiece,
    DarkPiece,
    SafeHouse,
    HouseOfHappiness,
    HouseOfWater,
    HouseOfThreeTruths,
    HouseOfReAtum,
}

/// One square of the track: an optional occupant and the square's fixed tag.
#[derive(Clone, Copy, Debug)]
pub struct Square {
    pub piece: Option<Player>,
    pub square_type: SquareType,
}

impl Default for Square {
    fn default() -> (s: Square)
        ensures
            s.piece is None,
            s.square_type == SquareType::Empty,
    {
        Square { piece: None, square_type: SquareType::Empty }
    }
}

/// The mathematical model of an engine state: the board as a sequence of 30
/// squares, whose turn it is, the pending dice value (0 when no roll is
/// pending), and the outcome state.
#[verifier::ext_equal]
pub ghost struct GameView {
    pub board: Seq<Square>,
    pub current_player: Player,
    pub dice_value: int,
    pub game_over: bool,
    pub winner: Option<Player>,
}

/// The square tag fixed at position `i` of every board.
pub open spec fn square_type_at(i: int) -> SquareType {
    if i == 14 {
        SquareType::SafeHouse
    } else if i == 25 {
        SquareType::HouseOfHappiness
    } else if i == 26 {
        SquareType::HouseOfWater
    } else if i == 27 {
        SquareType::HouseOfThreeTruths
    } else if i == 28 {
        SquareType::HouseOfReAtum
    } else {
        SquareType::Empty
    }
}

/// The occupant of position `i` at the start of a game: Light on 0..=4,
/// Dark on 5..=9, nothing elsewhere.
pub open spec fn starting_piece(i: int) -> Option<Player> {
    if 0 <= i < 5 {
        Some(Player::Light)
    } else if 5 <= i < 10 {
        Some(Player::Dark)
    } else {
        None
    }
}

/// The board of a freshly constructed game.
pub open spec fn initial_board() -> Seq<Square> {
    Seq::new(30, |i: int| Square { piece: starting_piece(i), square_type: square_type_at(i) })
}

/// The model of a freshly constructed game: initial board, Light to move,
/// no roll pending, game running.
pub open spec fn initial_view() -> GameView {
    GameView {
        board: initial_board(),
        current_player: Player::Light,
        dice_value: 0,
        game_over: false,
        winner: None,
    }
}

/// The other side.
pub open spec fn opponent(p: Player) -> Player {
    match p {
        Player::Light => Player::Dark,
        Player::Dark => Player::Light,
    }
}

/// Lower bound (inclusive) of the restart range a relocated piece of `p` is
/// scanned into: Light restarts in 0..10, Dark in 5..15.
pub open spec fn restart_lo(p: Player) -> int {
    match p {
        Player::Light => 0,
        Player::Dark => 5,
    }
}

/// Upper bound (exclusive) of the restart range of `p`.
pub open spec fn restart_hi(p: Player) -> int {
    match p {
        Player::Light => 10,
        Player::Dark => 15,
    }
}

/// How many squares of `b` are occupied by a piece of `p`.
pub open spec fn piece_count(b: Seq<Square>, p: Player) -> int
    decreases b.len(),
{
    if b.len() == 0 {
        0
    } else {
        piece_count(b.drop_last(), p) + if b.last().piece == Some(p) {
            1int
        } else {
            0int
        }
    }
}

/// The lowest index in `lo..hi` whose square is empty, or `hi` if every
/// square in the range is occupied.
pub open spec fn first_empty(b: Seq<Square>, lo: int, hi: int) -> int
    decreases hi - lo,
{
    if lo >= hi {
        hi
    } else if b[lo].piece is None {
        lo
    } else {
        first_empty(b, lo + 1, hi)
    }
}

/// The board after a piece of `owner` is sent back to the start: it lands on
/// the first empty square of its owner's restart range, keeping that
/// square's tag. If the whole range is occupied the board is unchanged and
/// the piece is gone — a quirk of the rules as designed, kept deliberately.
pub open spec fn returned_to_start(b: Seq<Square>, owner: Player) -> Seq<Square> {
    let slot = first_empty(b, restart_lo(owner), restart_hi(owner));
    if slot < restart_hi(owner) {
        b.update(slot, Square { piece: Some(owner), square_type: b[slot].square_type })
    } else {
        b
    }
}

/// The host encoding of one square: occupied squares report only their
/// occupant (1 for Light, 2 for Dark); empty squares report their tag.
pub open spec fn encode_square(sq: Square) -> u8 {
    match sq.piece {
        Some(Player::Light) => 1,
        Some(Player::Dark) => 2,
        None => match sq.square_type {
            SquareType::SafeHouse => 3,
            SquareType::HouseOfHappiness => 4,
            SquareType::HouseOfWater => 5,
            SquareType::HouseOfThreeTruths => 6,
            SquareType::HouseOfReAtum => 7,
            _ => 0,
        },
    }
}

impl GameView {
    /// Well-formedness: 30 squares, the fixed tags in place, a dice value in
    /// 0..=4, and a winner recorded exactly when the game is over.
    pub open spec fn wf(self) -> bool {
        &&& self.board.len() == 30
        &&& 0 <= self.dice_value <= 4
        &&& forall|i: int|
            0 <= i < 30 ==> (#[trigger] self.board[i]).square_type == square_type_at(i)
        &&& self.game_over == (self.winner is Some)
    }

    /// How many pieces of `p` stand on the board.
    pub open spec fn count(self, p: Player) -> int {
        piece_count(self.board, p)
    }

    /// Whether a landing on `to` (an on-board destination) is open to the
    /// current player: not blocked by an own piece, and not the House of
    /// Water while occupied.
    pub open spec fn target_open(self, to: int) -> bool {
        &&& self.board[to].piece != Some(self.current_player)
        &&& !(to == 26 && self.board[to].piece is Some)
    }

    /// Move legality. A move from `from` is legal when the game is running,
    /// a roll is pending, `from` is on the board and holds a piece of the
    /// current player, and the destination either leaves the board (any
    /// overshoot exits) or is open.
    pub open spec fn can_move(self, from: int) -> bool {
        &&& 0 <= from < 30
        &&& !self.game_over
        &&& self.board[from].piece == Some(self.current_player)
        &&& self.dice_value != 0
        &&& (from + self.dice_value >= 30 || self.target_open(from + self.dice_value))
    }

    /// The state after the win check: if either side has no piece left on
    /// the board, the game is over and that side — the one that bore all of
    /// its pieces off — is the winner. Light is checked first.
    pub open spec fn with_win_checked(self) -> GameView {
        if piece_count(self.board, Player::Light) == 0 {
            GameView { game_over: true, winner: Some(Player::Light), ..self }
        } else if piece_count(self.board, Player::Dark) == 0 {
            GameView { game_over: true, winner: Some(Player::Dark), ..self }
        } else {
            self
        }
    }

    /// The state with the turn handed to the other side, unless the game
    /// has ended.
    pub open spec fn with_turn_switched_unless_over(self) -> GameView {
        if self.game_over {
            self
        } else {
            GameView { current_player: opponent(self.current_player), ..self }
        }
    }

    /// The successor state of a legal move from `from`: the piece leaves
    /// `from`; then it either exits the board (destination past the track),
    /// is sent back to the start (destination is the House of Water), or
    /// lands on the destination, first displacing a captured opponent piece
    /// into its own restart range. The dice value is consumed; the win check
    /// runs on every path except the House-of-Water restart; the turn
    /// switches unless the game ended.
    pub open spec fn move_result(self, from: int) -> GameView {
        let mover = self.current_player;
        let to = from + self.dice_value;
        let lifted = self.board.update(
            from,
            Square { piece: None, square_type: self.board[from].square_type },
        );
        if to >= 30 {
            GameView { board: lifted, dice_value: 0, ..self }
                .with_win_checked()
                .with_turn_switched_unless_over()
        } else if to == 26 {
            GameView {
                board: returned_to_start(lifted, mover),
                dice_value: 0,
                current_player: opponent(mover),
                ..self
            }
        } else {
            let rescued = match lifted[to].piece {
                Some(q) => if q == mover {
                    lifted
                } else {
                    returned_to_start(lifted, q)
                },
                None => lifted,
            };
            let placed = rescued.update(
                to,
                Square { piece: Some(mover), square_type: rescued[to].square_type },
            );
            GameView { board: placed, dice_value: 0, ..self }
                .with_win_checked()
                .with_turn_switched_unless_over()
        }
    }
}

/// Counting is compatible with a single-square update: the count changes
/// exactly by the contributions the old and new squares make.
pub proof fn lemma_piece_count_update(b: Seq<Square>, i: int, sq: Square, p: Player)
    requires
        0 <= i < b.len(),
    ensures
        piece_count(b.update(i, sq), p) == piece_count(b, p) - (if b[i].piece == Some(p) {
            1int
        } else {
            0int
        }) + (if sq.piece == Some(p) {
            1int
        } else {
            0int
        }),
    decreases b.len(),
{
    let bu = b.update(i, sq);
    if i == b.len() - 1 {
        assert(bu.drop_last() =~= b.drop_last());
    } else {
        assert(bu.drop_last() =~= b.drop_last().update(i, sq));
        lemma_piece_count_update(b.drop_last(), i, sq, p);
    }
}

/// A piece count is never negative and never exceeds the board length.
pub proof fn lemma_piece_count_bounds(b: Seq<Square>, p: Player)
    ensures
        0 <= piece_count(b, p) <= b.len(),
    decreases b.len(),
{
    if b.len() > 0 {
        lemma_piece_count_bounds(b.drop_last(), p);
    }
}

/// A square that holds a piece of `p` witnesses a positive count.
pub proof fn lemma_piece_count_positive(b: Seq<Square>, i: int, p: Player)
    requires
        0 <= i < b.len(),
        b[i].piece == Some(p),
    ensures
        piece_count(b, p) >= 1,
    decreases b.len(),
{
    if i == b.len() - 1 {
        lemma_piece_count_bounds(b.drop_last(), p);
    } else {
        lemma_piece_count_positive(b.drop_last(), i, p);
    }
}

/// Counting one more square of a prefix adds that square's contribution.
proof fn lemma_piece_count_take_step(b: Seq<Square>, i: int, p: Player)
    requires
        0 <= i < b.len(),
    ensures
        piece_count(b.take(i + 1), p) == piece_count(b.take(i), p) + (if b[i].piece == Some(p) {
            1int
        } else {
            0int
        }),
{
    assert(b.take(i + 1).drop_last() =~= b.take(i));
    assert(b.take(i + 1).last() == b[i]);
}

/// What `first_empty` returns: an index within the range bounds; if it is
/// below the upper bound it names an empty square, and every square of the
/// range below it is occupied.
pub proof fn lemma_first_empty_props(b: Seq<Square>, lo: int, hi: int)
    requires
        0 <= lo <= hi <= b.len(),
    ensures
        lo <= first_empty(b, lo, hi) <= hi,
        first_empty(b, lo, hi) < hi ==> b[first_empty(b, lo, hi)].piece is None,
        forall|j: int| lo <= j < first_empty(b, lo, hi) ==> (#[trigger] b[j]).piece is Some,
    decreases hi - lo,
{
    if lo < hi && b[lo].piece is Some {
        lemma_first_empty_props(b, lo + 1, hi);
    }
}

/// `first_empty` is pinned by its characterization: if everything below `i`
/// in the range is occupied, and `i` (when in range) is empty, the scan
/// yields `i`.
proof fn lemma_first_empty_is(b: Seq<Square>, lo: int, hi: int, i: int)
    requires
        0 <= lo <= i <= hi <= b.len(),
        forall|j: int| lo <= j < i ==> (#[trigger] b[j]).piece is Some,
        i < hi ==> b[i].piece is None,
    ensures
        first_empty(b, lo, hi) == i,
    decreases i - lo,
{
    if lo < i {
        lemma_first_empty_is(b, lo + 1, hi, i);
    }
}

/// Sending a piece back to the start keeps the board length and every
/// square tag, adds one piece of the owner when the scan found a slot, and
/// never touches another side's pieces.
pub proof fn lemma_returned_to_start_props(b: Seq<Square>, owner: Player)
    requires
        b.len() == 30,
    ensures
        returned_to_start(b, owner).len() == 30,
        forall|i: int|
            0 <= i < 30 ==> (#[trigger] returned_to_start(b, owner)[i]).square_type
                == b[i].square_type,
        first_empty(b, restart_lo(owner), restart_hi(owner)) < restart_hi(owner)
            ==> piece_count(returned_to_start(b, owner), owner) == piece_count(b, owner) + 1,
        first_empty(b, restart_lo(owner), restart_hi(owner)) >= restart_hi(owner)
            ==> returned_to_start(b, owner) == b,
        piece_count(returned_to_start(b, owner), opponent(owner)) == piece_count(
            b,
            opponent(owner),
        ),
{
    let lo = restart_lo(owner);
    let hi = restart_hi(owner);
    lemma_first_empty_props(b, lo, hi);
    let slot = first_empty(b, lo, hi);
    if slot < hi {
        lemma_piece_count_update(
            b,
            slot,
            Square { piece: Some(owner), square_type: b[slot].square_type },
            owner,
        );
        lemma_piece_count_update(
            b,
            slot,
            Square { piece: Some(owner), square_type: b[slot].square_type },
            opponent(owner),
        );
    }
}

/// A legal move leads from a well-formed state to a well-formed state.
pub proof fn lemma_move_result_wf(v: GameView, from: int)
    requires
        v.wf(),
        v.can_move(from),
    ensures
        v.move_result(from).wf(),
{
    let mover = v.current_player;
    let to = from + v.dice_value;
    let lifted = v.board.update(
        from,
        Square { piece: None, square_type: v.board[from].square_type },
    );
    assert(forall|i: int|
        0 <= i < 30 ==> (#[trigger] lifted[i]).square_type == v.board[i].square_type);
    if to >= 30 {
    } else if to == 26 {
        lemma_returned_to_start_props(lifted, mover);
    } else {
        match lifted[to].piece {
            Some(q) => if q != mover {
                lemma_returned_to_start_props(lifted, q);
            },
            None => {},
        }
    }
}

/// Counts the on-board pieces of `p`.
fn count_pieces(board: &Vec<Square>, p: Player) -> (n: usize)
    ensures
        n as int == piece_count(board@, p),
{
    let mut n: usize = 0;
    let mut i: usize = 0;
    while i < board.len()
        invariant
            i <= board@.len(),
            n <= i,
            n as int == piece_count(board@.take(i as int), p),
        decreases board@.len() - i,
    {
        proof {
            lemma_piece_count_take_step(board@, i as int, p);
        }
        match board[i].piece {
            Some(q) => if q == p {
                n += 1;
            },
            None => {},
        }
        i += 1;
    }
    proof {
        assert(board@.take(board@.len() as int) =~= board@);
    }
    n
}

/// Finds the lowest empty square in `lo..hi`, or `hi` if the whole range is
/// occupied.
fn find_restart_slot(board: &Vec<Square>, lo: usize, hi: usize) -> (slot: usize)
    requires
        lo <= hi <= board@.len(),
    ensures
        slot as int == first_empty(board@, lo as int, hi as int),
{
    let mut i: usize = lo;
    while i < hi
        invariant
            lo <= i <= hi <= board@.len(),
            forall|j: int| lo <= j < i ==> (#[trigger] board@[j]).piece is Some,
        decreases hi - i,
    {
        match board[i].piece {
            None => {
                proof {
                    lemma_first_empty_is(board@, lo as int, hi as int, i as int);
                }
                return i;
            },
            Some(_) => {},
        }
        i += 1;
    }
    proof {
        lemma_first_empty_is(board@, lo as int, hi as int, hi as int);
    }
    i
}

/// Sends a piece of `owner` back to the first empty square of its restart
/// range, keeping that square's tag; if the range is fully occupied the
/// board is left unchanged and the piece is gone.
fn return_piece(board: &mut Vec<Square>, owner: Player)
    requires
        old(board)@.len() == 30,
    ensures
        final(board)@ == returned_to_start(old(board)@, owner),
        final(board)@.len() == 30,
{
    let lo: usize = match owner {
        Player::Light => 0,
        Player::Dark => 5,
    };
    let hi: usize = match owner {
        Player::Light => 10,
        Player::Dark => 15,
    };
    let slot = find_restart_slot(board, lo, hi);
    proof {
        lemma_first_empty_props(board@, lo as int, hi as int);
        lemma_returned_to_start_props(board@, owner);
    }
    if slot < hi {
        let square_type = board[slot].square_type;
        board.set(slot, Square { piece: Some(owner), square_type });
    }
}

/// The Senet engine: the board, whose turn it is, the pending dice value,
/// and the outcome state. Its model is a [`GameView`], reached with `@`.
pub struct GameState {
    pub board: Vec<Square>,
    pub current_player: Player,
    pub dice_value: u8,
    pub game_over: bool,
    pub winner: Option<Player>,
}

impl View for GameState {
    type V = GameView;

    open spec fn view(&self) -> GameView {
        GameView {
            board: self.board@,
            current_player: self.current_player,
            dice_value: self.dice_value as int,
            game_over: self.game_over,
            winner: self.winner,
        }
    }
}

impl GameState {
    /// A fresh game: Light on squares 0..=4, Dark on 5..=9, the five special
    /// tags in place, Light to move, no roll pending.
    pub fn new() -> (g: GameState)
        ensures
            g@ == initial_view(),
            g@.wf(),
    {
        let mut board: Vec<Square> = Vec::new();
        let mut i: usize = 0;
        while i < 30
            invariant
                i <= 30,
                board@.len() == i as int,
                forall|j: int| 0 <= j < i ==> board@[j] == initial_board()[j],
            decreases 30 - i,
        {
            let piece: Option<Player> = if i < 5 {
                Some(Player::Light)
            } else if i < 10 {
                Some(Player::Dark)
            } else {
                None
            };
            let square_type: SquareType = if i == 14 {
                SquareType::SafeHouse
            } else if i == 25 {
                SquareType::HouseOfHappiness
            } else if i == 26 {
                SquareType::HouseOfWater
            } else if i == 27 {
                SquareType::HouseOfThreeTruths
            } else if i == 28 {
                SquareType::HouseOfReAtum
            } else {
                SquareType::Empty
            };
            board.push(Square { piece, square_type });
            i += 1;
        }
        let g = GameState {
            board,
            current_player: Player::Light,
            dice_value: 0,
            game_over: false,
            winner: None,
        };
        proof {
            assert(g@.board =~= initial_board());
            assert(g@ =~= initial_view());
        }
        g
    }

    /// Whose turn it is.
    pub fn current_player(&self) -> (p: Player)
        ensures
            p == self@.current_player,
    {
        self.current_player
    }

    /// The pending dice value: 0 when no roll is pending, 1..=4 between a
    /// roll and the move or pass that consumes it.
    pub fn dice_value(&self) -> (d: u8)
        ensures
            d as int == self@.dice_value,
    {
        self.dice_value
    }

    /// Whether the game has ended.
    pub fn game_over(&self) -> (o: bool)
        ensures
            o == self@.game_over,
    {
        self.game_over
    }

    /// The winner, if the game has ended.
    pub fn winner(&self) -> (w: Option<Player>)
        ensures
            w == self@.winner,
    {
        self.winner
    }

    /// Stores a dice throw and returns it. The throw itself — four casting
    /// sticks modelled as a uniform draw from 1..=4 — is supplied by the
    /// caller, so that the randomness source stays injectable. A pending,
    /// unconsumed value is overwritten; guarding against that is the
    /// caller's obligation.
    pub fn roll_dice(&mut self, roll: u8) -> (d: u8)
        requires
            old(self)@.wf(),
            1 <= roll <= 4,
        ensures
            final(self)@.wf(),
            d == roll,
            final(self)@ == (GameView { dice_value: roll as int, ..old(self)@ }),
    {
        self.dice_value = roll;
        self.dice_value
    }

    /// Gives the turn up: if a roll is pending it is cleared and the turn
    /// switches, otherwise nothing changes. Whether no legal move existed is
    /// not verified here — calling this only then is the caller's
    /// obligation.
    pub fn pass_turn(&mut self)
        requires
            old(self)@.wf(),
        ensures
            final(self)@.wf(),
            old(self)@.dice_value != 0 ==> final(self)@ == (GameView {
                dice_value: 0,
                current_player: opponent(old(self)@.current_player),
                ..old(self)@
            }),
            old(self)@.dice_value == 0 ==> final(self)@ == old(self)@,
    {
        if self.dice_value != 0 {
            self.dice_value = 0;
            self.switch_player();
        }
    }

    /// Discards the whole state and starts a fresh game.
    pub fn reset(&mut self)
        ensures
            final(self)@ == initial_view(),
            final(self)@.wf(),
    {
        *self = GameState::new();
    }

    /// Pure legality query: whether moving the piece on `from` by the
    /// pending dice value is legal right now. Out-of-range indices, a
    /// finished game, a foreign or missing piece, and a consumed dice value
    /// all answer `false`; otherwise the destination must leave the board
    /// or be open.
    pub fn can_move(&self, from: usize) -> (legal: bool)
        requires
            self@.wf(),
        ensures
            legal == self@.can_move(from as int),
    {
        if from >= 30 || self.game_over {
            return false;
        }
        let is_own_piece = match self.board[from].piece {
            Some(p) => p == self.current_player,
            None => false,
        };
        if !is_own_piece {
            return false;
        }
        if self.dice_value == 0 {
            return false;
        }
        let to = from + self.dice_value as usize;
        if to >= 30 {
            return true;
        }
        match self.board[to].piece {
            Some(q) => q != self.current_player && to != 26,
            None => true,
        }
    }

    /// A snapshot of all legal move origins, in ascending order: exactly
    /// the indices `from` in 0..30 for which [`Self::can_move`] holds now.
    pub fn get_valid_moves(&self) -> (moves: Vec<usize>)
        requires
            self@.wf(),
        ensures
            forall|a: int, b: int| 0 <= a < b < moves@.len() ==> moves@[a] < moves@[b],
            forall|k: int| 0 <= k < moves@.len() ==> self@.can_move(#[trigger] moves@[k] as int),
            forall|f: int| 0 <= f < 30 && self@.can_move(f) ==> moves@.contains(f as usize),
    {
        let mut moves: Vec<usize> = Vec::new();
        let mut i: usize = 0;
        while i < 30
            invariant
                i <= 30,
                self@.wf(),
                forall|a: int, b: int| 0 <= a < b < moves@.len() ==> moves@[a] < moves@[b],
                forall|k: int|
                    0 <= k < moves@.len() ==> (#[trigger] moves@[k]) < i && self@.can_move(
                        moves@[k] as int,
                    ),
                forall|f: int| 0 <= f < i && self@.can_move(f) ==> moves@.contains(f as usize),
            decreases 30 - i,
        {
            if self.can_move(i) {
                let ghost pre = moves@;
                moves.push(i);
                proof {
                    assert forall|f: int|
                        0 <= f < i + 1 && self@.can_move(f) implies moves@.contains(
                        f as usize,
                    ) by {
                        if f < i {
                            let k = choose|k: int| 0 <= k < pre.len() && pre[k] == f as usize;
                            assert(moves@[k] == f as usize);
                        } else {
                            assert(moves@[moves@.len() - 1] == i);
                        }
                    }
                }
            }
            i += 1;
        }
        moves
    }

    /// The board in its host encoding: one small integer per square, an
    /// occupant reported as 1 (Light) or 2 (Dark), an empty square as its
    /// tag's code, 0 for a plain empty square.
    pub fn get_board(&self) -> (codes: Vec<u8>)
        requires
            self@.wf(),
        ensures
            codes@.len() == 30,
            forall|i: int| 0 <= i < 30 ==> codes@[i] == encode_square(self@.board[i]),
    {
        let mut codes: Vec<u8> = Vec::new();
        let mut i: usize = 0;
        while i < 30
            invariant
                i <= 30,
                self@.wf(),
                codes@.len() == i as int,
                forall|j: int| 0 <= j < i ==> codes@[j] == encode_square(self@.board[j]),
            decreases 30 - i,
        {
            let code: u8 = match self.board[i].piece {
                Some(Player::Light) => 1,
                Some(Player::Dark) => 2,
                None => match self.board[i].square_type {
                    SquareType::SafeHouse => 3,
                    SquareType::HouseOfHappiness => 4,
                    SquareType::HouseOfWater => 5,
                    SquareType::HouseOfThreeTruths => 6,
                    SquareType::HouseOfReAtum => 7,
                    _ => 0,
                },
            };
            codes.push(code);
            i += 1;
        }
        codes
    }

    /// Applies the move from `from` if it is legal, and reports whether it
    /// was. An illegal move changes nothing. A legal one runs transactionally:
    /// the piece leaves `from`; it exits the board, restarts out of the House
    /// of Water, or lands — capturing an opponent piece into its restart
    /// range; the dice value is consumed; the win check runs on every path
    /// but the restart; the turn switches unless the game ended. The
    /// successor state is exactly [`GameView::move_result`].
    pub fn make_move(&mut self, from: usize) -> (moved: bool)
        requires
            old(self)@.wf(),
        ensures
            final(self)@.wf(),
            moved == old(self)@.can_move(from as int),
            moved ==> final(self)@ == old(self)@.move_result(from as int),
            !moved ==> final(self)@ == old(self)@,
    {
        if !self.can_move(from) {
            return false;
        }
        proof {
            lemma_move_result_wf(old(self)@, from as int);
        }
        let to = from + self.dice_value as usize;
        let piece = self.current_player;
        let from_type = self.board[from].square_type;
        self.board.set(from, Square { piece: None, square_type: from_type });

        if to >= 30 {
            // The piece exits the board for good.
            self.dice_value = 0;
            self.check_win_condition();
            if !self.game_over {
                self.switch_player();
            }
            proof {
                assert(self@ =~= old(self)@.move_result(from as int));
            }
            return true;
        }

        if to == 26 {
            // House of Water: the piece is not placed there but sent back
            // to the start. No win check on this path — it never removes a
            // piece that the scan can place, and the original ordering is
            // kept deliberately.
            return_piece(&mut self.board, piece);
            self.dice_value = 0;
            self.switch_player();
            proof {
                assert(self@ =~= old(self)@.move_result(from as int));
            }
            return true;
        }

        // A normal landing: a captured opponent piece is displaced into its
        // own restart range before the mover takes the square.
        let captured = match self.board[to].piece {
            Some(q) => if q != self.current_player {
                Some(q)
            } else {
                None
            },
            None => None,
        };
        match captured {
            Some(q) => return_piece(&mut self.board, q),
            None => {},
        }
        let to_type = self.board[to].square_type;
        self.board.set(to, Square { piece: Some(piece), square_type: to_type });
        self.dice_value = 0;
        self.check_win_condition();
        if !self.game_over {
            self.switch_player();
        }
        proof {
            assert(self@ =~= old(self)@.move_result(from as int));
        }
        true
    }

    fn check_win_condition(&mut self)
        requires
            old(self)@.board.len() == 30,
        ensures
            final(self)@ == old(self)@.with_win_checked(),
    {
        let light_count = count_pieces(&self.board, Player::Light);
        let dark_count = count_pieces(&self.board, Player::Dark);
        if light_count == 0 {
            self.game_over = true;
            self.winner = Some(Player::Light);
        } else if dark_count == 0 {
            self.game_over = true;
            self.winner = Some(Player::Dark);
        }
        proof {
            assert(self@ =~= old(self)@.with_win_checked());
        }
    }

    fn switch_player(&mut self)
        ensures
            final(self)@ == (GameView {
                current_player: opponent(old(self)@.current_player),
                ..old(self)@
            }),
    {
        self.current_player = match self.current_player {
            Player::Light => Player::Dark,
            Player::Dark => Player::Light,
        };
    }
}

} // verus!
