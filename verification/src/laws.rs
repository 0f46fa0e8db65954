//! The game-wide laws of the engine, each stated over the model
//! [`GameView`] and proved once and for all: what legality refuses
//! regardless of the dice, and what every exit, House-of-Water and capture
//! move does to the board, the counts, the turn and the outcome.

use vstd::prelude::*;
use crate::GameView;
use crate::Player;
use crate::Square;
use crate::first_empty;
use crate::lemma_first_empty_props;
use crate::lemma_piece_count_positive;
use crate::lemma_piece_count_update;
use crate::lemma_returned_to_start_props;
use crate::opponent;
use crate::piece_count;
use crate::restart_hi;
use crate::restart_lo;
use crate::returned_to_start;

verus! {

/// A move is never legal from a square that does not hold a piece of the
/// side to move — whatever the pending dice value.
pub proof fn lemma_foreign_piece_cannot_move(v: GameView, from: int)
    requires
        0 <= from < 30,
        v.board[from].piece != Some(v.current_player),
    ensures
        !v.can_move(from),
{
}

/// A piece of the side to move whose destination lies past the end of the
/// track may always leave the board while the game runs: any overshoot
/// exits, no exact landing is demanded.
pub proof fn lemma_overshoot_always_exits(v: GameView, from: int)
    requires
        !v.game_over,
        0 <= from < 30,
        1 <= v.dice_value <= 4,
        v.board[from].piece == Some(v.current_player),
        from + v.dice_value >= 30,
    ensures
        v.can_move(from),
{
}

/// Entering the House of Water while it is occupied is illegal, whoever
/// the occupant is: an own piece blocks it as any own piece does, and an
/// opponent piece blocks it by the House-of-Water rule.
pub proof fn lemma_occupied_water_blocks(v: GameView, from: int)
    requires
        from + v.dice_value == 26,
        v.board[26].piece is Some,
    ensures
        !v.can_move(from),
{
}

/// An exiting move removes exactly one piece of the mover and none of the
/// opponent, consumes the dice value, and hands the turn over — unless the
/// piece was the mover's last, in which case the game ends at once with
/// the mover as winner. (Stated for opponents who still have a piece on
/// the board; a position without any can only arise through the restart
/// scan running dry, which the engine keeps as designed.)
pub proof fn lemma_exit_move(v: GameView, from: int)
    requires
        v.wf(),
        v.can_move(from),
        from + v.dice_value >= 30,
        piece_count(v.board, opponent(v.current_player)) > 0,
    ensures
        ({
            let r = v.move_result(from);
            let mover = v.current_player;
            &&& piece_count(r.board, mover) == piece_count(v.board, mover) - 1
            &&& piece_count(r.board, opponent(mover)) == piece_count(v.board, opponent(mover))
            &&& r.dice_value == 0
            &&& (piece_count(r.board, mover) > 0 ==> !r.game_over && r.current_player == opponent(
                mover,
            ))
            &&& (piece_count(r.board, mover) == 0 ==> r.game_over && r.winner == Some(mover))
        }),
{
    let mover = v.current_player;
    let gone = Square { piece: None, square_type: v.board[from].square_type };
    lemma_piece_count_update(v.board, from, gone, mover);
    lemma_piece_count_update(v.board, from, gone, opponent(mover));
}

/// A landing on the House of Water never leaves the piece there: the
/// square is empty afterwards, the dice value is consumed, the turn
/// switches unconditionally, and this path never ends the game. When the
/// mover's restart range has an empty square, the piece reappears on the
/// lowest one — lowest of the board as it stands after the piece left its
/// origin — and both sides' piece counts are unchanged.
pub proof fn lemma_house_of_water_move(v: GameView, from: int)
    requires
        v.wf(),
        v.can_move(from),
        from + v.dice_value == 26,
    ensures
        ({
            let r = v.move_result(from);
            let mover = v.current_player;
            let lifted = v.board.update(
                from,
                Square { piece: None, square_type: v.board[from].square_type },
            );
            let slot = first_empty(lifted, restart_lo(mover), restart_hi(mover));
            &&& r.board[26].piece is None
            &&& r.dice_value == 0
            &&& r.current_player == opponent(mover)
            &&& r.game_over == v.game_over
            &&& r.winner == v.winner
            &&& (slot < restart_hi(mover) ==> {
                &&& r.board[slot].piece == Some(mover)
                &&& lifted[slot].piece is None
                &&& (forall|j: int|
                    restart_lo(mover) <= j < slot ==> (#[trigger] lifted[j]).piece is Some)
                &&& piece_count(r.board, mover) == piece_count(v.board, mover)
                &&& piece_count(r.board, opponent(mover)) == piece_count(
                    v.board,
                    opponent(mover),
                )
            })
        }),
{
    let mover = v.current_player;
    let gone = Square { piece: None, square_type: v.board[from].square_type };
    let lifted = v.board.update(from, gone);
    lemma_piece_count_update(v.board, from, gone, mover);
    lemma_piece_count_update(v.board, from, gone, opponent(mover));
    lemma_first_empty_props(lifted, restart_lo(mover), restart_hi(mover));
    lemma_returned_to_start_props(lifted, mover);
    let slot = first_empty(lifted, restart_lo(mover), restart_hi(mover));
    if slot < restart_hi(mover) {
        lemma_piece_count_update(
            lifted,
            slot,
            Square { piece: Some(mover), square_type: lifted[slot].square_type },
            mover,
        );
        lemma_piece_count_update(
            lifted,
            slot,
            Square { piece: Some(mover), square_type: lifted[slot].square_type },
            opponent(mover),
        );
    }
}

/// A capture: landing on an ordinary occupied square sends the opponent
/// piece to the lowest empty square of its own restart range — lowest of
/// the board as it stands after the mover left its origin, the contested
/// square still occupied — and puts the mover on the destination. Neither
/// side's piece count changes, the dice value is consumed, the game does
/// not end, and the turn switches. (Stated for positions whose restart
/// range still has room; with the range full the captured piece is gone
/// from the board, which the engine keeps as designed.)
pub proof fn lemma_capture_move(v: GameView, from: int)
    requires
        v.wf(),
        v.can_move(from),
        from + v.dice_value < 30,
        from + v.dice_value != 26,
        v.board[from + v.dice_value].piece == Some(opponent(v.current_player)),
        ({
            let lifted = v.board.update(
                from,
                Square { piece: None, square_type: v.board[from].square_type },
            );
            let prey = opponent(v.current_player);
            first_empty(lifted, restart_lo(prey), restart_hi(prey)) < restart_hi(prey)
        }),
    ensures
        ({
            let r = v.move_result(from);
            let mover = v.current_player;
            let prey = opponent(mover);
            let to = from + v.dice_value;
            let lifted = v.board.update(
                from,
                Square { piece: None, square_type: v.board[from].square_type },
            );
            let slot = first_empty(lifted, restart_lo(prey), restart_hi(prey));
            &&& r.board[to].piece == Some(mover)
            &&& slot != to
            &&& r.board[slot].piece == Some(prey)
            &&& lifted[slot].piece is None
            &&& (forall|j: int|
                restart_lo(prey) <= j < slot ==> (#[trigger] lifted[j]).piece is Some)
            &&& piece_count(r.board, mover) == piece_count(v.board, mover)
            &&& piece_count(r.board, prey) == piece_count(v.board, prey)
            &&& r.dice_value == 0
            &&& !r.game_over
            &&& r.winner == v.winner
            &&& r.current_player == opponent(mover)
        }),
{
    let mover = v.current_player;
    let prey = opponent(mover);
    let to = from + v.dice_value;
    let gone = Square { piece: None, square_type: v.board[from].square_type };
    let lifted = v.board.update(from, gone);
    lemma_piece_count_update(v.board, from, gone, mover);
    lemma_piece_count_update(v.board, from, gone, prey);
    lemma_first_empty_props(lifted, restart_lo(prey), restart_hi(prey));
    lemma_returned_to_start_props(lifted, prey);
    let slot = first_empty(lifted, restart_lo(prey), restart_hi(prey));
    let rescued = returned_to_start(lifted, prey);
    lemma_piece_count_update(
        lifted,
        slot,
        Square { piece: Some(prey), square_type: lifted[slot].square_type },
        mover,
    );
    lemma_piece_count_update(
        lifted,
        slot,
        Square { piece: Some(prey), square_type: lifted[slot].square_type },
        prey,
    );
    let landed = Square { piece: Some(mover), square_type: rescued[to].square_type };
    lemma_piece_count_update(rescued, to, landed, mover);
    lemma_piece_count_update(rescued, to, landed, prey);
    lemma_piece_count_positive(v.board, from, mover);
    lemma_piece_count_positive(v.board, to, prey);
}

} // verus!
