use senet::GameState;
use senet::Player;

/// The host encoding of the starting board.
fn initial_codes() -> Vec<u8> {
    let mut codes = vec![0u8; 30];
    for i in 0..5 {
        codes[i] = 1;
    }
    for i in 5..10 {
        codes[i] = 2;
    }
    codes[14] = 3;
    codes[25] = 4;
    codes[26] = 5;
    codes[27] = 6;
    codes[28] = 7;
    codes
}

fn count_code(codes: &[u8], code: u8) -> usize {
    codes.iter().filter(|&&c| c == code).count()
}

/// Lets the side to move roll and immediately give the turn back.
fn pass_through(g: &mut GameState) {
    g.roll_dice(1);
    g.pass_turn();
}

#[test]
fn initial_state() {
    let g = GameState::new();
    assert_eq!(g.get_board(), initial_codes());
    assert_eq!(g.current_player(), Player::Light);
    assert_eq!(g.dice_value(), 0);
    assert!(!g.game_over());
    assert_eq!(g.winner(), None);
}

#[test]
fn roll_dice_stores_and_returns() {
    let mut g = GameState::new();
    assert_eq!(g.roll_dice(3), 3);
    assert_eq!(g.dice_value(), 3);
    // An unconsumed value is overwritten, as designed.
    assert_eq!(g.roll_dice(1), 1);
    assert_eq!(g.dice_value(), 1);
}

#[test]
fn can_move_rejects_foreign_empty_and_out_of_range() {
    let mut g = GameState::new();
    g.roll_dice(1);
    assert!(!g.can_move(5)); // Dark piece, Light to move
    assert!(!g.can_move(9)); // Dark piece
    assert!(!g.can_move(10)); // empty square
    assert!(!g.can_move(29)); // empty square
    assert!(!g.can_move(30)); // off the board
    assert!(!g.can_move(usize::MAX));
}

#[test]
fn can_move_rejects_without_pending_roll() {
    let g = GameState::new();
    assert!(!g.can_move(4));
    assert_eq!(g.get_valid_moves(), Vec::<usize>::new());
}

#[test]
fn can_move_rejects_own_piece_on_destination() {
    let mut g = GameState::new();
    g.roll_dice(1);
    // 0..=3 would land on Light's own pieces; only 4 lands on Dark.
    assert!(!g.can_move(0));
    assert!(!g.can_move(3));
    assert!(g.can_move(4));
}

#[test]
fn valid_moves_are_ascending_snapshots() {
    let mut g = GameState::new();
    g.roll_dice(1);
    assert_eq!(g.get_valid_moves(), vec![4]);
    g.roll_dice(4);
    assert_eq!(g.get_valid_moves(), vec![1, 2, 3, 4]);
}

#[test]
fn rejected_move_changes_nothing() {
    let mut g = GameState::new();
    g.roll_dice(4);
    // From 0 the destination 4 holds Light's own piece: refused whole.
    assert!(!g.make_move(0));
    assert_eq!(g.get_board(), initial_codes());
    assert_eq!(g.current_player(), Player::Light);
    assert_eq!(g.dice_value(), 4);
    assert!(!g.game_over());
    // The still-pending roll can be consumed by a legal move.
    assert!(g.make_move(1));
    assert_eq!(g.dice_value(), 0);
}

#[test]
fn capture_relocates_to_first_empty_of_restart_range() {
    let mut g = GameState::new();
    g.roll_dice(1);
    // Light 4 -> 5 captures the Dark piece there; the scan of 5..15 runs
    // over the board with square 5 still occupied, so the first empty
    // square is 10.
    assert!(g.make_move(4));
    let codes = g.get_board();
    assert_eq!(codes[4], 0);
    assert_eq!(codes[5], 1);
    assert_eq!(codes[10], 2);
    assert_eq!(count_code(&codes, 1), 5);
    assert_eq!(count_code(&codes, 2), 5);
    assert_eq!(g.dice_value(), 0);
    assert_eq!(g.current_player(), Player::Dark);
    assert!(!g.game_over());
}

#[test]
fn house_of_water_restarts_the_piece() {
    let mut g = GameState::new();
    // Light marches one piece towards the House of Water while Dark
    // passes every turn.
    g.roll_dice(4);
    assert!(g.make_move(2)); // 2 -> 6 captures; Dark relocates to 10
    pass_through(&mut g);
    g.roll_dice(4);
    assert!(g.make_move(6)); // 6 -> 10 captures; Dark relocates to 6
    pass_through(&mut g);
    g.roll_dice(4);
    assert!(g.make_move(10)); // 10 -> 14, the Safe House
    // An occupied special square reports only its occupant.
    assert_eq!(g.get_board()[14], 1);
    pass_through(&mut g);
    g.roll_dice(4);
    assert!(g.make_move(14)); // 14 -> 18
    pass_through(&mut g);
    g.roll_dice(4);
    assert!(g.make_move(18)); // 18 -> 22
    pass_through(&mut g);
    g.roll_dice(4);
    assert!(g.make_move(22)); // 22 -> 26: into the House of Water
    let codes = g.get_board();
    // The piece never stands on square 26; it restarted on the lowest
    // empty square of 0..10, which is 2.
    assert_eq!(codes[26], 5);
    assert_eq!(codes[2], 1);
    assert_eq!(count_code(&codes, 1), 5);
    assert_eq!(count_code(&codes, 2), 5);
    assert_eq!(g.dice_value(), 0);
    assert_eq!(g.current_player(), Player::Dark);
    assert!(!g.game_over());
    // The march sent every piece back where it started.
    assert_eq!(codes, initial_codes());
}

#[test]
fn exit_move_scores_the_piece() {
    let mut g = GameState::new();
    g.roll_dice(4);
    assert!(g.make_move(4)); // 4 -> 8 captures; Dark relocates to 10
    pass_through(&mut g);
    for from in [8, 12, 16, 20, 24] {
        g.roll_dice(4);
        assert!(g.make_move(from));
        pass_through(&mut g);
    }
    // The piece stands on 28; 28 + 4 overshoots the track, which exits.
    g.roll_dice(4);
    assert!(g.can_move(28));
    let before = count_code(&g.get_board(), 1);
    assert_eq!(before, 5);
    assert!(g.make_move(28));
    let codes = g.get_board();
    assert_eq!(count_code(&codes, 1), 4);
    assert_eq!(count_code(&codes, 2), 5);
    assert_eq!(g.dice_value(), 0);
    assert_eq!(g.current_player(), Player::Dark);
    assert!(!g.game_over());
    assert_eq!(g.winner(), None);
}

#[test]
fn pass_turn_only_with_pending_roll() {
    let mut g = GameState::new();
    g.pass_turn();
    assert_eq!(g.current_player(), Player::Light);
    assert_eq!(g.dice_value(), 0);
    g.roll_dice(2);
    g.pass_turn();
    assert_eq!(g.current_player(), Player::Dark);
    assert_eq!(g.dice_value(), 0);
    g.pass_turn();
    assert_eq!(g.current_player(), Player::Dark);
}

#[test]
fn reset_restores_the_construct_state() {
    let mut g = GameState::new();
    g.roll_dice(1);
    assert!(g.make_move(4));
    g.roll_dice(4);
    assert!(g.make_move(9));
    g.roll_dice(2);
    g.pass_turn();
    g.reset();
    assert_eq!(g.get_board(), initial_codes());
    assert_eq!(g.current_player(), Player::Light);
    assert_eq!(g.dice_value(), 0);
    assert!(!g.game_over());
    assert_eq!(g.winner(), None);
}

#[test]
fn a_full_game_ends_with_a_winner() {
    let mut g = GameState::new();
    let mut rounds = 0usize;
    while !g.game_over() {
        rounds += 1;
        assert!(rounds < 2000, "the game should have ended");
        let mut acted = false;
        for dice in [4u8, 3, 2, 1] {
            g.roll_dice(dice);
            let moves = g.get_valid_moves();
            // Prefer the most advanced piece, avoiding the House of
            // Water where another move exists.
            let pick = moves
                .iter()
                .rev()
                .find(|&&from| from + dice as usize != 26)
                .or_else(|| moves.last());
            if let Some(&from) = pick {
                assert!(g.make_move(from));
                acted = true;
                break;
            }
        }
        if !acted {
            g.pass_turn();
        }
    }
    assert!(g.winner().is_some());
    let codes = g.get_board();
    let light = count_code(&codes, 1);
    let dark = count_code(&codes, 2);
    assert!(light == 0 || dark == 0);
    if light == 0 {
        assert_eq!(g.winner(), Some(Player::Light));
    } else {
        assert_eq!(g.winner(), Some(Player::Dark));
    }
    // A finished game refuses every further action.
    g.roll_dice(4);
    assert_eq!(g.get_valid_moves(), Vec::<usize>::new());
    assert!(!g.make_move(0));
}
