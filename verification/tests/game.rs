use tictactoe::board::{Coord, Player};
use tictactoe::game::{Game, GameError, GameOptions};

#[test]
fn it_should_correctly_assign_player_to_cells() {
    let mut game = Game::new_with(GameOptions {
        initial_player: Some(Player::X),
        ..Default::default()
    });
    game.next(Coord { x: 1, y: 1 }).unwrap();
    game.next(Coord { x: 1, y: 2 }).unwrap();
    game.next(Coord { x: 2, y: 1 }).unwrap();
    game.next(Coord { x: 2, y: 2 }).unwrap();
    assert!(game.grid.get(&Coord { x: 1, y: 1 }).unwrap() == Player::X);
    assert!(game.grid.get(&Coord { x: 1, y: 2 }).unwrap() == Player::O);
    assert!(game.grid.get(&Coord { x: 2, y: 1 }).unwrap() == Player::X);
    assert!(game.grid.get(&Coord { x: 2, y: 2 }).unwrap() == Player::O);
}

#[test]
fn it_should_change_player_after_valid_turn() {
    let mut game = Game::new_with(GameOptions {
        initial_player: Some(Player::X),
        ..Default::default()
    });
    game.next(Coord { x: 1, y: 1 }).unwrap();
    assert!(game.player == Player::O);
}

#[test]
fn it_should_not_change_player_if_invalid_turn() {
    let mut game = Game::new_with(GameOptions {
        initial_player: Some(Player::X),
        ..Default::default()
    });
    game.next(Coord { x: 1, y: 1 }).unwrap();
    assert!(game.next(Coord { x: 1, y: 1 }).is_err());
}

#[test]
fn it_should_win_game_if_3_in_row_and_error_after() {
    let mut game = Game::new_with(GameOptions {
        initial_player: Some(Player::X),
        ..Default::default()
    });
    game.next(Coord { x: 1, y: 1 }).unwrap();
    game.next(Coord { x: 1, y: 2 }).unwrap();
    game.next(Coord { x: 2, y: 1 }).unwrap();
    game.next(Coord { x: 2, y: 2 }).unwrap();
    game.next(Coord { x: 3, y: 1 }).unwrap();
    assert!(game.winner.unwrap() == Player::X);
    assert!(matches!(
        game.next(Coord { x: 1, y: 1 }),
        Result::Err(GameError::GameOver)
    ));
}

#[test]
fn it_should_win_game_if_3_in_col() {
    let mut game = Game::new_with(GameOptions {
        initial_player: Some(Player::X),
        ..Default::default()
    });
    game.next(Coord { x: 2, y: 1 }).unwrap();
    game.next(Coord { x: 1, y: 1 }).unwrap();
    game.next(Coord { x: 2, y: 2 }).unwrap();
    game.next(Coord { x: 1, y: 2 }).unwrap();
    game.next(Coord { x: 2, y: 3 }).unwrap();
    assert!(game.winner.unwrap() == Player::X);
}

#[test]
fn it_should_win_game_if_3_in_diag_1() {
    let mut game = Game::new_with(GameOptions {
        initial_player: Some(Player::X),
        ..Default::default()
    });
    game.next(Coord { x: 1, y: 1 }).unwrap();
    game.next(Coord { x: 2, y: 1 }).unwrap();
    game.next(Coord { x: 2, y: 2 }).unwrap();
    game.next(Coord { x: 1, y: 2 }).unwrap();
    game.next(Coord { x: 3, y: 3 }).unwrap();
    assert!(game.winner.unwrap() == Player::X);
}

#[test]
fn it_should_win_game_if_3_in_diag_2() {
    let mut game = Game::new_with(GameOptions {
        initial_player: Some(Player::X),
        ..Default::default()
    });
    game.next(Coord { x: 3, y: 1 }).unwrap();
    game.next(Coord { x: 2, y: 1 }).unwrap();
    game.next(Coord { x: 2, y: 2 }).unwrap();
    game.next(Coord { x: 1, y: 2 }).unwrap();
    game.next(Coord { x: 1, y: 3 }).unwrap();
    assert!(game.winner.unwrap() == Player::X);
}

#[test]
fn second_move_at_same_cell_is_occupied() {
    let mut game = Game::new_with(GameOptions {
        initial_player: Some(Player::X),
        ..Default::default()
    });
    game.next(Coord { x: 1, y: 1 }).unwrap();
    assert!(matches!(
        game.next(Coord { x: 1, y: 1 }),
        Result::Err(GameError::CoordOccupied)
    ));
}

#[test]
fn occupied_move_leaves_state_unchanged() {
    let mut game = Game::new_with(GameOptions {
        initial_player: Some(Player::X),
        ..Default::default()
    });
    game.next(Coord { x: 1, y: 1 }).unwrap();
    assert!(game.player == Player::O);
    assert!(matches!(
        game.next(Coord { x: 1, y: 1 }),
        Result::Err(GameError::CoordOccupied)
    ));
    assert!(game.player == Player::O);
    assert!(game.winner.is_none());
    assert!(game.grid.get(&Coord { x: 1, y: 1 }).unwrap() == Player::X);
    assert!(game.grid.len() == 1);
}

#[test]
fn winning_move_keeps_turn() {
    let mut game = Game::new_with(GameOptions {
        initial_player: Some(Player::X),
        ..Default::default()
    });
    game.next(Coord { x: 1, y: 1 }).unwrap();
    game.next(Coord { x: 1, y: 2 }).unwrap();
    game.next(Coord { x: 2, y: 1 }).unwrap();
    game.next(Coord { x: 2, y: 2 }).unwrap();
    game.next(Coord { x: 3, y: 1 }).unwrap();
    assert!(game.winner.unwrap() == Player::X);
    assert!(game.player == Player::X);
}

#[test]
fn move_after_game_over_leaves_state_unchanged() {
    let mut game = Game::new_with(GameOptions {
        initial_player: Some(Player::X),
        ..Default::default()
    });
    game.next(Coord { x: 1, y: 1 }).unwrap();
    game.next(Coord { x: 1, y: 2 }).unwrap();
    game.next(Coord { x: 2, y: 1 }).unwrap();
    game.next(Coord { x: 2, y: 2 }).unwrap();
    game.next(Coord { x: 3, y: 1 }).unwrap();
    assert!(matches!(
        game.next(Coord { x: 3, y: 3 }),
        Result::Err(GameError::GameOver)
    ));
    assert!(game.winner.unwrap() == Player::X);
    assert!(game.player == Player::X);
    assert!(game.grid.len() == 5);
    assert!(game.grid.get(&Coord { x: 3, y: 3 }).is_none());
}

#[test]
fn off_grid_positions_are_addressable() {
    let mut game = Game::new_with(GameOptions {
        initial_player: Some(Player::X),
        ..Default::default()
    });
    game.next(Coord { x: 7, y: 9 }).unwrap();
    assert!(game.player == Player::O);
    assert!(game.winner.is_none());
    assert!(game.grid.get(&Coord { x: 7, y: 9 }).unwrap() == Player::X);
}

#[test]
fn render_of_empty_board() {
    let game = Game::new_with(GameOptions {
        initial_player: Some(Player::X),
        ..Default::default()
    });
    assert_eq!(game.render(), "| | | |\n| | | |\n| | | |\n");
}

#[test]
fn render_shows_each_mark_in_place() {
    let mut game = Game::new_with(GameOptions {
        initial_player: Some(Player::X),
        ..Default::default()
    });
    game.next(Coord { x: 1, y: 1 }).unwrap();
    game.next(Coord { x: 2, y: 2 }).unwrap();
    game.next(Coord { x: 3, y: 3 }).unwrap();
    assert_eq!(game.render(), "|X| | |\n| |O| |\n| | |X|\n");
}

#[test]
fn full_board_without_line_has_no_winner() {
    let mut game = Game::new_with(GameOptions {
        initial_player: Some(Player::X),
        ..Default::default()
    });
    // X X O / O O X / X X O: nine marks, no completed line.
    game.next(Coord { x: 1, y: 1 }).unwrap();
    game.next(Coord { x: 3, y: 1 }).unwrap();
    game.next(Coord { x: 2, y: 1 }).unwrap();
    game.next(Coord { x: 1, y: 2 }).unwrap();
    game.next(Coord { x: 3, y: 2 }).unwrap();
    game.next(Coord { x: 2, y: 2 }).unwrap();
    game.next(Coord { x: 1, y: 3 }).unwrap();
    game.next(Coord { x: 3, y: 3 }).unwrap();
    game.next(Coord { x: 2, y: 3 }).unwrap();
    assert!(game.winner.is_none());
    assert!(game.grid.len() == 9);
}

#[test]
fn new_game_starts_empty_with_some_mark() {
    let game = Game::new();
    assert!(game.winner.is_none());
    assert!(game.grid.len() == 0);
    assert!(game.player == Player::X || game.player == Player::O);
}

#[test]
fn requested_initial_player_is_used() {
    let game = Game::new_with(GameOptions {
        initial_player: Some(Player::O),
    });
    assert!(game.player == Player::O);
    let defaults = GameOptions::default();
    assert!(defaults.initial_player.is_none());
}
