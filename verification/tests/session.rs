use tictactoe::{Board, Entity, Game, GameState};

const E: Entity = Entity::Empty;
const X: Entity = Entity::Computer;
const O: Entity = Entity::Human;

fn played(attempts: &[(usize, usize)]) -> Game {
    let mut game = Game::default();
    game.start();
    for &(x, y) in attempts {
        game.update(x, y);
    }
    game
}

#[test]
fn fresh_session_is_ready_and_blank() {
    let game = Game::default();
    assert_eq!(game.state(), GameState::Ready);
    assert_eq!(*game.board(), [[E; 3]; 3]);
}

#[test]
fn start_gives_the_first_move_to_the_computer() {
    let mut game = Game::default();
    game.start();
    assert_eq!(game.state(), GameState::Playing(X));
    assert_eq!(*game.board(), [[E; 3]; 3]);
}

#[test]
fn start_outside_ready_changes_nothing() {
    let mut game = played(&[(1, 1)]);
    assert_eq!(game.state(), GameState::Playing(O));
    game.start();
    assert_eq!(game.state(), GameState::Playing(O));
    assert_eq!(*game.board(), [[E, E, E], [E, X, E], [E, E, E]]);

    let mut won = played(&[(0, 0), (1, 0), (0, 1), (1, 1), (0, 2)]);
    won.start();
    assert_eq!(won.state(), GameState::Win(X));
}

#[test]
fn move_before_start_is_ignored() {
    let mut game = Game::default();
    game.update(1, 1);
    assert_eq!(game.state(), GameState::Ready);
    assert_eq!(*game.board(), [[E; 3]; 3]);
}

#[test]
fn accepted_move_places_the_mark_and_passes_the_turn() {
    let game = played(&[(0, 0)]);
    assert_eq!(*game.board(), [[X, E, E], [E, E, E], [E, E, E]]);
    assert_eq!(game.state(), GameState::Playing(O));
    let game = played(&[(0, 0), (2, 1)]);
    assert_eq!(*game.board(), [[X, E, E], [E, E, E], [E, O, E]]);
    assert_eq!(game.state(), GameState::Playing(X));
}

#[test]
fn occupied_cell_asks_the_same_player_again() {
    let mut game = played(&[(0, 0)]);
    let before: Board = *game.board();
    game.update(0, 0);
    assert_eq!(game.state(), GameState::Repeat(O));
    assert_eq!(*game.board(), before);
    game.update(0, 0);
    assert_eq!(game.state(), GameState::Repeat(O));
    assert_eq!(*game.board(), before);
    game.update(1, 1);
    assert_eq!(game.state(), GameState::Playing(X));
    assert_eq!(*game.board(), [[X, E, E], [E, O, E], [E, E, E]]);
}

#[test]
fn occupied_cell_on_the_computers_turn() {
    let mut game = played(&[(0, 0), (1, 1)]);
    game.update(1, 1);
    assert_eq!(game.state(), GameState::Repeat(X));
    assert_eq!(*game.board(), [[X, E, E], [E, O, E], [E, E, E]]);
}

#[test]
fn row_wins() {
    let game = played(&[(1, 0), (0, 0), (1, 1), (0, 1), (1, 2)]);
    assert_eq!(game.state(), GameState::Win(X));
    assert_eq!(*game.board(), [[O, O, E], [X, X, X], [E, E, E]]);
}

#[test]
fn column_wins() {
    let game = played(&[(0, 0), (0, 2), (1, 1), (1, 2), (2, 1), (2, 2)]);
    assert_eq!(game.state(), GameState::Win(O));
}

#[test]
fn diagonal_wins() {
    let game = played(&[(0, 0), (0, 1), (1, 1), (0, 2), (2, 2)]);
    assert_eq!(game.state(), GameState::Win(X));
}

#[test]
fn anti_diagonal_wins() {
    let game = played(&[(0, 0), (0, 2), (0, 1), (1, 1), (2, 2), (2, 0)]);
    assert_eq!(game.state(), GameState::Win(O));
}

#[test]
fn line_completed_in_its_middle_wins() {
    let game = played(&[(0, 0), (1, 0), (0, 2), (1, 1), (0, 1)]);
    assert_eq!(game.state(), GameState::Win(X));
}

#[test]
fn last_mark_that_completes_a_line_wins_rather_than_draws() {
    let game = played(&[(0, 0), (0, 1), (0, 2), (1, 0), (1, 2), (1, 1), (2, 1), (2, 2), (2, 0)]);
    assert_eq!(*game.board(), [[X, O, X], [O, O, X], [X, X, O]]);
    assert_eq!(game.state(), GameState::Draw);
    let game = played(&[(0, 0), (0, 1), (0, 2), (1, 0), (1, 1), (1, 2), (2, 1), (2, 2), (2, 0)]);
    assert_eq!(*game.board(), [[X, O, X], [O, X, O], [X, X, O]]);
    assert_eq!(game.state(), GameState::Win(X));
}

#[test]
fn full_grid_without_a_line_is_a_draw() {
    let game = played(&[(0, 0), (0, 1), (0, 2), (1, 1), (1, 0), (1, 2), (2, 1), (2, 0), (2, 2)]);
    assert_eq!(*game.board(), [[X, O, X], [X, O, O], [O, X, X]]);
    assert_eq!(game.state(), GameState::Draw);
    assert!(game.state().is_finished());
    assert!(!game.state().is_playable());
}

#[test]
fn move_after_the_end_is_ignored() {
    let mut game = played(&[(0, 0), (1, 0), (0, 1), (1, 1), (0, 2)]);
    assert_eq!(game.state(), GameState::Win(X));
    let before: Board = *game.board();
    game.update(2, 2);
    assert_eq!(game.state(), GameState::Win(X));
    assert_eq!(*game.board(), before);

    let mut drawn = played(&[(0, 0), (0, 1), (0, 2), (1, 1), (1, 0), (1, 2), (2, 1), (2, 0), (2, 2)]);
    drawn.update(0, 0);
    assert_eq!(drawn.state(), GameState::Draw);
}

#[test]
fn marks_never_leave_the_grid() {
    let attempts = [(1, 1), (1, 1), (0, 0), (0, 0), (2, 2), (0, 2), (2, 0), (1, 0), (1, 2)];
    let mut game = Game::default();
    game.start();
    let mut marks = 0;
    for (x, y) in attempts {
        game.update(x, y);
        let now = game.board().iter().flatten().filter(|e| **e != E).count();
        assert!(now >= marks);
        assert!(now <= marks + 1);
        marks = now;
    }
    assert_eq!(marks, 7);
}

#[test]
fn reading_twice_gives_the_same() {
    let game = played(&[(0, 0), (1, 1), (1, 1)]);
    let board_once: Board = *game.board();
    let state_once = game.state();
    assert_eq!(*game.board(), board_once);
    assert_eq!(*game.board(), board_once);
    assert_eq!(game.state(), state_once);
    assert_eq!(game.state(), GameState::Repeat(X));
}

#[test]
fn reset_then_start_is_as_fresh_then_start() {
    let used = played(&[(0, 0), (1, 1), (2, 2)]);
    let mut again = used.reset();
    assert_eq!(again.state(), GameState::Ready);
    assert_eq!(*again.board(), [[E; 3]; 3]);
    again.start();
    let mut fresh = Game::default();
    fresh.start();
    assert_eq!(again.state(), fresh.state());
    assert_eq!(*again.board(), *fresh.board());
    assert_eq!(again.state(), GameState::Playing(X));
}

#[test]
fn reset_leaves_the_old_session_alone() {
    let used = played(&[(0, 0), (1, 1)]);
    let _fresh = used.reset();
    assert_eq!(used.state(), GameState::Playing(X));
    assert_eq!(*used.board(), [[X, E, E], [E, O, E], [E, E, E]]);
}
