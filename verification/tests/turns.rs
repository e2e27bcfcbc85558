use tictactoe::turns::{computer_turn, user_turn};
use tictactoe::{Computer, Entity, Game, GameState};

const E: Entity = Entity::Empty;
const X: Entity = Entity::Computer;
const O: Entity = Entity::Human;

fn opened() -> (Game, Computer) {
    let mut game = Game::default();
    let mut engine = Computer::default();
    game.start();
    computer_turn(&mut game, &mut engine);
    (game, engine)
}

#[test]
fn engine_opens_in_the_centre() {
    let (game, _) = opened();
    assert_eq!(*game.board(), [[E, E, E], [E, X, E], [E, E, E]]);
    assert_eq!(game.state(), GameState::Playing(O));
}

#[test]
fn engine_waits_before_start_and_on_the_opponents_turn() {
    let mut game = Game::default();
    let mut engine = Computer::default();
    computer_turn(&mut game, &mut engine);
    assert_eq!(game.state(), GameState::Ready);
    assert_eq!(*game.board(), [[E; 3]; 3]);

    let (mut game, mut engine) = opened();
    computer_turn(&mut game, &mut engine);
    assert_eq!(*game.board(), [[E, E, E], [E, X, E], [E, E, E]]);
    assert_eq!(game.state(), GameState::Playing(O));
}

#[test]
fn accepted_attempt_is_answered() {
    let (mut game, mut engine) = opened();
    user_turn(&mut game, &mut engine, 0, 0);
    assert_eq!(*game.board(), [[O, E, E], [E, X, E], [E, X, E]]);
    assert_eq!(game.state(), GameState::Playing(O));
}

#[test]
fn rejected_attempt_is_not_answered() {
    let (mut game, mut engine) = opened();
    user_turn(&mut game, &mut engine, 1, 1);
    assert_eq!(*game.board(), [[E, E, E], [E, X, E], [E, E, E]]);
    assert_eq!(game.state(), GameState::Repeat(O));
    user_turn(&mut game, &mut engine, 0, 1);
    assert_eq!(*game.board(), [[E, O, E], [E, X, E], [E, E, X]]);
    assert_eq!(game.state(), GameState::Playing(O));
}

#[test]
fn engine_moves_again_after_its_own_rejected_attempt() {
    let mut game = Game::default();
    let mut engine = Computer::default();
    game.start();
    game.update(1, 1);
    game.update(0, 0);
    game.update(0, 0);
    assert_eq!(game.state(), GameState::Repeat(X));
    computer_turn(&mut game, &mut engine);
    assert_eq!(game.state(), GameState::Playing(O));
    assert_eq!(*game.board(), [[O, E, E], [E, X, E], [E, X, E]]);
}

#[test]
fn opponent_who_takes_the_first_empty_cell_loses() {
    let (mut game, mut engine) = opened();
    user_turn(&mut game, &mut engine, 0, 0);
    user_turn(&mut game, &mut engine, 0, 1);
    assert_eq!(*game.board(), [[O, O, X], [E, X, E], [E, X, E]]);
    user_turn(&mut game, &mut engine, 1, 0);
    assert_eq!(*game.board(), [[O, O, X], [O, X, E], [X, X, E]]);
    assert_eq!(game.state(), GameState::Win(X));
    user_turn(&mut game, &mut engine, 2, 2);
    assert_eq!(*game.board(), [[O, O, X], [O, X, E], [X, X, E]]);
    assert_eq!(game.state(), GameState::Win(X));
}

fn replay(attempts: &[(usize, usize)]) -> Game {
    let (mut game, mut engine) = opened();
    for &(x, y) in attempts {
        user_turn(&mut game, &mut engine, x, y);
    }
    game
}

fn every_game(attempts: &mut Vec<(usize, usize)>, ended: &mut usize) {
    let game = replay(attempts);
    match game.state() {
        GameState::Playing(Entity::Human) => {
            for x in 0..3 {
                for y in 0..3 {
                    if game.board()[x][y] == E {
                        attempts.push((x, y));
                        every_game(attempts, ended);
                        attempts.pop();
                    }
                }
            }
        }
        GameState::Win(winner) => {
            assert_eq!(winner, X);
            *ended += 1;
        }
        GameState::Draw => {
            *ended += 1;
        }
        other => panic!("play cannot reach {:?}", other),
    }
}

#[test]
fn no_line_of_attempts_beats_the_engine() {
    let mut attempts = Vec::new();
    let mut ended = 0;
    every_game(&mut attempts, &mut ended);
    assert!(ended > 0);
}
