use tictactoe::{Board, Computer, Entity, Game, GameState};

const E: Entity = Entity::Empty;
const X: Entity = Entity::Computer;
const O: Entity = Entity::Human;

const LINES: [[(usize, usize); 3]; 8] = [
    [(0, 0), (0, 1), (0, 2)],
    [(1, 0), (1, 1), (1, 2)],
    [(2, 0), (2, 1), (2, 2)],
    [(0, 0), (1, 0), (2, 0)],
    [(0, 1), (1, 1), (2, 1)],
    [(0, 2), (1, 2), (2, 2)],
    [(0, 0), (1, 1), (2, 2)],
    [(0, 2), (1, 1), (2, 0)],
];

fn has_line(board: &Board, who: Entity) -> bool {
    LINES.iter().any(|line| line.iter().all(|&(r, c)| board[r][c] == who))
}

fn is_full(board: &Board) -> bool {
    board.iter().flatten().all(|e| *e != E)
}

fn is_over(board: &Board) -> bool {
    has_line(board, X) || has_line(board, O) || is_full(board)
}

fn empties(board: &Board) -> Vec<(usize, usize)> {
    let mut cells = Vec::new();
    for r in 0..3 {
        for c in 0..3 {
            if board[r][c] == E {
                cells.push((r, c));
            }
        }
    }
    cells
}

/// Plain minimax without pruning, to hold the engine's choice against.
fn minimax(board: &mut Board, player: Entity) -> i32 {
    if is_over(board) {
        return if has_line(board, X) {
            1
        } else if has_line(board, O) {
            -1
        } else {
            0
        };
    }
    let mut best = if player == X { i32::MIN } else { i32::MAX };
    for (r, c) in empties(board) {
        board[r][c] = player;
        let v = minimax(board, !player);
        board[r][c] = E;
        best = if player == X { best.max(v) } else { best.min(v) };
    }
    best
}

fn score_of(board: &Board, cell: (usize, usize)) -> i32 {
    let mut scratch = *board;
    scratch[cell.0][cell.1] = X;
    minimax(&mut scratch, O)
}

#[test]
fn opening_move_is_the_centre() {
    let board: Board = [[E; 3]; 3];
    let best = Computer.best_play(board);
    let corner_or_centre = [(0, 0), (0, 2), (1, 1), (2, 0), (2, 2)];
    assert!(corner_or_centre.contains(&best));
    assert_eq!(best, (1, 1));
}

#[test]
fn completes_its_own_row() {
    let mut game = Game::default();
    game.start();
    for (x, y) in [(0, 0), (1, 0), (0, 1), (2, 1)] {
        game.update(x, y);
    }
    assert_eq!(*game.board(), [[X, X, E], [O, E, E], [E, O, E]]);
    assert_eq!(game.state(), GameState::Playing(X));
    let best = Computer.best_play(*game.board());
    assert_eq!(best, (0, 2));
    game.update(best.0, best.1);
    assert_eq!(game.state(), GameState::Win(X));
}

#[test]
fn completes_a_row_on_a_bare_grid() {
    let board: Board = [[X, X, E], [E, E, E], [E, E, E]];
    assert_eq!(Computer.best_play(board), (0, 2));
}

#[test]
fn takes_the_win_before_the_block() {
    let board: Board = [[X, X, E], [O, O, E], [E, E, E]];
    assert_eq!(Computer.best_play(board), (0, 2));
}

#[test]
fn blocks_a_row_that_is_about_to_fall() {
    let board: Board = [[O, O, E], [X, E, E], [E, E, X]];
    assert_eq!(Computer.best_play(board), (0, 2));
    let board: Board = [[X, E, E], [E, O, E], [O, E, X]];
    assert_eq!(Computer.best_play(board), (0, 2));
}

#[test]
fn lost_grid_takes_the_first_shallowest_move() {
    // O holds a corner and the centre, X the edge between: whatever X does
    // now, O wins. All six moves score -1, so the depth decides.
    let board: Board = [[O, X, E], [E, O, E], [E, E, E]];
    for cell in empties(&board) {
        assert_eq!(score_of(&board, cell), -1);
    }
    let best = Computer.best_play(board);
    assert_eq!(board[best.0][best.1], E);
    assert_eq!(best, (0, 2));
    let mut after = board;
    after[best.0][best.1] = X;
    assert!(!has_line(&after, O));
}

#[test]
fn last_empty_cell_is_the_move() {
    let board: Board = [[X, O, X], [X, O, O], [O, X, E]];
    assert_eq!(Computer.best_play(board), (2, 2));
}

#[test]
fn grid_with_a_line_still_gets_an_empty_cell() {
    let board: Board = [[O, O, O], [X, X, E], [E, E, E]];
    let best = Computer.best_play(board);
    assert_eq!(board[best.0][best.1], E);
    assert_eq!(best, (1, 2));
}

#[test]
fn equal_moves_go_to_the_first_in_row_major_order() {
    // (0, 0) completes the first column, (0, 2) the anti-diagonal: both win
    // at once.
    let board: Board = [[E, E, E], [X, X, O], [X, O, O]];
    assert_eq!(score_of(&board, (0, 0)), 1);
    assert_eq!(score_of(&board, (0, 2)), 1);
    assert_eq!(Computer.best_play(board), (0, 0));
}

#[test]
fn among_equal_scores_the_smaller_depth_wins() {
    // All three moves win in the end, but only (1, 1) wins at once.
    let board: Board = [[E, E, X], [O, E, X], [X, O, O]];
    assert_eq!(score_of(&board, (0, 0)), 1);
    assert_eq!(score_of(&board, (0, 1)), 1);
    assert_eq!(score_of(&board, (1, 1)), 1);
    assert_eq!(Computer.best_play(board), (1, 1));
}

#[test]
fn higher_score_beats_smaller_depth() {
    // (0, 0) and (0, 2) lose, (0, 1) draws.
    let board: Board = [[E, E, E], [X, O, X], [O, X, O]];
    assert_eq!(score_of(&board, (0, 0)), -1);
    assert_eq!(score_of(&board, (0, 2)), -1);
    assert_eq!(Computer.best_play(board), (0, 1));
}

#[test]
fn caller_grid_is_left_alone() {
    let board: Board = [[X, E, E], [E, O, E], [E, E, E]];
    let copy = board;
    let _ = Computer.best_play(board);
    assert_eq!(board, copy);
}

#[test]
fn same_grid_same_move() {
    let board: Board = [[X, E, O], [E, O, E], [E, E, E]];
    let first = Computer.best_play(board);
    let second = Computer::default().best_play(board);
    assert_eq!(first, second);
}

fn visit(board: &mut Board, to_move: Entity, seen: &mut usize) {
    if is_full(board) {
        return;
    }
    if to_move == X {
        *seen += 1;
        let best = Computer.best_play(*board);
        assert_eq!(board[best.0][best.1], E);
        let top = empties(board).into_iter().map(|cell| score_of(board, cell)).max().unwrap();
        assert_eq!(score_of(board, best), top);
    }
    if has_line(board, X) || has_line(board, O) {
        return;
    }
    for (r, c) in empties(board) {
        board[r][c] = to_move;
        visit(board, !to_move, seen);
        board[r][c] = E;
    }
}

#[test]
fn move_is_empty_and_optimal_on_every_grid_of_play() {
    let mut board: Board = [[X, E, E], [E, E, E], [E, E, E]];
    let mut seen = 0;
    visit(&mut board, O, &mut seen);
    let mut board: Board = [[E, E, E], [E, O, E], [E, E, E]];
    visit(&mut board, X, &mut seen);
    assert!(seen > 100);
}

fn play_out(attempts: &mut Vec<(usize, usize)>, games: &mut usize) {
    let mut game = Game::default();
    game.start();
    for &(x, y) in attempts.iter() {
        game.update(x, y);
    }
    match game.state() {
        GameState::Playing(Entity::Computer) => {
            let best = Computer.best_play(*game.board());
            attempts.push(best);
            play_out(attempts, games);
            attempts.pop();
        }
        GameState::Playing(Entity::Human) => {
            for cell in empties(game.board()) {
                attempts.push(cell);
                play_out(attempts, games);
                attempts.pop();
            }
        }
        GameState::Win(winner) => {
            assert_eq!(winner, Entity::Computer);
            *games += 1;
        }
        GameState::Draw => {
            *games += 1;
        }
        other => panic!("play cannot reach {:?}", other),
    }
}

#[test]
fn engine_never_loses_a_game_it_opens() {
    let mut attempts = Vec::new();
    let mut games = 0;
    play_out(&mut attempts, &mut games);
    assert!(games > 0);
}
