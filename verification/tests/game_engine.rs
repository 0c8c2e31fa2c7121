use snake_game::game::{CellType, GameResult, GridSize, MovementDirection, Options, Snake, SnakeGame};
use snake_game::score_tracker::ScoreTracker;

/// Builds the cell sequence the engine maintains: everything empty, the
/// food cell marked, then head, tail and body drawn over it.
fn rendered_cells(positions: &[usize], food: usize, n: usize) -> Vec<CellType> {
    let mut cells = vec![CellType::Empty; n];
    cells[food] = CellType::Food;
    cells[positions[0]] = CellType::Head;
    cells[positions[positions.len() - 1]] = CellType::Tail;
    for k in 1..positions.len() - 1 {
        cells[positions[k]] = CellType::Body;
    }
    cells
}

/// A session in a given state on a 16-wide, 8-tall grid.
fn game_16x8(positions: &[usize], direction: MovementDirection, food: usize) -> SnakeGame {
    let n: usize = 16 * 8;
    SnakeGame {
        cells: rendered_cells(positions, food, n),
        size: GridSize { x: 16, y: 8 },
        snake: Snake {
            positions: positions.to_vec(),
            direction,
        },
        food_position: food,
        score_tracker: ScoreTracker::new(),
        is_paused: false,
    }
}

fn count_cells(game: &SnakeGame, label: CellType) -> usize {
    game.cells.iter().filter(|c| **c == label).count()
}

#[test]
fn new_game_initial_layout() {
    let options = Options {
        size: GridSize { x: 16, y: 8 },
    };
    let game = SnakeGame::new(options, ScoreTracker::new());
    // Four cells laid out on one row just past the middle, moving east.
    let si = 16 * 8 / 2 + 4;
    assert_eq!(game.snake.positions, vec![si, si - 1, si - 2, si - 3]);
    assert_eq!(*game.get_direction(), MovementDirection::East);
    assert_eq!(*game.get_last_score(), 0);
    assert!(!game.is_paused);
    assert_eq!(game.cells.len(), 16 * 8);
    // Food sits on the grid and off the snake.
    assert!(game.food_position < 16 * 8);
    assert!(!game.snake.positions.contains(&game.food_position));
}

#[test]
fn new_game_cell_counts() {
    let options = Options {
        size: GridSize { x: 16, y: 8 },
    };
    let game = SnakeGame::new(options, ScoreTracker::new());
    assert_eq!(count_cells(&game, CellType::Food), 1);
    assert_eq!(count_cells(&game, CellType::Head), 1);
    assert_eq!(count_cells(&game, CellType::Tail), 1);
    assert_eq!(count_cells(&game, CellType::Body), 2);
}

#[test]
fn cell_counts_stay_one_food_one_head_over_ticks() {
    let mut game = game_16x8(&[52, 51, 50, 49], MovementDirection::East, 15);
    for _ in 0..6 {
        let result = game.move_forward(MovementDirection::NoInput);
        assert_eq!(result, GameResult::Continue);
        assert_eq!(count_cells(&game, CellType::Food), 1);
        assert_eq!(count_cells(&game, CellType::Head), 1);
        assert_eq!(count_cells(&game, CellType::Tail), 1);
    }
}

#[test]
fn continue_tick_moves_head_east() {
    // A four-cell snake just past the middle of a 16-wide grid, food far
    // away: one tick with no input slides the whole body one cell east.
    let mut game = game_16x8(&[52, 51, 50, 49], MovementDirection::East, 15);
    let result = game.move_forward(MovementDirection::NoInput);
    assert_eq!(result, GameResult::Continue);
    assert_eq!(game.snake.positions, vec![53, 52, 51, 50]);
    assert_eq!(*game.get_last_score(), 0);
    assert_eq!(game.food_position, 15);
    assert_eq!(game.cells[53], CellType::Head);
    assert_eq!(game.cells[50], CellType::Tail);
    assert_eq!(game.cells[52], CellType::Body);
    assert_eq!(game.cells[51], CellType::Body);
    assert_eq!(game.cells[49], CellType::Empty);
    assert_eq!(game.cells[15], CellType::Food);
}

#[test]
fn continue_tick_keeps_length() {
    let mut game = game_16x8(&[52, 51, 50, 49], MovementDirection::East, 15);
    let cells_before = game.cells.len();
    let result = game.move_forward(MovementDirection::NoInput);
    assert_eq!(result, GameResult::Continue);
    assert_eq!(game.snake.positions.len(), 4);
    assert_eq!(game.cells.len(), cells_before);
}

#[test]
fn west_into_left_wall_collides() {
    // Head in column zero, travelling west: the tick reports a wall
    // collision and leaves the session untouched.
    let mut game = game_16x8(&[32, 33, 34, 35], MovementDirection::West, 15);
    let result = game.move_forward(MovementDirection::NoInput);
    assert_eq!(result, GameResult::WallCollision);
    assert_eq!(game.snake.positions, vec![32, 33, 34, 35]);
    assert_eq!(*game.get_last_score(), 0);
    assert_eq!(game.food_position, 15);
}

#[test]
fn east_into_right_wall_collides() {
    let mut game = game_16x8(&[15, 14, 13, 12], MovementDirection::East, 100);
    let result = game.move_forward(MovementDirection::NoInput);
    assert_eq!(result, GameResult::WallCollision);
    assert_eq!(game.snake.positions, vec![15, 14, 13, 12]);
}

#[test]
fn north_out_of_top_row_collides() {
    let mut game = game_16x8(&[5, 21, 22, 23], MovementDirection::North, 100);
    let result = game.move_forward(MovementDirection::NoInput);
    assert_eq!(result, GameResult::WallCollision);
    assert_eq!(game.snake.positions, vec![5, 21, 22, 23]);
}

#[test]
fn south_out_of_bottom_row_collides() {
    let mut game = game_16x8(&[116, 100, 101, 102], MovementDirection::South, 15);
    let result = game.move_forward(MovementDirection::NoInput);
    assert_eq!(result, GameResult::WallCollision);
    assert_eq!(game.snake.positions, vec![116, 100, 101, 102]);
}

#[test]
fn stepping_onto_own_body_collides() {
    // A five-cell snake curled so that the next east step lands on its own
    // fourth cell: the tick reports a self collision and changes nothing.
    let mut game = game_16x8(&[33, 49, 50, 34, 18], MovementDirection::East, 100);
    let result = game.move_forward(MovementDirection::NoInput);
    assert_eq!(result, GameResult::SnakeCollision);
    assert_eq!(game.snake.positions, vec![33, 49, 50, 34, 18]);
    assert_eq!(*game.get_last_score(), 0);
}

#[test]
fn opposite_input_is_ignored() {
    // Travelling east, pressing west: the snake moves exactly as it does
    // with no input at all, never reversing into its own neck.
    let mut with_opposite = game_16x8(&[52, 51, 50, 49], MovementDirection::East, 15);
    let mut with_none = game_16x8(&[52, 51, 50, 49], MovementDirection::East, 15);
    let r1 = with_opposite.move_forward(MovementDirection::West);
    let r2 = with_none.move_forward(MovementDirection::NoInput);
    assert_eq!(r1, GameResult::Continue);
    assert_eq!(r2, GameResult::Continue);
    assert_eq!(with_opposite.snake.positions, with_none.snake.positions);
    assert_eq!(with_opposite.snake.positions, vec![53, 52, 51, 50]);
    assert_eq!(*with_opposite.get_direction(), MovementDirection::East);
}

#[test]
fn opposite_input_is_ignored_on_vertical_travel() {
    let mut game = game_16x8(&[52, 36, 20, 21], MovementDirection::South, 15);
    let result = game.move_forward(MovementDirection::North);
    assert_eq!(result, GameResult::Continue);
    assert_eq!(game.snake.positions, vec![68, 52, 36, 20]);
    assert_eq!(*game.get_direction(), MovementDirection::South);
}

#[test]
fn turn_input_changes_direction() {
    let mut game = game_16x8(&[52, 51, 50, 49], MovementDirection::East, 15);
    let result = game.move_forward(MovementDirection::North);
    assert_eq!(result, GameResult::Continue);
    assert_eq!(game.snake.positions, vec![36, 52, 51, 50]);
    assert_eq!(*game.get_direction(), MovementDirection::North);
}

#[test]
fn eating_food_grows_scores_and_relocates() {
    // Food directly ahead: the tick reports food, the snake grows by one,
    // the score rises by one, and the food lands on a free cell.
    let mut game = game_16x8(&[52, 51, 50, 49], MovementDirection::East, 53);
    let result = game.move_forward(MovementDirection::NoInput);
    assert_eq!(result, GameResult::Food);
    assert_eq!(game.snake.positions, vec![53, 52, 51, 50, 49]);
    assert_eq!(*game.get_last_score(), 1);
    assert!(game.food_position < 16 * 8);
    assert!(!game.snake.positions.contains(&game.food_position));
    assert_eq!(game.cells[game.food_position], CellType::Food);
    assert_eq!(count_cells(&game, CellType::Food), 1);
    assert_eq!(count_cells(&game, CellType::Head), 1);
}

#[test]
fn snake_head_and_tail_getters() {
    let snake = Snake {
        positions: vec![52, 51, 50, 49],
        direction: MovementDirection::East,
    };
    assert_eq!(snake.get_head_position(), 52);
    assert_eq!(snake.get_tail_position(), 49);
    assert_eq!(snake.get_body_positions(), vec![51, 50]);
}

#[test]
fn snake_move_east_directly() {
    let mut snake = Snake {
        positions: vec![52, 51, 50, 49],
        direction: MovementDirection::East,
    };
    let result = snake.move_east(15, 16);
    assert_eq!(result, GameResult::Continue);
    assert_eq!(snake.positions, vec![53, 52, 51, 50]);
}

#[test]
fn snake_move_west_at_column_zero_collides() {
    let mut snake = Snake {
        positions: vec![32, 33, 34, 35],
        direction: MovementDirection::West,
    };
    let result = snake.move_west(15, 16);
    assert_eq!(result, GameResult::WallCollision);
    assert_eq!(snake.positions, vec![32, 33, 34, 35]);
}

#[test]
fn snake_move_onto_food_grows() {
    let mut snake = Snake {
        positions: vec![52, 51, 50, 49],
        direction: MovementDirection::East,
    };
    let result = snake.move_east(53, 16);
    assert_eq!(result, GameResult::Food);
    assert_eq!(snake.positions, vec![53, 52, 51, 50, 49]);
}

#[test]
fn snake_move_north_and_south_directly() {
    let mut snake = Snake {
        positions: vec![52, 51, 50, 49],
        direction: MovementDirection::East,
    };
    assert_eq!(snake.move_north(15, 16), GameResult::Continue);
    assert_eq!(snake.positions, vec![36, 52, 51, 50]);
    // Stepping straight back down lands on the old head cell.
    assert_eq!(snake.move_south(15, 16, 8), GameResult::SnakeCollision);
    assert_eq!(snake.positions, vec![36, 52, 51, 50]);
}

#[test]
fn cell_glyphs() {
    assert_eq!(CellType::Food.get_string_representation(), "♥");
    assert_eq!(CellType::Empty.get_string_representation(), " ");
    assert_eq!(CellType::Head.get_string_representation(), "■");
    assert_eq!(CellType::Body.get_string_representation(), "□");
    assert_eq!(CellType::Tail.get_string_representation(), "◦");
}

#[test]
fn pause_flag_is_plain_state() {
    let mut game = game_16x8(&[52, 51, 50, 49], MovementDirection::East, 15);
    assert!(!game.is_paused);
    game.is_paused = true;
    assert!(game.is_paused);
}

#[test]
fn single_cell_snake_getters() {
    let snake = Snake {
        positions: vec![7],
        direction: MovementDirection::East,
    };
    assert_eq!(snake.get_head_position(), 7);
    assert_eq!(snake.get_tail_position(), 7);
    assert_eq!(snake.get_body_positions(), Vec::<usize>::new());
}
