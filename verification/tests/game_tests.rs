use lifegame::engine::step;
use lifegame::game::LifeGame;
use lifegame::seed::{build_grid, generate_random_line, parse_line, validate_dims, LifeError};

fn init(m: Vec<&str>) -> LifeGame {
    let mut rows: Vec<Vec<bool>> = Vec::new();
    for line in &m {
        let width = line.chars().count();
        rows.push(parse_line(line, width).unwrap());
    }
    LifeGame::new(rows)
}

#[test]
fn is_live_test3() {
    let mut game = init(vec![".#.", ".#.", ".#."]);
    assert!(!game.is_end());
    game.next();

    let n = game.output_new_str();
    assert_eq!(n, "...\n###\n...\n");
}

#[test]
fn generate_random_line_test() {
    let n3 = generate_random_line(3);
    assert_eq!(3, n3.len());

    let n5 = generate_random_line(5);
    assert_eq!(5, n5.len());
}

#[test]
fn random_line_alphabet() {
    let line = generate_random_line(64);
    assert_eq!(64, line.chars().count());
    assert!(line.chars().all(|c| c == '#' || c == '.'));
}

#[test]
fn empty_two_by_two_is_immediate_fixed_point() {
    let mut game = init(vec!["..", ".."]);
    game.next();
    assert_eq!(game.output_new_str(), "..\n..\n");
    assert!(game.is_end());
    game.next();
    assert_eq!(game.output_new_str(), "..\n..\n");
    assert!(game.is_end());
}

#[test]
fn single_cell_always_dies() {
    let mut live = init(vec!["#"]);
    live.next();
    assert_eq!(live.output_new_str(), ".\n");

    let mut dead = init(vec!["."]);
    dead.next();
    assert_eq!(dead.output_new_str(), ".\n");
    assert!(dead.is_end());
}

#[test]
fn corners_survive_full_three_by_three() {
    // In a fully-alive 3x3 grid each corner keeps exactly 3 neighbors after
    // clamping and survives; every other cell has 5 or 8 and dies.
    let mut game = init(vec!["###", "###", "###"]);
    game.next();
    assert_eq!(game.output_new_str(), "#.#\n...\n#.#\n");
}

#[test]
fn block_is_stable() {
    let mut game = init(vec!["##", "##"]);
    assert!(!game.is_end());
    game.next();
    assert_eq!(game.output_new_str(), "##\n##\n");
    assert!(game.is_end());
    game.next();
    assert_eq!(game.output_new_str(), "##\n##\n");
    assert!(game.is_end());
}

#[test]
fn step_reads_its_input_without_changing_it() {
    let grid = vec![
        vec![false, true, false],
        vec![false, true, false],
        vec![false, true, false],
    ];
    let copy = grid.clone();
    let first = step(&grid);
    let second = step(&grid);
    assert_eq!(grid, copy);
    assert_eq!(first, second);
    assert_eq!(
        first,
        vec![
            vec![false, false, false],
            vec![true, true, true],
            vec![false, false, false],
        ]
    );
}

#[test]
fn format_then_parse_restores_the_grid() {
    let mut game = init(vec![".#.#", "#..#", "####"]);
    game.next();
    let rendered = game.output_new_str();
    let mut rows: Vec<Vec<bool>> = Vec::new();
    for line in rendered.lines() {
        rows.push(parse_line(line, 4).unwrap());
    }
    let reparsed = LifeGame::new(rows);
    assert_eq!(reparsed.output_new_str(), rendered);
    assert_eq!(reparsed.output_new(), game.output_new());
}

#[test]
fn parse_line_rejects_foreign_characters() {
    assert_eq!(parse_line(".#x", 3), Err(LifeError::Alphabet));
    // A bad character is reported even when the length is wrong too.
    assert_eq!(parse_line("*", 3), Err(LifeError::Alphabet));
}

#[test]
fn parse_line_rejects_wrong_length() {
    assert_eq!(parse_line(".#.", 4), Err(LifeError::Shape));
    assert_eq!(parse_line("", 1), Err(LifeError::Shape));
    assert_eq!(parse_line(".#.", 3), Ok(vec![false, true, false]));
}

#[test]
fn build_grid_requires_a_rectangle() {
    assert_eq!(build_grid(Vec::new()), Err(LifeError::Shape));
    assert_eq!(build_grid(vec![Vec::new()]), Err(LifeError::Shape));
    assert_eq!(
        build_grid(vec![vec![true, false], vec![true]]),
        Err(LifeError::Shape)
    );
    let ok = vec![vec![true, false], vec![false, true]];
    assert_eq!(build_grid(ok.clone()), Ok(ok));
}

#[test]
fn validate_dims_requires_positive_sizes() {
    assert_eq!(validate_dims(0, 10), Err(LifeError::Config));
    assert_eq!(validate_dims(10, 0), Err(LifeError::Config));
    assert_eq!(validate_dims(1, 1), Ok(()));
    assert_eq!(validate_dims(10, 10), Ok(()));
}
