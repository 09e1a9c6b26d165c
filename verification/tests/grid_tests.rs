use rust_commitment_scheme::board::Board;
use rust_commitment_scheme::error::ProofError;
use rust_commitment_scheme::structs::{Challenge, Statement, Witness};
use rust_commitment_scheme::utils::{get_column, get_row, get_subgrid};
use sudoku::Sudoku;

const PUZZLE: [u8; 81] = [
    5, 3, 0, 0, 7, 0, 0, 0, 0, 6, 0, 0, 1, 9, 5, 0, 0, 0, 0, 9, 8, 0, 0, 0, 0, 6, 0, 8, 0, 0, 0,
    6, 0, 0, 0, 3, 4, 0, 0, 8, 0, 3, 0, 0, 1, 7, 0, 0, 0, 2, 0, 0, 0, 6, 0, 6, 0, 0, 0, 0, 2, 8,
    0, 0, 0, 0, 4, 1, 9, 0, 0, 5, 0, 0, 0, 0, 8, 0, 0, 7, 9,
];

fn indices() -> Vec<usize> {
    (0..81).collect()
}

#[test]
fn test_grid_functions() {
    let numbers: [u8; 81] = [
        5, 3, 0, 0, 7, 0, 0, 0, 0, 6, 0, 0, 1, 9, 5, 0, 0, 0, 0, 9, 8, 0, 0, 0, 0, 6, 0, 8, 0,
        0, 0, 6, 0, 0, 0, 3, 4, 0, 0, 8, 0, 3, 0, 0, 1, 7, 0, 0, 0, 2, 0, 0, 0, 6, 0, 6, 0, 0,
        0, 0, 2, 8, 0, 0, 0, 0, 4, 1, 9, 0, 0, 5, 0, 0, 0, 0, 8, 0, 0, 7, 9,
    ];
    let board = Sudoku::from_bytes(numbers).unwrap();

    let row = get_row(1, &board.to_bytes().to_vec());
    assert_eq!(row, vec![5, 3, 0, 0, 7, 0, 0, 0, 0]);

    let column = get_column(1, &board.to_bytes().to_vec());
    assert_eq!(column, vec![5, 6, 0, 8, 4, 7, 0, 0, 0]);

    let subgrid = get_subgrid(5, &board.to_bytes().to_vec());
    assert_eq!(subgrid, vec![0, 6, 0, 8, 0, 3, 0, 2, 0]);
}

#[test]
fn rows_are_runs_of_nine() {
    let board = indices();
    assert_eq!(get_row(1, &board), vec![0, 1, 2, 3, 4, 5, 6, 7, 8]);
    assert_eq!(get_row(5, &board), vec![36, 37, 38, 39, 40, 41, 42, 43, 44]);
    assert_eq!(get_row(9, &board), vec![72, 73, 74, 75, 76, 77, 78, 79, 80]);
}

#[test]
fn columns_step_by_nine() {
    let board = indices();
    assert_eq!(get_column(1, &board), vec![0, 9, 18, 27, 36, 45, 54, 63, 72]);
    assert_eq!(get_column(4, &board), vec![3, 12, 21, 30, 39, 48, 57, 66, 75]);
    assert_eq!(get_column(9, &board), vec![8, 17, 26, 35, 44, 53, 62, 71, 80]);
}

#[test]
fn subgrids_are_row_major_blocks() {
    let board = indices();
    assert_eq!(get_subgrid(1, &board), vec![0, 1, 2, 9, 10, 11, 18, 19, 20]);
    assert_eq!(get_subgrid(2, &board), vec![3, 4, 5, 12, 13, 14, 21, 22, 23]);
    assert_eq!(get_subgrid(4, &board), vec![27, 28, 29, 36, 37, 38, 45, 46, 47]);
    assert_eq!(get_subgrid(6, &board), vec![33, 34, 35, 42, 43, 44, 51, 52, 53]);
    assert_eq!(get_subgrid(9, &board), vec![60, 61, 62, 69, 70, 71, 78, 79, 80]);
}

#[test]
fn accessors_cover_the_board_once() {
    let board = indices();
    for unit in 0..3 {
        let mut seen = vec![0u32; 81];
        for index in 1..=9 {
            let cells = match unit {
                0 => get_row(index, &board),
                1 => get_column(index, &board),
                _ => get_subgrid(index, &board),
            };
            assert_eq!(cells.len(), 9);
            for p in cells {
                seen[p] += 1;
            }
        }
        assert_eq!(seen, vec![1u32; 81]);
    }
}

#[test]
fn accessors_clone_what_is_not_copy() {
    let board: Vec<String> = (0..81).map(|i| format!("c{}", i)).collect();
    let row = get_row(2, &board);
    assert_eq!(row[0], "c9");
    assert_eq!(row[8], "c17");
    let column = get_column(2, &board);
    assert_eq!(column[1], "c10");
    let subgrid = get_subgrid(9, &board);
    assert_eq!(subgrid[8], "c80");
}

#[test]
fn board_keeps_its_cells() {
    let board = Board::from_bytes(PUZZLE).unwrap();
    assert_eq!(board.to_bytes(), PUZZLE);
    assert_eq!(Board::from_bytes([0u8; 81]).unwrap().to_bytes(), [0u8; 81]);
    assert_eq!(Board::from_bytes([9u8; 81]).unwrap().to_bytes(), [9u8; 81]);
}

#[test]
fn board_refuses_a_cell_above_nine() {
    for position in [0usize, 40, 80] {
        let mut cells = PUZZLE;
        cells[position] = 10;
        assert_eq!(Board::from_bytes(cells), Err(ProofError::InvalidSudoku));
        cells[position] = 255;
        assert_eq!(Board::from_bytes(cells), Err(ProofError::InvalidSudoku));
    }
}

#[test]
fn board_agrees_with_the_solver_on_uniqueness() {
    assert!(Board::from_bytes(PUZZLE).unwrap().is_uniquely_solvable());
    assert!(!Board::from_bytes([0u8; 81]).unwrap().is_uniquely_solvable());
    // two equal digits in one row: no solution at all
    let mut clash = PUZZLE;
    clash[2] = 5;
    assert!(!Board::from_bytes(clash).unwrap().is_uniquely_solvable());
    // one clue less: more than one solution, or still one
    let mut fewer = PUZZLE;
    fewer[0] = 0;
    assert_eq!(
        Board::from_bytes(fewer).unwrap().is_uniquely_solvable(),
        Sudoku::from_bytes(fewer).unwrap().is_uniquely_solvable()
    );
}

#[test]
fn statement_and_witness_hold_the_board() {
    let board = Board::from_bytes(PUZZLE).unwrap();
    assert_eq!(Statement::new(board).statement, board);
    assert_eq!(Witness::new(board).witness, board);
}

#[test]
fn challenge_positions_by_number() {
    let statement = Statement::new(Board::from_bytes(PUZZLE).unwrap());
    let positions = |number: usize| Challenge { number }.positions(&statement);
    assert_eq!(positions(0), Ok(vec![0, 1, 2, 3, 4, 5, 6, 7, 8]));
    assert_eq!(positions(8), Ok(vec![72, 73, 74, 75, 76, 77, 78, 79, 80]));
    assert_eq!(positions(9), Ok(vec![0, 9, 18, 27, 36, 45, 54, 63, 72]));
    assert_eq!(positions(17), Ok(vec![8, 17, 26, 35, 44, 53, 62, 71, 80]));
    assert_eq!(positions(18), Ok(vec![0, 1, 2, 9, 10, 11, 18, 19, 20]));
    assert_eq!(positions(22), Ok(vec![30, 31, 32, 39, 40, 41, 48, 49, 50]));
    assert_eq!(positions(26), Ok(vec![60, 61, 62, 69, 70, 71, 78, 79, 80]));
    let clues: Vec<usize> = (0..81).filter(|&i| PUZZLE[i] != 0).collect();
    assert_eq!(clues.len(), 30);
    assert_eq!(positions(27), Ok(clues));
    assert_eq!(positions(28), Err(ProofError::InvalidChallenge));
    assert_eq!(positions(usize::MAX), Err(ProofError::InvalidChallenge));
}

#[test]
fn clue_challenge_on_an_empty_and_a_full_board() {
    let empty = Statement::new(Board::from_bytes([0u8; 81]).unwrap());
    assert_eq!(Challenge { number: 27 }.positions(&empty), Ok(Vec::new()));
    let full = Statement::new(Board::from_bytes([1u8; 81]).unwrap());
    assert_eq!(Challenge { number: 27 }.positions(&full), Ok((0..81).collect::<Vec<usize>>()));
}
