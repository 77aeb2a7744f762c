use blockchain_learning_platform::puzzle::{
    blank, generate_base_square, generate_incomplete_magic_square, generate_random_magic_square,
    randomize,
};

fn canonical() -> Vec<Vec<u32>> {
    vec![
        vec![16, 2, 3, 13],
        vec![5, 11, 10, 8],
        vec![9, 7, 6, 12],
        vec![4, 14, 15, 1],
    ]
}

fn zero_cells(g: &Vec<Vec<u32>>) -> usize {
    g.iter().map(|row| row.iter().filter(|&&v| v == 0).count()).sum()
}

fn all_values_sorted(g: &Vec<Vec<u32>>) -> Vec<u32> {
    let mut vals: Vec<u32> = g.iter().flat_map(|row| row.iter().copied()).collect();
    vals.sort();
    vals
}

#[test]
fn base_square_is_canonical() {
    assert_eq!(generate_base_square(), canonical());
}

#[test]
fn randomize_keeps_the_sixteen_values() {
    let square = randomize(&generate_base_square());
    assert_eq!(square.len(), 4);
    for row in &square {
        assert_eq!(row.len(), 4);
    }
    let expected: Vec<u32> = (1..=16).collect();
    assert_eq!(all_values_sorted(&square), expected);
}

#[test]
fn random_magic_square_has_no_blanks() {
    let square = generate_random_magic_square();
    assert_eq!(zero_cells(&square), 0);
}

#[test]
fn puzzle_blanks_exactly_four_cells() {
    let puzzle = generate_incomplete_magic_square(4);
    assert_eq!(puzzle.len(), 4);
    for row in &puzzle {
        assert_eq!(row.len(), 4);
    }
    assert_eq!(zero_cells(&puzzle), 4);
    // every unblanked cell holds one of the canonical square's values
    for row in &puzzle {
        for &v in row {
            if v != 0 {
                assert!((1..=16).contains(&v), "cell {} is not a canonical value", v);
            }
        }
    }
}

#[test]
fn puzzle_with_no_blanks_keeps_every_cell() {
    let puzzle = generate_incomplete_magic_square(0);
    assert_eq!(zero_cells(&puzzle), 0);
}

#[test]
fn puzzle_can_blank_every_cell() {
    let puzzle = generate_incomplete_magic_square(16);
    assert_eq!(zero_cells(&puzzle), 16);
}

#[test]
fn blank_request_is_clamped_to_sixteen() {
    let puzzle = generate_incomplete_magic_square(100);
    assert_eq!(zero_cells(&puzzle), 16);
}

#[test]
fn blank_leaves_other_cells_unchanged() {
    let square = canonical();
    let blanked = blank(&square, 3);
    assert_eq!(zero_cells(&blanked), 3);
    for i in 0..4 {
        for j in 0..4 {
            let v = blanked[i][j];
            assert!(v == 0 || v == square[i][j]);
        }
    }
}
