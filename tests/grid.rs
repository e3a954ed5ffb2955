use snake_game::grid::{neighbor_index, Direction};

const ALL: [Direction; 4] = [Direction::Up, Direction::Right, Direction::Down, Direction::Left];

fn opposite(d: Direction) -> Direction {
    match d {
        Direction::Up => Direction::Down,
        Direction::Right => Direction::Left,
        Direction::Down => Direction::Up,
        Direction::Left => Direction::Right,
    }
}

#[test]
fn right_neighbor_without_wrap() {
    assert_eq!(11 % 8, 3);
    assert_eq!(neighbor_index(11, 8, Direction::Right), 12);
}

#[test]
fn right_wraps_to_first_column_of_same_row() {
    assert_eq!(neighbor_index(15, 8, Direction::Right), 8);
}

#[test]
fn left_wraps_to_last_column_of_same_row() {
    assert_eq!(neighbor_index(8, 8, Direction::Left), 15);
    assert_eq!(neighbor_index(0, 8, Direction::Left), 7);
    assert_eq!(neighbor_index(9, 8, Direction::Left), 8);
}

#[test]
fn up_wraps_to_last_row_of_same_column() {
    assert_eq!(neighbor_index(3, 8, Direction::Up), 59);
    assert_eq!(neighbor_index(0, 8, Direction::Up), 56);
    assert_eq!(neighbor_index(11, 8, Direction::Up), 3);
}

#[test]
fn down_wraps_to_first_row_of_same_column() {
    assert_eq!(neighbor_index(59, 8, Direction::Down), 3);
    assert_eq!(neighbor_index(63, 8, Direction::Down), 7);
    assert_eq!(neighbor_index(11, 8, Direction::Down), 19);
}

#[test]
fn moves_stay_in_row_or_column_on_every_cell() {
    for width in 1..10usize {
        for index in 0..width * width {
            let (row, col) = (index / width, index % width);
            let r = neighbor_index(index, width, Direction::Right);
            assert_eq!((r / width, r % width), (row, (col + 1) % width));
            let l = neighbor_index(index, width, Direction::Left);
            assert_eq!((l / width, l % width), (row, (col + width - 1) % width));
            let d = neighbor_index(index, width, Direction::Down);
            assert_eq!((d / width, d % width), ((row + 1) % width, col));
            let u = neighbor_index(index, width, Direction::Up);
            assert_eq!((u / width, u % width), ((row + width - 1) % width, col));
        }
    }
}

#[test]
fn opposite_moves_return_to_start() {
    for width in 1..10usize {
        for index in 0..width * width {
            for d in ALL {
                let there = neighbor_index(index, width, d);
                assert_eq!(neighbor_index(there, width, opposite(d)), index);
            }
        }
    }
}

#[test]
fn moves_near_largest_board_do_not_overflow() {
    let width: usize = 1 << (usize::BITS / 2 - 1);
    let size = width * width;
    assert_eq!(neighbor_index(size - 1, width, Direction::Down), width - 1);
    assert_eq!(neighbor_index(0, width, Direction::Up), size - width);
    assert_eq!(neighbor_index(size - 1, width, Direction::Right), size - width);
}
