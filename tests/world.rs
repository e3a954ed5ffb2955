use snake_game::grid::Direction;
use snake_game::world::{GameStatus, SnakeCell, World, WorldError};

fn cells(w: &World) -> Vec<usize> {
    w.snake_cells().iter().map(|c: &SnakeCell| c.0).collect()
}

fn world(width: usize, spawn: usize) -> World {
    match World::new(width, spawn) {
        Ok(w) => w,
        Err(e) => panic!("cannot build world: {:?}", e),
    }
}

#[test]
fn new_world_has_three_cells_ending_at_spawn() {
    let w = world(8, 11);
    assert_eq!(cells(&w), vec![11, 10, 9]);
    assert_eq!(w.width(), 8);
    assert_eq!(w.size(), 64);
    assert_eq!(w.snake_head_idx(), 11);
    assert_eq!(w.snake_length(), 3);
    assert_eq!(w.game_status(), None);
    assert_eq!(w.reward_cell(), None);
    assert!(w.needs_reward());
}

#[test]
fn new_world_heads_right() {
    let mut w = world(8, 11);
    w.start_game();
    w.step();
    assert_eq!(w.snake_head_idx(), 12);
}

#[test]
fn new_rejects_bad_boards() {
    assert_eq!(World::new(0, 0).err(), Some(WorldError::ZeroWidth));
    assert_eq!(World::new(usize::MAX, 5).err(), Some(WorldError::BoardTooLarge));
    assert_eq!(World::new(8, 64).err(), Some(WorldError::SpawnOutOfRange));
    assert_eq!(World::new(8, 1).err(), Some(WorldError::SpawnOutOfRange));
    assert_eq!(World::new(1, 0).err(), Some(WorldError::SpawnOutOfRange));
    assert!(World::new(2, 2).is_ok());
}

#[test]
fn step_moves_whole_body() {
    let mut w = world(8, 11);
    w.start_game();
    w.step();
    assert_eq!(cells(&w), vec![12, 11, 10]);
}

#[test]
fn step_before_start_does_not_move() {
    let mut w = world(8, 11);
    w.step();
    assert_eq!(cells(&w), vec![11, 10, 9]);
    assert_eq!(w.game_status(), None);
}

#[test]
fn reversal_is_rejected() {
    let mut w = world(8, 11);
    w.start_game();
    w.step();
    assert_eq!(cells(&w), vec![12, 11, 10]);
    w.change_snake_dir(Direction::Left);
    w.step();
    assert_eq!(cells(&w), vec![13, 12, 11]);
}

#[test]
fn turn_is_staged_until_next_step() {
    let mut w = world(8, 11);
    w.start_game();
    w.change_snake_dir(Direction::Down);
    assert_eq!(cells(&w), vec![11, 10, 9]);
    w.step();
    assert_eq!(cells(&w), vec![19, 11, 10]);
    w.step();
    assert_eq!(cells(&w), vec![27, 19, 11]);
}

#[test]
fn latest_valid_turn_wins() {
    let mut w = world(8, 11);
    w.start_game();
    w.change_snake_dir(Direction::Up);
    w.change_snake_dir(Direction::Down);
    w.step();
    assert_eq!(w.snake_head_idx(), 19);
}

#[test]
fn eating_grows_behind_head() {
    let mut w = world(8, 11);
    assert!(w.offer_reward_cell(12));
    assert_eq!(w.reward_cell(), Some(12));
    w.start_game();
    w.step();
    assert_eq!(w.snake_length(), 4);
    assert_eq!(cells(&w), vec![12, 11, 11, 10]);
    assert_eq!(w.reward_cell(), None);
    assert!(w.needs_reward());
    for occupied in [12, 11, 10] {
        assert!(!w.offer_reward_cell(occupied));
    }
    assert_eq!(w.reward_cell(), None);
    assert!(w.offer_reward_cell(0));
    assert_eq!(w.reward_cell(), Some(0));
    assert_eq!(w.game_status(), Some(GameStatus::Played));
}

#[test]
fn reward_offer_avoids_body_and_board_edge() {
    let mut w = world(8, 11);
    for occupied in [11, 10, 9] {
        assert!(!w.offer_reward_cell(occupied));
    }
    assert!(!w.offer_reward_cell(64));
    assert_eq!(w.reward_cell(), None);
    assert!(w.offer_reward_cell(40));
    assert!(!w.needs_reward());
    assert!(!w.offer_reward_cell(41));
    assert_eq!(w.reward_cell(), Some(40));
}

#[test]
fn filling_board_wins_and_freezes() {
    let mut w = world(2, 3);
    assert_eq!(cells(&w), vec![3, 2, 1]);
    assert!(w.offer_reward_cell(0));
    w.start_game();
    w.step();
    assert_eq!(cells(&w), vec![2, 3, 2]);
    w.change_snake_dir(Direction::Up);
    w.step();
    assert_eq!(cells(&w), vec![0, 2, 2, 3]);
    assert_eq!(w.snake_length(), w.size());
    assert_eq!(w.game_status(), Some(GameStatus::Won));
    assert_eq!(w.reward_cell(), None);
    assert!(!w.needs_reward());
    assert_eq!(w.game_status_text(), "You have won!");
    w.step();
    assert_eq!(cells(&w), vec![0, 2, 2, 3]);
    w.start_game();
    assert_eq!(w.game_status(), Some(GameStatus::Won));
}

#[test]
fn status_text_follows_status() {
    let mut w = world(8, 11);
    assert_eq!(w.game_status_text(), "No Status");
    w.start_game();
    assert_eq!(w.game_status(), Some(GameStatus::Played));
    assert_eq!(w.game_status_text(), "Playing");
}
