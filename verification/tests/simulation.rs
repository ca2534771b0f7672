use snek::direction::{Direction, Keys};
use snek::grid::{is_in_bounds, Position};
use snek::store::{Component, Entity, Tag};
use snek::world::{TickReport, World};

fn press(left: bool, right: bool, up: bool, down: bool) -> Keys {
    Keys { left, right, up, down }
}

fn cells(list: &[(i32, i32)]) -> Vec<Position> {
    list.iter().map(|&(x, y)| Position::new(x, y)).collect()
}

fn quiet() -> TickReport {
    TickReport { game_over: false, ate: false }
}

fn food_count(world: &World) -> usize {
    let mut n = 0;
    for k in 0..world.store.len() {
        if let Some(c) = world.store.get(Entity { index: k }) {
            if c.tag == Tag::Food {
                n += 1;
            }
        }
    }
    n
}

/// A snake of `len` cells in a column, head at (3, len + 1), heading up.
fn grown_to(len: usize) -> World {
    let mut world = World::new();
    while world.length() < len {
        let next = world.head().advance(Direction::Up);
        assert!(world.place_food(next).is_some());
        assert_eq!(world.tick(), TickReport { game_over: false, ate: true });
    }
    world
}

#[test]
fn new_world_is_the_starting_configuration() {
    let world = World::new();
    assert!(world.is_valid());
    assert!(world.is_wf());
    assert_eq!(world.length(), 2);
    assert_eq!(world.head(), Position::new(3, 3));
    assert_eq!(world.positions(), cells(&[(3, 3), (3, 2)]));
    assert_eq!(world.direction, Direction::Up);
    assert_eq!(world.next_direction, Direction::Up);
    assert_eq!(world.last_tail, None);
    assert!(!world.growth);
    assert!(!world.game_over);
    assert_eq!(world.store.len(), 2);
    assert_eq!(world.store.get(world.segments[0]), Some(Component::spawned(Tag::Head, Position::new(3, 3))));
    assert_eq!(world.store.get(world.segments[1]), Some(Component::spawned(Tag::Segment, Position::new(3, 2))));
    assert_eq!(food_count(&world), 0);
}

#[test]
fn one_tick_without_input_moves_the_snake_up() {
    let mut world = World::new();
    let report = world.tick();
    assert_eq!(report, quiet());
    assert_eq!(world.positions(), cells(&[(3, 4), (3, 3)]));
    assert_eq!(world.last_tail, Some(Position::new(3, 2)));
    assert_eq!(world.length(), 2);
    assert!(world.is_wf());
}

#[test]
fn running_into_the_left_wall_resets_the_world() {
    let mut world = World::new();
    world.input(press(true, false, false, false));
    assert_eq!(world.tick(), quiet());
    assert_eq!(world.tick(), quiet());
    assert_eq!(world.tick(), quiet());
    assert_eq!(world.head(), Position::new(0, 3));
    assert_eq!(world.direction, Direction::Left);
    assert!(world.place_food(Position::new(10, 10)).is_some());
    let report = world.tick();
    assert_eq!(report, TickReport { game_over: true, ate: false });
    assert_eq!(world.positions(), cells(&[(3, 3), (3, 2)]));
    assert_eq!(world.direction, Direction::Up);
    assert_eq!(world.next_direction, Direction::Up);
    assert_eq!(world.store.len(), 5);
    assert_eq!(world.segments, vec![Entity { index: 3 }, Entity { index: 4 }]);
    assert_eq!(world.store.get(Entity { index: 3 }), Some(Component::spawned(Tag::Head, Position::new(3, 3))));
    assert_eq!(world.store.get(Entity { index: 4 }), Some(Component::spawned(Tag::Segment, Position::new(3, 2))));
    for k in 0..3 {
        assert_eq!(world.store.get(Entity { index: k }), None);
    }
    assert_eq!(food_count(&world), 0);
    assert!(!world.game_over);
    assert!(world.is_wf());
}

#[test]
fn movement_alone_leaves_the_head_off_the_board_until_the_reset() {
    let mut world = World::new();
    world.input(press(true, false, false, false));
    world.tick();
    world.tick();
    world.tick();
    world.movement();
    assert!(world.game_over);
    assert_eq!(world.head(), Position::new(-1, 3));
    assert!(!is_in_bounds(world.head()));
    assert_eq!(world.positions(), cells(&[(-1, 3), (0, 3)]));
    assert!(!world.is_wf());
    assert!(world.is_valid());
    assert!(!world.eating());
    world.growth();
    assert_eq!(world.length(), 2);
    assert!(world.handle_game_over());
    assert_eq!(world.positions(), cells(&[(3, 3), (3, 2)]));
    assert!(world.is_wf());
}

#[test]
fn eating_grows_the_snake_at_the_cell_the_tail_left() {
    let mut world = World::new();
    let food = world.place_food(Position::new(3, 4)).unwrap();
    assert_eq!(world.store.get(food), Some(Component::spawned(Tag::Food, Position::new(3, 4))));
    world.movement();
    assert_eq!(world.head(), Position::new(3, 4));
    assert_eq!(world.last_tail, Some(Position::new(3, 2)));
    assert!(world.eating());
    assert!(world.growth);
    assert_eq!(world.store.get(food), None);
    assert_eq!(world.length(), 2);
    world.growth();
    assert!(!world.growth);
    assert_eq!(world.length(), 3);
    assert_eq!(world.positions(), cells(&[(3, 4), (3, 3), (3, 2)]));
    let tail = world.segments[2];
    assert_eq!(world.store.get(tail), Some(Component::spawned(Tag::Segment, Position::new(3, 2))));
    assert!(!world.handle_game_over());
    assert!(world.is_wf());
}

#[test]
fn tick_reports_the_meal_and_the_snake_is_one_longer() {
    let mut world = World::new();
    world.place_food(Position::new(3, 4));
    world.place_food(Position::new(7, 7));
    let before = world.length();
    let old_tail = *world.positions().last().unwrap();
    let report = world.tick();
    assert_eq!(report, TickReport { game_over: false, ate: true });
    assert_eq!(world.length(), before + 1);
    assert_eq!(*world.positions().last().unwrap(), old_tail);
    assert_eq!(world.last_tail, Some(old_tail));
    assert_eq!(food_count(&world), 1);
    assert_eq!(world.tick(), quiet());
    assert_eq!(world.positions(), cells(&[(3, 5), (3, 4), (3, 3)]));
}

#[test]
fn two_pieces_on_one_cell_pay_for_one_segment() {
    let mut world = World::new();
    assert!(world.place_food(Position::new(3, 4)).is_some());
    assert!(world.place_food(Position::new(3, 4)).is_some());
    assert_eq!(food_count(&world), 2);
    let report = world.tick();
    assert!(report.ate);
    assert_eq!(world.length(), 3);
    assert_eq!(food_count(&world), 0);
}

#[test]
fn growth_without_a_debt_changes_nothing() {
    let mut world = World::new();
    world.tick();
    let rows = world.store.len();
    world.growth();
    assert_eq!(world.length(), 2);
    assert_eq!(world.store.len(), rows);
    assert!(!world.eating());
    assert!(!world.growth);
}

#[test]
fn spawn_segment_does_not_join_the_snake() {
    let mut world = World::new();
    let e = world.spawn_segment(Position::new(9, 9));
    assert_eq!(e, Entity { index: 2 });
    assert_eq!(world.length(), 2);
    assert_eq!(world.store.get(e), Some(Component::spawned(Tag::Segment, Position::new(9, 9))));
    assert!(world.is_valid());
}

#[test]
fn spawn_snek_keeps_what_was_in_the_table() {
    let mut world = World::new();
    world.place_food(Position::new(5, 5));
    world.tick();
    world.spawn_snek();
    assert_eq!(world.store.len(), 5);
    assert_eq!(world.segments, vec![Entity { index: 3 }, Entity { index: 4 }]);
    assert_eq!(world.positions(), cells(&[(3, 3), (3, 2)]));
    assert_eq!(world.direction, Direction::Up);
    assert_eq!(food_count(&world), 1);
    assert!(world.is_valid());
}

#[test]
fn handler_without_a_game_over_changes_nothing() {
    let mut world = World::new();
    world.tick();
    assert!(!world.handle_game_over());
    assert_eq!(world.positions(), cells(&[(3, 4), (3, 3)]));
    assert_eq!(world.last_tail, Some(Position::new(3, 2)));
}

#[test]
fn input_rejects_a_reversal_and_keeps_the_buffer() {
    let mut world = World::new();
    world.input(press(false, false, false, true));
    assert_eq!(world.next_direction, Direction::Up);
    world.input(press(true, false, false, false));
    assert_eq!(world.next_direction, Direction::Left);
    world.input(press(false, false, false, true));
    assert_eq!(world.next_direction, Direction::Left);
    assert_eq!(world.direction, Direction::Up);
    world.tick();
    assert_eq!(world.direction, Direction::Left);
    assert_eq!(world.head(), Position::new(2, 3));
    world.input(press(false, true, false, false));
    assert_eq!(world.next_direction, Direction::Left);
}

#[test]
fn input_for_the_current_direction_replaces_the_buffer() {
    let mut world = World::new();
    world.input(press(true, false, false, false));
    assert_eq!(world.direction, Direction::Up);
    assert_eq!(world.next_direction, Direction::Left);
    world.input(press(false, false, true, false));
    assert_eq!(world.next_direction, Direction::Up);
    assert_eq!(world.direction, Direction::Up);
    world.tick();
    assert_eq!(world.head(), Position::new(3, 4));
}

#[test]
fn input_without_keys_buffers_the_current_direction() {
    let mut world = World::new();
    world.input(press(false, true, false, false));
    assert_eq!(world.next_direction, Direction::Right);
    world.input(Keys::none());
    assert_eq!(world.next_direction, Direction::Up);
    assert_eq!(world.direction, Direction::Up);
}

#[test]
fn input_takes_the_first_key_in_priority_order() {
    let mut world = World::new();
    world.input(press(true, true, true, true));
    assert_eq!(world.next_direction, Direction::Left);
    world.input(press(false, true, true, true));
    assert_eq!(world.next_direction, Direction::Right);
}

#[test]
fn running_into_the_body_resets_the_world() {
    let mut world = grown_to(5);
    assert_eq!(world.positions(), cells(&[(3, 6), (3, 5), (3, 4), (3, 3), (3, 2)]));
    world.input(press(true, false, false, false));
    assert_eq!(world.tick(), quiet());
    world.input(press(false, false, false, true));
    assert_eq!(world.tick(), quiet());
    assert_eq!(world.positions(), cells(&[(2, 5), (2, 6), (3, 6), (3, 5), (3, 4)]));
    world.input(press(false, true, false, false));
    let report = world.tick();
    assert_eq!(report, TickReport { game_over: true, ate: false });
    assert_eq!(world.positions(), cells(&[(3, 3), (3, 2)]));
    assert_eq!(world.store.len(), 10);
    assert_eq!(world.segments, vec![Entity { index: 8 }, Entity { index: 9 }]);
}

#[test]
fn the_cell_that_the_tail_is_leaving_still_counts_as_body() {
    let mut world = grown_to(4);
    assert_eq!(world.positions(), cells(&[(3, 5), (3, 4), (3, 3), (3, 2)]));
    world.input(press(true, false, false, false));
    assert_eq!(world.tick(), quiet());
    world.input(press(false, false, false, true));
    assert_eq!(world.tick(), quiet());
    assert_eq!(world.positions(), cells(&[(2, 4), (2, 5), (3, 5), (3, 4)]));
    world.input(press(false, true, false, false));
    world.movement();
    assert!(world.game_over);
    assert_eq!(world.positions(), cells(&[(3, 4), (2, 4), (2, 5), (3, 5)]));
    assert!(world.handle_game_over());
}

#[test]
fn self_collision_raises_one_game_over_for_many_matches() {
    let mut world = grown_to(5);
    world.input(press(true, false, false, false));
    world.tick();
    world.input(press(false, false, false, true));
    world.tick();
    // Two more segments are put on the cell that the head is about to enter.
    let target = Position::new(3, 5);
    let a = world.spawn_segment(target);
    world.segments.push(a);
    let b = world.spawn_segment(target);
    world.segments.push(b);
    assert!(world.is_valid());
    world.input(press(false, true, false, false));
    world.movement();
    assert!(world.game_over);
    assert!(world.handle_game_over());
    assert!(!world.game_over);
    assert!(!world.handle_game_over());
}

#[test]
fn length_never_shrinks_without_a_reset() {
    let mut world = World::new();
    world.place_food(Position::new(3, 6));
    world.place_food(Position::new(3, 9));
    let mut last = world.length();
    for _ in 0..20 {
        let report = world.tick();
        assert!(!report.game_over);
        assert!(world.length() >= last);
        last = world.length();
    }
    assert_eq!(last, 4);
    assert_eq!(world.head(), Position::new(3, 23));
}

#[test]
fn top_wall_ends_the_game_after_the_last_row() {
    let mut world = World::new();
    for _ in 0..26 {
        assert_eq!(world.tick(), quiet());
    }
    assert_eq!(world.head(), Position::new(3, 29));
    assert_eq!(world.tick(), TickReport { game_over: true, ate: false });
    assert_eq!(world.head(), Position::new(3, 3));
}

#[test]
fn food_is_not_placed_on_the_snake_or_off_the_board() {
    let mut world = World::new();
    assert_eq!(world.place_food(Position::new(3, 3)), None);
    assert_eq!(world.place_food(Position::new(3, 2)), None);
    assert_eq!(world.place_food(Position::new(-1, 0)), None);
    assert_eq!(world.place_food(Position::new(30, 30)), None);
    assert_eq!(world.store.len(), 2);
    assert_eq!(world.place_food(Position::new(0, 0)), Some(Entity { index: 2 }));
    assert_eq!(world.store.len(), 3);
    assert!(world.is_free(Position::new(0, 0)));
    assert!(!world.is_free(Position::new(3, 3)));
}

#[test]
fn spawn_food_without_draws_does_nothing() {
    let mut world = World::new();
    assert_eq!(world.spawn_food(0), None);
    assert_eq!(world.store.len(), 2);
}

#[test]
fn spawn_food_lands_on_a_free_cell_of_the_board() {
    let mut hits = vec![false; 900];
    for _ in 0..300 {
        let mut world = World::new();
        let pos = world.spawn_food(1000).unwrap();
        assert!(is_in_bounds(pos));
        assert!(world.is_free(pos));
        assert_ne!(pos, Position::new(3, 3));
        assert_ne!(pos, Position::new(3, 2));
        assert_eq!(world.store.len(), 3);
        assert_eq!(world.store.get(Entity { index: 2 }), Some(Component::spawned(Tag::Food, pos)));
        assert_eq!(world.positions(), cells(&[(3, 3), (3, 2)]));
        hits[(pos.y * 30 + pos.x) as usize] = true;
    }
    assert!(hits.iter().filter(|h| **h).count() > 50);
}

#[test]
fn spawn_food_adds_a_second_piece_while_one_lies_there() {
    let mut world = World::new();
    assert!(world.spawn_food(1000).is_some());
    assert!(world.spawn_food(1000).is_some());
    assert_eq!(food_count(&world), 2);
}

#[test]
fn checks_reject_a_broken_state() {
    let mut world = World::new();
    world.next_direction = Direction::Down;
    assert!(!world.is_valid());
    let mut world = World::new();
    world.segments.pop();
    assert!(!world.is_valid());
    let mut world = World::new();
    world.segments.push(Entity { index: 1 });
    assert!(!world.is_valid());
    let mut world = World::new();
    world.store.despawn(Entity { index: 1 });
    assert!(!world.is_valid());
    let mut world = World::new();
    world.growth = true;
    assert!(world.is_valid());
    assert!(!world.is_wf());
    let mut world = World::new();
    world.store.set_position(Entity { index: 1 }, Position::new(3, -1));
    assert!(world.is_valid());
    assert!(!world.is_wf());
}

#[test]
fn spawn_food_succeeds_at_once_while_the_snake_is_off_the_board() {
    for _ in 0..50 {
        let mut world = World::new();
        world.store.set_position(Entity { index: 0 }, Position::new(-1, 3));
        world.store.set_position(Entity { index: 1 }, Position::new(-2, 3));
        assert!(world.is_valid());
        let pos = world.spawn_food(1).unwrap();
        assert!(is_in_bounds(pos));
        assert_eq!(world.store.get(Entity { index: 2 }), Some(Component::spawned(Tag::Food, pos)));
    }
}

#[test]
fn food_is_not_placed_on_a_segment_outside_the_snake() {
    let mut world = World::new();
    let stray = world.spawn_segment(Position::new(9, 9));
    assert_eq!(world.length(), 2);
    assert!(!world.is_free(Position::new(9, 9)));
    assert_eq!(world.place_food(Position::new(9, 9)), None);
    world.store.despawn(stray);
    assert!(world.is_free(Position::new(9, 9)));
    assert!(world.place_food(Position::new(9, 9)).is_some());
}

#[test]
fn food_is_not_placed_on_a_snake_left_behind_by_a_second_spawn() {
    let mut world = World::new();
    world.tick();
    world.spawn_snek();
    assert_eq!(world.positions(), cells(&[(3, 3), (3, 2)]));
    // The first snake is still in the table, at (3, 4) and (3, 3).
    assert_eq!(world.place_food(Position::new(3, 4)), None);
    assert_eq!(world.place_food(Position::new(3, 2)), None);
    assert!(world.place_food(Position::new(3, 5)).is_some());
}

#[test]
fn growth_keeps_the_old_snake_as_the_front_of_the_new() {
    let mut world = World::new();
    world.place_food(Position::new(3, 4));
    world.movement();
    world.eating();
    let before = world.segments.clone();
    let cells_before = world.positions();
    world.growth();
    assert_eq!(world.segments.len(), before.len() + 1);
    assert_eq!(&world.segments[..before.len()], &before[..]);
    assert_eq!(&world.positions()[..cells_before.len()], &cells_before[..]);
    let again = world.segments.clone();
    let rows = world.store.len();
    world.growth();
    assert_eq!(world.segments, again);
    assert_eq!(world.store.len(), rows);
}

#[test]
fn no_identifier_from_before_a_reset_names_an_entity_after_it() {
    let mut world = grown_to(4);
    world.place_food(Position::new(20, 20));
    world.input(press(true, false, false, false));
    let before = world.segments.clone();
    let rows = world.store.len();
    assert_eq!(before[0], Entity { index: 0 });
    let mut resets = 0;
    for _ in 0..10 {
        if world.tick().game_over {
            resets += 1;
            break;
        }
    }
    assert_eq!(resets, 1);
    for e in before.iter() {
        assert_eq!(world.store.get(*e), None);
        assert!(!world.segments.contains(e));
    }
    for k in 0..rows {
        assert_eq!(world.store.get(Entity { index: k }), None);
    }
    assert_eq!(world.store.len(), rows + 2);
    assert_eq!(world.segments, vec![Entity { index: rows }, Entity { index: rows + 1 }]);
    assert_eq!(world.direction, Direction::Up);
    assert_eq!(world.next_direction, Direction::Up);
    assert_eq!(world.store.get(world.segments[0]).unwrap().tag, Tag::Head);
    assert_eq!(world.store.get(world.segments[1]).unwrap().tag, Tag::Segment);
    assert!(world.is_wf());
}

#[test]
fn handler_resets_from_any_heading() {
    let mut world = World::new();
    world.input(press(true, false, false, false));
    world.tick();
    assert_eq!(world.direction, Direction::Left);
    world.game_over = true;
    let old_head = world.segments[0];
    let old_tail = world.segments[1];
    assert!(world.handle_game_over());
    assert_eq!(world.direction, Direction::Up);
    assert_eq!(world.next_direction, Direction::Up);
    assert_eq!(world.store.get(old_head), None);
    assert_eq!(world.store.get(old_tail), None);
    assert_eq!(world.segments, vec![Entity { index: 2 }, Entity { index: 3 }]);
    assert_eq!(world.positions(), cells(&[(3, 3), (3, 2)]));
}

#[test]
fn a_tick_keeps_the_identifiers_tags_and_sizes_of_the_snake() {
    let mut world = World::new();
    world.place_food(Position::new(3, 4));
    world.place_food(Position::new(8, 8));
    let report = world.tick();
    assert!(report.ate);
    assert_eq!(world.segments, vec![Entity { index: 0 }, Entity { index: 1 }, Entity { index: 4 }]);
    assert_eq!(world.store.get(Entity { index: 0 }), Some(Component::spawned(Tag::Head, Position::new(3, 4))));
    assert_eq!(world.store.get(Entity { index: 1 }), Some(Component::spawned(Tag::Segment, Position::new(3, 3))));
    assert_eq!(world.store.get(Entity { index: 2 }), None);
    assert_eq!(world.store.get(Entity { index: 3 }), Some(Component::spawned(Tag::Food, Position::new(8, 8))));
    assert_eq!(world.store.get(Entity { index: 4 }), Some(Component::spawned(Tag::Segment, Position::new(3, 2))));
    assert_eq!(world.store.len(), 5);
}
