use rnibbles::board::{clamp_wrap, Position, BOARD_MAX_X, BOARD_MAX_Y, BOARD_MIN_X, BOARD_MIN_Y};
use rnibbles::direction::{advance, Direction};
use rnibbles::fruit::{Fruit, Rgb, FRUIT_COLUMNS, FRUIT_ROWS};
use rnibbles::game::Game;
use rnibbles::worm::{StepOutcome, Worm, BASE_TICK_INTERVAL};

fn pos(x: i32, y: i32) -> Position {
    Position { x, y }
}

fn far_fruit() -> Position {
    pos(-400, -300)
}

fn worm_with(head: Position, direction: Direction, segments: Vec<Position>) -> Worm {
    let mut w = Worm::new();
    w.head = head;
    w.direction = direction;
    w.segments = segments;
    w
}

fn assert_fruit_cell(p: Position) {
    assert_eq!((p.x - BOARD_MIN_X) % 25, 0);
    assert_eq!((p.y - BOARD_MIN_Y) % 25, 0);
    assert!(p.x >= BOARD_MIN_X && p.x < BOARD_MIN_X + 25 * FRUIT_COLUMNS as i32);
    assert!(p.y >= BOARD_MIN_Y && p.y < BOARD_MIN_Y + 25 * FRUIT_ROWS as i32);
}

#[test]
fn bounds_are_half_a_cell_inside_the_board() {
    assert_eq!((BOARD_MIN_X, BOARD_MAX_X), (-425, 425));
    assert_eq!((BOARD_MIN_Y, BOARD_MAX_Y), (-325, 325));
}

#[test]
fn clamp_wrap_values() {
    assert_eq!(clamp_wrap(450, -425, 425), -425);
    assert_eq!(clamp_wrap(-450, -425, 425), 425);
    assert_eq!(clamp_wrap(425, -425, 425), 425);
    assert_eq!(clamp_wrap(-425, -425, 425), -425);
    assert_eq!(clamp_wrap(100, -425, 425), 100);
}

#[test]
fn advance_wraps_at_every_edge() {
    assert_eq!(advance(pos(425, 0), Direction::Right), pos(-425, 0));
    assert_eq!(advance(pos(-425, 50), Direction::Left), pos(425, 50));
    assert_eq!(advance(pos(0, 325), Direction::Up), pos(0, -325));
    assert_eq!(advance(pos(75, -325), Direction::Down), pos(75, 325));
    assert_eq!(advance(pos(0, 0), Direction::Up), pos(0, 25));
}

#[test]
fn wrap_keeps_every_legal_head_on_board() {
    let dirs = [Direction::Up, Direction::Down, Direction::Right, Direction::Left];
    let mut x = BOARD_MIN_X;
    while x <= BOARD_MAX_X {
        let mut y = BOARD_MIN_Y;
        while y <= BOARD_MAX_Y {
            for d in dirs {
                let n = advance(pos(x, y), d);
                assert!(n.x >= BOARD_MIN_X && n.x <= BOARD_MAX_X);
                assert!(n.y >= BOARD_MIN_Y && n.y <= BOARD_MAX_Y);
                assert_eq!(n.x % 25, 0);
                assert_eq!(n.y % 25, 0);
            }
            y += 25;
        }
        x += 25;
    }
}

#[test]
fn new_worm_starts_at_origin_heading_right() {
    let w = Worm::new();
    assert_eq!(w.direction, Direction::Right);
    assert_eq!(w.head, pos(0, 0));
    assert!(w.segments.is_empty());
    assert_eq!(w.tick_interval, BASE_TICK_INTERVAL);
    assert_eq!(w.tick_interval, 500_000_000);
    assert_eq!(w.elapsed, 0);
    assert_eq!((w.level, w.max_level_reached), (1, 1));
}

#[test]
fn first_tick_appends_head_segment() {
    let mut w = Worm::new();
    assert_eq!(w.step(far_fruit()), StepOutcome::Moved);
    assert_eq!(w.head, pos(25, 0));
    assert_eq!(w.segments, vec![pos(25, 0)]);
}

#[test]
fn five_ticks_grow_to_initial_length() {
    let mut w = Worm::new();
    for _ in 0..5 {
        assert_eq!(w.step(far_fruit()), StepOutcome::Moved);
    }
    assert_eq!(w.head, pos(125, 0));
    assert_eq!(
        w.segments,
        vec![pos(125, 0), pos(100, 0), pos(75, 0), pos(50, 0), pos(25, 0)]
    );
    w.step(far_fruit());
    assert_eq!(w.segments.len(), 5);
}

#[test]
fn five_fired_frames_through_the_scheduler() {
    let mut g = Game { worm: Worm::new(), fruit: Fruit { position: far_fruit(), color: Rgb { r: 1, g: 2, b: 3 } } };
    for _ in 0..5 {
        assert_eq!(g.frame(250_000_000), None);
        assert_eq!(g.frame(250_000_000), Some(StepOutcome::Moved));
    }
    assert_eq!(g.worm.head, pos(125, 0));
    assert_eq!(g.worm.segments.len(), 5);
    for (i, s) in g.worm.segments.iter().enumerate() {
        assert_eq!(*s, pos(125 - 25 * i as i32, 0));
    }
}

#[test]
fn shift_moves_each_segment_to_its_predecessor() {
    let before = vec![pos(0, 0), pos(-25, 0), pos(-50, 0), pos(-50, 25), pos(-50, 50)];
    let mut w = worm_with(pos(0, 0), Direction::Down, before.clone());
    assert_eq!(w.step(far_fruit()), StepOutcome::Moved);
    assert_eq!(w.segments.len(), before.len());
    assert_eq!(w.segments[0], pos(0, -25));
    for i in 1..before.len() {
        assert_eq!(w.segments[i], before[i - 1]);
    }
}

#[test]
fn running_into_the_body_resets() {
    let segs = vec![pos(50, 0), pos(25, 0), pos(0, 0), pos(-25, 0), pos(-50, 0)];
    let mut w = worm_with(pos(50, 0), Direction::Right, segs);
    w.level = 3;
    w.max_level_reached = 4;
    w.tick_interval = 405_000_000;
    w.set_direction(Direction::Up);
    assert_eq!(w.step(far_fruit()), StepOutcome::Moved);
    w.set_direction(Direction::Left);
    assert_eq!(w.step(far_fruit()), StepOutcome::Moved);
    w.set_direction(Direction::Down);
    assert_eq!(w.step(far_fruit()), StepOutcome::Collided);
    assert_eq!(w.head, pos(25, 0));
    assert!(w.segments.is_empty());
    assert_eq!(w.level, 1);
    assert_eq!(w.max_level_reached, 4);
    assert_eq!(w.tick_interval, BASE_TICK_INTERVAL);
    assert_eq!(w.step(far_fruit()), StepOutcome::Moved);
    assert_eq!(w.segments, vec![pos(25, -25)]);
}

#[test]
fn collision_step_ignores_fruit_under_head() {
    let segs = vec![pos(25, 25), pos(50, 25), pos(50, 0), pos(25, 0), pos(0, 0)];
    let mut w = worm_with(pos(25, 25), Direction::Down, segs);
    assert_eq!(w.step(pos(25, 0)), StepOutcome::Collided);
    assert_eq!(w.level, 1);
    assert!(w.segments.is_empty());
}

#[test]
fn tail_cell_is_not_a_collision() {
    let segs = vec![pos(25, 25), pos(50, 25), pos(50, 0), pos(25, 0)];
    let mut w = worm_with(pos(25, 25), Direction::Down, segs);
    assert_eq!(w.step(far_fruit()), StepOutcome::Moved);
    assert_eq!(w.segments, vec![pos(25, 0), pos(25, 25), pos(50, 25), pos(50, 0), pos(25, 0)]);
}

#[test]
fn short_worm_turning_back_does_not_collide() {
    let mut w = worm_with(pos(25, 25), Direction::Up, vec![pos(25, 25), pos(25, 0), pos(0, 0)]);
    w.set_direction(Direction::Left);
    assert_eq!(w.step(far_fruit()), StepOutcome::Moved);
    w.set_direction(Direction::Down);
    assert_eq!(w.step(far_fruit()), StepOutcome::Moved);
    assert_eq!(w.head, pos(0, 0));
}

#[test]
fn eating_grows_speeds_up_and_levels_up() {
    let mut w = Worm::new();
    for _ in 0..5 {
        w.step(far_fruit());
    }
    assert_eq!(w.step(pos(150, 0)), StepOutcome::Ate);
    assert_eq!(w.segments.len(), 6);
    assert_eq!(w.segments[5], pos(25, 0));
    assert_eq!(w.segments[4], pos(50, 0));
    assert_eq!(w.level, 2);
    assert_eq!(w.max_level_reached, 2);
    assert_eq!(w.tick_interval, 450_000_000);
}

#[test]
fn eating_during_ramp_up_appends_twice() {
    let mut w = Worm::new();
    assert_eq!(w.step(pos(25, 0)), StepOutcome::Ate);
    assert_eq!(w.segments, vec![pos(25, 0), pos(25, 0)]);
}

#[test]
fn each_meal_multiplies_interval_by_nine_tenths() {
    let mut w = Worm::new();
    let expected = [450_000_000u64, 405_000_000, 364_500_000, 328_050_000, 295_245_000];
    for e in expected {
        let before = w.tick_interval;
        let fruit = advance(w.head, w.direction);
        assert_eq!(w.step(fruit), StepOutcome::Ate);
        assert_eq!(w.tick_interval, e);
        assert!(w.tick_interval < before);
    }
    assert_eq!(w.level, 6);
}

#[test]
fn max_level_survives_reset() {
    let mut w = Worm::new();
    for _ in 0..3 {
        let fruit = advance(w.head, w.direction);
        w.step(fruit);
    }
    assert_eq!((w.level, w.max_level_reached), (4, 4));
    assert!(!w.shows_max_level());
    w.segments = vec![pos(75, 0), pos(75, 25), pos(100, 25), pos(100, 0), pos(125, 0)];
    w.head = pos(75, 0);
    w.direction = Direction::Right;
    assert_eq!(w.step(far_fruit()), StepOutcome::Collided);
    assert_eq!((w.level, w.max_level_reached), (1, 4));
    assert!(w.shows_max_level());
    let fruit = advance(w.head, w.direction);
    w.step(fruit);
    assert_eq!((w.level, w.max_level_reached), (2, 4));
}

#[test]
fn reversal_is_ignored() {
    let mut w = Worm::new();
    w.set_direction(Direction::Left);
    assert_eq!(w.direction, Direction::Right);
    w.set_direction(Direction::Up);
    assert_eq!(w.direction, Direction::Up);
    w.set_direction(Direction::Down);
    assert_eq!(w.direction, Direction::Up);
    w.set_direction(Direction::Left);
    assert_eq!(w.direction, Direction::Left);
}

#[test]
fn keys_apply_in_order_right_left_down_up() {
    let mut w = Worm::new();
    w.direction = Direction::Left;
    w.apply_keys(true, false, false, true);
    assert_eq!(w.direction, Direction::Up);
    w.direction = Direction::Left;
    w.apply_keys(true, true, true, true);
    assert_eq!(w.direction, Direction::Up);
    w.apply_keys(false, false, false, false);
    assert_eq!(w.direction, Direction::Up);
    w.direction = Direction::Right;
    w.apply_keys(true, false, false, true);
    assert_eq!(w.direction, Direction::Up);
    w.apply_keys(true, false, false, true);
    assert_eq!(w.direction, Direction::Up);
    w.direction = Direction::Down;
    w.apply_keys(true, true, false, false);
    assert_eq!(w.direction, Direction::Left);
}

#[test]
fn held_keys_never_reverse_the_worm() {
    let mut w = Worm::new();
    w.direction = Direction::Up;
    w.apply_keys(true, false, true, false);
    assert_eq!(w.direction, Direction::Up);
    let dirs = [Direction::Up, Direction::Down, Direction::Right, Direction::Left];
    for d in dirs {
        for mask in 0..16u8 {
            let mut v = Worm::new();
            v.direction = d;
            v.apply_keys(mask & 1 != 0, mask & 2 != 0, mask & 4 != 0, mask & 8 != 0);
            assert_ne!(v.direction, d.opposite());
        }
    }
}

#[test]
fn scheduler_fires_once_and_resets_clock() {
    let mut g = Game { worm: Worm::new(), fruit: Fruit { position: far_fruit(), color: Rgb { r: 0, g: 0, b: 0 } } };
    assert_eq!(g.frame(400_000_000), None);
    assert_eq!(g.worm.elapsed, 400_000_000);
    assert_eq!(g.worm.head, pos(0, 0));
    assert_eq!(g.frame(100_000_000), Some(StepOutcome::Moved));
    assert_eq!(g.worm.elapsed, 0);
    assert_eq!(g.worm.head, pos(25, 0));
    assert_eq!(g.frame(10_000_000_000), Some(StepOutcome::Moved));
    assert_eq!(g.worm.head, pos(50, 0));
    assert_eq!(g.worm.elapsed, 0);
    assert_eq!(g.frame(0), None);
    assert_eq!(g.frame(u64::MAX), Some(StepOutcome::Moved));
}

#[test]
fn fruit_at_cell_positions() {
    let c = Rgb { r: 9, g: 8, b: 7 };
    assert_eq!(Fruit::at_cell(0, 0, c).position, pos(-425, -325));
    assert_eq!(Fruit::at_cell(33, 25, c).position, pos(400, 300));
    assert_eq!(Fruit::at_cell(34, 26, c).position, pos(425, 325));
    assert_eq!(Fruit::at_cell(34, 0, c).position, pos(BOARD_MAX_X, BOARD_MIN_Y));
    assert_eq!(Fruit::at_cell(0, 26, c).position, pos(BOARD_MIN_X, BOARD_MAX_Y));
    assert_eq!((FRUIT_COLUMNS, FRUIT_ROWS), (35, 27));
    assert_eq!(Fruit::at_cell(17, 13, c), Fruit { position: pos(0, 0), color: c });
}

#[test]
fn placed_fruit_lies_on_a_fruit_cell() {
    let mut xs = std::collections::HashSet::new();
    for _ in 0..500 {
        let f = Fruit::place();
        assert_fruit_cell(f.position);
        xs.insert(f.position.x);
    }
    assert!(xs.len() > 1);
}

#[test]
fn eaten_fruit_is_placed_again() {
    let fruit = Fruit { position: pos(100, 0), color: Rgb { r: 1, g: 1, b: 1 } };
    let mut g = Game { worm: Worm::new(), fruit };
    for _ in 0..3 {
        assert_eq!(g.step(), StepOutcome::Moved);
        assert_eq!(g.fruit, fruit);
    }
    assert_eq!(g.step(), StepOutcome::Ate);
    assert_eq!(g.worm.head, pos(100, 0));
    assert_eq!(g.worm.level, 2);
    assert_eq!(g.worm.tick_interval, 450_000_000);
    assert_fruit_cell(g.fruit.position);
}

#[test]
fn new_game_has_fresh_worm_and_placed_fruit() {
    let g = Game::new();
    assert_eq!(g.worm.head, pos(0, 0));
    assert_eq!(g.worm.level, 1);
    assert_fruit_cell(g.fruit.position);
}

#[test]
fn well_formedness_check() {
    let mut g = Game { worm: Worm::new(), fruit: Fruit { position: far_fruit(), color: Rgb { r: 0, g: 0, b: 0 } } };
    assert!(g.is_well_formed());
    g.worm.segments = vec![pos(0, 0), pos(-25, 0)];
    assert!(g.is_well_formed());
    g.worm.segments.push(pos(10, 0));
    assert!(!g.is_well_formed());
    g.worm.segments.pop();
    g.worm.head = pos(450, 0);
    assert!(!g.worm.is_well_formed());
    g.worm.head = pos(0, 0);
    g.worm.level = 2;
    assert!(!g.worm.is_well_formed());
}

#[test]
fn placement_reaches_last_column_and_top_row() {
    let mut last_column = false;
    let mut top_row = false;
    for _ in 0..5000 {
        let f = Fruit::place();
        assert_fruit_cell(f.position);
        last_column |= f.position.x == BOARD_MAX_X;
        top_row |= f.position.y == BOARD_MAX_Y;
    }
    assert!(last_column && top_row);
}

#[test]
fn step_with_replaces_only_an_eaten_fruit() {
    let first = Fruit { position: pos(50, 0), color: Rgb { r: 1, g: 1, b: 1 } };
    let next = Fruit { position: pos(-425, 325), color: Rgb { r: 7, g: 8, b: 9 } };
    let mut g = Game { worm: Worm::new(), fruit: first };
    assert_eq!(g.step_with(next), StepOutcome::Moved);
    assert_eq!(g.fruit, first);
    assert_eq!(g.step_with(next), StepOutcome::Ate);
    assert_eq!(g.fruit, next);
    assert_eq!(g.worm.level, 2);
}
