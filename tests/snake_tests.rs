use snake::game::{GameState, CELL_COUNT};
use snake::geometry::{wrap_add, wrap_add_2d};
use snake::input::{intent_of_key, Direction, Intent, Key};
use snake::paint::{draw_rect, Color, Frame};
use snake::render::{background, fruit_color, snake_color};

fn pixel(frame: &Frame, x: usize, y: usize) -> Color {
    frame.pixels[y * frame.width + x]
}

fn fresh_fields_match(g: &GameState) -> bool {
    !g.gameover
        && g.head_x == 5
        && g.head_y == 5
        && g.head_dx == 1
        && g.head_dy == 0
        && g.to_grow == 3
        && g.body == vec![(4, 5), (5, 5)]
        && g.fruit_x == -1
        && g.fruit_y == -1
        && g.move_queue.is_empty()
        && g.should_clear
        && !g.should_erase_last
}

#[test]
fn wrap_add_steps_and_wraps() {
    assert_eq!(wrap_add(5, 1, 25), 6);
    assert_eq!(wrap_add(24, 1, 25), 0);
    assert_eq!(wrap_add(0, -1, 25), 24);
    assert_eq!(wrap_add(3, -100, 25), 3);
    assert_eq!(wrap_add(10, 0, 25), 10);
}

#[test]
fn wrap_add_stays_on_axis() {
    for extent in [1usize, 2, 7, 25] {
        for a in 0..extent {
            for delta in [-1000isize, -26, -25, -1, 0, 1, 24, 25, 1000, isize::MIN, isize::MAX] {
                assert!(wrap_add(a, delta, extent) < extent);
            }
        }
    }
    assert!(wrap_add(usize::MAX, isize::MAX, usize::MAX) < usize::MAX);
}

#[test]
fn wrap_add_2d_moves_both_axes() {
    assert_eq!(wrap_add_2d((0, 24), (-1, 1), (25, 25)), (24, 0));
    assert_eq!(wrap_add_2d((3, 4), (0, -1), (25, 10)), (3, 3));
}

#[test]
fn first_advance_from_initial_state() {
    let mut g = GameState::new();
    g.update_with(0, 0);
    assert_eq!((g.head_x, g.head_y), (6, 5));
    assert_eq!(g.body, vec![(4, 5), (5, 5), (6, 5)]);
    assert_eq!(g.to_grow, 2);
    assert!(!g.should_erase_last);
    assert_eq!((g.fruit_x, g.fruit_y), (0, 0));
    assert!(!g.gameover);
}

#[test]
fn random_advance_from_initial_state() {
    let mut g = GameState::new();
    g.update();
    assert_eq!((g.head_x, g.head_y), (6, 5));
    assert_eq!(g.body, vec![(4, 5), (5, 5), (6, 5)]);
    assert!(g.fruit_x >= 0 && (g.fruit_x as usize) < CELL_COUNT);
    assert!(g.fruit_y >= 0 && (g.fruit_y as usize) < CELL_COUNT);
    assert_eq!(g.to_grow, 2);
    assert!(!g.should_erase_last);
}

#[test]
fn reverse_heading_is_rejected() {
    let mut g = GameState::new();
    assert!(g.input_handler(Intent::Move(Direction::Left)));
    g.update_with(0, 0);
    assert_eq!((g.head_dx, g.head_dy), (1, 0));
    assert!(g.move_queue.is_empty());
    assert_eq!((g.head_x, g.head_y), (6, 5));
}

#[test]
fn same_heading_is_dropped() {
    let mut g = GameState::new();
    g.input_handler(Intent::Move(Direction::Right));
    g.update_with(0, 0);
    assert_eq!((g.head_dx, g.head_dy), (1, 0));
    assert!(g.move_queue.is_empty());
}

#[test]
fn turn_is_applied_one_per_tick() {
    let mut g = GameState::new();
    g.input_handler(Intent::Move(Direction::Up));
    g.input_handler(Intent::Move(Direction::Left));
    g.update_with(0, 0);
    assert_eq!((g.head_dx, g.head_dy), (0, 1));
    assert_eq!((g.head_x, g.head_y), (5, 6));
    assert_eq!(g.move_queue, vec![(-1, 0)]);
    g.update_with(0, 0);
    assert_eq!((g.head_dx, g.head_dy), (-1, 0));
    assert_eq!((g.head_x, g.head_y), (4, 6));
}

#[test]
fn body_settles_after_owed_growth() {
    let mut g = GameState::new();
    g.fruit_x = 20;
    g.fruit_y = 20;
    let lengths: Vec<usize> = (0..4)
        .map(|_| {
            g.update_with(0, 0);
            g.body.len()
        })
        .collect();
    assert_eq!(lengths, vec![3, 4, 5, 6]);
    assert_eq!(g.to_grow, 0);
    assert!(g.should_erase_last);
    for _ in 0..10 {
        g.update_with(0, 0);
        assert_eq!(g.body.len(), 6);
    }
    assert_eq!(*g.body.last().unwrap(), (g.head_x, g.head_y));
}

#[test]
fn eating_fruit_adds_one_segment() {
    let mut g = GameState::new();
    g.fruit_x = 6;
    g.fruit_y = 5;
    g.update_with(0, 0);
    assert_eq!((g.fruit_x, g.fruit_y), (-1, -1));
    assert_eq!(g.to_grow, 3);
    g.fruit_x = 20;
    g.fruit_y = 20;
    for _ in 0..12 {
        g.update_with(0, 0);
    }
    assert_eq!(g.body.len(), 7);
}

#[test]
fn fruit_is_placed_when_absent() {
    let mut g = GameState::new();
    g.update_with(57, 34);
    assert_eq!((g.fruit_x, g.fruit_y), (7, 9));
}

#[test]
fn fruit_placed_under_head_is_not_eaten_at_once() {
    let mut g = GameState::new();
    g.update_with(31, 30);
    assert_eq!((g.head_x, g.head_y), (6, 5));
    assert_eq!((g.fruit_x, g.fruit_y), (6, 5));
    assert_eq!(g.to_grow, 2);
    g.update_with(0, 0);
    assert_eq!((g.fruit_x, g.fruit_y), (6, 5));
    assert_eq!(g.to_grow, 1);
}

#[test]
fn finished_game_does_not_advance() {
    let mut g = GameState::new();
    g.gameover = true;
    g.input_handler(Intent::Move(Direction::Up));
    g.update_with(3, 4);
    g.update();
    assert!(g.gameover);
    assert_eq!((g.head_x, g.head_y), (5, 5));
    assert_eq!((g.head_dx, g.head_dy), (1, 0));
    assert_eq!(g.body, vec![(4, 5), (5, 5)]);
    assert_eq!((g.fruit_x, g.fruit_y), (-1, -1));
    assert_eq!(g.to_grow, 3);
    assert_eq!(g.move_queue, vec![(0, 1)]);
}

#[test]
fn self_collision_ends_game_and_freezes() {
    let mut g = GameState::new();
    g.body = vec![(0, 0), (6, 5), (6, 6), (5, 6), (5, 5)];
    g.to_grow = 0;
    g.fruit_x = 20;
    g.fruit_y = 20;
    g.update_with(0, 0);
    assert!(g.gameover);
    let body = g.body.clone();
    let head = (g.head_x, g.head_y);
    let mut frame = Frame::new(625, 625);
    assert!(!g.draw(&mut frame, 1000));
    assert!(!g.draw(&mut frame, 1000));
    assert_eq!(g.body, body);
    assert_eq!((g.head_x, g.head_y), head);
    assert!(frame.pixels.iter().all(|p| *p == Color { r: 0, g: 0, b: 0 }));
}

#[test]
fn self_collision_detects_head_on_body() {
    let mut g = GameState::new();
    assert!(g.self_collision());
    g.move_head();
    assert!(!g.self_collision());
}

#[test]
fn reset_restores_initial_state_after_game_over() {
    let mut g = GameState::new();
    for _ in 0..5 {
        g.update_with(0, 0);
    }
    g.gameover = true;
    assert!(g.input_handler(Intent::Reset));
    assert!(fresh_fields_match(&g));
}

#[test]
fn reset_is_ignored_during_play() {
    let mut g = GameState::new();
    g.update_with(0, 0);
    assert!(g.input_handler(Intent::Reset));
    assert_eq!((g.head_x, g.head_y), (6, 5));
    assert_eq!(g.body.len(), 3);
}

#[test]
fn quit_and_ignore() {
    let mut g = GameState::new();
    assert!(!g.input_handler(Intent::Quit));
    assert!(g.input_handler(Intent::Ignore));
    assert!(fresh_fields_match(&g));
}

#[test]
fn keys_map_to_intents() {
    assert_eq!(intent_of_key(Key::Up, true), Intent::Move(Direction::Up));
    assert_eq!(intent_of_key(Key::W, true), Intent::Move(Direction::Up));
    assert_eq!(intent_of_key(Key::S, true), Intent::Move(Direction::Down));
    assert_eq!(intent_of_key(Key::Down, true), Intent::Move(Direction::Down));
    assert_eq!(intent_of_key(Key::A, true), Intent::Move(Direction::Left));
    assert_eq!(intent_of_key(Key::Left, true), Intent::Move(Direction::Left));
    assert_eq!(intent_of_key(Key::D, true), Intent::Move(Direction::Right));
    assert_eq!(intent_of_key(Key::Right, true), Intent::Move(Direction::Right));
    assert_eq!(intent_of_key(Key::R, true), Intent::Reset);
    assert_eq!(intent_of_key(Key::Q, true), Intent::Quit);
    assert_eq!(intent_of_key(Key::Other, true), Intent::Ignore);
    assert_eq!(intent_of_key(Key::Q, false), Intent::Ignore);
    assert_eq!(intent_of_key(Key::W, false), Intent::Ignore);
}

#[test]
fn direction_deltas() {
    assert_eq!(Direction::Up.delta(), (0, 1));
    assert_eq!(Direction::Down.delta(), (0, -1));
    assert_eq!(Direction::Left.delta(), (-1, 0));
    assert_eq!(Direction::Right.delta(), (1, 0));
}

#[test]
fn rect_is_clipped_at_buffer_end() {
    let red = Color { r: 255, g: 0, b: 0 };
    let mut frame = Frame::new(4, 3);
    draw_rect(&mut frame, 2, 1, 5, 5, red);
    assert_eq!(frame.pixels.len(), 12);
    for k in 0..12 {
        let expected = if (6..12).contains(&k) { red } else { Color { r: 0, g: 0, b: 0 } };
        assert_eq!(frame.pixels[k], expected, "pixel {}", k);
    }
}

#[test]
fn rect_inside_buffer() {
    let c = Color { r: 1, g: 2, b: 3 };
    let mut frame = Frame::new(5, 5);
    draw_rect(&mut frame, 1, 1, 2, 3, c);
    let painted: Vec<usize> = (0..25).filter(|k| frame.pixels[*k] == c).collect();
    assert_eq!(painted, vec![6, 7, 11, 12, 16, 17]);
}

#[test]
fn rect_fully_outside_writes_nothing() {
    let mut frame = Frame::new(3, 3);
    draw_rect(&mut frame, 0, 10, 3, 3, Color { r: 9, g: 9, b: 9 });
    draw_rect(&mut frame, usize::MAX - 2, usize::MAX - 2, 2, 2, Color { r: 9, g: 9, b: 9 });
    assert!(frame.pixels.iter().all(|p| *p == Color { r: 0, g: 0, b: 0 }));
}

#[test]
fn colours() {
    assert_eq!(background(), Color { r: 25, g: 25, b: 25 });
    assert_eq!(snake_color(), Color { r: 255, g: 255, b: 255 });
    assert_eq!(fruit_color(), Color { r: 255, g: 0, b: 0 });
}

#[test]
fn frame_waits_for_tick_interval() {
    let g = GameState::new();
    assert!(!g.should_draw_frame(100));
    assert!(g.should_draw_frame(101));
    let mut g = GameState::new();
    let mut frame = Frame::new(625, 625);
    assert!(!g.draw(&mut frame, 50));
    assert!(fresh_fields_match(&g));
    assert_eq!(pixel(&frame, 300, 300), Color { r: 0, g: 0, b: 0 });
}

#[test]
fn first_drawn_tick_clears_and_paints_head_and_neck() {
    let mut g = GameState::new();
    let mut frame = Frame::new(625, 625);
    g.fruit_x = 20;
    g.fruit_y = 20;
    assert!(g.draw(&mut frame, 150));
    assert!(!g.should_clear);
    assert_eq!((g.head_x, g.head_y), (6, 5));
    // corner of the canvas: background
    assert_eq!(pixel(&frame, 0, 0), background());
    // centre of the head cell (6, 5)
    assert_eq!(pixel(&frame, 6 * 25 + 12, 5 * 25 + 12), snake_color());
    // the heading marker covers the leading (right) edge of the head cell
    assert_eq!(pixel(&frame, 6 * 25 + 23, 5 * 25 + 12), snake_color());
    assert_eq!(pixel(&frame, 6 * 25 + 24, 5 * 25 + 10), snake_color());
    // the trailing (left) border of the head cell stays background
    assert_eq!(pixel(&frame, 6 * 25 + 1, 5 * 25 + 12), background());
    // the neck cell (5, 5) extends to its right edge
    assert_eq!(pixel(&frame, 5 * 25 + 24, 5 * 25 + 12), snake_color());
    assert_eq!(pixel(&frame, 5 * 25 + 2, 5 * 25 + 12), background());
}

#[test]
fn fruit_and_tail_are_repainted() {
    let mut g = GameState::new();
    let mut frame = Frame::new(625, 625);
    g.fruit_x = 10;
    g.fruit_y = 12;
    g.to_grow = 0;
    g.should_erase_last = true;
    assert!(g.draw(&mut frame, 150));
    assert_eq!(pixel(&frame, 10 * 25 + 2, 12 * 25 + 2), fruit_color());
    assert_eq!(pixel(&frame, 10 * 25 + 1, 12 * 25 + 12), background());
    assert_eq!(g.body, vec![(5, 5), (6, 5)]);
    // the vacated tail cell (4, 5) was painted over
    g.body[0] = (4, 5);
    let mut frame2 = Frame::new(625, 625);
    g.erase_last(&mut frame2);
    assert_eq!(pixel(&frame2, 4 * 25 + 12, 5 * 25 + 12), background());
    assert_eq!(pixel(&frame2, 3 * 25 + 12, 5 * 25 + 12), Color { r: 0, g: 0, b: 0 });
}

#[test]
fn erase_clears_every_body_cell() {
    let g = GameState::new();
    let mut frame = Frame::new(625, 625);
    g._erase(&mut frame);
    assert_eq!(pixel(&frame, 4 * 25, 5 * 25), background());
    assert_eq!(pixel(&frame, 5 * 25 + 24, 5 * 25 + 24), background());
    assert_eq!(pixel(&frame, 6 * 25, 5 * 25), Color { r: 0, g: 0, b: 0 });
}

#[test]
fn point_queries() {
    let mut g = GameState::new();
    assert_eq!(g.get_head(), (5, 5));
    assert!(g._point_in_snake(100, 125));
    assert!(g._point_in_snake(150, 150));
    assert!(!g._point_in_snake(151, 150));
    assert!(!g._point_in_fruit(0, 0));
    g.fruit_x = 2;
    g.fruit_y = 3;
    assert!(g._point_in_fruit(50, 75));
    assert!(g._point_in_fruit(75, 100));
    assert!(!g._point_in_fruit(76, 100));
    assert!(g.should_make_fruit() == false);
    g.head_x = 2;
    g.head_y = 3;
    assert!(g.fruit_collision());
}

#[test]
fn new_frame_is_black() {
    let frame = Frame::new(3, 2);
    assert_eq!((frame.width, frame.height), (3, 2));
    assert_eq!(frame.pixels, vec![Color { r: 0, g: 0, b: 0 }; 6]);
}

#[test]
fn fruit_update_places_fruit_on_grid() {
    let mut g = GameState::new();
    g.head_x = 30;
    g.fruit_update();
    assert!(g.fruit_x >= 0 && (g.fruit_x as usize) < CELL_COUNT);
    assert!(g.fruit_y >= 0 && (g.fruit_y as usize) < CELL_COUNT);
    assert_eq!(g.to_grow, 3);
    let mut h = GameState::new();
    h.fruit_update_with(5, 30);
    assert_eq!((h.fruit_x, h.fruit_y), (5, 5));
    assert_eq!(h.to_grow, 3);
    h.fruit_update_with(7, 7);
    assert_eq!((h.fruit_x, h.fruit_y), (-1, -1));
    assert_eq!(h.to_grow, 4);
}

#[test]
fn body_update_trims_when_flagged() {
    let mut g = GameState::new();
    g.to_grow = 0;
    g.should_erase_last = true;
    g.head_x = 6;
    g.update_body_segments();
    assert_eq!(g.body, vec![(5, 5), (6, 5)]);
    assert_eq!(g.to_grow, 0);
    assert!(g.should_erase_last);
}

#[test]
fn queued_move_is_consumed() {
    let mut g = GameState::new();
    g.move_queue = vec![(0, -1), (1, 0)];
    g.perform_next_move();
    assert_eq!((g.head_dx, g.head_dy), (0, -1));
    assert_eq!(g.move_queue, vec![(1, 0)]);
    g.move_head();
    assert_eq!((g.head_x, g.head_y), (5, 4));
}
