use freefall::game::{CollisionKind, Game};
use freefall::helpers::FallArea;
use freefall::keyevents::Key;
use freefall::sprites::{Cliff, Jumper};

fn fresh_game() -> Game {
    // viewport 60 columns x 35 rows, requested size 50 x 30
    Game::new(80, 8, 35, 60).unwrap()
}

#[test]
fn game_starts_centered() {
    let game = fresh_game();
    assert_eq!(game.jumper.area.width, (51, 9));
    assert_eq!(game.jumper.area.height, (30, 5));
    assert_eq!(game.jumper.x_pos, 25);
    assert_eq!(game.jumper.y_pos, 7);
    assert_eq!(game.score, 0);
    assert_eq!(game.cliffs.len(), 1);
    assert_eq!(game.cliffs[0].y_pos, 30);
}

#[test]
fn jumper_body_is_fixed_sprite() {
    let area = FallArea::new(50, 30, 35, 60).unwrap();
    let jumper = Jumper::new(area);
    let row0: String = jumper.body[0].iter().collect();
    let row1: String = jumper.body[1].iter().collect();
    assert_eq!(row0, " \\\\ // ");
    assert_eq!(row1, "==[O]==");
    assert_eq!(jumper.size, (7, 2));
}

#[test]
fn jumper_shift_respects_right_boundary() {
    let mut game = fresh_game();
    for _ in 0..100 {
        game.jumper_shift(Key::Right);
        assert!(game.jumper.x_pos + game.jumper.size.0 < game.jumper.area.width.0);
    }
    // 25 -> 28 -> ... -> 43, then 43 + 3 + 7 = 53 >= 51 blocks the move
    assert_eq!(game.jumper.x_pos, 43);
}

#[test]
fn jumper_shift_respects_left_boundary() {
    let mut game = fresh_game();
    for _ in 0..100 {
        game.jumper_shift(Key::Left);
    }
    // 25 -> 22 -> ... -> 4 -> 1, and 1 is not > 3, so the move is refused
    assert_eq!(game.jumper.x_pos, 1);
}

#[test]
fn jumper_left_reaches_the_left_edge() {
    // a jumper whose position is a multiple of the step walks down to zero
    let area = FallArea::new(42, 30, 40, 60).unwrap();
    let mut jumper = Jumper::new(area);
    assert_eq!(jumper.x_pos, 21);
    for _ in 0..7 {
        jumper.shift(Key::Left);
    }
    assert_eq!(jumper.x_pos, 0);
    // at the edge a further step is refused, not wrapped
    jumper.shift(Key::Left);
    assert_eq!(jumper.x_pos, 0);
}

#[test]
fn jumper_ignores_vertical_keys() {
    let mut game = fresh_game();
    let x = game.jumper.x_pos;
    let y = game.jumper.y_pos;
    game.jumper_shift(Key::Up);
    game.jumper_shift(Key::Down);
    game.jumper_shift(Key::Other);
    assert_eq!(game.jumper.x_pos, x);
    assert_eq!(game.jumper.y_pos, y);
}

#[test]
fn frame_has_exact_dimensions() {
    let mut game = fresh_game();
    // let a few cliffs spawn and scroll into view first
    for _ in 0..25 {
        game.cliffs_shift();
    }
    let (_, frame, _) = game.is_running();
    assert_eq!(frame.len(), 30);
    for row in frame.iter() {
        assert_eq!(row.len(), 51);
    }
}

#[test]
fn base_frame_carries_jumper_sprite() {
    let game = fresh_game();
    let frame = game.jumper.draw();
    let row: String = frame[7].iter().collect();
    assert_eq!(&row[25..32], " \\\\ // ");
    assert!(row[..25].chars().all(|c| c == ' '));
    assert!(row[32..].chars().all(|c| c == ' '));
    let blank: String = frame[0].iter().collect();
    assert_eq!(blank, " ".repeat(51));
}

#[test]
fn spawned_cliff_is_well_formed() {
    let area = FallArea::new(50, 30, 35, 60).unwrap();
    let jumper = Jumper::new(area);
    for _ in 0..50 {
        let cliff = Cliff::new(&jumper);
        assert_eq!(cliff.y_pos, 30);
        assert!(cliff.body.len() >= 4);
        assert!(cliff.body.len() < 6);
        assert_eq!(cliff.body.len(), cliff.size.1);
        assert!(cliff.size.0 >= 6);
        // the fill width is drawn from the middle of the half-width range:
        // half = 51 / 2 = 25, so the fill spans [5, 20)
        assert!(cliff.size.0 - 2 >= 5);
        assert!(cliff.size.0 - 2 < 20);
        assert!(cliff.x_pos + cliff.size.0 <= 51);
        for row in cliff.body.iter() {
            assert_eq!(row.len(), cliff.size.0);
        }
        // the ring shape: dashed lid, slanted shoulders, dashed base
        let lid: String = cliff.body[0].iter().collect();
        assert!(lid.starts_with(' ') && lid.ends_with(' '));
        assert!(lid[1..lid.len() - 1].chars().all(|c| c == '_'));
        assert_eq!(cliff.body[1][0], '/');
        assert_eq!(*cliff.body[1].last().unwrap(), '\\');
        let base: String = cliff.body[cliff.body.len() - 1].iter().collect();
        assert!(base[1..base.len() - 1].chars().all(|c| c == '-'));
    }
}

#[test]
fn cliff_place_maps_pick_to_side_and_offset() {
    let area = FallArea::new(50, 30, 35, 60).unwrap();
    let jumper = Jumper::new(area);
    assert_eq!(jumper.x_pos, 25);
    // pick 0: the left side; the cliff sits one short of the drawn offset
    let c = Cliff::place(&jumper, 10, 4, 0, 3);
    assert_eq!(c.x_pos, 2);
    assert_eq!(c.size, (12, 4));
    assert_eq!(c.y_pos, 30);
    // pick 1: the right side, measured back from the right edge
    let c = Cliff::place(&jumper, 10, 4, 1, 3);
    assert_eq!(c.x_pos, 51 - 10 - 3 - 1);
    // pick 2: the jumper's side; at x = 25 <= 25 that is the left half
    let c = Cliff::place(&jumper, 10, 4, 2, 3);
    assert_eq!(c.x_pos, 2);
}

#[test]
fn cliff_scrolls_up_then_sheds_rows() {
    let row = || vec![' ', '_', ' '];
    let mut cliff = Cliff {
        x_pos: 0,
        y_pos: 2,
        body: vec![row(), row(), row(), row()],
        size: (3, 4),
    };
    cliff.shift();
    assert_eq!(cliff.y_pos, 1);
    assert_eq!(cliff.body.len(), 4);
    cliff.shift();
    assert_eq!(cliff.y_pos, 0);
    cliff.shift();
    assert_eq!(cliff.y_pos, 0);
    assert_eq!(cliff.body.len(), 3);
    assert_eq!(cliff.size.1, 3);
    cliff.shift();
    cliff.shift();
    assert_eq!(cliff.body.len(), 1);
    assert!(cliff.erase_body());
    // a single-row cliff waits for retirement instead of vanishing
    cliff.shift();
    assert_eq!(cliff.body.len(), 1);
}

#[test]
fn retirement_scores_before_spawn_check() {
    let mut game = fresh_game();
    // plant a single cliff that is down to its last row
    game.cliffs.clear();
    game.cliffs.push(Cliff {
        x_pos: 0,
        y_pos: 0,
        body: vec![vec![' ', '-', '-', '-', '-', ' ']],
        size: (6, 1),
    });
    game.cliffs_shift();
    assert_eq!(game.score, 1);
    // the spacing counter is still below the threshold, so nothing spawns
    assert_eq!(game.cliffs.len(), 0);
    assert_eq!(game.line_since_last, 1);
}

#[test]
fn spawn_happens_when_counter_exceeds_spacing() {
    let mut game = fresh_game();
    assert_eq!(game.cliff_separation, 8);
    game.line_since_last = 8;
    game.cliffs_shift();
    // the counter reached 9 > 8: one cliff spawns and the counter resets
    assert_eq!(game.cliffs.len(), 2);
    assert_eq!(game.cliffs[1].y_pos, 30);
    assert_eq!(game.line_since_last, 0);
    game.cliffs_shift();
    // 1 <= 8: no spawn this tick
    assert_eq!(game.cliffs.len(), 2);
    assert_eq!(game.line_since_last, 1);
}

#[test]
fn scroll_tick_advances_every_cliff() {
    let mut game = fresh_game();
    let y_before = game.cliffs[0].y_pos;
    game.cliffs_shift();
    assert_eq!(game.cliffs[0].y_pos, y_before - 1);
    assert_eq!(game.line_since_last, 1);
}

#[test]
fn end_to_end_three_steps_right_then_scroll() {
    let mut game = fresh_game();
    for _ in 0..3 {
        game.jumper_shift(Key::Right);
    }
    assert_eq!(game.jumper.x_pos, 34);
    let mut last_score = game.score;
    for _ in 0..45 {
        // the score grows by exactly the number of cliffs that reached
        // their last row, at the very tick they reach it
        let retiring = game.cliffs.iter().filter(|c| c.body.len() == 1).count();
        game.cliffs_shift();
        assert_eq!(game.score, last_score + retiring);
        last_score = game.score;
    }
    // the first cliff needs 30 ticks to reach the top and at most 5 more to
    // shed down to one row, so by now at least one cliff has been retired
    assert!(game.score >= 1);
    assert_eq!(game.jumper.x_pos, 34);
    let (running, frame, _) = game.is_running();
    assert_eq!(frame.len(), 30);
    for row in frame.iter() {
        assert_eq!(row.len(), 51);
    }
    let _ = running;
}

#[test]
fn collision_ends_game_with_fully_drawn_frame() {
    let mut game = fresh_game();
    // drop a cliff right onto the jumper's first body row: the pre-existing
    // glyphs under it start with a backslash, so a leg is lost
    game.cliffs.clear();
    game.cliffs.push(Cliff {
        x_pos: 25,
        y_pos: 7,
        body: vec![vec!['#', '#', '#']],
        size: (3, 1),
    });
    let (running, frame, ended) = game.is_running();
    assert!(!running);
    assert_eq!(ended, Some(CollisionKind::LostLeg));
    assert_eq!(game.collision, None);
    // the final frame still shows the cliff painted over the jumper
    assert_eq!(frame[7][25..28].to_vec(), vec!['#', '#', '#']);
}

#[test]
fn is_running_adapts_difficulty_to_score() {
    let mut game = fresh_game();
    game.score = 100;
    let (running, _, ended) = game.is_running();
    assert!(running);
    assert_eq!(ended, None);
    assert_eq!(game.poll_timeout, 68);
    assert_eq!(game.cliff_separation, 7);
}

#[test]
fn painter_order_later_cliff_wins() {
    let mut game = fresh_game();
    game.cliffs.clear();
    // two overlapping one-row cliffs in an empty region of the frame
    game.cliffs.push(Cliff {
        x_pos: 2,
        y_pos: 1,
        body: vec![vec!['-', '-', '-']],
        size: (3, 1),
    });
    game.cliffs.push(Cliff {
        x_pos: 3,
        y_pos: 1,
        body: vec![vec!['_', '_', '_']],
        size: (3, 1),
    });
    let (running, frame, ended) = game.is_running();
    let row: String = frame[1].iter().collect();
    // the later cliff paints over the earlier one where they overlap
    assert_eq!(&row[2..6], "-___");
    // neither '-' nor '_' is a jumper glyph, so nothing collided
    assert!(running);
    assert_eq!(ended, None);
}
