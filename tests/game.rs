use planet_fusion::cursor::{
    cursor_cooldown, random_low_tier, tier_for_roll, CursorBundle, CursorCooldown,
};
use planet_fusion::fusion::CollisionEvent;
use planet_fusion::game::{AppState, Game, TickInput};
use planet_fusion::game_over::{game_over, restart};
use planet_fusion::planet::{
    gravity, spawn_ball, spawn_ball_with, BallBundle, BallPhase, ExternalForce, Position, Velocity,
};
use planet_fusion::tier::{Ball, BallType};

fn input(elapsed: u64, confirm: bool) -> TickInput {
    TickInput {
        elapsed,
        confirm,
        restart: false,
        cursor_position: Position { x: 0, y: 300 },
        collisions: vec![],
    }
}

#[test]
fn restart_after_game_over_resets_the_round() {
    let mut g = Game::new(BallType::ONE, BallType::TWO);
    for i in 0..5 {
        g.balls.push(BallBundle::new(g.next_id, Position { x: i, y: 0 }, Ball(BallType::ONE)));
        g.next_id += 1;
    }
    g.score.score = 1200;
    g.best_score.score = 900;
    g.state = AppState::GameOver;
    g.cooldown = Some(CursorCooldown(100));
    assert!(restart(&mut g, true));
    assert_eq!(g.best_score.score, 1200);
    assert_eq!(g.score.score, 0);
    assert_eq!(g.balls.len(), 0);
    assert_eq!(g.state, AppState::Playing);
    assert!(g.cooldown.is_none());
    assert!(g.game_over_text.is_none());
}

#[test]
fn restart_keeps_a_higher_best() {
    let mut g = Game::new(BallType::ONE, BallType::TWO);
    g.score.score = 100;
    g.best_score.score = 900;
    g.state = AppState::GameOver;
    assert!(restart(&mut g, true));
    assert_eq!(g.best_score.score, 900);
    assert_eq!(g.score.score, 0);
}

#[test]
fn restart_is_ignored_while_playing() {
    let mut g = Game::new(BallType::ONE, BallType::TWO);
    g.score.score = 1200;
    assert!(!restart(&mut g, true));
    assert_eq!(g.score.score, 1200);
    assert_eq!(g.best_score.score, 0);
}

#[test]
fn ball_beyond_threshold_ends_the_match_once() {
    let mut g = Game::new(BallType::ONE, BallType::TWO);
    g.balls.push(BallBundle::new(0, Position { x: 401, y: 0 }, Ball(BallType::ONE)));
    g.balls.push(BallBundle::new(1, Position { x: 0, y: -500 }, Ball(BallType::ONE)));
    g.next_id = 2;
    assert!(game_over(&mut g, 400));
    assert_eq!(g.state, AppState::GameOver);
    assert_eq!(g.game_over_text.as_ref().unwrap().text, "\tGame Over press R to restart");
    assert!(!game_over(&mut g, 400));
    assert_eq!(g.state, AppState::GameOver);
}

#[test]
fn ball_at_threshold_does_not_end_the_match() {
    let mut g = Game::new(BallType::ONE, BallType::TWO);
    g.balls.push(BallBundle::new(0, Position { x: 240, y: 320 }, Ball(BallType::ONE)));
    g.next_id = 1;
    assert!(!game_over(&mut g, 400));
    assert_eq!(g.state, AppState::Playing);
    assert!(g.game_over_text.is_none());
}

#[test]
fn growing_ball_out_of_bounds_does_not_end_the_match() {
    let mut g = Game::new(BallType::ONE, BallType::TWO);
    g.balls.push(BallBundle::growing(0, Position { x: 1000, y: 0 }, 0, Ball(BallType::ONE)));
    g.next_id = 1;
    assert!(!game_over(&mut g, 400));
    assert_eq!(g.state, AppState::Playing);
}

#[test]
fn cooldown_blocks_a_second_drop_until_it_elapses() {
    let mut g = Game::new(BallType::ONE, BallType::TWO);
    let r = g.tick(&input(0, true));
    assert!(r.dropped);
    assert_eq!(g.balls.len(), 1);
    let r = g.tick(&input(300, true));
    assert!(!r.dropped);
    assert_eq!(g.balls.len(), 1);
    let r = g.tick(&input(210, true));
    assert!(r.dropped);
    assert_eq!(g.balls.len(), 2);
}

#[test]
fn cursor_cooldown_counts_down_and_expires() {
    let mut c = Some(CursorCooldown::default());
    cursor_cooldown(&mut c, 200);
    assert_eq!(c, Some(CursorCooldown(300)));
    cursor_cooldown(&mut c, 300);
    assert_eq!(c, None);
    cursor_cooldown(&mut c, 10);
    assert_eq!(c, None);
}

#[test]
fn drop_credits_value_and_rotates_cursors() {
    let mut g = Game::new(BallType::THREE, BallType::FOUR);
    assert!(spawn_ball_with(&mut g, true, Position { x: 5, y: 6 }, BallType::ONE));
    assert_eq!(g.balls.len(), 1);
    assert_eq!(g.balls[0].ball, Ball(BallType::THREE));
    assert_eq!(g.balls[0].position, Position { x: 5, y: 6 });
    assert_eq!(g.balls[0].scale, 47);
    assert_eq!(g.balls[0].phase, BallPhase::Free);
    assert_eq!(g.score.score, 4);
    assert_eq!(g.cursor, BallType::FOUR);
    assert_eq!(g.next_cursor, BallType::ONE);
    assert_eq!(g.cooldown, Some(CursorCooldown(500)));
    assert!(!spawn_ball_with(&mut g, true, Position { x: 5, y: 6 }, BallType::TWO));
    assert_eq!(g.balls.len(), 1);
}

#[test]
fn no_drop_without_confirm_or_after_game_over() {
    let mut g = Game::new(BallType::THREE, BallType::FOUR);
    assert!(!spawn_ball(&mut g, false, Position { x: 0, y: 0 }));
    g.state = AppState::GameOver;
    assert!(!spawn_ball(&mut g, true, Position { x: 0, y: 0 }));
    assert_eq!(g.balls.len(), 0);
    assert_eq!(g.score.score, 0);
}

#[test]
fn random_drop_puts_a_low_tier_on_deck() {
    let mut g = Game::new(BallType::THREE, BallType::FOUR);
    assert!(spawn_ball(&mut g, true, Position { x: 0, y: 0 }));
    assert!(matches!(
        g.next_cursor,
        BallType::ONE | BallType::TWO | BallType::THREE | BallType::FOUR | BallType::FIVE
    ));
}

#[test]
fn random_low_tiers_vary() {
    let mut seen_other = false;
    for _ in 0..300 {
        let t = random_low_tier();
        assert!(matches!(
            t,
            BallType::ONE | BallType::TWO | BallType::THREE | BallType::FOUR | BallType::FIVE
        ));
        if t != BallType::FIVE {
            seen_other = true;
        }
    }
    assert!(seen_other);
}

#[test]
fn rolls_map_to_low_tiers() {
    assert_eq!(tier_for_roll(0), BallType::ONE);
    assert_eq!(tier_for_roll(3), BallType::FOUR);
    assert_eq!(tier_for_roll(4), BallType::FIVE);
}

#[test]
fn cursor_shows_tier_at_deck_place() {
    let c = CursorBundle::new(BallType::SIX);
    assert_eq!(c.scale, 95);
    assert_eq!(c.texture, "lava.png");
    assert_eq!(c.position, Position { x: 350, y: 350 });
    let r = CursorBundle::rand();
    assert_eq!(r.texture, r.balltype.properties().1);
}

#[test]
fn gravity_pulls_free_balls_only() {
    let mut g = Game::new(BallType::ONE, BallType::TWO);
    g.balls.push(BallBundle::new(0, Position { x: 10, y: -3 }, Ball(BallType::TWO)));
    g.balls.push(BallBundle::growing(1, Position { x: 10, y: -3 }, 0, Ball(BallType::TWO)));
    g.next_id = 2;
    gravity(&mut g);
    assert_eq!(g.balls[0].force, ExternalForce { x: -200_000, y: 60_000 });
    assert_eq!(g.balls[0].mass(), 200);
    assert_eq!(g.balls[1].force, ExternalForce { x: 0, y: 0 });
}

#[test]
fn tick_fuses_and_ends_the_match() {
    let mut g = Game::new(BallType::ONE, BallType::TWO);
    g.balls.push(BallBundle::new(0, Position { x: -5, y: 0 }, Ball(BallType::ONE)));
    g.balls.push(BallBundle::new(1, Position { x: 5, y: 0 }, Ball(BallType::ONE)));
    g.balls.push(BallBundle::new(2, Position { x: 0, y: 351 }, Ball(BallType::ONE)));
    g.next_id = 3;
    let mut i = input(16, false);
    i.collisions = vec![CollisionEvent::Started(0, 1)];
    let r = g.tick(&i);
    assert!(r.ended);
    assert_eq!(g.state, AppState::GameOver);
    assert_eq!(g.score.score, 2);
    assert_eq!(g.balls.len(), 4);
    let r = g.tick(&input(16, true));
    assert!(!r.dropped);
    let mut again = input(16, false);
    again.restart = true;
    let r = g.tick(&again);
    assert!(r.restarted);
    assert_eq!(g.best_score.score, 2);
    assert_eq!(g.score.score, 0);
    assert_eq!(g.state, AppState::Playing);
}

#[test]
fn physics_moves_are_recorded() {
    let mut g = Game::new(BallType::ONE, BallType::TWO);
    g.balls.push(BallBundle::new(4, Position { x: 0, y: 0 }, Ball(BallType::ONE)));
    g.next_id = 5;
    assert!(g.move_ball(4, Position { x: 7, y: 8 }, Velocity { x: 1, y: 2 }));
    assert_eq!(g.balls[0].position, Position { x: 7, y: 8 });
    assert_eq!(g.balls[0].velocity, Velocity { x: 1, y: 2 });
    assert!(!g.move_ball(9, Position { x: 0, y: 0 }, Velocity { x: 0, y: 0 }));
}

#[test]
fn fresh_game_starts_with_low_cursors() {
    let g = Game::start();
    assert_eq!(g.state, AppState::Playing);
    assert_eq!(g.balls.len(), 0);
    for t in [g.cursor, g.next_cursor] {
        assert!(matches!(
            t,
            BallType::ONE | BallType::TWO | BallType::THREE | BallType::FOUR | BallType::FIVE
        ));
    }
}
