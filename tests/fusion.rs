use planet_fusion::fusion::{find_ball, fusion, CollisionEvent};
use planet_fusion::game::Game;
use planet_fusion::planet::{
    fusioning, growing, BallBundle, BallPhase, Fusion, Growing, Position, RigidBody, Velocity,
};
use planet_fusion::tier::{Ball, BallType};

fn board_with(balls: &[(BallType, i32, i32)]) -> Game {
    let mut g = Game::new(BallType::ONE, BallType::ONE);
    for &(t, x, y) in balls {
        g.balls.push(BallBundle::new(g.next_id, Position { x, y }, Ball(t)));
        g.next_id += 1;
    }
    g
}

#[test]
fn two_tier_one_balls_fuse_into_one_tier_two_ball() {
    let mut g = board_with(&[(BallType::ONE, -10, 4), (BallType::ONE, 10, 8)]);
    fusion(&mut g, &vec![CollisionEvent::Started(0, 1)]);
    assert_eq!(g.score.score, 2);
    assert_eq!(g.balls.len(), 3);
    assert_eq!(g.balls[0].phase, BallPhase::Fusing(Fusion(150)));
    assert_eq!(g.balls[1].phase, BallPhase::Fusing(Fusion(150)));
    assert_eq!(g.balls[0].rigid_body(), RigidBody::KinematicVelocityBased);
    assert_eq!(g.balls[0].velocity, Velocity { x: -20, y: -4 });
    assert_eq!(g.balls[1].velocity, Velocity { x: 20, y: 4 });
    let product = g.balls[2];
    assert_eq!(product.id, 2);
    assert_eq!(product.ball, Ball(BallType::TWO));
    assert_eq!(product.position, Position { x: 0, y: 6 });
    assert_eq!(product.z, 1);
    assert_eq!(product.scale, 0);
    assert_eq!(product.phase, BallPhase::Growing(Growing(150)));
    assert_eq!(product.rigid_body(), RigidBody::KinematicVelocityBased);

    fusioning(&mut g, 100);
    assert_eq!(g.balls.len(), 3);
    growing(&mut g, 100);
    fusioning(&mut g, 50);
    assert_eq!(g.balls.len(), 1);
    growing(&mut g, 49);
    assert_eq!(g.balls[0].phase, BallPhase::Growing(Growing(1)));
    assert_eq!(g.balls[0].rigid_body(), RigidBody::KinematicVelocityBased);
    growing(&mut g, 1);
    assert_eq!(g.balls[0].phase, BallPhase::Free);
    assert_eq!(g.balls[0].rigid_body(), RigidBody::Dynamic);
    assert_eq!(g.balls[0].scale, 37);
    assert_eq!(g.balls[0].ball, Ball(BallType::TWO));
    assert_eq!(g.balls[0].position, Position { x: 0, y: 6 });
    assert_eq!(g.score.score, 2);
}

#[test]
fn growing_scales_linearly() {
    let mut g = board_with(&[]);
    g.balls.push(BallBundle::growing(0, Position { x: 0, y: 0 }, 0, Ball(BallType::SEVEN)));
    g.next_id = 1;
    growing(&mut g, 75);
    assert_eq!(g.balls[0].scale, 60);
    assert_eq!(g.balls[0].phase, BallPhase::Growing(Growing(75)));
    growing(&mut g, 30);
    assert_eq!(g.balls[0].scale, 84);
    growing(&mut g, 1000);
    assert_eq!(g.balls[0].scale, 120);
    assert_eq!(g.balls[0].phase, BallPhase::Free);
}

#[test]
fn third_ball_in_the_same_pass_does_not_fuse_again() {
    let mut g = board_with(&[
        (BallType::THREE, 0, 0),
        (BallType::THREE, 20, 0),
        (BallType::THREE, 40, 0),
    ]);
    let events = vec![
        CollisionEvent::Started(0, 1),
        CollisionEvent::Started(1, 2),
        CollisionEvent::Started(2, 0),
    ];
    fusion(&mut g, &events);
    assert_eq!(g.balls.len(), 4);
    assert_eq!(g.score.score, 8);
    assert_eq!(g.balls[2].phase, BallPhase::Free);
    assert_eq!(g.balls[3].ball, Ball(BallType::FOUR));
}

#[test]
fn two_separate_pairs_fuse_in_one_pass() {
    let mut g = board_with(&[
        (BallType::ONE, 0, 0),
        (BallType::FIVE, 100, 0),
        (BallType::ONE, 0, 10),
        (BallType::FIVE, 100, 10),
    ]);
    fusion(
        &mut g,
        &vec![CollisionEvent::Started(0, 2), CollisionEvent::Started(3, 1)],
    );
    assert_eq!(g.balls.len(), 6);
    assert_eq!(g.score.score, 2 + 32);
    assert_eq!(g.balls[4].ball, Ball(BallType::TWO));
    assert_eq!(g.balls[5].ball, Ball(BallType::SIX));
    assert_eq!(g.balls[5].position, Position { x: 100, y: 5 });
    assert_eq!(g.next_id, 6);
}

#[test]
fn different_tiers_and_stopped_contacts_do_nothing() {
    let mut g = board_with(&[(BallType::ONE, 0, 0), (BallType::TWO, 10, 0)]);
    fusion(
        &mut g,
        &vec![
            CollisionEvent::Started(0, 1),
            CollisionEvent::Stopped(0, 1),
            CollisionEvent::Started(0, 0),
            CollisionEvent::Started(0, 7),
        ],
    );
    assert_eq!(g.balls.len(), 2);
    assert_eq!(g.score.score, 0);
    assert_eq!(g.balls[0].phase, BallPhase::Free);
}

#[test]
fn largest_tier_fuses_into_the_smallest() {
    let mut g = board_with(&[(BallType::ELEVEN, -3, -3), (BallType::ELEVEN, 0, 0)]);
    fusion(&mut g, &vec![CollisionEvent::Started(1, 0)]);
    assert_eq!(g.balls[2].ball, Ball(BallType::ONE));
    assert_eq!(g.balls[2].position, Position { x: -2, y: -2 });
    assert_eq!(g.score.score, 1);
}

#[test]
fn fusing_balls_are_not_fused_again_next_tick() {
    let mut g = board_with(&[(BallType::ONE, 0, 0), (BallType::ONE, 10, 0)]);
    fusion(&mut g, &vec![CollisionEvent::Started(0, 1)]);
    fusion(&mut g, &vec![CollisionEvent::Started(1, 0)]);
    assert_eq!(g.balls.len(), 3);
    assert_eq!(g.score.score, 2);
}

#[test]
fn find_ball_by_identity() {
    let g = board_with(&[(BallType::ONE, 0, 0), (BallType::ONE, 10, 0)]);
    assert_eq!(find_ball(&g.balls, 1), Some(1));
    assert_eq!(find_ball(&g.balls, 5), None);
}
