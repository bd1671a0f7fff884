//! Balls on the board: their physical state, their animation phase, and the
//! per-tick updates of growing and fusing balls and of the radial gravity.
use vstd::prelude::*;
use crate::tier::{Ball, BallType, radius_scale, rank, score_value};
use crate::game::{AppState, BoardModel, Game, ids_fresh};
use crate::cursor::{CursorCooldown, CURSOR_COOLDOWN_MS, CURSOR_TIER_RANKS, random_low_tier};
use crate::score::credit;

verus! {

/// Length of the fuse and grow animations, in milliseconds.
pub const ANIMATION_SPEED: u64 = 150;

/// Force per pixel of distance to the centre and per unit of mass.
pub const GRAVITY_FORCE: i64 = 100;

/// Mass of a ball per point of its tier's score value.
pub const MASS_PER_POINT: u64 = 100;

/// A point of the board, in pixels from its centre.
#[derive(PartialEq, Eq, Structural, Copy, Clone, Debug)]
pub struct Position {
    pub x: i32,
    pub y: i32,
}

/// Linear velocity handed to the physics engine, in pixels per second.
#[derive(PartialEq, Eq, Structural, Copy, Clone, Debug)]
pub struct Velocity {
    pub x: i64,
    pub y: i64,
}

/// Force that the physics engine applies to a ball during the next step.
#[derive(PartialEq, Eq, Structural, Copy, Clone, Debug)]
pub struct ExternalForce {
    pub x: i64,
    pub y: i64,
}

/// How the physics engine treats a body: moved by forces and contacts, or
/// moved only by the velocity that the simulation sets.
#[derive(PartialEq, Eq, Structural, Copy, Clone, Debug)]
pub enum RigidBody {
    Dynamic,
    KinematicVelocityBased,
}

/// Milliseconds left before a newly fused ball reaches full size.
#[derive(PartialEq, Eq, Structural, Copy, Clone, Debug)]
pub struct Growing(pub u64);

/// Milliseconds left before a ball consumed by a fusion leaves the board.
#[derive(PartialEq, Eq, Structural, Copy, Clone, Debug)]
pub struct Fusion(pub u64);

impl Default for Growing {
    fn default() -> (r: Growing)
        ensures
            r.0 == ANIMATION_SPEED,
    {
        Growing(ANIMATION_SPEED)
    }
}

impl Default for Fusion {
    fn default() -> (r: Fusion)
        ensures
            r.0 == ANIMATION_SPEED,
    {
        Fusion(ANIMATION_SPEED)
    }
}

/// Where a ball stands in its life: in play, consumed by a fusion, or
/// growing after one.
#[derive(PartialEq, Eq, Structural, Copy, Clone, Debug)]
pub enum BallPhase {
    Free,
    Fusing(Fusion),
    Growing(Growing),
}

/// One ball on the board.
#[derive(PartialEq, Eq, Structural, Copy, Clone, Debug)]
pub struct BallBundle {
    pub id: u64,
    pub ball: Ball,
    pub position: Position,
    /// Draw order: a larger value is drawn above.
    pub z: u64,
    /// Current radius in pixels.
    pub scale: u32,
    pub velocity: Velocity,
    pub force: ExternalForce,
    pub phase: BallPhase,
}

pub open spec fn zero_velocity() -> Velocity {
    Velocity { x: 0, y: 0 }
}

pub open spec fn zero_force() -> ExternalForce {
    ExternalForce { x: 0, y: 0 }
}

/// The body type that goes with a phase: only a ball in play is dynamic.
pub open spec fn body_of(phase: BallPhase) -> RigidBody {
    if phase is Free {
        RigidBody::Dynamic
    } else {
        RigidBody::KinematicVelocityBased
    }
}

/// Mass of a ball of tier `t`.
pub open spec fn mass_of(t: BallType) -> u64 {
    (score_value(t) * MASS_PER_POINT) as u64
}

/// A ball in play, at full size and at rest.
pub open spec fn new_ball(id: u64, position: Position, ball: Ball) -> BallBundle {
    BallBundle {
        id,
        ball,
        position,
        z: 0,
        scale: radius_scale(ball.0),
        velocity: zero_velocity(),
        force: zero_force(),
        phase: BallPhase::Free,
    }
}

/// A ball that starts to grow from nothing, drawn at depth `z`.
pub open spec fn growing_ball(id: u64, position: Position, z: u64, ball: Ball) -> BallBundle {
    BallBundle {
        id,
        ball,
        position,
        z,
        scale: 0,
        velocity: zero_velocity(),
        force: zero_force(),
        phase: BallPhase::Growing(Growing(ANIMATION_SPEED)),
    }
}

impl BallBundle {
    /// A ball dropped into play at `position`.
    pub fn new(id: u64, position: Position, ball: Ball) -> (r: BallBundle)
        ensures
            r == new_ball(id, position, ball),
    {
        BallBundle {
            id,
            ball,
            position,
            z: 0,
            scale: ball.0.radius(),
            velocity: Velocity { x: 0, y: 0 },
            force: ExternalForce { x: 0, y: 0 },
            phase: BallPhase::Free,
        }
    }

    /// The product of a fusion: kinematic, of size zero, growing.
    pub fn growing(id: u64, position: Position, z: u64, ball: Ball) -> (r: BallBundle)
        ensures
            r == growing_ball(id, position, z, ball),
    {
        BallBundle {
            id,
            ball,
            position,
            z,
            scale: 0,
            velocity: Velocity { x: 0, y: 0 },
            force: ExternalForce { x: 0, y: 0 },
            phase: BallPhase::Growing(Growing::default()),
        }
    }

    /// The body type the physics engine must give this ball.
    pub fn rigid_body(&self) -> (r: RigidBody)
        ensures
            r == body_of(self.phase),
    {
        match self.phase {
            BallPhase::Free => RigidBody::Dynamic,
            _ => RigidBody::KinematicVelocityBased,
        }
    }

    /// The mass of this ball.
    pub fn mass(&self) -> (r: u64)
        ensures
            r == mass_of(self.ball.0),
    {
        self.ball.0.score_value() * MASS_PER_POINT
    }

    /// Whether this ball is in play, neither growing nor fusing.
    pub fn is_free(&self) -> (r: bool)
        ensures
            r == (self.phase is Free),
    {
        match self.phase {
            BallPhase::Free => true,
            _ => false,
        }
    }

    /// Whether this ball is being consumed by a fusion.
    pub fn is_fusing(&self) -> (r: bool)
        ensures
            r == (self.phase is Fusing),
    {
        match self.phase {
            BallPhase::Fusing(_) => true,
            _ => false,
        }
    }
}

/// Radius of a ball of tier `t` that has `remaining` milliseconds left to grow:
/// it grows linearly from zero to full size over the animation.
pub open spec fn growth_scale(t: BallType, remaining: u64) -> u32 {
    let done = if remaining >= ANIMATION_SPEED {
        0
    } else {
        ANIMATION_SPEED - remaining
    };
    (done * radius_scale(t) / (ANIMATION_SPEED as int)) as u32
}

/// A ball after `elapsed` more milliseconds of growth: still growing, or at
/// full size and back in play once its timer has run out.
pub open spec fn grown(b: BallBundle, elapsed: u64) -> BallBundle {
    match b.phase {
        BallPhase::Growing(g) => if g.0 > elapsed {
            let remaining = (g.0 - elapsed) as u64;
            BallBundle {
                phase: BallPhase::Growing(Growing(remaining)),
                scale: growth_scale(b.ball.0, remaining),
                ..b
            }
        } else {
            BallBundle { phase: BallPhase::Free, scale: radius_scale(b.ball.0), ..b }
        },
        _ => b,
    }
}

/// A ball after `elapsed` more milliseconds of being consumed: `None` once its
/// timer has run out and it leaves the board.
pub open spec fn fused_away(b: BallBundle, elapsed: u64) -> Option<BallBundle> {
    match b.phase {
        BallPhase::Fusing(f) => if f.0 > elapsed {
            Some(BallBundle { phase: BallPhase::Fusing(Fusion((f.0 - elapsed) as u64)), ..b })
        } else {
            None
        },
        _ => Some(b),
    }
}

/// The balls of `s` after `elapsed` milliseconds of the fuse animation, in order.
pub open spec fn fusioned(s: Seq<BallBundle>, elapsed: u64) -> Seq<BallBundle>
    decreases s.len(),
{
    if s.len() == 0 {
        s
    } else {
        let rest = fusioned(s.drop_last(), elapsed);
        match fused_away(s.last(), elapsed) {
            Some(b) => rest.push(b),
            None => rest,
        }
    }
}

/// The force that pulls a ball of tier `t` at `p` towards the centre:
/// proportional to its distance and to its mass.
pub open spec fn pull(p: Position, t: BallType) -> ExternalForce {
    ExternalForce {
        x: (-p.x * GRAVITY_FORCE * mass_of(t)) as i64,
        y: (-p.y * GRAVITY_FORCE * mass_of(t)) as i64,
    }
}

/// A ball after the gravity step: a ball in play is pulled to the centre, a
/// growing or fusing ball is left as it is.
pub open spec fn attracted(b: BallBundle) -> BallBundle {
    if b.phase is Free {
        BallBundle { force: pull(b.position, b.ball.0), ..b }
    } else {
        b
    }
}

fn grow_one(b: BallBundle, elapsed: u64) -> (r: BallBundle)
    ensures
        r == grown(b, elapsed),
{
    match b.phase {
        BallPhase::Growing(g) => {
            if g.0 > elapsed {
                let remaining = g.0 - elapsed;
                let done = if remaining >= ANIMATION_SPEED {
                    0
                } else {
                    ANIMATION_SPEED - remaining
                };
                let radius = b.ball.0.radius() as u64;
                assert(done * radius <= ANIMATION_SPEED * 302) by (nonlinear_arith)
                    requires
                        done <= ANIMATION_SPEED,
                        radius <= 302,
                ;
                let scale = done * radius / ANIMATION_SPEED;
                assert(scale <= 302) by (nonlinear_arith)
                    requires
                        scale == done * radius / (ANIMATION_SPEED as int),
                        done <= ANIMATION_SPEED,
                        radius <= 302,
                        ANIMATION_SPEED == 150,
                ;
                BallBundle {
                    phase: BallPhase::Growing(Growing(remaining)),
                    scale: scale as u32,
                    ..b
                }
            } else {
                BallBundle { phase: BallPhase::Free, scale: b.ball.0.radius(), ..b }
            }
        },
        _ => b,
    }
}

/// Lets `elapsed` milliseconds of the grow animation pass: each growing ball
/// scales linearly towards full size, and once its timer has run out it is set
/// to full size and released into the simulation.
pub fn growing(game: &mut Game, elapsed: u64)
    ensures
        old(game).wf() ==> final(game).wf(),
        final(game).balls@ == old(game).balls@.map_values(|b: BallBundle| grown(b, elapsed)),
        final(game).next_id == old(game).next_id,
        final(game).score == old(game).score,
        final(game).same_outside_board(old(game)),
{
    let ghost start = game.balls@;
    let mut k: usize = 0;
    while k < game.balls.len()
        invariant
            k <= game.balls@.len(),
            game.balls@.len() == start.len(),
            forall|i: int| 0 <= i < k ==> game.balls@[i] == grown(start[i], elapsed),
            forall|i: int| k <= i < start.len() ==> game.balls@[i] == start[i],
            game.next_id == old(game).next_id,
            game.score == old(game).score,
            game.same_outside_board(old(game)),
        decreases start.len() - k,
    {
        let b = grow_one(game.balls[k], elapsed);
        game.balls.set(k, b);
        k = k + 1;
    }
    assert(game.balls@ =~= start.map_values(|b: BallBundle| grown(b, elapsed)));
    assert forall|m: int| 0 <= m < start.len() implies #[trigger] game.balls@[m].id == start[m].id by {}
}

/// Lets `elapsed` milliseconds of the fuse animation pass: each ball consumed
/// by a fusion counts down, and leaves the board once its timer has run out.
pub fn fusioning(game: &mut Game, elapsed: u64)
    ensures
        old(game).wf() ==> final(game).wf(),
        final(game).balls@ == fusioned(old(game).balls@, elapsed),
        final(game).next_id == old(game).next_id,
        final(game).score == old(game).score,
        final(game).same_outside_board(old(game)),
{
    let ghost start = game.balls@;
    let mut kept: Vec<BallBundle> = Vec::new();
    let mut k: usize = 0;
    while k < game.balls.len()
        invariant
            k <= start.len(),
            game.balls@ == start,
            kept@ == fusioned(start.take(k as int), elapsed),
        decreases start.len() - k,
    {
        let b = game.balls[k];
        assert(start.take(k + 1).drop_last() =~= start.take(k as int));
        match b.phase {
            BallPhase::Fusing(f) => {
                if f.0 > elapsed {
                    kept.push(BallBundle { phase: BallPhase::Fusing(Fusion(f.0 - elapsed)), ..b });
                }
            },
            _ => {
                kept.push(b);
            },
        }
        k = k + 1;
    }
    assert(start.take(k as int) =~= start);
    game.balls = kept;
    proof {
        if old(game).wf() {
            lemma_fusioned_ids(start, elapsed, game.next_id);
        }
    }
}

/// Pulls every ball in play towards the centre of the board, in proportion to
/// its distance and its mass; growing and fusing balls are skipped.
pub fn gravity(game: &mut Game)
    ensures
        old(game).wf() ==> final(game).wf(),
        final(game).balls@ == old(game).balls@.map_values(|b: BallBundle| attracted(b)),
        final(game).next_id == old(game).next_id,
        final(game).score == old(game).score,
        final(game).same_outside_board(old(game)),
{
    let ghost start = game.balls@;
    let mut k: usize = 0;
    while k < game.balls.len()
        invariant
            k <= game.balls@.len(),
            game.balls@.len() == start.len(),
            forall|i: int| 0 <= i < k ==> game.balls@[i] == attracted(start[i]),
            forall|i: int| k <= i < start.len() ==> game.balls@[i] == start[i],
            game.next_id == old(game).next_id,
            game.score == old(game).score,
            game.same_outside_board(old(game)),
        decreases start.len() - k,
    {
        let b = game.balls[k];
        if b.is_free() {
            let mass = b.mass();
            let scale: i64 = GRAVITY_FORCE * mass as i64;
            assert(scale <= 100 * 102400);
            let x = b.position.x as i64;
            let y = b.position.y as i64;
            assert(-x * scale <= 0x8000_0000 * 100 * 102400 && -x * scale >= -0x8000_0000 * 100 * 102400) by (nonlinear_arith)
                requires
                    -0x8000_0000 <= x < 0x8000_0000,
                    0 <= scale <= 100 * 102400,
            ;
            assert(-y * scale <= 0x8000_0000 * 100 * 102400 && -y * scale >= -0x8000_0000 * 100 * 102400) by (nonlinear_arith)
                requires
                    -0x8000_0000 <= y < 0x8000_0000,
                    0 <= scale <= 100 * 102400,
            ;
            let force = ExternalForce { x: -x * scale, y: -y * scale };
            assert(force == pull(b.position, b.ball.0)) by (nonlinear_arith)
                requires
                    force.x == -x * scale,
                    force.y == -y * scale,
                    scale == GRAVITY_FORCE * mass_of(b.ball.0),
                    x == b.position.x,
                    y == b.position.y,
            ;
            game.balls.set(k, BallBundle { force, ..b });
        }
        k = k + 1;
    }
    assert(game.balls@ =~= start.map_values(|b: BallBundle| attracted(b)));
    assert forall|m: int| 0 <= m < start.len() implies #[trigger] game.balls@[m].id == start[m].id by {}
}

/// A drop is taken: the confirm action fired, the match is running and no
/// cooldown is active.
pub open spec fn may_drop(game: &Game, pressed: bool) -> bool {
    pressed && game.state == AppState::Playing && game.cooldown is None
}

/// `after` is `before` once the ball of the cursor was dropped at `position`:
/// the ball enters the board, its value is credited, the cooldown starts and
/// the ball on deck moves to the cursor. The new ball on deck is left open.
pub open spec fn dropped_into(before: &Game, after: &Game, position: Position) -> bool {
    &&& after.balls@ == before.balls@.push(new_ball(before.next_id, position, Ball(before.cursor)))
    &&& after.next_id == before.next_id + 1
    &&& after.score.score == credit(before.score.score, score_value(before.cursor))
    &&& after.score.text == before.score.text
    &&& after.cooldown == Some(CursorCooldown(CURSOR_COOLDOWN_MS))
    &&& after.cursor == before.next_cursor
    &&& after.best_score == before.best_score
    &&& after.state == before.state
    &&& after.game_over_text == before.game_over_text
}

/// Drops the ball of the cursor at `position` when the confirm action fired,
/// the match is running and no cooldown is active; `on_deck` becomes the ball
/// on deck. Otherwise nothing changes. Returns whether a ball was dropped.
pub fn spawn_ball_with(game: &mut Game, pressed: bool, position: Position, on_deck: BallType) -> (dropped: bool)
    requires
        old(game).next_id < u64::MAX,
    ensures
        old(game).wf() ==> final(game).wf(),
        dropped == may_drop(old(game), pressed),
        dropped ==> dropped_into(old(game), final(game), position) && final(game).next_cursor == on_deck,
        !dropped ==> *final(game) == *old(game),
{
    if !pressed || game.state != AppState::Playing || game.cooldown.is_some() {
        return false;
    }
    game.cooldown = Some(CursorCooldown::default());
    let ball = BallBundle::new(game.next_id, position, Ball(game.cursor));
    game.balls.push(ball);
    game.next_id = game.next_id + 1;
    game.score.add(game.cursor.score_value());
    game.cursor = game.next_cursor;
    game.next_cursor = on_deck;
    proof {
        let s0 = old(game).balls@;
        assert forall|m: int| 0 <= m < s0.len() implies #[trigger] game.balls@[m] == s0[m] by {}
    }
    true
}

/// Drops the ball of the cursor at `position` when the confirm action fired,
/// the match is running and no cooldown is active; a tier drawn at random among
/// the low tiers goes on deck. Otherwise nothing changes. Returns whether a
/// ball was dropped.
pub fn spawn_ball(game: &mut Game, pressed: bool, position: Position) -> (dropped: bool)
    requires
        old(game).next_id < u64::MAX,
    ensures
        old(game).wf() ==> final(game).wf(),
        dropped == may_drop(old(game), pressed),
        dropped ==> dropped_into(old(game), final(game), position)
            && rank(final(game).next_cursor) < CURSOR_TIER_RANKS,
        !dropped ==> *final(game) == *old(game),
{
    if !pressed || game.state != AppState::Playing || game.cooldown.is_some() {
        return false;
    }
    let on_deck = random_low_tier();
    spawn_ball_with(game, pressed, position, on_deck)
}

/// Every ball left after the fuse animation step is a ball of `s` under the
/// same identity, and identities stay distinct.
pub proof fn lemma_fusioned_ids(s: Seq<BallBundle>, elapsed: u64, next_id: u64)
    requires
        ids_fresh(BoardModel { balls: s, next_id, score: 0 }),
    ensures
        ids_fresh(BoardModel { balls: fusioned(s, elapsed), next_id, score: 0 }),
        forall|k: int|
            0 <= k < fusioned(s, elapsed).len() ==> exists|m: int|
                0 <= m < s.len() && #[trigger] fusioned(s, elapsed)[k].id == s[m].id,
    decreases s.len(),
{
    if s.len() > 0 {
        let init = s.drop_last();
        assert(ids_fresh(BoardModel { balls: init, next_id, score: 0 })) by {
            assert forall|i: int, j: int|
                0 <= i < init.len() && 0 <= j < init.len() && i != j implies #[trigger] init[i].id
                != #[trigger] init[j].id by {
                assert(s[i].id != s[j].id);
            }
            assert forall|i: int| 0 <= i < init.len() implies #[trigger] init[i].id < next_id by {
                assert(s[i].id < next_id);
            }
        }
        lemma_fusioned_ids(init, elapsed, next_id);
        let rest = fusioned(init, elapsed);
        let r = fusioned(s, elapsed);
        assert forall|k: int| 0 <= k < rest.len() implies exists|m: int|
            0 <= m < s.len() && #[trigger] rest[k].id == s[m].id by {
            let m = choose|m: int| 0 <= m < init.len() && rest[k].id == init[m].id;
            assert(rest[k].id == s[m].id);
        }
        match fused_away(s.last(), elapsed) {
            Some(x) => {
                assert(r == rest.push(x));
                assert forall|k: int| 0 <= k < rest.len() implies #[trigger] rest[k].id != x.id by {
                    let m = choose|m: int| 0 <= m < init.len() && rest[k].id == init[m].id;
                    assert(s[m].id != s[s.len() - 1].id);
                }
                assert forall|k: int| 0 <= k < r.len() implies exists|m: int|
                    0 <= m < s.len() && #[trigger] r[k].id == s[m].id by {
                    if k == r.len() - 1 {
                        assert(r[k].id == s[s.len() - 1].id);
                    } else {
                        assert(r[k] == rest[k]);
                    }
                }
                assert forall|i: int, j: int|
                    0 <= i < r.len() && 0 <= j < r.len() && i != j implies #[trigger] r[i].id
                    != #[trigger] r[j].id by {
                    if i < rest.len() && j < rest.len() {
                        assert(r[i] == rest[i] && r[j] == rest[j]);
                    } else if i < rest.len() {
                        assert(r[i] == rest[i]);
                    } else {
                        assert(r[j] == rest[j]);
                    }
                }
                assert forall|i: int| 0 <= i < r.len() implies #[trigger] r[i].id < next_id by {
                    if i < rest.len() {
                        assert(r[i] == rest[i]);
                    } else {
                        assert(s[s.len() - 1].id < next_id);
                    }
                }
            },
            None => {},
        }
    }
}

} // verus!
