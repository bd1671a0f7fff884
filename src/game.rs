//! The simulation context: every ball, the score ledger, the cursors and the
//! state of the match, held in one value that each step of a tick updates.
use vstd::prelude::*;
use crate::tier::{Ball, BallType, rank, score_value};
use crate::planet::{
    BallBundle, Position, Velocity, attracted, fusioned, fusioning, gravity, grown, growing,
    new_ball, spawn_ball,
};
use crate::score::{BestScore, Score, committed_best, credit};
use crate::cursor::{
    CursorCooldown, CURSOR_COOLDOWN_MS, CURSOR_TIER_RANKS, cooled, cursor_cooldown,
    random_low_tier,
};
use crate::fusion::{CollisionEvent, fuse_all, fusion, lemma_fusion_score};
use crate::game_over::{GAME_OVER_DISTANCE, any_out_of_bounds, game_over, restart};

verus! {

/// State of the match.
#[derive(PartialEq, Eq, Structural, Copy, Clone, Debug)]
pub enum AppState {
    Playing,
    GameOver,
}

/// The banner shown once the match is over.
pub struct GameOverText {
    pub text: String,
}

/// Everything that the simulation changes from one tick to the next.
pub struct Game {
    pub balls: Vec<BallBundle>,
    /// Identity that the next ball to enter the board receives.
    pub next_id: u64,
    pub score: Score,
    pub best_score: BestScore,
    pub state: AppState,
    pub cooldown: Option<CursorCooldown>,
    /// Tier of the ball about to be dropped.
    pub cursor: BallType,
    /// Tier of the ball on deck.
    pub next_cursor: BallType,
    pub game_over_text: Option<GameOverText>,
}

/// The part of the context that the board's own updates change: the balls,
/// the next identity and the points of the round.
pub ghost struct BoardModel {
    pub balls: Seq<BallBundle>,
    pub next_id: u64,
    pub score: u64,
}

/// Every ball has its own identity, below the next one to be handed out.
pub open spec fn ids_fresh(b: BoardModel) -> bool {
    &&& forall|i: int| 0 <= i < b.balls.len() ==> #[trigger] b.balls[i].id < b.next_id
    &&& forall|i: int, j: int|
        0 <= i < b.balls.len() && 0 <= j < b.balls.len() && i != j ==> #[trigger] b.balls[i].id
            != #[trigger] b.balls[j].id
}

impl Game {
    pub open spec fn board(&self) -> BoardModel {
        BoardModel { balls: self.balls@, next_id: self.next_id, score: self.score.score }
    }

    /// The context is consistent: ball identities are distinct and fresh.
    pub open spec fn wf(&self) -> bool {
        ids_fresh(self.board())
    }

    /// `other` differs from `self` at most in the board.
    pub open spec fn same_outside_board(&self, other: &Game) -> bool {
        &&& self.score.text == other.score.text
        &&& self.best_score == other.best_score
        &&& self.state == other.state
        &&& self.cooldown == other.cooldown
        &&& self.cursor == other.cursor
        &&& self.next_cursor == other.next_cursor
        &&& self.game_over_text == other.game_over_text
    }
}

/// What the outside world hands to one tick of the simulation.
pub struct TickInput {
    /// Milliseconds since the previous tick.
    pub elapsed: u64,
    /// The confirm action fired on this tick.
    pub confirm: bool,
    /// The restart action fired on this tick.
    pub restart: bool,
    /// Where the ball of the cursor would be dropped.
    pub cursor_position: Position,
    /// Contacts reported by the physics engine since the previous tick.
    pub collisions: Vec<CollisionEvent>,
}

/// What happened during one tick.
#[derive(PartialEq, Eq, Structural, Copy, Clone, Debug)]
pub struct TickReport {
    pub dropped: bool,
    pub ended: bool,
    pub restarted: bool,
}

/// The board of `g` once the ball of its cursor is dropped at `position`, if
/// `dropped`.
pub open spec fn after_drop(g: &Game, dropped: bool, position: Position) -> BoardModel {
    if dropped {
        BoardModel {
            balls: g.balls@.push(new_ball(g.next_id, position, Ball(g.cursor))),
            next_id: (g.next_id + 1) as u64,
            score: credit(g.score.score, score_value(g.cursor)),
        }
    } else {
        g.board()
    }
}

/// The board once gravity has acted on every ball in play.
pub open spec fn pulled(b: BoardModel) -> BoardModel {
    BoardModel { balls: b.balls.map_values(|x: BallBundle| attracted(x)), ..b }
}

/// The board once `elapsed` milliseconds of the fuse and grow animations passed.
pub open spec fn animated(b: BoardModel, elapsed: u64) -> BoardModel {
    BoardModel {
        balls: fusioned(b.balls, elapsed).map_values(|x: BallBundle| grown(x, elapsed)),
        ..b
    }
}

/// A ball is dropped on a running tick: the confirm action fired and the
/// cooldown has run out once the elapsed time is counted off.
pub open spec fn drops(g: &Game, input: &TickInput) -> bool {
    input.confirm && cooled(g.cooldown, input.elapsed) is None
}

/// The board after one tick of a running match.
pub open spec fn played(g: &Game, input: &TickInput) -> BoardModel {
    animated(
        fuse_all(pulled(after_drop(g, drops(g, input), input.cursor_position)), input.collisions@),
        input.elapsed,
    )
}

impl Game {
    /// A fresh match with `cursor` ready to drop and `next_cursor` on deck.
    pub fn new(cursor: BallType, next_cursor: BallType) -> (r: Game)
        ensures
            r.wf(),
            r.balls@.len() == 0,
            r.next_id == 0,
            r.score.score == 0,
            r.score.text@ == "Score : "@,
            r.best_score.score == 0,
            r.best_score.text@ == "Best : "@,
            r.state == AppState::Playing,
            r.cooldown is None,
            r.cursor == cursor,
            r.next_cursor == next_cursor,
            r.game_over_text is None,
    {
        Game {
            balls: Vec::new(),
            next_id: 0,
            score: Score::new(),
            best_score: BestScore::new(),
            state: AppState::Playing,
            cooldown: None,
            cursor,
            next_cursor,
            game_over_text: None,
        }
    }

    /// A fresh match with both cursors drawn at random among the low tiers.
    pub fn start() -> (r: Game)
        ensures
            r.wf(),
            r.balls@.len() == 0,
            r.next_id == 0,
            r.score.score == 0,
            r.best_score.score == 0,
            r.state == AppState::Playing,
            r.cooldown is None,
            rank(r.cursor) < CURSOR_TIER_RANKS,
            rank(r.next_cursor) < CURSOR_TIER_RANKS,
            r.game_over_text is None,
    {
        let next_cursor = random_low_tier();
        let cursor = random_low_tier();
        Game::new(cursor, next_cursor)
    }

    /// Records where the physics engine moved the ball `id` and how fast it
    /// goes. Returns whether such a ball is on the board.
    pub fn move_ball(&mut self, id: u64, position: Position, velocity: Velocity) -> (found: bool)
        ensures
            old(self).wf() ==> final(self).wf(),
            found == exists|i: int| 0 <= i < old(self).balls@.len() && #[trigger] old(self).balls@[i].id == id,
            final(self).balls@.len() == old(self).balls@.len(),
            forall|i: int|
                0 <= i < old(self).balls@.len() ==> #[trigger] final(self).balls@[i] == if old(self).balls@[i].id == id {
                    BallBundle { position, velocity, ..old(self).balls@[i] }
                } else {
                    old(self).balls@[i]
                },
            final(self).next_id == old(self).next_id,
            final(self).score == old(self).score,
            final(self).same_outside_board(old(self)),
    {
        let ghost start = self.balls@;
        let mut found = false;
        let mut k: usize = 0;
        while k < self.balls.len()
            invariant
                k <= self.balls@.len(),
                self.balls@.len() == start.len(),
                found == exists|i: int| 0 <= i < k && #[trigger] start[i].id == id,
                forall|i: int| 0 <= i < k ==> #[trigger] self.balls@[i] == if start[i].id == id {
                    BallBundle { position, velocity, ..start[i] }
                } else {
                    start[i]
                },
                forall|i: int| k <= i < start.len() ==> #[trigger] self.balls@[i] == start[i],
                self.next_id == old(self).next_id,
                self.score == old(self).score,
                self.same_outside_board(old(self)),
            decreases start.len() - k,
        {
            let b = self.balls[k];
            if b.id == id {
                self.balls.set(k, BallBundle { position, velocity, ..b });
                found = true;
            }
            k = k + 1;
        }
        assert forall|m: int| 0 <= m < start.len() implies #[trigger] self.balls@[m].id == start[m].id by {}
        found
    }

    /// One tick of the simulation. While the match runs: count the elapsed
    /// time off the drop cooldown, drop a ball if asked, pull the balls in play
    /// to the centre, resolve the contacts into fusions, advance the fuse and
    /// grow animations, and end the match if a ball in play is out. Once it is
    /// over: keep pulling the balls, and restart if asked. The best score
    /// changes only on a restart, and only to a higher round score; within a
    /// round the score never drops.
    pub fn tick(&mut self, input: &TickInput) -> (r: TickReport)
        requires
            old(self).next_id + input.collisions@.len() < u64::MAX,
        ensures
            old(self).wf() ==> final(self).wf(),
            r.dropped == (input.confirm && old(self).state == AppState::Playing && cooled(
                old(self).cooldown,
                input.elapsed,
            ) is None),
            r.restarted == (old(self).state == AppState::GameOver && input.restart),
            r.ended ==> old(self).state == AppState::Playing && final(self).state == AppState::GameOver,
            final(self).best_score.score == if r.restarted {
                committed_best(old(self).best_score.score, old(self).score.score)
            } else {
                old(self).best_score.score
            },
            r.restarted ==> final(self).score.score == 0 && final(self).balls@.len() == 0
                && final(self).state == AppState::Playing,
            !r.restarted ==> final(self).score.score >= old(self).score.score,
            old(self).state == AppState::GameOver && !r.restarted ==> final(self).state
                == AppState::GameOver,
            old(self).state == AppState::Playing && !r.ended ==> final(self).state == AppState::Playing,
            old(self).state == AppState::Playing ==> ({
                &&& final(self).board() == played(old(self), input)
                &&& r.dropped == drops(old(self), input)
                &&& r.ended == any_out_of_bounds(final(self).balls@, GAME_OVER_DISTANCE)
                &&& final(self).cooldown == if r.dropped {
                    Some(CursorCooldown(CURSOR_COOLDOWN_MS))
                } else {
                    cooled(old(self).cooldown, input.elapsed)
                }
                &&& r.dropped ==> final(self).cursor == old(self).next_cursor && rank(
                    final(self).next_cursor,
                ) < CURSOR_TIER_RANKS
                &&& !r.dropped ==> final(self).cursor == old(self).cursor && final(self).next_cursor
                    == old(self).next_cursor
            }),
            old(self).state == AppState::GameOver && !r.restarted ==> ({
                &&& final(self).board() == pulled(old(self).board())
                &&& final(self).cooldown == old(self).cooldown
            }),
    {
        if self.state == AppState::Playing {
            cursor_cooldown(&mut self.cooldown, input.elapsed);
            let dropped = spawn_ball(self, input.confirm, input.cursor_position);
            let ghost b0 = self.board();
            assert(b0 == after_drop(old(self), dropped, input.cursor_position));
            gravity(self);
            let ghost b1 = self.board();
            assert(b1 == pulled(b0));
            fusion(self, &input.collisions);
            proof {
                lemma_fusion_score(b1, input.collisions@);
            }
            let ghost b2 = self.board();
            fusioning(self, input.elapsed);
            growing(self, input.elapsed);
            assert(self.board() == animated(b2, input.elapsed));
            let ended = game_over(self, GAME_OVER_DISTANCE);
            TickReport { dropped, ended, restarted: false }
        } else {
            gravity(self);
            assert(self.board() == pulled(old(self).board()));
            let restarted = restart(self, input.restart);
            TickReport { dropped: false, ended: false, restarted }
        }
    }
}

} // verus!
