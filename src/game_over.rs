//! The end of a match: a ball in play too far from the centre ends it, and a
//! restart clears the board and settles the best score.
use vstd::prelude::*;
use crate::planet::{BallBundle, Position};
use crate::score::committed_best;
use crate::game::{AppState, Game, GameOverText};

verus! {

/// Distance from the centre beyond which a ball in play ends the match.
pub const GAME_OVER_DISTANCE: u32 = 350;

/// Squared distance from the centre of the board.
pub open spec fn dist2(p: Position) -> int {
    p.x * p.x + p.y * p.y
}

/// A ball in play lies farther than `threshold` from the centre.
pub open spec fn out_of_bounds(b: BallBundle, threshold: u32) -> bool {
    b.phase is Free && dist2(b.position) > threshold * threshold
}

/// Some ball of `s` is in play and farther than `threshold` from the centre.
pub open spec fn any_out_of_bounds(s: Seq<BallBundle>, threshold: u32) -> bool {
    exists|i: int| 0 <= i < s.len() && out_of_bounds(#[trigger] s[i], threshold)
}

pub open spec fn banner_text() -> Seq<char> {
    "\tGame Over press R to restart"@
}

impl GameOverText {
    /// The banner that tells the player how to start again.
    pub fn new() -> (r: GameOverText)
        ensures
            r.text@ == banner_text(),
    {
        proof {
            reveal_strlit("\tGame Over press R to restart");
        }
        GameOverText { text: "\tGame Over press R to restart".to_owned() }
    }
}

impl Default for GameOverText {
    fn default() -> (r: GameOverText)
        ensures
            r.text@ == banner_text(),
    {
        GameOverText::new()
    }
}

fn is_out_of_bounds(b: &BallBundle, threshold: u32) -> (r: bool)
    ensures
        r == out_of_bounds(*b, threshold),
{
    if !b.is_free() {
        return false;
    }
    let x = b.position.x as i64;
    let y = b.position.y as i64;
    assert(0 <= x * x <= 0x4000_0000_0000_0000 && 0 <= y * y <= 0x4000_0000_0000_0000) by (nonlinear_arith)
        requires
            -0x8000_0000 <= x < 0x8000_0000,
            -0x8000_0000 <= y < 0x8000_0000,
    ;
    let d2: u64 = (x * x) as u64 + (y * y) as u64;
    let t = threshold as u64;
    assert(t * t <= 0xffff_fffe_0000_0001) by (nonlinear_arith)
        requires
            t < 0x1_0000_0000,
    ;
    d2 > t * t
}

/// Ends the match when it is running and some ball in play lies farther than
/// `threshold` from the centre: the state becomes `GameOver` and the banner
/// appears, once, however many balls are out. Otherwise nothing changes.
/// Returns whether the match ended on this call.
pub fn game_over(game: &mut Game, threshold: u32) -> (ended: bool)
    ensures
        ended == (old(game).state == AppState::Playing && any_out_of_bounds(old(game).balls@, threshold)),
        ended ==> ({
            &&& final(game).state == AppState::GameOver
            &&& final(game).game_over_text matches Some(t) && t.text@ == banner_text()
            &&& final(game).balls == old(game).balls
            &&& final(game).next_id == old(game).next_id
            &&& final(game).score == old(game).score
            &&& final(game).best_score == old(game).best_score
            &&& final(game).cooldown == old(game).cooldown
            &&& final(game).cursor == old(game).cursor
            &&& final(game).next_cursor == old(game).next_cursor
        }),
        !ended ==> *final(game) == *old(game),
{
    if game.state != AppState::Playing {
        return false;
    }
    let mut k: usize = 0;
    while k < game.balls.len()
        invariant
            k <= game.balls@.len(),
            *game == *old(game),
            game.state == AppState::Playing,
            forall|i: int| 0 <= i < k ==> !out_of_bounds(#[trigger] game.balls@[i], threshold),
        decreases game.balls@.len() - k,
    {
        if is_out_of_bounds(&game.balls[k], threshold) {
            game.state = AppState::GameOver;
            game.game_over_text = Some(GameOverText::new());
            return true;
        }
        k = k + 1;
    }
    false
}

/// Starts a new match when the restart action fired after the match ended:
/// every ball, the cooldown and the banner go, the best score takes the round's
/// score if it is higher, the round's score returns to zero and the match runs
/// again. Otherwise nothing changes. Returns whether the match restarted.
pub fn restart(game: &mut Game, pressed: bool) -> (restarted: bool)
    ensures
        restarted == (pressed && old(game).state == AppState::GameOver),
        restarted ==> ({
            &&& final(game).balls@.len() == 0
            &&& final(game).score.score == 0
            &&& final(game).score.text == old(game).score.text
            &&& final(game).best_score.score == committed_best(
                old(game).best_score.score,
                old(game).score.score,
            )
            &&& final(game).best_score.text == old(game).best_score.text
            &&& final(game).state == AppState::Playing
            &&& final(game).cooldown is None
            &&& final(game).game_over_text is None
            &&& final(game).next_id == old(game).next_id
            &&& final(game).cursor == old(game).cursor
            &&& final(game).next_cursor == old(game).next_cursor
        }),
        !restarted ==> *final(game) == *old(game),
{
    if !pressed || game.state != AppState::GameOver {
        return false;
    }
    game.balls = Vec::new();
    game.cooldown = None;
    game.game_over_text = None;
    game.best_score.commit_best(&game.score);
    game.score.reset_round();
    game.state = AppState::Playing;
    true
}

} // verus!
