//! The player's cursor: the ball about to be dropped, the one on deck, and the
//! cooldown between two drops.
use vstd::prelude::*;
use rand::Rng;
use crate::tier::{BallType, radius_scale, visual_key, rank};
use crate::planet::Position;

verus! {

/// Milliseconds during which no new ball may be dropped after a drop.
pub const CURSOR_COOLDOWN_MS: u64 = 500;

/// Number of low tiers from which the ball on deck is drawn.
pub const CURSOR_TIER_RANKS: u64 = 5;

/// Where the ball on deck is shown.
pub const NEXT_CURSOR_X: i32 = 350;
pub const NEXT_CURSOR_Y: i32 = 350;

/// Milliseconds left before the player may drop the next ball.
#[derive(PartialEq, Eq, Structural, Copy, Clone, Debug)]
pub struct CursorCooldown(pub u64);

impl Default for CursorCooldown {
    fn default() -> (r: CursorCooldown)
        ensures
            r.0 == CURSOR_COOLDOWN_MS,
    {
        CursorCooldown(CURSOR_COOLDOWN_MS)
    }
}

/// What a cursor shows: a tier, drawn at full size with its picture.
pub struct CursorBundle {
    pub balltype: BallType,
    pub position: Position,
    pub scale: u32,
    pub texture: String,
}

/// The cooldown after `elapsed` more milliseconds: gone once it has run out.
pub open spec fn cooled(cooldown: Option<CursorCooldown>, elapsed: u64) -> Option<CursorCooldown> {
    match cooldown {
        Some(c) => if c.0 > elapsed {
            Some(CursorCooldown((c.0 - elapsed) as u64))
        } else {
            None
        },
        None => None,
    }
}

/// The tier for a draw `roll` among the low tiers: the first five tiers in order,
/// with any larger draw read as the fifth.
pub open spec fn low_tier(roll: u64) -> BallType {
    if roll == 0 {
        BallType::ONE
    } else if roll == 1 {
        BallType::TWO
    } else if roll == 2 {
        BallType::THREE
    } else if roll == 3 {
        BallType::FOUR
    } else {
        BallType::FIVE
    }
}

/// Relies on rand::thread_rng and rand::Rng::gen_range: a draw from the
/// inclusive range `0..=max` lies in that range, and the range is never empty.
#[verifier::external_body]
fn draw_up_to(max: u64) -> (r: u64)
    ensures
        r <= max,
{
    rand::thread_rng().gen_range(0..=max)
}

/// Picks the tier for a draw among the low tiers.
pub fn tier_for_roll(roll: u64) -> (t: BallType)
    ensures
        t == low_tier(roll),
        rank(t) < CURSOR_TIER_RANKS,
{
    match roll {
        0 => BallType::ONE,
        1 => BallType::TWO,
        2 => BallType::THREE,
        3 => BallType::FOUR,
        _ => BallType::FIVE,
    }
}

/// A tier drawn at random among the low tiers.
pub fn random_low_tier() -> (t: BallType)
    ensures
        rank(t) < CURSOR_TIER_RANKS,
{
    let roll = draw_up_to(CURSOR_TIER_RANKS - 1);
    tier_for_roll(roll)
}

impl CursorBundle {
    /// The cursor showing `balltype` at the place of the ball on deck.
    pub fn new(balltype: BallType) -> (r: CursorBundle)
        ensures
            r.balltype == balltype,
            r.position == (Position { x: NEXT_CURSOR_X, y: NEXT_CURSOR_Y }),
            r.scale == radius_scale(balltype),
            r.texture@ == visual_key(balltype),
    {
        let properties = balltype.properties();
        CursorBundle {
            balltype,
            position: Position { x: NEXT_CURSOR_X, y: NEXT_CURSOR_Y },
            scale: properties.0,
            texture: properties.1,
        }
    }

    /// A cursor showing a tier drawn at random among the low tiers.
    pub fn rand() -> (r: CursorBundle)
        ensures
            rank(r.balltype) < CURSOR_TIER_RANKS,
            r.position == (Position { x: NEXT_CURSOR_X, y: NEXT_CURSOR_Y }),
            r.scale == radius_scale(r.balltype),
            r.texture@ == visual_key(r.balltype),
    {
        CursorBundle::new(random_low_tier())
    }
}

/// Lets `elapsed` milliseconds pass on the drop cooldown; removes it once it
/// has run out.
pub fn cursor_cooldown(cooldown: &mut Option<CursorCooldown>, elapsed: u64)
    ensures
        *final(cooldown) == cooled(*old(cooldown), elapsed),
{
    match *cooldown {
        Some(c) => {
            if c.0 > elapsed {
                *cooldown = Some(CursorCooldown(c.0 - elapsed));
            } else {
                *cooldown = None;
            }
        },
        None => {},
    }
}

} // verus!
