//! The catalogue of ball tiers: size, picture and score value of each tier,
//! and the cyclic order in which two equal balls fuse into the next one.
use vstd::prelude::*;

verus! {

/// Number of tiers in the cycle.
pub const TIER_COUNT: u64 = 11;

/// The tier of a ball, from the smallest to the largest.
#[derive(PartialEq, Eq, Structural, Copy, Clone, Debug)]
pub enum BallType {
    ONE,
    TWO,
    THREE,
    FOUR,
    FIVE,
    SIX,
    SEVEN,
    EIGHT,
    NINE,
    TEN,
    ELEVEN,
}

/// The tier carried by a ball.
#[derive(PartialEq, Eq, Structural, Copy, Clone, Debug)]
pub struct Ball(pub BallType);

/// Position of a tier in the cycle, from 0 for the smallest.
pub open spec fn rank(t: BallType) -> nat {
    match t {
        BallType::ONE => 0,
        BallType::TWO => 1,
        BallType::THREE => 2,
        BallType::FOUR => 3,
        BallType::FIVE => 4,
        BallType::SIX => 5,
        BallType::SEVEN => 6,
        BallType::EIGHT => 7,
        BallType::NINE => 8,
        BallType::TEN => 9,
        BallType::ELEVEN => 10,
    }
}

/// The tier at a given position of the cycle (taken modulo the tier count).
pub open spec fn tier_at(r: nat) -> BallType {
    let m = r % 11;
    if m == 0 {
        BallType::ONE
    } else if m == 1 {
        BallType::TWO
    } else if m == 2 {
        BallType::THREE
    } else if m == 3 {
        BallType::FOUR
    } else if m == 4 {
        BallType::FIVE
    } else if m == 5 {
        BallType::SIX
    } else if m == 6 {
        BallType::SEVEN
    } else if m == 7 {
        BallType::EIGHT
    } else if m == 8 {
        BallType::NINE
    } else if m == 9 {
        BallType::TEN
    } else {
        BallType::ELEVEN
    }
}

/// The tier that two balls of tier `t` fuse into; the largest wraps to the smallest.
pub open spec fn next_tier(t: BallType) -> BallType {
    tier_at(rank(t) + 1)
}

/// Scale (radius in pixels) of a full-grown ball of tier `t`.
pub open spec fn radius_scale(t: BallType) -> u32 {
    match t {
        BallType::ONE => 30,
        BallType::TWO => 37,
        BallType::THREE => 47,
        BallType::FOUR => 60,
        BallType::FIVE => 75,
        BallType::SIX => 95,
        BallType::SEVEN => 120,
        BallType::EIGHT => 151,
        BallType::NINE => 190,
        BallType::TEN => 240,
        BallType::ELEVEN => 302,
    }
}

/// Points awarded for each ball of tier `t` that enters the board.
pub open spec fn score_value(t: BallType) -> u64 {
    match t {
        BallType::ONE => 1,
        BallType::TWO => 2,
        BallType::THREE => 4,
        BallType::FOUR => 8,
        BallType::FIVE => 16,
        BallType::SIX => 32,
        BallType::SEVEN => 64,
        BallType::EIGHT => 128,
        BallType::NINE => 258,
        BallType::TEN => 512,
        BallType::ELEVEN => 1024,
    }
}

/// Name of the picture that shows a ball of tier `t`.
pub open spec fn visual_key(t: BallType) -> Seq<char> {
    match t {
        BallType::ONE => "moon.png"@,
        BallType::TWO => "earth.png"@,
        BallType::THREE => "mars.png"@,
        BallType::FOUR => "snow.png"@,
        BallType::FIVE => "toxic.png"@,
        BallType::SIX => "lava.png"@,
        BallType::SEVEN => "milk.png"@,
        BallType::EIGHT => "green.png"@,
        BallType::NINE => "emma.png"@,
        BallType::TEN => "sand.png"@,
        BallType::ELEVEN => "sun.png"@,
    }
}

/// `next_tier` applied `n` times.
pub open spec fn advance(t: BallType, n: nat) -> BallType
    decreases n,
{
    if n == 0 {
        t
    } else {
        next_tier(advance(t, (n - 1) as nat))
    }
}

impl Default for BallType {
    fn default() -> (r: BallType)
        ensures
            r == BallType::ONE,
    {
        BallType::ONE
    }
}

impl Default for Ball {
    fn default() -> (r: Ball)
        ensures
            r == Ball(BallType::ONE),
    {
        Ball(BallType::ONE)
    }
}

impl BallType {
    /// Scale, picture name and score value of this tier.
    pub fn properties(&self) -> (r: (u32, String, u64))
        ensures
            r.0 == radius_scale(*self),
            r.1@ == visual_key(*self),
            r.2 == score_value(*self),
    {
        let key: &str = match self {
            BallType::ONE => "moon.png",
            BallType::TWO => "earth.png",
            BallType::THREE => "mars.png",
            BallType::FOUR => "snow.png",
            BallType::FIVE => "toxic.png",
            BallType::SIX => "lava.png",
            BallType::SEVEN => "milk.png",
            BallType::EIGHT => "green.png",
            BallType::NINE => "emma.png",
            BallType::TEN => "sand.png",
            BallType::ELEVEN => "sun.png",
        };
        proof {
            reveal_strlit("moon.png");
            reveal_strlit("earth.png");
            reveal_strlit("mars.png");
            reveal_strlit("snow.png");
            reveal_strlit("toxic.png");
            reveal_strlit("lava.png");
            reveal_strlit("milk.png");
            reveal_strlit("green.png");
            reveal_strlit("emma.png");
            reveal_strlit("sand.png");
            reveal_strlit("sun.png");
        }
        (self.radius(), key.to_owned(), self.score_value())
    }

    /// Scale (radius in pixels) of a full-grown ball of this tier.
    pub fn radius(&self) -> (r: u32)
        ensures
            r == radius_scale(*self),
    {
        match self {
            BallType::ONE => 30,
            BallType::TWO => 37,
            BallType::THREE => 47,
            BallType::FOUR => 60,
            BallType::FIVE => 75,
            BallType::SIX => 95,
            BallType::SEVEN => 120,
            BallType::EIGHT => 151,
            BallType::NINE => 190,
            BallType::TEN => 240,
            BallType::ELEVEN => 302,
        }
    }

    /// Points awarded for a ball of this tier.
    pub fn score_value(&self) -> (r: u64)
        ensures
            r == score_value(*self),
    {
        match self {
            BallType::ONE => 1,
            BallType::TWO => 2,
            BallType::THREE => 4,
            BallType::FOUR => 8,
            BallType::FIVE => 16,
            BallType::SIX => 32,
            BallType::SEVEN => 64,
            BallType::EIGHT => 128,
            BallType::NINE => 258,
            BallType::TEN => 512,
            BallType::ELEVEN => 1024,
        }
    }

    /// The ball that two balls of this tier fuse into.
    pub fn next(&self) -> (r: Ball)
        ensures
            r.0 == next_tier(*self),
    {
        match self {
            BallType::ONE => Ball(BallType::TWO),
            BallType::TWO => Ball(BallType::THREE),
            BallType::THREE => Ball(BallType::FOUR),
            BallType::FOUR => Ball(BallType::FIVE),
            BallType::FIVE => Ball(BallType::SIX),
            BallType::SIX => Ball(BallType::SEVEN),
            BallType::SEVEN => Ball(BallType::EIGHT),
            BallType::EIGHT => Ball(BallType::NINE),
            BallType::NINE => Ball(BallType::TEN),
            BallType::TEN => Ball(BallType::ELEVEN),
            BallType::ELEVEN => Ball(BallType::ONE),
        }
    }
}

/// Two tiers with the same position are the same tier.
pub proof fn lemma_rank_injective(a: BallType, b: BallType)
    ensures
        rank(a) == rank(b) ==> a == b,
{
}

/// The position of the tier reached after `n` steps is `n` further along the cycle.
pub proof fn lemma_advance_rank(t: BallType, n: nat)
    ensures
        rank(advance(t, n)) == (rank(t) + n) % 11,
    decreases n,
{
    if n > 0 {
        lemma_advance_rank(t, (n - 1) as nat);
        let prev = advance(t, (n - 1) as nat);
        let m = (rank(prev) + 1) % 11;
        assert(rank(tier_at(rank(prev) + 1)) == m);
    }
}

/// The fusion order is one cycle through all tiers: stepping `next` once per
/// tier returns to the starting tier, and fewer steps (one included) never do,
/// so no tier is its own successor.
pub proof fn lemma_next_is_one_cycle(t: BallType, n: nat)
    requires
        0 < n < TIER_COUNT,
    ensures
        advance(t, TIER_COUNT as nat) == t,
        advance(t, n) != t,
        next_tier(t) != t,
{
    lemma_advance_rank(t, TIER_COUNT as nat);
    lemma_advance_rank(t, n);
    lemma_advance_rank(t, 1);
    lemma_rank_injective(advance(t, TIER_COUNT as nat), t);
    assert(advance(t, 1) == next_tier(t));
}

} // verus!
