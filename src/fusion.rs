//! The collision-to-fusion resolver: two balls of one tier that touch are
//! consumed and replaced by one growing ball of the next tier.
use vstd::prelude::*;
use crate::tier::{Ball, BallType, next_tier, score_value};
use crate::planet::{
    BallBundle, BallPhase, Fusion, Position, Velocity, ANIMATION_SPEED, growing_ball,
};
use crate::score::{credit, credit_all};
use crate::game::{BoardModel, Game, ids_fresh};

verus! {

/// A contact reported by the physics engine between two balls, by identity.
#[derive(PartialEq, Eq, Structural, Copy, Clone, Debug)]
pub enum CollisionEvent {
    Started(u64, u64),
    Stopped(u64, u64),
}

/// Index of the first ball at or after `i` with identity `id`, or -1.
pub open spec fn index_from(s: Seq<BallBundle>, id: u64, i: int) -> int
    decreases s.len() - i,
{
    if i < 0 || i >= s.len() {
        -1
    } else if s[i].id == id {
        i
    } else {
        index_from(s, id, i + 1)
    }
}

/// Index of the ball with identity `id`, or -1 when there is none.
pub open spec fn index_of(s: Seq<BallBundle>, id: u64) -> int {
    index_from(s, id, 0)
}

/// The balls at `i` and `j` may fuse: two distinct balls, neither already
/// consumed by a fusion, of one tier.
pub open spec fn can_fuse(s: Seq<BallBundle>, i: int, j: int) -> bool {
    &&& 0 <= i < s.len()
    &&& 0 <= j < s.len()
    &&& i != j
    &&& !(s[i].phase is Fusing)
    &&& !(s[j].phase is Fusing)
    &&& s[i].ball == s[j].ball
}

/// The point halfway between `p` and `q`, rounded down.
pub open spec fn midpoint(p: Position, q: Position) -> Position {
    Position { x: ((p.x + q.x) / 2) as i32, y: ((p.y + q.y) / 2) as i32 }
}

/// The velocity that carries a ball at `p` away from a ball at `q`.
pub open spec fn away(p: Position, q: Position) -> Velocity {
    Velocity { x: (p.x - q.x) as i64, y: (p.y - q.y) as i64 }
}

/// Draw depth of a fusion product: above both parents, held at `u64::MAX`.
pub open spec fn product_depth(zp: u64, zq: u64) -> u64 {
    if zp + zq + 1 > u64::MAX {
        u64::MAX
    } else {
        (zp + zq + 1) as u64
    }
}

/// A ball consumed by a fusion: kinematic, moving at `v`, about to leave.
pub open spec fn start_fusing(b: BallBundle, v: Velocity) -> BallBundle {
    BallBundle { velocity: v, phase: BallPhase::Fusing(Fusion(ANIMATION_SPEED)), ..b }
}

/// The ball that the fusion of `p` and `q` brings, with identity `id`.
pub open spec fn fusion_product(id: u64, p: BallBundle, q: BallBundle) -> BallBundle {
    growing_ball(
        id,
        midpoint(p.position, q.position),
        product_depth(p.z, q.z),
        Ball(next_tier(p.ball.0)),
    )
}

/// The board after the balls at `i` and `j` fuse.
pub open spec fn fused(b: BoardModel, i: int, j: int) -> BoardModel {
    let p = b.balls[i];
    let q = b.balls[j];
    BoardModel {
        balls: b.balls.update(i, start_fusing(p, away(p.position, q.position))).update(
            j,
            start_fusing(q, away(q.position, p.position)),
        ).push(fusion_product(b.next_id, p, q)),
        next_id: (b.next_id + 1) as u64,
        score: credit(b.score, score_value(next_tier(p.ball.0))),
    }
}

/// The board after a contact starts between the balls `a` and `c`.
pub open spec fn fuse_pair(b: BoardModel, a: u64, c: u64) -> BoardModel {
    let i = index_of(b.balls, a);
    let j = index_of(b.balls, c);
    if can_fuse(b.balls, i, j) {
        fused(b, i, j)
    } else {
        b
    }
}

/// The board after one collision event.
pub open spec fn fuse_event(b: BoardModel, e: CollisionEvent) -> BoardModel {
    match e {
        CollisionEvent::Started(a, c) => fuse_pair(b, a, c),
        CollisionEvent::Stopped(_, _) => b,
    }
}

/// The board after the events of a tick, in order.
pub open spec fn fuse_all(b: BoardModel, es: Seq<CollisionEvent>) -> BoardModel
    decreases es.len(),
{
    if es.len() == 0 {
        b
    } else {
        fuse_event(fuse_all(b, es.drop_last()), es.last())
    }
}

/// Finds the index of the ball with identity `id`.
pub fn find_ball(balls: &Vec<BallBundle>, id: u64) -> (r: Option<usize>)
    ensures
        match r {
            Some(i) => i == index_of(balls@, id) && i < balls@.len(),
            None => index_of(balls@, id) == -1,
        },
{
    let mut k: usize = 0;
    while k < balls.len()
        invariant
            k <= balls@.len(),
            index_of(balls@, id) == index_from(balls@, id, k as int),
        decreases balls@.len() - k,
    {
        if balls[k].id == id {
            return Some(k);
        }
        k = k + 1;
    }
    None
}

fn midpoint_of(p: Position, q: Position) -> (r: Position)
    ensures
        r == midpoint(p, q),
{
    let sx: i64 = p.x as i64 + q.x as i64 + 4294967296;
    let sy: i64 = p.y as i64 + q.y as i64 + 4294967296;
    let x: i64 = (sx as u64 / 2) as i64 - 2147483648;
    let y: i64 = (sy as u64 / 2) as i64 - 2147483648;
    Position { x: x as i32, y: y as i32 }
}

fn away_from(p: Position, q: Position) -> (r: Velocity)
    ensures
        r == away(p, q),
{
    Velocity { x: p.x as i64 - q.x as i64, y: p.y as i64 - q.y as i64 }
}

fn depth_above(zp: u64, zq: u64) -> (r: u64)
    ensures
        r == product_depth(zp, zq),
{
    if zp >= u64::MAX - zq {
        u64::MAX
    } else {
        zp + zq + 1
    }
}

/// Resolves a contact that starts between the balls `a` and `c`.
fn fuse_contact(game: &mut Game, a: u64, c: u64)
    requires
        old(game).next_id < u64::MAX,
    ensures
        final(game).board() == fuse_pair(old(game).board(), a, c),
        final(game).same_outside_board(old(game)),
{
    let ghost b = game.board();
    let fi = find_ball(&game.balls, a);
    let fj = find_ball(&game.balls, c);
    match (fi, fj) {
        (Some(i), Some(j)) => {
            let p = game.balls[i];
            let q = game.balls[j];
            if i != j && !p.is_fusing() && !q.is_fusing() && p.ball == q.ball {
                let product = BallBundle::growing(
                    game.next_id,
                    midpoint_of(p.position, q.position),
                    depth_above(p.z, q.z),
                    p.ball.0.next(),
                );
                let points = product.ball.0.score_value();
                let fp = BallBundle {
                    velocity: away_from(p.position, q.position),
                    phase: BallPhase::Fusing(Fusion::default()),
                    ..p
                };
                let fq = BallBundle {
                    velocity: away_from(q.position, p.position),
                    phase: BallPhase::Fusing(Fusion::default()),
                    ..q
                };
                game.balls.set(i, fp);
                game.balls.set(j, fq);
                game.balls.push(product);
                game.next_id = game.next_id + 1;
                game.score.add(points);
                assert(game.balls@ =~= fused(b, i as int, j as int).balls);
            }
        },
        _ => {},
    }
}

/// Resolves the collision events of one tick, in order: each contact that
/// starts between two balls of one tier, neither of them already consumed,
/// marks both as fusing, pushes them apart, brings one growing ball of the
/// next tier at their midpoint and credits its value.
pub fn fusion(game: &mut Game, events: &Vec<CollisionEvent>)
    requires
        old(game).next_id + events@.len() <= u64::MAX,
    ensures
        old(game).wf() ==> final(game).wf(),
        final(game).board() == fuse_all(old(game).board(), events@),
        final(game).same_outside_board(old(game)),
{
    let ghost b0 = game.board();
    let mut k: usize = 0;
    while k < events.len()
        invariant
            k <= events@.len(),
            game.board() == fuse_all(b0, events@.take(k as int)),
            game.next_id <= b0.next_id + k,
            b0.next_id + events@.len() <= u64::MAX,
            game.same_outside_board(old(game)),
        decreases events@.len() - k,
    {
        assert(events@.take(k + 1).drop_last() =~= events@.take(k as int));
        match events[k] {
            CollisionEvent::Started(a, c) => fuse_contact(game, a, c),
            CollisionEvent::Stopped(_, _) => {},
        }
        k = k + 1;
    }
    assert(events@.take(k as int) =~= events@);
    proof {
        if old(game).wf() {
            lemma_fuse_all_ids(b0, events@);
        }
    }
}

/// Number of balls of `s` still in play or growing, that is not consumed by a fusion.
pub open spec fn live_count(s: Seq<BallBundle>) -> nat
    decreases s.len(),
{
    if s.len() == 0 {
        0
    } else {
        live_count(s.drop_last()) + if s.last().phase is Fusing {
            0nat
        } else {
            1nat
        }
    }
}

/// Tiers of the balls of `s`, in order.
pub open spec fn tiers_of(s: Seq<BallBundle>) -> Seq<BallType> {
    s.map_values(|b: BallBundle| b.ball.0)
}

proof fn lemma_index_from_found(s: Seq<BallBundle>, id: u64, i: int)
    requires
        0 <= i,
    ensures
        index_from(s, id, i) == -1 || (i <= index_from(s, id, i) < s.len() && s[index_from(
            s,
            id,
            i,
        )].id == id),
    decreases s.len() - i,
{
    if i < s.len() && s[i].id != id {
        lemma_index_from_found(s, id, i + 1);
    }
}

proof fn lemma_index_from_unique(s: Seq<BallBundle>, id: u64, i: int, k: int)
    requires
        0 <= i <= k < s.len(),
        s[k].id == id,
        forall|m: int| 0 <= m < s.len() && m != k ==> #[trigger] s[m].id != id,
    ensures
        index_from(s, id, i) == k,
    decreases k - i,
{
    if i < k {
        lemma_index_from_unique(s, id, i + 1, k);
    }
}

proof fn lemma_index_from_prefix(s1: Seq<BallBundle>, s2: Seq<BallBundle>, id: u64, i: int)
    requires
        0 <= i,
        s1.len() <= s2.len(),
        forall|m: int| 0 <= m < s1.len() ==> #[trigger] s1[m].id == s2[m].id,
        index_from(s1, id, i) >= 0,
    ensures
        index_from(s2, id, i) == index_from(s1, id, i),
    decreases s1.len() - i,
{
    if i < s1.len() && s1[i].id != id {
        lemma_index_from_prefix(s1, s2, id, i + 1);
    }
}

proof fn lemma_live_count_update(s: Seq<BallBundle>, k: int, x: BallBundle)
    requires
        0 <= k < s.len(),
    ensures
        live_count(s.update(k, x)) + (if s[k].phase is Fusing {
            0int
        } else {
            1int
        }) == live_count(s) + (if x.phase is Fusing {
            0int
        } else {
            1int
        }),
    decreases s.len(),
{
    if k == s.len() - 1 {
        assert(s.update(k, x).drop_last() =~= s.drop_last());
    } else {
        assert(s.update(k, x).drop_last() =~= s.drop_last().update(k, x));
        lemma_live_count_update(s.drop_last(), k, x);
    }
}

/// A fusion keeps ball identities distinct and fresh.
pub proof fn lemma_fuse_pair_ids(b: BoardModel, a: u64, c: u64)
    requires
        ids_fresh(b),
        b.next_id < u64::MAX,
    ensures
        ids_fresh(fuse_pair(b, a, c)),
        fuse_pair(b, a, c).next_id <= b.next_id + 1,
{
    let r = fuse_pair(b, a, c);
    let i = index_of(b.balls, a);
    let j = index_of(b.balls, c);
    if can_fuse(b.balls, i, j) {
        assert forall|m: int| 0 <= m < b.balls.len() implies #[trigger] r.balls[m].id == b.balls[m].id by {}
        assert forall|m: int, n: int|
            0 <= m < r.balls.len() && 0 <= n < r.balls.len() && m != n implies #[trigger] r.balls[m].id
            != #[trigger] r.balls[n].id by {
            if m < b.balls.len() && n < b.balls.len() {
                assert(b.balls[m].id != b.balls[n].id);
            } else if m < b.balls.len() {
                assert(b.balls[m].id < b.next_id);
            } else {
                assert(b.balls[n].id < b.next_id);
            }
        }
        assert forall|m: int| 0 <= m < r.balls.len() implies #[trigger] r.balls[m].id < r.next_id by {
            if m < b.balls.len() {
                assert(b.balls[m].id < b.next_id);
            }
        }
    }
}

/// The events of a tick keep ball identities distinct and fresh, and hand out
/// at most one identity per event.
pub proof fn lemma_fuse_all_ids(b: BoardModel, es: Seq<CollisionEvent>)
    requires
        ids_fresh(b),
        b.next_id + es.len() <= u64::MAX,
    ensures
        ids_fresh(fuse_all(b, es)),
        fuse_all(b, es).next_id <= b.next_id + es.len(),
    decreases es.len(),
{
    if es.len() > 0 {
        lemma_fuse_all_ids(b, es.drop_last());
        let prev = fuse_all(b, es.drop_last());
        match es.last() {
            CollisionEvent::Started(a, c) => lemma_fuse_pair_ids(prev, a, c),
            CollisionEvent::Stopped(_, _) => {},
        }
    }
}

/// One product per pair: when a contact starts between two balls of one tier,
/// neither consumed yet, exactly one ball of the next tier enters the board at
/// their midpoint, both parents are consumed (so the balls in play drop by
/// one: two leave, one enters), the product's value is credited, and any later
/// contact in the same pass that involves either parent brings nothing more.
pub proof fn lemma_one_product_per_pair(b: BoardModel, a: u64, c: u64, e: CollisionEvent)
    requires
        ids_fresh(b),
        b.next_id < u64::MAX,
        can_fuse(b.balls, index_of(b.balls, a), index_of(b.balls, c)),
        e matches CollisionEvent::Started(x, y) && (x == a || x == c || y == a || y == c),
    ensures
        ({
            let i = index_of(b.balls, a);
            let j = index_of(b.balls, c);
            let r = fuse_pair(b, a, c);
            &&& r.balls.len() == b.balls.len() + 1
            &&& r.balls.last() == fusion_product(b.next_id, b.balls[i], b.balls[j])
            &&& r.balls.last().ball.0 == next_tier(b.balls[i].ball.0)
            &&& r.balls.last().position == midpoint(b.balls[i].position, b.balls[j].position)
            &&& r.balls[i].phase is Fusing
            &&& r.balls[j].phase is Fusing
            &&& live_count(r.balls) + 1 == live_count(b.balls)
            &&& r.score == credit(b.score, score_value(next_tier(b.balls[i].ball.0)))
            &&& ids_fresh(r)
            &&& fuse_event(r, e) == r
        }),
{
    let i = index_of(b.balls, a);
    let j = index_of(b.balls, c);
    let p = b.balls[i];
    let q = b.balls[j];
    let r = fuse_pair(b, a, c);
    let s1 = b.balls.update(i, start_fusing(p, away(p.position, q.position)));
    let s2 = s1.update(j, start_fusing(q, away(q.position, p.position)));
    lemma_live_count_update(b.balls, i, start_fusing(p, away(p.position, q.position)));
    lemma_live_count_update(s1, j, start_fusing(q, away(q.position, p.position)));
    assert(r.balls.drop_last() =~= s2);
    lemma_fuse_pair_ids(b, a, c);
    lemma_index_from_found(b.balls, a, 0);
    lemma_index_from_found(b.balls, c, 0);
    assert forall|m: int| 0 <= m < b.balls.len() implies #[trigger] b.balls[m].id == r.balls[m].id by {}
    if let CollisionEvent::Started(x, y) = e {
        lemma_index_from_found(b.balls, x, 0);
        lemma_index_from_found(b.balls, y, 0);
        if x == a || x == c {
            lemma_index_from_prefix(b.balls, r.balls, x, 0);
        }
        if y == a || y == c {
            lemma_index_from_prefix(b.balls, r.balls, y, 0);
        }
    }
}

/// The points that the events of a tick bring are the values of the balls they
/// bring, credited in order; the board only grows, by those balls.
pub proof fn lemma_fusion_score(b: BoardModel, es: Seq<CollisionEvent>)
    requires
        b.next_id + es.len() <= u64::MAX,
    ensures
        ({
            let r = fuse_all(b, es);
            &&& b.balls.len() <= r.balls.len() <= b.balls.len() + es.len()
            &&& r.next_id == b.next_id + (r.balls.len() - b.balls.len())
            &&& r.score == credit_all(
                b.score,
                tiers_of(r.balls.subrange(b.balls.len() as int, r.balls.len() as int)),
            )
            &&& r.score >= b.score
        }),
    decreases es.len(),
{
    if es.len() > 0 {
        lemma_fusion_score(b, es.drop_last());
        let prev = fuse_all(b, es.drop_last());
        let r = fuse_all(b, es);
        let n = b.balls.len() as int;
        match es.last() {
            CollisionEvent::Started(a, c) => {
                let i = index_of(prev.balls, a);
                let j = index_of(prev.balls, c);
                if can_fuse(prev.balls, i, j) {
                    let added = r.balls.subrange(n, r.balls.len() as int);
                    let before = prev.balls.subrange(n, prev.balls.len() as int);
                    assert forall|k: int| 0 <= k < prev.balls.len() implies #[trigger] r.balls[k].ball
                        == prev.balls[k].ball by {}
                    assert(tiers_of(added).drop_last() =~= tiers_of(before));
                    assert(tiers_of(added).last() == next_tier(prev.balls[i].ball.0));
                }
            },
            CollisionEvent::Stopped(_, _) => {},
        }
    }
}

} // verus!
