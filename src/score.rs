//! The score ledger: points of the running round, best round so far, and the
//! lines that show them.
use vstd::prelude::*;
use crate::tier::{BallType, score_value};

verus! {

/// Points of the running round, with the label that precedes them on screen.
pub struct Score {
    pub score: u64,
    pub text: String,
}

/// Highest round score reached before the running round, with its label.
pub struct BestScore {
    pub score: u64,
    pub text: String,
}

/// `score` raised by `points`, held at `u64::MAX` rather than wrapping.
pub open spec fn credit(score: u64, points: u64) -> u64 {
    if score + points > u64::MAX {
        u64::MAX
    } else {
        (score + points) as u64
    }
}

/// `score` credited, in order, with the value of each tier of `tiers`.
pub open spec fn credit_all(score: u64, tiers: Seq<BallType>) -> u64
    decreases tiers.len(),
{
    if tiers.len() == 0 {
        score
    } else {
        credit(credit_all(score, tiers.drop_last()), score_value(tiers.last()))
    }
}

/// Sum of the score values of `tiers`.
pub open spec fn total_value(tiers: Seq<BallType>) -> nat
    decreases tiers.len(),
{
    if tiers.len() == 0 {
        0
    } else {
        (total_value(tiers.drop_last()) + score_value(tiers.last())) as nat
    }
}

/// The best score after a round that ended on `score`.
pub open spec fn committed_best(best: u64, score: u64) -> u64 {
    if score > best {
        score
    } else {
        best
    }
}

/// The character of decimal digit `d`.
pub open spec fn digit_char(d: nat) -> char {
    if d == 0 {
        '0'
    } else if d == 1 {
        '1'
    } else if d == 2 {
        '2'
    } else if d == 3 {
        '3'
    } else if d == 4 {
        '4'
    } else if d == 5 {
        '5'
    } else if d == 6 {
        '6'
    } else if d == 7 {
        '7'
    } else if d == 8 {
        '8'
    } else {
        '9'
    }
}

/// Decimal notation of `n`, without leading zeros.
pub open spec fn decimal(n: nat) -> Seq<char>
    decreases n,
{
    if n < 10 {
        seq![digit_char(n)]
    } else {
        decimal(n / 10).push(digit_char(n % 10))
    }
}

fn digit_str(d: u64) -> (r: &'static str)
    requires
        d < 10,
    ensures
        r@ == seq![digit_char(d as nat)],
{
    proof {
        reveal_strlit("0");
        reveal_strlit("1");
        reveal_strlit("2");
        reveal_strlit("3");
        reveal_strlit("4");
        reveal_strlit("5");
        reveal_strlit("6");
        reveal_strlit("7");
        reveal_strlit("8");
        reveal_strlit("9");
    }
    match d {
        0 => "0",
        1 => "1",
        2 => "2",
        3 => "3",
        4 => "4",
        5 => "5",
        6 => "6",
        7 => "7",
        8 => "8",
        _ => "9",
    }
}

/// Appends the decimal notation of `n` to `s`.
pub fn push_decimal(s: &mut String, n: u64)
    ensures
        final(s)@ == old(s)@ + decimal(n as nat),
    decreases n,
{
    let ghost start = s@;
    if n >= 10 {
        push_decimal(s, n / 10);
    }
    s.append(digit_str(n % 10));
    assert(s@ =~= start + decimal(n as nat));
}

/// The line that shows a label followed by a number.
fn labelled(label: &String, n: u64) -> (r: String)
    ensures
        r@ == label@ + decimal(n as nat),
{
    let mut s = label.clone();
    push_decimal(&mut s, n);
    s
}

impl Score {
    /// A fresh round: no points yet, labelled `Score : `.
    pub fn new() -> (r: Score)
        ensures
            r.score == 0,
            r.text@ == "Score : "@,
    {
        proof {
            reveal_strlit("Score : ");
        }
        Score { score: 0, text: "Score : ".to_owned() }
    }

    /// Credits `points` to the round.
    pub fn add(&mut self, points: u64)
        ensures
            final(self).score == credit(old(self).score, points),
            final(self).score >= old(self).score,
            final(self).text == old(self).text,
    {
        self.score = if self.score > u64::MAX - points {
            u64::MAX
        } else {
            self.score + points
        };
    }

    /// Clears the points of the round.
    pub fn reset_round(&mut self)
        ensures
            final(self).score == 0,
            final(self).text == old(self).text,
    {
        self.score = 0;
    }
}

impl Default for Score {
    fn default() -> (r: Score)
        ensures
            r.score == 0,
            r.text@ == "Score : "@,
    {
        Score::new()
    }
}

impl BestScore {
    /// No round played yet: best score 0, labelled `Best : `.
    pub fn new() -> (r: BestScore)
        ensures
            r.score == 0,
            r.text@ == "Best : "@,
    {
        proof {
            reveal_strlit("Best : ");
        }
        BestScore { score: 0, text: "Best : ".to_owned() }
    }

    /// Records the score of a round that has ended, if it beats the best.
    /// Returns whether the best score changed.
    pub fn commit_best(&mut self, score: &Score) -> (changed: bool)
        ensures
            final(self).score == committed_best(old(self).score, score.score),
            changed == (score.score > old(self).score),
            final(self).text == old(self).text,
    {
        if score.score > self.score {
            self.score = score.score;
            true
        } else {
            false
        }
    }
}

impl Default for BestScore {
    fn default() -> (r: BestScore)
        ensures
            r.score == 0,
            r.text@ == "Best : "@,
    {
        BestScore::new()
    }
}

/// The line that shows the running score, such as `Score : 12`.
pub fn score_update(score: &Score) -> (r: String)
    ensures
        r@ == score.text@ + decimal(score.score as nat),
{
    labelled(&score.text, score.score)
}

/// The line that shows the best score, such as `Best : 900`.
pub fn best_score_update(best: &BestScore) -> (r: String)
    ensures
        r@ == best.text@ + decimal(best.score as nat),
{
    labelled(&best.text, best.score)
}

/// Crediting a sequence of tiers gives the start plus the sum of their values,
/// held at `u64::MAX`; the score never goes down along the way.
pub proof fn lemma_credit_all_is_sum(score: u64, tiers: Seq<BallType>)
    ensures
        credit_all(score, tiers) == if score + total_value(tiers) > u64::MAX {
            u64::MAX as int
        } else {
            score + total_value(tiers)
        },
        credit_all(score, tiers) >= score,
    decreases tiers.len(),
{
    if tiers.len() > 0 {
        lemma_credit_all_is_sum(score, tiers.drop_last());
    }
}

/// Crediting two sequences one after the other is crediting their concatenation.
pub proof fn lemma_credit_all_append(score: u64, a: Seq<BallType>, b: Seq<BallType>)
    ensures
        credit_all(credit_all(score, a), b) == credit_all(score, a + b),
    decreases b.len(),
{
    if b.len() == 0 {
        assert(a + b =~= a);
    } else {
        lemma_credit_all_append(score, a, b.drop_last());
        assert((a + b).drop_last() =~= a + b.drop_last());
        assert((a + b).last() == b.last());
    }
}

/// The score only grows as balls enter: crediting a prefix of the entries never
/// gives more than crediting all of them.
pub proof fn lemma_credit_all_monotone(score: u64, tiers: Seq<BallType>, k: int)
    requires
        0 <= k <= tiers.len(),
    ensures
        score <= credit_all(score, tiers.take(k)) <= credit_all(score, tiers),
    decreases tiers.len() - k,
{
    lemma_credit_all_is_sum(score, tiers.take(k));
    if k < tiers.len() {
        lemma_credit_all_monotone(score, tiers, k + 1);
        assert(tiers.take(k + 1).drop_last() =~= tiers.take(k));
    } else {
        assert(tiers.take(k) =~= tiers);
    }
}

} // verus!
