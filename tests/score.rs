use planet_fusion::score::{best_score_update, push_decimal, score_update, BestScore, Score};

#[test]
fn score_line_shows_label_and_points() {
    let mut s = Score::new();
    assert_eq!(score_update(&s), "Score : 0");
    s.add(1200);
    assert_eq!(score_update(&s), "Score : 1200");
}

#[test]
fn best_line_shows_label_and_points() {
    let mut b = BestScore::new();
    assert_eq!(best_score_update(&b), "Best : 0");
    b.score = 900;
    assert_eq!(best_score_update(&b), "Best : 900");
}

#[test]
fn decimal_of_large_numbers() {
    let mut s = String::new();
    push_decimal(&mut s, u64::MAX);
    assert_eq!(s, "18446744073709551615");
    let mut t = String::from("x");
    push_decimal(&mut t, 10);
    assert_eq!(t, "x10");
}

#[test]
fn add_saturates() {
    let mut s = Score::new();
    s.add(u64::MAX - 1);
    s.add(5);
    assert_eq!(s.score, u64::MAX);
}

#[test]
fn reset_round_clears_points() {
    let mut s = Score::new();
    s.add(42);
    s.reset_round();
    assert_eq!(s.score, 0);
    assert_eq!(s.text, "Score : ");
}

#[test]
fn commit_best_takes_only_a_higher_score() {
    let mut b = BestScore::new();
    b.score = 900;
    let mut s = Score::new();
    s.add(800);
    assert!(!b.commit_best(&s));
    assert_eq!(b.score, 900);
    s.add(100);
    assert!(!b.commit_best(&s));
    assert_eq!(b.score, 900);
    s.add(300);
    assert!(b.commit_best(&s));
    assert_eq!(b.score, 1200);
}

#[test]
fn spawn_and_fusion_values_add_up() {
    let mut s = Score::default();
    for t in [
        planet_fusion::tier::BallType::ONE,
        planet_fusion::tier::BallType::ONE,
        planet_fusion::tier::BallType::TWO,
    ] {
        s.add(t.score_value());
    }
    assert_eq!(s.score, 4);
}
