use snake_game::score_tracker::ScoreTracker;

#[test]
fn score_starts_at_zero() {
    let tracker = ScoreTracker::new();
    assert_eq!(*tracker.get_last_score(), 0);
}

#[test]
fn score_increments_by_given_amount() {
    let mut tracker = ScoreTracker::new();
    tracker.update_last_score_by(1);
    assert_eq!(*tracker.get_last_score(), 1);
    tracker.update_last_score_by(4);
    assert_eq!(*tracker.get_last_score(), 5);
    tracker.update_last_score_by(0);
    assert_eq!(*tracker.get_last_score(), 5);
}

#[test]
fn score_default_is_zero() {
    let tracker = ScoreTracker::default();
    assert_eq!(*tracker.get_last_score(), 0);
}
