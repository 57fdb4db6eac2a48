use eng_learner::schedule::Phase;
use eng_learner::schedule::ScheduleError;
use eng_learner::schedule::ScheduleState;

fn review_state(interval_days: u64, ease_tenths: u32) -> ScheduleState {
    ScheduleState {
        phase: Phase::Review { interval_days },
        ease_tenths,
        due_at_min: 0,
        review_count: 4,
        lapses: 0,
        last_reviewed_at_min: Some(0),
        created_at_min: 0,
    }
}

#[test]
fn new_word_then_good_review() {
    // Saved at t0: learning step 0, due 20 minutes later.
    let t0: u64 = 1_000_000;
    let s0 = ScheduleState::initial(t0);
    assert_eq!(s0.phase, Phase::Learning { step: 0 });
    assert_eq!(s0.due_at_min, t0 + 20);
    assert_eq!(s0.review_count, 0);
    assert_eq!(s0.ease_tenths, 25);
    // Reviewed at t0+20 with quality 2: learning step 1, due one hour later.
    let s1 = s0.advance(2, t0 + 20).unwrap();
    assert_eq!(s1.phase, Phase::Learning { step: 1 });
    assert_eq!(s1.due_at_min, t0 + 20 + 60);
    assert_eq!(s1.review_count, 1);
    assert_eq!(s1.last_reviewed_at_min, Some(t0 + 20));
}

#[test]
fn learning_ladder_steps() {
    let t0: u64 = 5_000;
    let s0 = ScheduleState::initial(t0);
    let s1 = s0.advance(2, t0).unwrap();
    let s2 = s1.advance(2, t0).unwrap();
    let s3 = s2.advance(3, t0).unwrap();
    assert_eq!(s1.due_at_min, t0 + 60);
    assert_eq!(s2.due_at_min, t0 + 540);
    assert_eq!(s3.due_at_min, t0 + 1440);
    assert_eq!(s3.phase, Phase::Learning { step: 3 });
}

#[test]
fn graduation_from_last_learning_step() {
    // Learning step 3 answered with quality 2: review phase, 2 days out.
    let t: u64 = 40_000;
    let s = ScheduleState {
        phase: Phase::Learning { step: 3 },
        ..ScheduleState::initial(1_000)
    };
    let g = s.advance(2, t).unwrap();
    assert_eq!(g.phase, Phase::Review { interval_days: 2 });
    assert_eq!(g.due_at_min, t + 2 * 24 * 60);
    assert_eq!(g.ease_tenths, 25);
}

#[test]
fn review_good_grows_by_ease_factor() {
    // interval 10 days at ease 2.0: floor(10 * 2.0) = 20 days.
    let t: u64 = 70_000;
    let s = review_state(10, 20);
    let n = s.advance(2, t).unwrap();
    assert_eq!(n.phase, Phase::Review { interval_days: 20 });
    assert_eq!(n.due_at_min, t + 20 * 24 * 60);
    assert_eq!(n.ease_tenths, 20);
    assert_eq!(n.review_count, 5);
}

#[test]
fn review_good_has_two_day_floor() {
    let s = review_state(2, 13);
    // floor(2 * 1.3) = 2, held at the 2-day floor.
    let n = s.advance(2, 100).unwrap();
    assert_eq!(n.phase, Phase::Review { interval_days: 2 });
}

#[test]
fn review_easy_grows_faster_and_raises_ease() {
    // interval 10 days at ease 2.0: floor(10 * 2.0 * 1.3) = 26 days.
    let s = review_state(10, 20);
    let n = s.advance(3, 100).unwrap();
    assert_eq!(n.phase, Phase::Review { interval_days: 26 });
    assert_eq!(n.ease_tenths, 21);
}

#[test]
fn review_forgot_resets_fully() {
    // Quality 0 from review: back to learning step 0, ease down 0.2,
    // a lapse recorded.
    let t: u64 = 90_000;
    let s = review_state(10, 20);
    let n = s.advance(0, t).unwrap();
    assert_eq!(n.phase, Phase::Learning { step: 0 });
    assert_eq!(n.ease_tenths, 18);
    assert_eq!(n.lapses, 1);
    assert_eq!(n.due_at_min, t + 20);
    assert_eq!(n.review_count, 5);
}

#[test]
fn hard_answer_also_resets() {
    // Quality 1 falls under the same "forgot" rule as quality 0.
    let s = review_state(10, 20);
    let n = s.advance(1, 100).unwrap();
    assert_eq!(n.phase, Phase::Learning { step: 0 });
    assert_eq!(n.lapses, 1);
}

#[test]
fn advance_is_total_for_valid_grades() {
    let t: u64 = 123_456;
    for quality in 0u8..=3 {
        let s = ScheduleState::initial(t);
        let n = s.advance(quality, t + 7).unwrap();
        assert!(n.due_at_min > t + 7);
        let r = review_state(30, 28);
        let n2 = r.advance(quality, t).unwrap();
        assert!(n2.due_at_min > t);
    }
}

#[test]
fn invalid_quality_is_rejected() {
    let s = ScheduleState::initial(1_000);
    assert_eq!(s.advance(4, 2_000), Err(ScheduleError::InvalidQuality));
    assert_eq!(s.advance(200, 2_000), Err(ScheduleError::InvalidQuality));
}

#[test]
fn forgot_twice_lands_on_same_reset() {
    let t: u64 = 55_000;
    let s = review_state(40, 17);
    let r1 = s.advance(0, t).unwrap();
    let r2 = r1.advance(0, t).unwrap();
    assert_eq!(r1.phase, Phase::Learning { step: 0 });
    assert_eq!(r2.phase, r1.phase);
    assert_eq!(r2.due_at_min, r1.due_at_min);
    // The ease factor keeps stepping down until its floor.
    assert_eq!(r1.ease_tenths, 15);
    assert_eq!(r2.ease_tenths, 13);
    let r3 = r2.advance(0, t).unwrap();
    assert_eq!(r3.ease_tenths, 13);
}

#[test]
fn ease_factor_never_drops_below_floor() {
    let mut s = ScheduleState::initial(0);
    for _ in 0..10 {
        s = s.advance(0, 10).unwrap();
        assert!(s.ease_tenths >= 13);
    }
    assert_eq!(s.ease_tenths, 13);
}

#[test]
fn easy_reviews_never_shrink_interval_and_cap_ease() {
    let mut s = review_state(2, 25);
    let mut last_days = 2u64;
    for _ in 0..12 {
        s = s.advance(3, 500).unwrap();
        let days = match s.phase {
            Phase::Review { interval_days } => interval_days,
            Phase::Learning { .. } => panic!("left review phase"),
        };
        assert!(days >= last_days);
        assert!(s.ease_tenths <= 30);
        last_days = days;
    }
    assert_eq!(s.ease_tenths, 30);
}

#[test]
fn interval_minutes_follows_phase() {
    let s = ScheduleState::initial(0);
    assert_eq!(s.interval_minutes(), 20);
    assert_eq!(s.interval_days(), 0);
    let r = review_state(7, 25);
    assert_eq!(r.interval_minutes(), 7 * 24 * 60);
    assert_eq!(r.interval_days(), 7);
}
