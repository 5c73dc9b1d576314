use platformer::timer::{Duration, Timer};

#[test]
fn is_not_finish_before_update() {
    assert!(!Timer::new(Duration::from_secs(1)).is_finished());
}

#[test]
fn is_finished_after_exact_time_passed() {
    let mut timer = Timer::new(Duration::from_secs(1));
    timer.update(Duration::from_secs(1));
    assert!(timer.is_finished());
}

#[test]
fn is_finished_after_more_time_passed() {
    let mut timer = Timer::new(Duration::from_secs(1));
    timer.update(Duration::from_secs(1));
    assert!(timer.is_finished());
}

#[test]
fn is_not_finished_after_less_time_passed() {
    let mut timer = Timer::new(Duration::from_secs(1));
    timer.update(Duration::from_millis(999));
    assert!(!timer.is_finished());
}

#[test]
fn is_finished_after_enough_time_in_multiple_steps() {
    let mut timer = Timer::new(Duration::from_secs(1));
    timer.update(Duration::from_millis(500));
    timer.update(Duration::from_millis(500));
    assert!(timer.is_finished());
}

#[test]
fn is_looping() {
    let mut timer = Timer::new(Duration::from_secs(1));
    timer.update(Duration::from_millis(1200));
    assert!(timer.is_finished());
    timer.update(Duration::from_millis(500));
    assert!(!timer.is_finished());
    timer.update(Duration::from_millis(300));
    assert!(timer.is_finished());
}
