use ministatus::{BlockError, Produced, Scheduler};

fn fresh(t: &str) -> Produced {
    Ok(Some(t.to_string()))
}

fn empty() -> Produced {
    Ok(None)
}

fn failed() -> Produced {
    Err(BlockError::new("timeout"))
}

#[test]
fn end_to_end_line_with_stale_weather() {
    let mut s = Scheduler::new(4);
    let first = vec![empty(), empty(), fresh("☂️ 10%"), empty()];
    assert_eq!(s.tick(&first), "☂️ 10%");
    let second = vec![fresh("📰 3"), empty(), failed(), fresh("🕛 10:00 AM")];
    assert_eq!(s.tick(&second), "📰 3 | ☂️ 10% | 🕛 10:00 AM");
}

#[test]
fn fresh_text_is_cached_and_survives_failures() {
    let mut s = Scheduler::new(2);
    assert_eq!(s.tick(&vec![fresh("a"), fresh("x")]), "a | x");
    assert_eq!(s.cached(1), Some("x".to_string()));
    for _ in 0..3 {
        assert_eq!(s.tick(&vec![fresh("a"), failed()]), "a | x");
        assert_eq!(s.cached(1), Some("x".to_string()));
    }
    assert_eq!(s.tick(&vec![fresh("a"), fresh("y")]), "a | y");
    assert_eq!(s.cached(1), Some("y".to_string()));
}

#[test]
fn empty_result_hides_slot_but_keeps_cache() {
    let mut s = Scheduler::new(2);
    assert_eq!(s.tick(&vec![fresh("x"), fresh("b")]), "x | b");
    assert_eq!(s.tick(&vec![empty(), fresh("b")]), "b");
    assert_eq!(s.cached(0), Some("x".to_string()));
    assert_eq!(s.tick(&vec![failed(), fresh("b")]), "x | b");
}

#[test]
fn failure_without_history_shows_nothing() {
    let mut s = Scheduler::new(3);
    assert_eq!(s.tick(&vec![failed(), fresh("b"), failed()]), "b");
    assert_eq!(s.cached(0), None);
    assert_eq!(s.tick(&vec![failed(), failed(), failed()]), "b");
    assert_eq!(s.tick(&vec![empty(), empty(), empty()]), "");
}

#[test]
fn slot_order_follows_registration() {
    let mut s = Scheduler::new(4);
    assert_eq!(s.tick(&vec![fresh("1"), fresh("2"), fresh("3"), fresh("4")]), "1 | 2 | 3 | 4");
    assert_eq!(s.tick(&vec![failed(), empty(), fresh("c"), failed()]), "1 | c | 4");
    assert_eq!(s.slots(), 4);
}

#[test]
fn scheduler_without_slots_gives_empty_line() {
    let mut s = Scheduler::new(0);
    assert_eq!(s.tick(&vec![]), "");
}
