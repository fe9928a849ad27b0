use sonate::measure_cache::{CacheKey, CacheState};

fn key(text: &str, width: u32) -> CacheKey {
    CacheKey {
        text: text.to_string(),
        family: "Arial".to_string(),
        size_px: 12,
        max_width_px_rounded: width,
    }
}

#[test]
fn a_cached_measurement_is_found_again() {
    let mut c: CacheState<(u32, u32)> = CacheState::new();
    assert_eq!(c.lookup(&key("hello", 0)), None);
    c.insert(key("hello", 0), (30, 14));
    assert_eq!(c.lookup(&key("hello", 0)), Some((30, 14)));
    assert_eq!(c.lookup(&key("hello", 10)), None);
    assert_eq!(c.lookup(&key("Hello", 0)), None);
    c.insert(key("hello", 0), (31, 15));
    assert_eq!(c.lookup(&key("hello", 0)), Some((31, 15)));
}

#[test]
fn entries_used_in_a_pass_survive_its_sweep() {
    let mut c: CacheState<u32> = CacheState::new();
    c.begin_layout_pass();
    c.insert(key("a", 0), 1);
    c.insert(key("b", 0), 2);
    c.end_layout_pass_and_sweep();
    assert_eq!(c.lookup(&key("a", 0)), Some(1));

    c.begin_layout_pass();
    assert_eq!(c.lookup(&key("a", 0)), Some(1));
    c.end_layout_pass_and_sweep();
    assert_eq!(c.lookup(&key("a", 0)), Some(1));
    assert_eq!(c.lookup(&key("b", 0)), None);
}

#[test]
fn a_pass_that_uses_nothing_empties_the_cache() {
    let mut c: CacheState<u32> = CacheState::new();
    c.insert(key("a", 0), 1);
    c.end_layout_pass_and_sweep();
    c.begin_layout_pass();
    c.end_layout_pass_and_sweep();
    assert_eq!(c.lookup(&key("a", 0)), None);
}
