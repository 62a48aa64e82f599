//! Usage limits in the store.

use claustre::store::models::Percent;
use claustre::store::Store;

/// A percentage as the store keeps it.
fn pct(x: f64) -> Percent {
    Percent { bits: x.to_bits() }
}

/// A percentage as a number.
fn number(p: Percent) -> f64 {
    f64::from_bits(p.bits)
}

#[test]
fn default_rate_limit_state_is_not_limited() {
    let mut store = Store::open_in_memory().unwrap();
    let state = store.get_rate_limit_state().unwrap();
    assert!(!state.is_rate_limited);
    assert!(state.limit_type.is_none());
    assert!(state.reset_at.is_none());
}

#[test]
fn set_and_get_rate_limited() {
    let mut store = Store::open_in_memory().unwrap();
    store
        .set_rate_limited("standard", "2025-01-01T02:00:00Z", pct(85.0), pct(45.0))
        .unwrap();

    let state = store.get_rate_limit_state().unwrap();
    assert!(state.is_rate_limited);
    assert_eq!(state.limit_type.as_deref(), Some("standard"));
    assert_eq!(state.reset_at.as_deref(), Some("2025-01-01T02:00:00Z"));
    assert!((number(state.usage_5h_pct.unwrap()) - 85.0).abs() < f64::EPSILON);
    assert!((number(state.usage_7d_pct.unwrap()) - 45.0).abs() < f64::EPSILON);
}

#[test]
fn clear_rate_limit_resets_state() {
    let mut store = Store::open_in_memory().unwrap();
    store
        .set_rate_limited("standard", "2025-01-01T02:00:00Z", pct(85.0), pct(45.0))
        .unwrap();

    store.clear_rate_limit().unwrap();

    let state = store.get_rate_limit_state().unwrap();
    assert!(!state.is_rate_limited);
    assert!(state.limit_type.is_none());
    assert!(state.reset_at.is_none());
}

#[test]
fn update_usage_windows_changes_percentages() {
    let mut store = Store::open_in_memory().unwrap();
    store.update_usage_windows(pct(50.0), pct(25.0)).unwrap();

    let state = store.get_rate_limit_state().unwrap();
    assert!((number(state.usage_5h_pct.unwrap()) - 50.0).abs() < f64::EPSILON);
    assert!((number(state.usage_7d_pct.unwrap()) - 25.0).abs() < f64::EPSILON);
    // Should still not be rate-limited
    assert!(!state.is_rate_limited);
}

#[test]
fn rate_limit_cycle_set_clear_set() {
    let mut store = Store::open_in_memory().unwrap();

    // Set rate limited
    store
        .set_rate_limited("overloaded", "2025-06-15T12:00:00Z", pct(100.0), pct(80.0))
        .unwrap();
    assert!(store.get_rate_limit_state().unwrap().is_rate_limited);

    // Clear
    store.clear_rate_limit().unwrap();
    assert!(!store.get_rate_limit_state().unwrap().is_rate_limited);

    // Set again with different type
    store
        .set_rate_limited("standard", "2025-06-15T14:00:00Z", pct(90.0), pct(70.0))
        .unwrap();
    let state = store.get_rate_limit_state().unwrap();
    assert!(state.is_rate_limited);
    assert_eq!(state.limit_type.as_deref(), Some("standard"));
}
