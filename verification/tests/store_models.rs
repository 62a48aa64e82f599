//! The texts that stand for values.

use claustre::store::models::{ClaudeStatus, TaskMode, TaskStatus};

#[test]
fn task_status_round_trip() {
    for status in [
        TaskStatus::Pending,
        TaskStatus::InProgress,
        TaskStatus::InReview,
        TaskStatus::Done,
        TaskStatus::Error,
    ] {
        assert_eq!(status.as_str().parse::<TaskStatus>().unwrap(), status);
        assert_eq!(status.to_string(), status.as_str());
    }
}

#[test]
fn task_status_unknown_returns_error() {
    assert!("nonsense".parse::<TaskStatus>().is_err());
    assert!("".parse::<TaskStatus>().is_err());
}

#[test]
fn task_status_symbols() {
    assert_eq!(TaskStatus::Pending.symbol(), "\u{2610}");
    assert_eq!(TaskStatus::InProgress.symbol(), "\u{25cf}");
    assert_eq!(TaskStatus::InReview.symbol(), "\u{25d0}");
    assert_eq!(TaskStatus::Done.symbol(), "\u{2713}");
    assert_eq!(TaskStatus::Error.symbol(), "\u{2717}");
}

#[test]
fn task_mode_round_trip() {
    for mode in [TaskMode::Autonomous, TaskMode::Supervised] {
        assert_eq!(mode.as_str().parse::<TaskMode>().unwrap(), mode);
        assert_eq!(mode.to_string(), mode.as_str());
    }
}

#[test]
fn task_mode_unknown_returns_error() {
    assert!("nonsense".parse::<TaskMode>().is_err());
    assert!("".parse::<TaskMode>().is_err());
}

#[test]
fn claude_status_round_trip() {
    for status in [
        ClaudeStatus::Idle,
        ClaudeStatus::Working,
        ClaudeStatus::Done,
        ClaudeStatus::Error,
    ] {
        assert_eq!(status.as_str().parse::<ClaudeStatus>().unwrap(), status);
        assert_eq!(status.to_string(), status.as_str());
    }
}

#[test]
fn claude_status_unknown_returns_error() {
    assert!("nonsense".parse::<ClaudeStatus>().is_err());
    assert!("".parse::<ClaudeStatus>().is_err());
}

#[test]
fn claude_status_symbols() {
    assert_eq!(ClaudeStatus::Idle.symbol(), "\u{25cb}");
    assert_eq!(ClaudeStatus::Working.symbol(), "\u{25cf}");
    assert_eq!(ClaudeStatus::Done.symbol(), "\u{2713}");
    assert_eq!(ClaudeStatus::Error.symbol(), "\u{2717}");
}

#[test]
fn waiting_tasks_come_before_finished_ones() {
    assert_eq!(TaskStatus::InReview.sort_priority(), 0);
    assert_eq!(TaskStatus::Error.sort_priority(), 1);
    assert_eq!(TaskStatus::Pending.sort_priority(), 2);
    assert_eq!(TaskStatus::InProgress.sort_priority(), 3);
    assert_eq!(TaskStatus::Done.sort_priority(), 4);
}
