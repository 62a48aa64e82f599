//! What a report of a hook does to a session and its task.

use claustre::session_update::{apply, SessionUpdateArgs, SessionUpdateOutcome};
use claustre::store::models::{
    CiStatus, ClaudeProgressItem, ClaudeStatus, PushMode, TaskMode, TaskStatus,
};
use claustre::store::Store;

/// Helper: set up a project + session + task, return their IDs.
fn setup_working_task(store: &mut Store) -> (String, String, String) {
    let project = store
        .create_project("proj", "/tmp/proj", "main", true)
        .unwrap();
    let session = store
        .create_session(&project.id, "feat", "/tmp/wt", "tab-1")
        .unwrap();
    let task = store
        .create_task(&project.id, "test-task", "description", TaskMode::Supervised, None, None, PushMode::Pr, false)
        .unwrap();
    store.assign_task_to_session(&task.id, &session.id).unwrap();
    store
        .update_task_status(&task.id, TaskStatus::Working)
        .unwrap();
    store
        .update_session_status(&session.id, ClaudeStatus::Working, "")
        .unwrap();
    (project.id, session.id, task.id)
}

// ── PR detection flow ──

#[test]
fn pr_detected_transitions_task_to_in_review() {
    let mut store = Store::open_in_memory().unwrap();
    let (_proj, session_id, task_id) = setup_working_task(&mut store);

    let outcome = apply(
        &mut store,
        &SessionUpdateArgs {
            session_id: &session_id,
            pr_url: Some("https://github.com/org/repo/pull/42"),
            input_tokens: None,
            output_tokens: None,
            resumed: false,
            claude_session_id: None,
            progress: None,
            set_idle: false,
        },
    )
    .unwrap();

    assert_eq!(
        outcome,
        SessionUpdateOutcome::PrDetected {
            task_id: task_id.clone(), // compared, not consumed
            is_new_pr: true,
        }
    );
    let task = store.get_task(&task_id).unwrap();
    assert_eq!(task.status, TaskStatus::InReview);
    assert_eq!(
        task.pr_url.as_deref(),
        Some("https://github.com/org/repo/pull/42")
    );
    let session = store.get_session(&session_id).unwrap();
    assert_eq!(session.claude_status, ClaudeStatus::Done);
}

#[test]
fn pr_detected_same_url_marks_not_new_when_still_in_review() {
    let mut store = Store::open_in_memory().unwrap();
    let (_proj, session_id, task_id) = setup_working_task(&mut store);

    let url = "https://github.com/org/repo/pull/42";

    // First PR detection → in_review
    apply(
        &mut store,
        &SessionUpdateArgs {
            session_id: &session_id,
            pr_url: Some(url),
            input_tokens: None,
            output_tokens: None,
            resumed: false,
            claude_session_id: None,
            progress: None,
            set_idle: false,
        },
    )
    .unwrap();
    assert_eq!(
        store.get_task(&task_id).unwrap().status,
        TaskStatus::InReview
    );

    // Second hook fire with same PR URL while still in_review
    let outcome = apply(
        &mut store,
        &SessionUpdateArgs {
            session_id: &session_id,
            pr_url: Some(url),
            input_tokens: None,
            output_tokens: None,
            resumed: false,
            claude_session_id: None,
            progress: None,
            set_idle: false,
        },
    )
    .unwrap();

    assert_eq!(
        outcome,
        SessionUpdateOutcome::PrDetected {
            task_id,
            is_new_pr: false,
        }
    );
}

/// Regression test: when user resumes an `in_review` task (sending a prompt),
/// the Stop hook must not overwrite the `working` status back to `in_review`
/// by re-detecting the same PR URL.
#[test]
fn stop_hook_does_not_regress_resumed_task_to_in_review() {
    let mut store = Store::open_in_memory().unwrap();
    let (_proj, session_id, task_id) = setup_working_task(&mut store);

    let url = "https://github.com/org/repo/pull/42";

    // 1. Stop hook detects PR → task goes to in_review
    apply(
        &mut store,
        &SessionUpdateArgs {
            session_id: &session_id,
            pr_url: Some(url),
            input_tokens: None,
            output_tokens: None,
            resumed: false,
            claude_session_id: None,
            progress: None,
            set_idle: false,
        },
    )
    .unwrap();
    assert_eq!(
        store.get_task(&task_id).unwrap().status,
        TaskStatus::InReview
    );

    // 2. UserPromptSubmit hook fires --resumed → task goes back to working
    apply(
        &mut store,
        &SessionUpdateArgs {
            session_id: &session_id,
            pr_url: None,
            input_tokens: None,
            output_tokens: None,
            resumed: true,
            claude_session_id: None,
            progress: None,
            set_idle: false,
        },
    )
    .unwrap();
    assert_eq!(
        store.get_task(&task_id).unwrap().status,
        TaskStatus::Working
    );

    // 3. Stop hook fires again with same PR URL — must NOT regress
    //    to in_review. Session stays working.
    let outcome = apply(
        &mut store,
        &SessionUpdateArgs {
            session_id: &session_id,
            pr_url: Some(url),
            input_tokens: None,
            output_tokens: None,
            resumed: false,
            claude_session_id: None,
            progress: None,
            set_idle: false,
        },
    )
    .unwrap();

    assert_eq!(outcome, SessionUpdateOutcome::WorkingNoPr);
    // Task must still be working
    assert_eq!(
        store.get_task(&task_id).unwrap().status,
        TaskStatus::Working
    );
    // Session stays working (the assistant is still active on the task)
    assert_eq!(
        store.get_session(&session_id).unwrap().claude_status,
        ClaudeStatus::Working
    );
}

// ── Resume flow ──

#[test]
fn resume_transitions_in_review_to_working() {
    let mut store = Store::open_in_memory().unwrap();
    let (_proj, session_id, task_id) = setup_working_task(&mut store);

    // Move to in_review
    store
        .update_task_status(&task_id, TaskStatus::InReview)
        .unwrap();
    store
        .update_session_status(&session_id, ClaudeStatus::Done, "")
        .unwrap();

    let outcome = apply(
        &mut store,
        &SessionUpdateArgs {
            session_id: &session_id,
            pr_url: None,
            input_tokens: None,
            output_tokens: None,
            resumed: true,
            claude_session_id: None,
            progress: None,
            set_idle: false,
        },
    )
    .unwrap();

    assert_eq!(
        outcome,
        SessionUpdateOutcome::Resumed {
            task_id: task_id.clone(), // compared, not consumed
        }
    );
    let task = store.get_task(&task_id).unwrap();
    assert_eq!(task.status, TaskStatus::Working);
    let session = store.get_session(&session_id).unwrap();
    assert_eq!(session.claude_status, ClaudeStatus::Working);
}

/// Regression test: when CI fails and the user resumes work to fix it,
/// the stale `ci_status = failed` must be cleared so the dashboard
/// doesn't keep showing "CI failed" while the user is pushing fixes.
#[test]
fn resume_from_ci_failed_clears_ci_status() {
    let mut store = Store::open_in_memory().unwrap();
    let (_proj, session_id, task_id) = setup_working_task(&mut store);

    // Simulate: PR created → in_review → CI failed → ci_failed
    store
        .update_task_status(&task_id, TaskStatus::InReview)
        .unwrap();
    store
        .update_task_ci_status(&task_id, Some(CiStatus::Failed))
        .unwrap();
    store
        .update_task_status(&task_id, TaskStatus::CiFailed)
        .unwrap();

    // User resumes to fix CI
    let outcome = apply(
        &mut store,
        &SessionUpdateArgs {
            session_id: &session_id,
            pr_url: None,
            input_tokens: None,
            output_tokens: None,
            resumed: true,
            claude_session_id: None,
            progress: None,
            set_idle: false,
        },
    )
    .unwrap();

    assert_eq!(
        outcome,
        SessionUpdateOutcome::Resumed {
            task_id: task_id.clone(),
        }
    );
    let task = store.get_task(&task_id).unwrap();
    assert_eq!(task.status, TaskStatus::Working);
    // ci_status must be cleared
    assert_eq!(task.ci_status, None);
}

#[test]
fn resume_transitions_interrupted_to_working() {
    let mut store = Store::open_in_memory().unwrap();
    let (_proj, session_id, task_id) = setup_working_task(&mut store);

    // Simulate claustre restart: task goes to interrupted
    store
        .update_task_status(&task_id, TaskStatus::Interrupted)
        .unwrap();

    let outcome = apply(
        &mut store,
        &SessionUpdateArgs {
            session_id: &session_id,
            pr_url: None,
            input_tokens: None,
            output_tokens: None,
            resumed: true,
            claude_session_id: None,
            progress: None,
            set_idle: false,
        },
    )
    .unwrap();

    assert_eq!(
        outcome,
        SessionUpdateOutcome::Resumed {
            task_id: task_id.clone(), // compared, not consumed
        }
    );
    assert_eq!(
        store.get_task(&task_id).unwrap().status,
        TaskStatus::Working
    );
}

// ── Interrupted task recovery ──

#[test]
fn hook_restores_interrupted_task_to_working() {
    let mut store = Store::open_in_memory().unwrap();
    let (_proj, session_id, task_id) = setup_working_task(&mut store);

    store
        .update_task_status(&task_id, TaskStatus::Interrupted)
        .unwrap();

    // Hook fires without --resumed and without PR (just a normal stop hook)
    let outcome = apply(
        &mut store,
        &SessionUpdateArgs {
            session_id: &session_id,
            pr_url: None,
            input_tokens: None,
            output_tokens: None,
            resumed: false,
            claude_session_id: None,
            progress: None,
            set_idle: false,
        },
    )
    .unwrap();

    assert_eq!(
        outcome,
        SessionUpdateOutcome::Restored {
            task_id: task_id.clone(), // compared, not consumed
        }
    );
    assert_eq!(
        store.get_task(&task_id).unwrap().status,
        TaskStatus::Working
    );
    assert_eq!(
        store.get_session(&session_id).unwrap().claude_status,
        ClaudeStatus::Working
    );
}

// ── Working task with no PR ──

/// Hook fires with a working task and no PR — session stays working.
#[test]
fn working_task_no_pr_keeps_session_working() {
    let mut store = Store::open_in_memory().unwrap();
    let (_proj, session_id, task_id) = setup_working_task(&mut store);

    let outcome = apply(
        &mut store,
        &SessionUpdateArgs {
            session_id: &session_id,
            pr_url: None,
            input_tokens: None,
            output_tokens: None,
            resumed: false,
            claude_session_id: None,
            progress: None,
            set_idle: false,
        },
    )
    .unwrap();

    assert_eq!(outcome, SessionUpdateOutcome::WorkingNoPr);
    assert_eq!(
        store.get_task(&task_id).unwrap().status,
        TaskStatus::Working
    );
    // Session stays working throughout the task
    assert_eq!(
        store.get_session(&session_id).unwrap().claude_status,
        ClaudeStatus::Working
    );
}

// ── Notification idle ──

/// Notification hook fires idle_prompt — session goes idle even with a working task.
#[test]
fn set_idle_forces_session_idle_with_working_task() {
    let mut store = Store::open_in_memory().unwrap();
    let (_proj, session_id, task_id) = setup_working_task(&mut store);

    let outcome = apply(
        &mut store,
        &SessionUpdateArgs {
            session_id: &session_id,
            pr_url: None,
            input_tokens: None,
            output_tokens: None,
            resumed: false,
            claude_session_id: None,
            progress: None,
            set_idle: true,
        },
    )
    .unwrap();

    assert_eq!(outcome, SessionUpdateOutcome::NotificationIdle);
    // Task stays working — only session status changes
    assert_eq!(
        store.get_task(&task_id).unwrap().status,
        TaskStatus::Working
    );
    assert_eq!(
        store.get_session(&session_id).unwrap().claude_status,
        ClaudeStatus::Idle
    );
}

// ── Idle session ──

#[test]
fn no_active_task_sets_idle() {
    let mut store = Store::open_in_memory().unwrap();
    let project = store
        .create_project("proj", "/tmp/proj", "main", true)
        .unwrap();
    let session = store
        .create_session(&project.id, "feat", "/tmp/wt", "tab-1")
        .unwrap();

    let outcome = apply(
        &mut store,
        &SessionUpdateArgs {
            session_id: &session.id,
            pr_url: None,
            input_tokens: None,
            output_tokens: None,
            resumed: false,
            claude_session_id: None,
            progress: None,
            set_idle: false,
        },
    )
    .unwrap();

    assert_eq!(outcome, SessionUpdateOutcome::Idle);
    assert_eq!(
        store.get_session(&session.id).unwrap().claude_status,
        ClaudeStatus::Idle
    );
}

// ── Token usage ──

#[test]
fn token_usage_is_set_on_active_task() {
    let mut store = Store::open_in_memory().unwrap();
    let (_proj, session_id, task_id) = setup_working_task(&mut store);

    apply(
        &mut store,
        &SessionUpdateArgs {
            session_id: &session_id,
            pr_url: None,
            input_tokens: Some(5000),
            output_tokens: Some(3000),
            resumed: false,
            claude_session_id: None,
            progress: None,
            set_idle: false,
        },
    )
    .unwrap();

    let task = store.get_task(&task_id).unwrap();
    assert_eq!(task.input_tokens, 5000);
    assert_eq!(task.output_tokens, 3000);
}

#[test]
fn token_usage_ignored_without_active_task() {
    let mut store = Store::open_in_memory().unwrap();
    let project = store
        .create_project("proj", "/tmp/proj", "main", true)
        .unwrap();
    let session = store
        .create_session(&project.id, "feat", "/tmp/wt", "tab-1")
        .unwrap();

    // No task assigned — tokens should not crash
    let result = apply(
        &mut store,
        &SessionUpdateArgs {
            session_id: &session.id,
            pr_url: None,
            input_tokens: Some(1000),
            output_tokens: Some(500),
            resumed: false,
            claude_session_id: None,
            progress: None,
            set_idle: false,
        },
    );
    assert!(result.is_ok());
}

// ── Session ID of the assistant ──

#[test]
fn claude_session_id_is_stored() {
    let mut store = Store::open_in_memory().unwrap();
    let project = store
        .create_project("proj", "/tmp/proj", "main", true)
        .unwrap();
    let session = store
        .create_session(&project.id, "feat", "/tmp/wt", "tab-1")
        .unwrap();

    apply(
        &mut store,
        &SessionUpdateArgs {
            session_id: &session.id,
            pr_url: None,
            input_tokens: None,
            output_tokens: None,
            resumed: false,
            claude_session_id: Some("xyz-123"),
            progress: None,
            set_idle: false,
        },
    )
    .unwrap();

    let s = store.get_session(&session.id).unwrap();
    assert_eq!(s.claude_session_id.as_deref(), Some("xyz-123"));
}

// ── Progress sync ──

#[test]
fn progress_items_are_synced() {
    let mut store = Store::open_in_memory().unwrap();
    let project = store
        .create_project("proj", "/tmp/proj", "main", true)
        .unwrap();
    let session = store
        .create_session(&project.id, "feat", "/tmp/wt", "tab-1")
        .unwrap();

    let items = vec![ClaudeProgressItem {
        subject: "Step 1".to_string(),
        status: "done".to_string(),
    }];

    apply(
        &mut store,
        &SessionUpdateArgs {
            session_id: &session.id,
            pr_url: None,
            input_tokens: None,
            output_tokens: None,
            resumed: false,
            claude_session_id: None,
            progress: Some(items),
            set_idle: false,
        },
    )
    .unwrap();

    let s = store.get_session(&session.id).unwrap();
    assert_eq!(s.claude_progress.len(), 1);
    assert_eq!(s.claude_progress[0].subject, "Step 1");
}

// ── Combined: PR + tokens in same call ──

#[test]
fn pr_with_tokens_updates_both() {
    let mut store = Store::open_in_memory().unwrap();
    let (_proj, session_id, task_id) = setup_working_task(&mut store);

    let outcome = apply(
        &mut store,
        &SessionUpdateArgs {
            session_id: &session_id,
            pr_url: Some("https://github.com/org/repo/pull/99"),
            input_tokens: Some(10_000),
            output_tokens: Some(5_000),
            resumed: false,
            claude_session_id: Some("sess-abc"),
            progress: None,
            set_idle: false,
        },
    )
    .unwrap();

    assert!(matches!(
        outcome,
        SessionUpdateOutcome::PrDetected {
            is_new_pr: true,
            ..
        }
    ));

    let task = store.get_task(&task_id).unwrap();
    assert_eq!(task.status, TaskStatus::InReview);
    assert_eq!(task.input_tokens, 10_000);
    assert_eq!(task.output_tokens, 5_000);

    let session = store.get_session(&session_id).unwrap();
    assert_eq!(session.claude_session_id.as_deref(), Some("sess-abc"));
}

// ── Resumed with working task (no in_review/interrupted) ──

#[test]
fn resume_with_working_task_sets_session_working() {
    let mut store = Store::open_in_memory().unwrap();
    let (_proj, session_id, task_id) = setup_working_task(&mut store);

    let outcome = apply(
        &mut store,
        &SessionUpdateArgs {
            session_id: &session_id,
            pr_url: None,
            input_tokens: None,
            output_tokens: None,
            resumed: true,
            claude_session_id: None,
            progress: None,
            set_idle: false,
        },
    )
    .unwrap();

    assert_eq!(outcome, SessionUpdateOutcome::ResumedWorking { task_id });
    assert_eq!(
        store.get_session(&session_id).unwrap().claude_status,
        ClaudeStatus::Working
    );
}

#[test]
fn resuming_without_a_task_leaves_the_session_idle() {
    let mut store = Store::open_in_memory().unwrap();
    let (_proj, session_id, task_id) = setup_working_task(&mut store);
    store.update_task_status(&task_id, TaskStatus::Done).unwrap();
    store.update_session_status(&session_id, ClaudeStatus::Working, "busy").unwrap();
    let outcome = apply(
        &mut store,
        &SessionUpdateArgs {
            session_id: &session_id,
            pr_url: None,
            input_tokens: None,
            output_tokens: None,
            resumed: true,
            claude_session_id: None,
            progress: None,
            set_idle: false,
        },
    )
    .unwrap();
    assert_eq!(outcome, SessionUpdateOutcome::Idle);
    let s = store.get_session(&session_id).unwrap();
    assert_eq!(s.claude_status, ClaudeStatus::Idle);
    assert_eq!(s.status_message, "");
    assert_eq!(store.get_task(&task_id).unwrap().status, TaskStatus::Done);
}
