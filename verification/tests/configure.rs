//! Permissions: what is missing, and what adding it does.

use claustre::config::RecommendedPermissions;
use claustre::configure::{
    apply_all_recommendations, apply_permission_changes, check_config_status, check_gh, check_git,
    claude_settings_path, compute_diffs, extra_entries, get_permission_set, load_config_status,
    missing_entries, prompt_yn, question_line, read_settings, set_from_slice, settings_text,
    PermissionDiff, PermissionError,
};
use claustre::textset::TextSet;
use claustre::wizard::Wizard;
use serde_json::Value;

/// Shorthand for the default recommended permissions in tests.
fn defaults() -> RecommendedPermissions {
    RecommendedPermissions::default()
}

/// A JSON value from its text.
fn json(text: &str) -> Value {
    serde_json::from_str(text).unwrap()
}

/// Settings with the given permissions.
fn settings_with(allow: &[String], deny: &[String], ask: &[String]) -> Value {
    let mut settings = json(r#"{"permissions": {}}"#);
    for (key, list) in [("allow", allow), ("deny", deny), ("ask", ask)] {
        settings["permissions"][key] =
            Value::Array(list.iter().map(|s| Value::String(s.clone())).collect());
    }
    settings
}

#[test]
fn missing_entries_finds_gaps() {
    let current = set_from_slice(&["Bash", "Read(*)"]);
    let recommended = TextSet::of(&defaults().allow);
    let missing = missing_entries(&current, &recommended);

    assert!(missing.contains("Glob(*)"));
    assert!(missing.contains("Edit(*)"));
    assert!(!missing.contains("Bash"));
    assert!(!missing.contains("Read(*)"));
}

#[test]
fn missing_entries_empty_when_superset() {
    let set = TextSet::of(&defaults().allow);
    let missing = missing_entries(&set, &set);
    assert!(missing.is_empty());
}

#[test]
fn extra_entries_finds_user_additions() {
    let mut current = TextSet::of(&defaults().allow);
    current.insert("WebSearch(*)");
    let recommended = TextSet::of(&defaults().allow);
    let extra = extra_entries(&current, &recommended);

    assert_eq!(extra.len(), 1);
    assert!(extra.contains("WebSearch(*)"));
}

#[test]
fn compute_diffs_empty_settings() {
    let perms = defaults();
    let settings = json("{}");
    let diffs = compute_diffs(&settings, &perms);

    assert_eq!(diffs.len(), 3);

    let allow = &diffs[0];
    assert_eq!(allow.category, "allow");
    assert_eq!(allow.missing.len(), perms.allow.len());

    let deny = &diffs[1];
    assert_eq!(deny.category, "deny");
    assert_eq!(deny.missing.len(), perms.deny.len());

    let ask = &diffs[2];
    assert_eq!(ask.category, "ask");
    assert_eq!(ask.missing.len(), perms.ask.len());
}

#[test]
fn compute_diffs_fully_aligned() {
    let perms = defaults();
    let settings = settings_with(&perms.allow, &perms.deny, &perms.ask);
    let diffs = compute_diffs(&settings, &defaults());

    for diff in &diffs {
        assert!(
            diff.is_aligned(),
            "category '{}' should be aligned but has missing: {:?}",
            diff.category,
            diff.missing
        );
    }
}

#[test]
fn compute_diffs_partial_allow() {
    let perms = defaults();
    let settings = settings_with(
        &["Bash".to_string(), "Read(*)".to_string()],
        &perms.deny,
        &perms.ask,
    );
    let diffs = compute_diffs(&settings, &defaults());

    let allow = &diffs[0];
    assert!(!allow.is_aligned());
    assert!(allow.missing.contains("Glob(*)"));
    assert!(!allow.missing.contains("Bash"));

    // deny and ask should be aligned
    assert!(diffs[1].is_aligned());
    assert!(diffs[2].is_aligned());
}

#[test]
fn apply_permission_changes_adds_to_existing() {
    let mut settings = json(r#"{"permissions": {"allow": ["Bash"]}}"#);
    let additions = set_from_slice(&["Glob(*)", "Read(*)"]);

    apply_permission_changes(&mut settings, &[("allow", &additions)]).unwrap();

    let result = get_permission_set(&settings, "allow");
    assert!(result.contains("Bash"));
    assert!(result.contains("Glob(*)"));
    assert!(result.contains("Read(*)"));
}

#[test]
fn apply_permission_changes_creates_category() {
    let mut settings = json(r#"{"permissions": {}}"#);
    let additions = set_from_slice(&["Bash(rm:*)"]);

    apply_permission_changes(&mut settings, &[("ask", &additions)]).unwrap();

    let result = get_permission_set(&settings, "ask");
    assert!(result.contains("Bash(rm:*)"));
}

#[test]
fn apply_permission_changes_no_duplicates() {
    let mut settings = json(r#"{"permissions": {"allow": ["Bash", "Read(*)"]}}"#);
    let additions = set_from_slice(&["Bash", "Glob(*)"]);

    apply_permission_changes(&mut settings, &[("allow", &additions)]).unwrap();

    let arr = settings["permissions"]["allow"]
        .as_array()
        .expect("should be an array");
    let bash_count = arr.iter().filter(|v| v.as_str() == Some("Bash")).count();
    assert_eq!(bash_count, 1, "Bash should appear exactly once");
}

#[test]
fn apply_permission_changes_creates_permissions_object() {
    let mut settings = json("{}");
    let additions = set_from_slice(&["Bash"]);

    apply_permission_changes(&mut settings, &[("allow", &additions)]).unwrap();

    let result = get_permission_set(&settings, "allow");
    assert!(result.contains("Bash"));
}

#[test]
fn apply_permission_changes_preserves_other_fields() {
    let mut settings =
        json(r#"{"env": {"FOO": "bar"}, "permissions": {"allow": ["Bash"]}, "hooks": {}}"#);
    let additions = set_from_slice(&["Read(*)"]);

    apply_permission_changes(&mut settings, &[("allow", &additions)]).unwrap();

    // Other fields should be untouched
    assert_eq!(settings["env"]["FOO"], "bar");
    assert!(settings.get("hooks").is_some());
}

#[test]
fn set_from_slice_produces_sorted_set() {
    let set = set_from_slice(&["Zebra", "Apple", "Mango"]);
    let items: Vec<_> = (0..set.len()).map(|i| set.get(i)).collect();
    assert_eq!(items, vec!["Apple", "Mango", "Zebra"]);
}

#[test]
fn get_permission_set_handles_missing_permissions() {
    let settings = json("{}");
    let result = get_permission_set(&settings, "allow");
    assert!(result.is_empty());
}

#[test]
fn get_permission_set_handles_missing_category() {
    let settings = json(r#"{"permissions": {}}"#);
    let result = get_permission_set(&settings, "allow");
    assert!(result.is_empty());
}

#[test]
fn permission_diff_is_aligned() {
    let diff = PermissionDiff {
        category: "allow".to_string(),
        missing: TextSet::new(),
    };
    assert!(diff.is_aligned());

    let diff_with_missing = PermissionDiff {
        category: "allow".to_string(),
        missing: set_from_slice(&["Bash"]),
    };
    assert!(!diff_with_missing.is_aligned());
}

#[test]
fn apply_multiple_categories() {
    let mut settings = json("{}");

    let allow_add = set_from_slice(&["Bash", "Read(*)"]);
    let deny_add = set_from_slice(&["Bash(git push --force*)"]);
    let ask_add = set_from_slice(&["Bash(rm:*)"]);

    apply_permission_changes(
        &mut settings,
        &[
            ("allow", &allow_add),
            ("deny", &deny_add),
            ("ask", &ask_add),
        ],
    )
    .unwrap();

    assert!(get_permission_set(&settings, "allow").contains("Bash"));
    assert!(get_permission_set(&settings, "allow").contains("Read(*)"));
    assert!(get_permission_set(&settings, "deny").contains("Bash(git push --force*)"));
    assert!(get_permission_set(&settings, "ask").contains("Bash(rm:*)"));
}

#[test]
fn settings_of_the_wrong_shape_are_refused() {
    let additions = set_from_slice(&["Bash"]);
    let mut list = json("[]");
    let e = apply_permission_changes(&mut list, &[("allow", &additions)]).unwrap_err();
    assert!(matches!(e, PermissionError::SettingsNotObject));
    assert_eq!(e.message(), "settings is not a JSON object");

    let mut odd = json(r#"{"permissions": 3}"#);
    let e = apply_permission_changes(&mut odd, &[("allow", &additions)]).unwrap_err();
    assert!(matches!(e, PermissionError::PermissionsNotObject));
    assert_eq!(e.message(), "permissions is not a JSON object");
    assert_eq!(odd["permissions"], 3);
}

#[test]
fn applying_all_recommendations_aligns() {
    let mut status = load_config_status(json("{}"), "/tmp/settings.json".to_string(), defaults());
    let perms = defaults();
    let missing = perms.allow.len() + perms.deny.len() + perms.ask.len();
    assert_eq!(apply_all_recommendations(&mut status).unwrap(), missing as u128);
    assert!(status.diffs.iter().all(|d| d.is_aligned()));
    assert_eq!(apply_all_recommendations(&mut status).unwrap(), 0);
}

#[test]
fn status_counts_what_is_missing() {
    let perms = defaults();
    let aligned = settings_with(&perms.allow, &perms.deny, &perms.ask);
    assert!(check_config_status(&aligned, &perms, "helper").is_none());
    let status = check_config_status(&json("{}"), &perms, "helper").unwrap();
    let missing = perms.allow.len() + perms.deny.len() + perms.ask.len();
    assert!(status.contains(&missing.to_string()), "{status}");
}

#[test]
fn settings_are_written_indented_and_read_back() {
    let settings = json(r#"{"b": [1], "a": "x"}"#);
    let text = settings_text(&settings);
    assert_eq!(text, "{\n  \"a\": \"x\",\n  \"b\": [\n    1\n  ]\n}\n");
    assert_eq!(read_settings(Some(&text)).unwrap(), settings);
    assert!(read_settings(Some("not json")).is_none());
    assert_eq!(claude_settings_path("/home/u", "helper"), "/home/u/.helper/settings.json");
}

#[test]
fn answers_fall_back_to_the_default() {
    assert!(prompt_yn(Some("YES\n"), false));
    assert!(!prompt_yn(Some(" n \n"), true));
    assert!(prompt_yn(Some("\n"), true));
    assert!(!prompt_yn(Some("maybe\n"), false));
    assert!(prompt_yn(None, true));
    assert_eq!(question_line("Go on?", true), "Go on? [Y/n] ");
    assert_eq!(question_line("Go on?", false), "Go on? [y/N] ");
}

#[test]
fn tools_are_reported() {
    assert!(check_git(true).line().contains("git"));
    assert!(!check_gh(false, false).installed);
    assert!(check_gh(false, false).detail.contains("https://cli.github.com"));
}

#[test]
fn saying_yes_to_everything_chooses_everything() {
    let mut wizard = Wizard::new(compute_diffs(&json("{}"), &defaults()));
    assert!(!wizard.is_done());
    wizard.answer(true);
    assert!(wizard.is_done());
    assert_eq!(wizard.chosen().len(), wizard.diffs().len());
    for (chosen, diff) in wizard.chosen().iter().zip(wizard.diffs()) {
        assert_eq!(chosen.missing.len(), diff.missing.len());
    }
}

#[test]
fn saying_no_to_everything_ends_with_nothing() {
    let mut wizard = Wizard::new(compute_diffs(&json("{}"), &defaults()));
    let mut asked = 0;
    while !wizard.is_done() {
        assert!(!wizard.question().is_empty());
        wizard.answer(false);
        asked += 1;
        assert!(asked < 1000);
    }
    assert!(wizard.chosen().iter().all(|d| d.missing.is_empty()));
}
