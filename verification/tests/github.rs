//! Issues and milestones on the board.

use claustre::github::{
    assign_column, current_milestone, open_milestones, GitHubIssue, GitHubLabel, GitHubMilestone,
};

fn make_issue(state: &str, labels: Vec<&str>) -> GitHubIssue {
    GitHubIssue {
        number: 1,
        title: "test".to_string(),
        body: None,
        state: state.to_string(),
        url: "https://github.com/test/1".to_string(),
        labels: labels
            .into_iter()
            .map(|name| GitHubLabel {
                name: name.to_string(),
                color: None,
            })
            .collect(),
        assignees: vec![],
        milestone: None,
        created_at: None,
    }
}

#[test]
fn assign_column_closed_goes_to_last() {
    let columns = vec![
        ("Backlog".to_string(), vec![]),
        ("In Progress".to_string(), vec!["in progress".to_string()]),
        ("Done".to_string(), vec![]),
    ];
    let issue = make_issue("CLOSED", vec![]);
    assert_eq!(assign_column(&issue, &columns), 2);
}

#[test]
fn assign_column_matches_label() {
    let columns = vec![
        ("Backlog".to_string(), vec![]),
        (
            "In Progress".to_string(),
            vec!["in progress".to_string(), "wip".to_string()],
        ),
        ("In Review".to_string(), vec!["in review".to_string()]),
        ("Done".to_string(), vec![]),
    ];
    let issue = make_issue("OPEN", vec!["In Progress"]);
    assert_eq!(assign_column(&issue, &columns), 1);
}

#[test]
fn assign_column_no_match_goes_to_first() {
    let columns = vec![
        ("Backlog".to_string(), vec![]),
        ("In Progress".to_string(), vec!["in progress".to_string()]),
        ("Done".to_string(), vec![]),
    ];
    let issue = make_issue("OPEN", vec!["bug"]);
    assert_eq!(assign_column(&issue, &columns), 0);
}

#[test]
fn assign_column_case_insensitive() {
    let columns = vec![
        ("Backlog".to_string(), vec![]),
        ("In Progress".to_string(), vec!["IN PROGRESS".to_string()]),
        ("Done".to_string(), vec![]),
    ];
    let issue = make_issue("OPEN", vec!["in progress"]);
    assert_eq!(assign_column(&issue, &columns), 1);
}

#[test]
fn current_milestone_returns_first_open() {
    let milestones = vec![
        GitHubMilestone {
            number: 1,
            title: "Sprint 1".to_string(),
            state: "closed".to_string(),
            due_on: Some("2024-01-01".to_string()),
        },
        GitHubMilestone {
            number: 2,
            title: "Sprint 2".to_string(),
            state: "open".to_string(),
            due_on: Some("2024-02-01".to_string()),
        },
        GitHubMilestone {
            number: 3,
            title: "Sprint 3".to_string(),
            state: "open".to_string(),
            due_on: Some("2024-03-01".to_string()),
        },
    ];
    let current = current_milestone(&milestones).expect("should find an open milestone");
    assert_eq!(current.title, "Sprint 2");
}

#[test]
fn current_milestone_returns_none_when_all_closed() {
    let milestones = vec![GitHubMilestone {
        number: 1,
        title: "Sprint 1".to_string(),
        state: "closed".to_string(),
        due_on: None,
    }];
    assert!(current_milestone(&milestones).is_none());
}

#[test]
fn only_open_milestones_are_listed_by_date() {
    let m = |title: &str, state: &str, due: Option<&str>| GitHubMilestone {
        title: title.to_string(),
        state: state.to_string(),
        due_on: due.map(String::from),
        number: 1,
    };
    let all = vec![
        m("late", "open", Some("2025-03-01T00:00:00Z")),
        m("gone", "closed", Some("2025-01-01T00:00:00Z")),
        m("soon", "open", Some("2025-02-01T00:00:00Z")),
        m("also soon", "open", Some("2025-02-01T00:00:00Z")),
    ];
    let open = open_milestones(&all);
    let titles: Vec<&str> = open.iter().map(|x| x.title.as_str()).collect();
    assert_eq!(titles, ["soon", "also soon", "late"]);
    assert_eq!(current_milestone(&open).unwrap().title, "soon");
}
