use ofborg_eval::issue::{
    indicates_wip, issue_is_closed, issue_is_wip, labels_from_title, says_work_in_progress,
    title_mentions_darwin, IssueSnapshot,
};

fn issue(title: &str, state: &str, labels: &[&str]) -> IssueSnapshot {
    IssueSnapshot {
        title: title.to_string(),
        state: state.to_string(),
        author: "alice".to_string(),
        labels: labels.iter().map(|s| s.to_string()).collect(),
    }
}

#[test]
fn wip_label_in_any_case() {
    assert!(indicates_wip("Work In Progress"));
    assert!(indicates_wip("2.status: WORK-IN-PROGRESS"));
    assert!(!indicates_wip("wip"));
    assert!(!indicates_wip("work in-progress"));
}

#[test]
fn wip_on_lowercased_text() {
    assert!(says_work_in_progress("a work in progress"));
    assert!(!says_work_in_progress("Work In Progress"));
}

#[test]
fn wip_from_title_or_labels() {
    assert!(issue_is_wip(&issue("[WIP] bump foo", "open", &[])));
    assert!(issue_is_wip(&issue("WIP: bump foo", "open", &[])));
    assert!(!issue_is_wip(&issue("bump foo WIP:", "open", &[])));
    assert!(!issue_is_wip(&issue("[wip] bump foo", "open", &[])));
    assert!(issue_is_wip(&issue("bump foo", "open", &["x", "Work in progress"])));
    assert!(!issue_is_wip(&issue("bump foo", "open", &["x"])));
}

#[test]
fn closed_state() {
    assert!(issue_is_closed(&issue("t", "closed", &[])));
    assert!(!issue_is_closed(&issue("t", "open", &[])));
    assert!(!issue_is_closed(&issue("t", "Closed", &[])));
}

#[test]
fn darwin_topic_from_title() {
    assert_eq!(labels_from_title("Fix build on macOS"), vec!["6.topic: darwin"]);
    assert_eq!(labels_from_title("DARWIN: stdenv"), vec!["6.topic: darwin"]);
    assert!(labels_from_title("fix linux").is_empty());
    assert!(title_mentions_darwin("darwin"));
    assert!(!title_mentions_darwin("Darwin"));
}
