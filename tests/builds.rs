use ofborg_eval::job::{
    packages_to_build, schedule_builds, schedule_builds_now, EvaluationJob, Pr, Repo, Subset,
};
use ofborg_eval::order::text_less;

fn job(target: Option<&str>) -> EvaluationJob {
    EvaluationJob {
        repo: Repo {
            owner: "NixOS".to_string(),
            name: "nixpkgs".to_string(),
            full_name: "NixOS/nixpkgs".to_string(),
            clone_url: "https://github.com/NixOS/nixpkgs.git".to_string(),
        },
        pr: Pr {
            number: 42,
            head_sha: "abc123".to_string(),
            target_branch: target.map(|t| t.to_string()),
        },
    }
}

fn v(s: &[&str]) -> Vec<String> {
    s.iter().map(|x| x.to_string()).collect()
}

#[test]
fn job_target_branch_defaults_to_master() {
    assert_eq!(job(None).pr.target_branch_name(), "master");
    assert_eq!(job(Some("staging")).pr.target_branch_name(), "staging");
    assert!(job(None).is_nixpkgs());
}

#[test]
fn code_point_order() {
    assert!(text_less("a", "b"));
    assert!(text_less("a", "ab"));
    assert!(!text_less("ab", "a"));
    assert!(!text_less("a", "a"));
    assert!(text_less("Z", "a"));
    assert!(text_less("z", "\u{e9}"));
}

#[test]
fn touched_packages_sorted_unique() {
    let got = packages_to_build(
        &v(&["zlib", "hello", "zlib", "other", "abc"]),
        &v(&["zlib", "abc", "hello", "missing", "zlib"]),
    );
    assert_eq!(got, v(&["abc", "hello", "zlib"]));
}

#[test]
fn small_pr_schedules_one_sorted_job() {
    let j = job(None);
    let emitted = v(&["python.pkgs.ptyprocess", "firefox", "zlib", "buildkite-agent"]);
    let touched = Some(v(&["firefox", "buildkite-agent", "python.pkgs.ptyprocess", "nope"]));
    let jobs = schedule_builds(&j, &emitted, &touched, "id-1".to_string());
    assert_eq!(jobs.len(), 1);
    assert_eq!(jobs[0].attrs, v(&["buildkite-agent", "firefox", "python.pkgs.ptyprocess"]));
    assert_eq!(jobs[0].subset, Some(Subset::Nixpkgs));
    assert_eq!(jobs[0].request_id, "id-1");
    assert_eq!(jobs[0].pr.number, 42);
}

#[test]
fn large_touched_set_schedules_nothing() {
    let names: Vec<String> = (0..25).map(|i| format!("pkg{:02}", i)).collect();
    let jobs = schedule_builds(&job(None), &names, &Some(names.clone()), "id".to_string());
    assert!(jobs.is_empty());
}

#[test]
fn ten_is_the_limit() {
    let names: Vec<String> = (0..10).map(|i| format!("pkg{}", i)).collect();
    let jobs = schedule_builds(&job(None), &names, &Some(names.clone()), "id".to_string());
    assert_eq!(jobs.len(), 1);
    assert_eq!(jobs[0].attrs.len(), 10);
    let eleven: Vec<String> = (0..11).map(|i| format!("pkg{}", i)).collect();
    let jobs = schedule_builds(&job(None), &eleven, &Some(eleven.clone()), "id".to_string());
    assert!(jobs.is_empty());
}

#[test]
fn no_touched_list_or_no_match_schedules_nothing() {
    assert!(schedule_builds(&job(None), &v(&["a"]), &None, "id".to_string()).is_empty());
    assert!(schedule_builds(&job(None), &v(&["a"]), &Some(v(&["b"])), "id".to_string()).is_empty());
}

#[test]
fn fresh_request_ids_are_uuids() {
    let j = job(None);
    let a = schedule_builds_now(&j, &v(&["a"]), &Some(v(&["a"])));
    let b = schedule_builds_now(&j, &v(&["a"]), &Some(v(&["a"])));
    assert_eq!(a[0].request_id.len(), 36);
    assert_eq!(a[0].request_id.matches('-').count(), 4);
    let chars: Vec<char> = a[0].request_id.chars().collect();
    for (i, c) in chars.iter().enumerate() {
        if [8, 13, 18, 23].contains(&i) {
            assert_eq!(*c, '-');
        } else {
            assert!(c.is_ascii_hexdigit() && !c.is_ascii_uppercase());
        }
    }
    assert_eq!(chars[14], '4');
    assert!("89ab".contains(chars[19]));
    assert_ne!(a[0].request_id, b[0].request_id);
}
