use ofborg_eval::effects::{Context, Effect, JobEvent, Link, StatusState};
use ofborg_eval::issue::IssueSnapshot;
use ofborg_eval::job::{EvaluationJob, Pr, Repo};
use ofborg_eval::outpaths::{OutPath, PackageArch};
use ofborg_eval::pipeline::{Driver, Event, MaintainerReport, Outcome, Phase, Request};
use ofborg_eval::strategy::Strategy;
use ofborg_eval::taggers::{PackageMaintainers, TagPaths};

fn job(repo: &str) -> EvaluationJob {
    EvaluationJob {
        repo: Repo {
            owner: "NixOS".to_string(),
            name: repo.to_string(),
            full_name: format!("NixOS/{}", repo),
            clone_url: format!("https://github.com/NixOS/{}.git", repo),
        },
        pr: Pr { number: 7, head_sha: "abc".to_string(), target_branch: Some("staging".to_string()) },
    }
}

fn v(s: &[&str]) -> Vec<String> {
    s.iter().map(|x| x.to_string()).collect()
}

fn issue(title: &str, state: &str) -> Event {
    Event::Issue {
        issue: Some(IssueSnapshot {
            title: title.to_string(),
            state: state.to_string(),
            author: "alice".to_string(),
            labels: vec![],
        }),
        architectures: v(&["x86_64-linux", "aarch64-linux"]),
    }
}

fn e(pkg: &str, arch: &str, path: &str) -> OutPath {
    OutPath {
        attr: PackageArch { package: pkg.to_string(), architecture: arch.to_string() },
        path: path.to_string(),
    }
}

struct Run {
    effects: Vec<Effect>,
    last: Request,
}

fn run(d: &mut Driver, events: Vec<Event>) -> Run {
    let mut effects = vec![];
    let mut last = Request::FetchIssue;
    for ev in events {
        let step = d.step(ev);
        effects.extend(step.effects);
        last = step.request;
    }
    Run { effects, last }
}

fn overall(effects: &[Effect]) -> Vec<(String, StatusState)> {
    effects
        .iter()
        .filter_map(|e| match e {
            Effect::Status(w) if w.context == Context::Overall => Some((w.description.clone(), w.state)),
            _ => None,
        })
        .collect()
}

fn finals(effects: &[Effect]) -> usize {
    overall(effects).iter().filter(|(_, s)| *s != StatusState::Pending).count()
}

fn label_adds(effects: &[Effect]) -> Vec<String> {
    let mut r = vec![];
    for e in effects {
        if let Effect::Labels(p) = e {
            r.extend(p.add.iter().cloned());
        }
    }
    r
}

fn schedules(effects: &[Effect]) -> Vec<(Vec<String>, Vec<String>)> {
    effects
        .iter()
        .filter_map(|e| match e {
            Effect::Schedule { job, architectures } => Some((job.attrs.clone(), architectures.clone())),
            _ => None,
        })
        .collect()
}

fn checks_done(n: usize, ok: bool) -> Vec<Event> {
    (0..n).map(|_| Event::CheckDone { ok, log: "log".to_string() }).collect()
}

fn nixpkgs_until_checks(title: &str, touched: &[&str]) -> (Driver, Run) {
    let mut d = Driver::new(job("nixpkgs"), vec![TagPaths { tag: "6.topic: nixos".to_string(), prefixes: v(&["nixos/"]) }]);
    let messages: Vec<String> = touched.iter().map(|p| format!("{}: update", p)).collect();
    let r = run(
        &mut d,
        vec![
            issue(title, "open"),
            Event::CheckedOut,
            Event::Stdenvs { linux: Some("/s1".to_string()), darwin: Some("/s2".to_string()) },
            Event::OutPaths(Ok(vec![e("zlib", "x86_64-linux", "/z1"), e("hello", "x86_64-linux", "/h1")])),
            Event::PrFetched { commit_exists: true },
            Event::CommitInfo { messages: Some(messages), files: Some(v(&["nixos/foo.nix"])) },
            Event::Merged(true),
            Event::Stdenvs { linux: Some("/s1".to_string()), darwin: Some("/s3".to_string()) },
            Event::OutPaths(Ok(vec![e("zlib", "x86_64-linux", "/z2"), e("hello", "x86_64-linux", "/h1")])),
        ],
    );
    (d, r)
}

#[test]
fn closed_issue_does_nothing() {
    let mut d = Driver::new(job("nixpkgs"), vec![]);
    let r = run(&mut d, vec![issue("bump foo", "closed")]);
    assert!(matches!(r.effects.as_slice(), [Effect::Notify(JobEvent::IssueAlreadyClosed)]));
    assert!(matches!(r.last, Request::Finish(Outcome::Skipped)));
    assert_eq!(d.phase, Phase::Done);
    let again = d.step(Event::CheckedOut);
    assert!(again.effects.is_empty());
}

#[test]
fn missing_issue_does_nothing() {
    let mut d = Driver::new(job("nixpkgs"), vec![]);
    let r = run(&mut d, vec![Event::Issue { issue: None, architectures: vec![] }]);
    assert!(matches!(r.effects.as_slice(), [Effect::Notify(JobEvent::IssueFetchFailed)]));
    assert!(matches!(r.last, Request::Finish(Outcome::Skipped)));
}

#[test]
fn generic_repository_succeeds_without_checks() {
    let mut d = Driver::new(job("ofborg"), vec![]);
    let r = run(
        &mut d,
        vec![
            issue("macOS fix", "open"),
            Event::CheckedOut,
            Event::PrFetched { commit_exists: true },
            Event::Merged(true),
        ],
    );
    assert!(label_adds(&r.effects).is_empty());
    assert_eq!(
        overall(&r.effects),
        vec![
            ("Starting".to_string(), StatusState::Pending),
            ("Cloning project".to_string(), StatusState::Pending),
            ("Checking out staging".to_string(), StatusState::Pending),
            ("Fetching PR".to_string(), StatusState::Pending),
            ("Merging PR".to_string(), StatusState::Pending),
            ("Beginning Evaluations".to_string(), StatusState::Pending),
            ("^.^!".to_string(), StatusState::Success),
        ]
    );
    assert!(matches!(r.last, Request::Finish(Outcome::Completed)));
}

#[test]
fn merge_conflict_labels_and_stops() {
    let mut d = Driver::new(job("nixpkgs"), vec![]);
    let r = run(
        &mut d,
        vec![
            issue("bump", "open"),
            Event::CheckedOut,
            Event::Stdenvs { linux: None, darwin: None },
            Event::OutPaths(Ok(vec![])),
            Event::PrFetched { commit_exists: true },
            Event::CommitInfo { messages: None, files: None },
            Event::Merged(false),
        ],
    );
    let o = overall(&r.effects);
    assert_eq!(o.last().unwrap(), &("Failed to merge".to_string(), StatusState::Failure));
    assert_eq!(finals(&r.effects), 1);
    assert!(label_adds(&r.effects).contains(&"2.status: merge conflict".to_string()));
    assert!(!r.effects.iter().any(|e| matches!(e, Effect::Status(w) if matches!(w.context, Context::Check(_)))));
    assert!(matches!(r.last, Request::Finish(Outcome::Skipped)));
}

#[test]
fn missing_commit_is_an_error() {
    let mut d = Driver::new(job("ofborg"), vec![]);
    let r = run(&mut d, vec![issue("x", "open"), Event::CheckedOut, Event::PrFetched { commit_exists: false }]);
    assert_eq!(overall(&r.effects).last().unwrap(), &("Commit not found".to_string(), StatusState::Error));
    assert!(matches!(r.last, Request::Finish(Outcome::Skipped)));
}

#[test]
fn target_branch_that_does_not_evaluate() {
    let mut d = Driver::new(job("nixpkgs"), vec![]);
    let r = run(
        &mut d,
        vec![
            issue("bump", "open"),
            Event::CheckedOut,
            Event::Stdenvs { linux: None, darwin: None },
            Event::OutPaths(Err("error: infinite recursion".to_string())),
        ],
    );
    let statuses: Vec<&Effect> = r.effects.iter().filter(|e| matches!(e, Effect::Status(_))).collect();
    let n = statuses.len();
    match (statuses[n - 2], statuses[n - 1]) {
        (Effect::Status(a), Effect::Status(b)) => {
            assert_eq!(a.description, "Target branch staging doesn't evaluate!");
            assert_eq!(a.state, StatusState::Failure);
            match &a.link {
                Link::Paste(g) => {
                    assert_eq!(g.name, "Output path comparison");
                    assert_eq!(g.content, "error: infinite recursion");
                }
                _ => panic!("no paste"),
            }
            assert_eq!(b.description, "Complete, with errors");
            assert_eq!(b.state, StatusState::Failure);
        }
        _ => unreachable!(),
    }
    assert!(matches!(r.last, Request::Finish(Outcome::Completed)));
}

#[test]
fn successful_small_pr_schedules_three() {
    let (mut d, mut r) = nixpkgs_until_checks("bump things", &["zlib", "hello", "curl", "absent"]);
    assert!(matches!(r.last, Request::RunCheck { index: 0 }));
    let more = run(&mut d, checks_done(7, true));
    r.effects.extend(more.effects);
    assert!(matches!(more.last, Request::MetaCheck));
    let more = run(&mut d, vec![Event::Meta(Ok(v(&["zlib", "hello", "curl", "other"])))]);
    r.effects.extend(more.effects);
    let paths = match more.last {
        Request::Maintainers { paths, attrs } => {
            assert_eq!(attrs, vec![v(&["zlib"])]);
            paths
        }
        _ => panic!("expected a maintainers request"),
    };
    assert_eq!(paths, v(&["nixos/foo.nix"]));
    let report = MaintainerReport {
        maintainers: v(&["bob"]),
        by_package: vec![PackageMaintainers { package: "zlib".to_string(), maintainers: v(&["bob"]) }],
        listing: "bob: zlib".to_string(),
    };
    let more = run(&mut d, vec![Event::Maintainers(Ok(report))]);
    r.effects.extend(more.effects);
    assert!(matches!(more.last, Request::Finish(Outcome::Completed)));
    let s = schedules(&r.effects);
    assert_eq!(s.len(), 1);
    assert_eq!(s[0].0, v(&["curl", "hello", "zlib"]));
    assert_eq!(s[0].1, v(&["x86_64-linux", "aarch64-linux"]));
    assert_eq!(overall(&r.effects).last().unwrap(), &("^.^!".to_string(), StatusState::Success));
    assert_eq!(finals(&r.effects), 1);
    let adds = label_adds(&r.effects);
    assert!(adds.contains(&"6.topic: nixos".to_string()));
    assert!(adds.contains(&"10.rebuild-darwin-stdenv".to_string()));
    assert!(adds.contains(&"10.rebuild-linux: 1-10".to_string()));
    assert!(r.effects.iter().any(|e| matches!(e, Effect::RequestReviews(m) if m == &v(&["bob"]))));
    assert!(r.effects.iter().any(|e| matches!(e, Effect::Status(w)
        if w.context == Context::Maintainers && w.state == StatusState::Success
            && matches!(&w.link, Link::Paste(g) if g.name == "Potential Maintainers" && g.content == "Maintainers:\nbob: zlib"))));
    assert!(r.effects.iter().any(|e| matches!(e, Effect::OverallLink(g) if g.name == "Changed Paths" && g.content == "x86_64-linux\tzlib")));
    assert!(matches!(r.effects.last(), Some(Effect::Notify(JobEvent::TaskEvaluationCheckComplete))));
    for i in 0..7 {
        let writes: Vec<StatusState> = r
            .effects
            .iter()
            .filter_map(|e| match e {
                Effect::Status(w) if w.context == Context::Check(i) => Some(w.state),
                _ => None,
            })
            .collect();
        assert_eq!(writes, vec![StatusState::Pending, StatusState::Success]);
    }
}

#[test]
fn wip_pr_schedules_for_no_architecture() {
    let (mut d, _) = nixpkgs_until_checks("[WIP] bump foo", &["zlib"]);
    run(&mut d, checks_done(7, true));
    let r = run(&mut d, vec![Event::Meta(Ok(v(&["zlib"]))), Event::Maintainers(Err("no".to_string()))]);
    let s = schedules(&r.effects);
    assert_eq!(s.len(), 1);
    assert!(s[0].1.is_empty());
    assert!(matches!(r.last, Request::Finish(Outcome::Completed)));
}

#[test]
fn too_many_touched_packages_schedule_nothing() {
    let names: Vec<String> = (0..25).map(|i| format!("pkg{:02}", i)).collect();
    let refs: Vec<&str> = names.iter().map(|s| s.as_str()).collect();
    let (mut d, _) = nixpkgs_until_checks("mass bump", &refs);
    run(&mut d, checks_done(7, true));
    let r = run(&mut d, vec![Event::Meta(Ok(names.clone())), Event::Maintainers(Err("no".to_string()))]);
    assert!(schedules(&r.effects).is_empty());
    assert_eq!(overall(&r.effects).last().unwrap(), &("^.^!".to_string(), StatusState::Success));
}

#[test]
fn failing_check_fails_the_job() {
    let (mut d, _) = nixpkgs_until_checks("bump", &["zlib"]);
    let mut evs = checks_done(1, true);
    evs.push(Event::CheckDone { ok: false, log: "boom".to_string() });
    evs.extend(checks_done(5, true));
    let r = run(&mut d, evs);
    assert_eq!(overall(&r.effects).last().unwrap(), &("Complete, with errors".to_string(), StatusState::Failure));
    assert_eq!(finals(&r.effects), 1);
    assert!(schedules(&r.effects).is_empty());
    assert!(matches!(r.last, Request::Finish(Outcome::Completed)));
}

#[test]
fn head_that_does_not_evaluate_fails_with_paste() {
    let mut d = Driver::new(job("nixpkgs"), vec![]);
    let r = run(
        &mut d,
        vec![
            issue("bump", "open"),
            Event::CheckedOut,
            Event::Stdenvs { linux: None, darwin: None },
            Event::OutPaths(Ok(vec![])),
            Event::PrFetched { commit_exists: true },
            Event::CommitInfo { messages: None, files: None },
            Event::Merged(true),
            Event::Stdenvs { linux: None, darwin: None },
            Event::OutPaths(Err("oops".to_string())),
        ],
    );
    assert!(matches!(r.effects.last(), Some(Effect::Notify(JobEvent::TaskEvaluationCheckComplete))));
    match r.effects.iter().rev().find(|e| matches!(e, Effect::Status(_))).unwrap() {
        Effect::Status(w) => {
            assert_eq!(w.description, "Complete, with errors");
            match &w.link {
                Link::Paste(g) => assert_eq!(g.description, "Failed to enumerate outputs after merging to staging"),
                _ => panic!("no paste"),
            }
        }
        _ => panic!("no status"),
    }
    assert_eq!(finals(&r.effects), 1);
}

#[test]
fn failing_meta_check_fails_the_job() {
    let (mut d, _) = nixpkgs_until_checks("bump", &["zlib"]);
    run(&mut d, checks_done(7, true));
    let r = run(&mut d, vec![Event::Meta(Err("meta".to_string()))]);
    assert_eq!(overall(&r.effects).last().unwrap(), &("Complete, with errors".to_string(), StatusState::Failure));
    assert!(r.effects.iter().any(|e| matches!(e, Effect::Status(w) if w.context == Context::Meta && w.state == StatusState::Failure)));
}

#[test]
fn unexpected_event_is_asked_again() {
    let mut d = Driver::new(job("nixpkgs"), vec![]);
    let s = d.step(Event::CheckedOut);
    assert!(s.effects.is_empty());
    assert!(matches!(s.request, Request::Again));
    assert_eq!(d.phase, Phase::AwaitIssue);
}

#[test]
fn stdenv_snapshot_is_kept_and_labelled() {
    let (mut d, _) = nixpkgs_until_checks("bump", &["zlib"]);
    match &d.strategy {
        Strategy::Nixpkgs(n) => {
            let st = n.stdenvs.as_ref().unwrap();
            assert_eq!(st.linux_stdenv_before, Some("/s1".to_string()));
            assert_eq!(st.darwin_stdenv_before, Some("/s2".to_string()));
            assert_eq!(st.darwin_stdenv_after, Some("/s3".to_string()));
        }
        _ => panic!("expected the package collection's strategy"),
    }
    run(&mut d, checks_done(7, true));
    let r = run(&mut d, vec![Event::Meta(Ok(v(&["zlib"])))]);
    assert!(r.effects.iter().any(|e| matches!(e, Effect::Labels(p)
        if p.add == v(&["10.rebuild-darwin-stdenv"]) && p.remove == v(&["10.rebuild-linux-stdenv"]))));
    match &d.strategy {
        Strategy::Nixpkgs(n) => {
            assert!(n.outpathdiff.is_none());
            assert_eq!(n.changed_paths, Some(v(&["nixos/foo.nix"])));
        }
        _ => panic!("expected the package collection's strategy"),
    }
}
