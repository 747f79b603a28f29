use ofborg_eval::job::{EvaluationJob, Pr, Repo};
use ofborg_eval::outpaths::{OutPath, PackageArch};
use ofborg_eval::strategy::{Error, EvaluationStrategy, GenericStrategy, NixpkgsStrategy};
use ofborg_eval::taggers::TagPaths;

fn v(s: &[&str]) -> Vec<String> {
    s.iter().map(|x| x.to_string()).collect()
}

fn job() -> EvaluationJob {
    EvaluationJob {
        repo: Repo {
            owner: "NixOS".to_string(),
            name: "nixpkgs".to_string(),
            full_name: "NixOS/nixpkgs".to_string(),
            clone_url: "u".to_string(),
        },
        pr: Pr { number: 1, head_sha: "s".to_string(), target_branch: None },
    }
}

#[test]
fn generic_hooks_do_nothing() {
    let mut g = GenericStrategy::new();
    assert!(g.pre_clone("macOS").add.is_empty());
    assert!(g.on_target_branch(Err("x".to_string())).is_ok());
    assert!(g.after_fetch(Some(v(&["a: b"])), None).add.is_empty());
    assert!(g.merge_conflict().add.is_empty());
    assert!(g.evaluation_checks().is_empty());
    assert!(g.all_evaluations_passed(&job(), Ok(v(&["a"]))).unwrap().is_empty());
}

#[test]
fn nixpkgs_target_branch_failure() {
    let mut n = NixpkgsStrategy::new(vec![]);
    match n.on_target_branch(Err("log".to_string())) {
        Err(Error::Fail(m)) => assert_eq!(m, "Pull request targets a branch which does not evaluate!"),
        _ => panic!("expected a failure"),
    }
    assert!(n.outpathdiff.is_none());
    let entry = OutPath {
        attr: PackageArch { package: "a".to_string(), architecture: "x86_64-linux".to_string() },
        path: "/a".to_string(),
    };
    assert!(n.on_target_branch(Ok(vec![entry])).is_ok());
    assert_eq!(n.outpathdiff.as_ref().unwrap().before.as_ref().unwrap().len(), 1);
}

#[test]
fn nixpkgs_after_fetch_records_and_labels() {
    let mut n = NixpkgsStrategy::new(vec![TagPaths { tag: "6.topic: lib".to_string(), prefixes: v(&["lib/"]) }]);
    let plan = n.after_fetch(Some(v(&["zlib: bump", "Merge pull request #1"])), Some(v(&["lib/a.nix"])));
    assert_eq!(plan.add, v(&["6.topic: lib"]));
    assert_eq!(n.possibly_touched_packages, Some(v(&["zlib"])));
    assert_eq!(n.changed_paths, Some(v(&["lib/a.nix"])));
    let plan = n.after_fetch(None, None);
    assert_eq!(plan.remove, v(&["6.topic: lib"]));
    assert_eq!(n.possibly_touched_packages, Some(vec![]));
}

#[test]
fn nixpkgs_merge_labels() {
    let n = NixpkgsStrategy::new(vec![]);
    assert_eq!(n.merge_conflict().add, v(&["2.status: merge conflict"]));
    assert_eq!(n.after_merge().remove, v(&["2.status: merge conflict"]));
    assert_eq!(n.evaluation_checks().len(), 7);
}

#[test]
fn nixpkgs_meta_check() {
    let mut n = NixpkgsStrategy::new(vec![]);
    n.after_fetch(Some(v(&["b: x", "a: y"])), None);
    let jobs = n.all_evaluations_passed(&job(), Ok(v(&["a", "b", "c"]))).unwrap();
    assert_eq!(jobs.len(), 1);
    assert_eq!(jobs[0].attrs, v(&["a", "b"]));
    match n.all_evaluations_passed(&job(), Err("log".to_string())) {
        Err(Error::Fail(m)) => assert_eq!(m, "Failed to run verify package meta fields."),
        _ => panic!("expected a failure"),
    }
}

#[test]
fn nixpkgs_after_merge_out_paths_failure() {
    let mut n = NixpkgsStrategy::new(vec![]);
    match n.after_merge_outpaths(Err("log".to_string()), "release-18.03") {
        Err(Error::FailWithGist(m, t, c)) => {
            assert_eq!(m, "Failed to enumerate outputs after merging to release-18.03");
            assert_eq!(t, "Output path comparison");
            assert_eq!(c, "log");
        }
        _ => panic!("expected a failure"),
    }
}
