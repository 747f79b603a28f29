use ofborg_eval::checks::{nixpkgs_checks, stdenv_query, EvalChecker, Operation};
use ofborg_eval::outpaths::PackageArch;
use ofborg_eval::stdenvs::System;
use ofborg_eval::taggers::{
    added_removed_tags, maintainer_tags, path_tags, rebuild_tags, review_requests, stdenv_tags,
    PackageMaintainers, TagPaths,
};
use ofborg_eval::text::{same_text, split_text};

fn v(s: &[&str]) -> Vec<String> {
    s.iter().map(|x| x.to_string()).collect()
}

#[test]
fn check_list_in_reporting_order() {
    let checks = nixpkgs_checks();
    let names: Vec<String> = checks.iter().map(|c| c.name()).collect();
    assert_eq!(
        names,
        v(&[
            "package-list",
            "package-list-no-aliases",
            "nixos-options",
            "nixos-manual",
            "nixpkgs-manual",
            "nixpkgs-tarball",
            "nixpkgs-unstable-jobset",
        ])
    );
    assert_eq!(checks[0].cli_cmd(), "nix-env -qa --json --file .");
    assert_eq!(
        checks[2].cli_cmd(),
        "nix-instantiate --arg nixpkgs { outPath=./.; revCount=999999; shortRev=\"ofborg\"; } ./nixos/release.nix -A options"
    );
    assert_eq!(checks[6].op, Operation::Instantiate);
}

#[test]
fn cli_without_arguments_is_the_command() {
    let c = EvalChecker::new("x", Operation::QueryPackagesOutputs, vec![]);
    assert_eq!(c.cli_cmd(), "nix-env -qaP --no-name --out-path");
}

#[test]
fn path_labels_by_prefix() {
    let config = vec![
        TagPaths { tag: "6.topic: python".to_string(), prefixes: v(&["pkgs/top-level/python", "pkgs/development/python-modules"]) },
        TagPaths { tag: "6.topic: nixos".to_string(), prefixes: v(&["nixos/"]) },
    ];
    let plan = path_tags(&config, &v(&["pkgs/development/python-modules/foo/default.nix"]));
    assert_eq!(plan.add, v(&["6.topic: python"]));
    assert_eq!(plan.remove, v(&["6.topic: nixos"]));
    let plan = path_tags(&config, &v(&["lib/nixos/x"]));
    assert!(plan.add.is_empty());
    assert_eq!(plan.remove.len(), 2);
}

#[test]
fn stdenv_labels() {
    let plan = stdenv_tags(&vec![System::X8664Linux]);
    assert_eq!(plan.add, v(&["10.rebuild-linux-stdenv"]));
    assert_eq!(plan.remove, v(&["10.rebuild-darwin-stdenv"]));
    let plan = stdenv_tags(&vec![]);
    assert!(plan.add.is_empty());
    assert_eq!(plan.remove, v(&["10.rebuild-darwin-stdenv", "10.rebuild-linux-stdenv"]));
}

#[test]
fn added_removed_labels() {
    let plan = added_removed_tags(&v(&["old"]), &v(&["new"]));
    assert_eq!(plan.add, v(&["8.has: clean-up", "8.has: package (new)"]));
    assert!(plan.remove.is_empty());
    assert!(added_removed_tags(&v(&[]), &v(&[])).add.is_empty());
}

fn pa(p: &str, a: &str) -> PackageArch {
    PackageArch { package: p.to_string(), architecture: a.to_string() }
}

#[test]
fn rebuild_count_labels() {
    let mut attrs: Vec<PackageArch> = (0..11).map(|i| pa(&format!("p{}", i), "x86_64-linux")).collect();
    attrs.push(pa("q", "x86_64-darwin"));
    let plan = rebuild_tags(&attrs);
    assert_eq!(plan.add, v(&["10.rebuild-darwin: 1-10", "10.rebuild-linux: 11-100"]));
    assert_eq!(
        plan.remove,
        v(&[
            "10.rebuild-darwin: 0",
            "10.rebuild-darwin: 11-100",
            "10.rebuild-darwin: 101-500",
            "10.rebuild-darwin: 501+",
            "10.rebuild-linux: 0",
            "10.rebuild-linux: 1-10",
            "10.rebuild-linux: 101-500",
            "10.rebuild-linux: 501+",
        ])
    );
    let plan = rebuild_tags(&vec![]);
    assert_eq!(plan.add, v(&["10.rebuild-darwin: 0", "10.rebuild-linux: 0"]));
}

#[test]
fn maintainer_label() {
    let by = vec![
        PackageMaintainers { package: "a".to_string(), maintainers: v(&["bob"]) },
        PackageMaintainers { package: "b".to_string(), maintainers: v(&["alice", "carol"]) },
    ];
    let plan = maintainer_tags(&"alice".to_string(), &by);
    assert_eq!(plan.add, v(&["11.by: package-maintainer"]));
    assert!(plan.remove.is_empty());
    let plan = maintainer_tags(&"dave".to_string(), &by);
    assert!(plan.add.is_empty());
    assert_eq!(plan.remove, v(&["11.by: package-maintainer"]));
}

#[test]
fn review_requests_below_ten() {
    let nine: Vec<String> = (0..9).map(|i| format!("m{}", i)).collect();
    assert_eq!(review_requests(&nine), nine);
    let ten: Vec<String> = (0..10).map(|i| format!("m{}", i)).collect();
    assert!(review_requests(&ten).is_empty());
}

#[test]
fn split_and_compare_text() {
    assert_eq!(split_text("python.pkgs.ptyprocess", '.'), v(&["python", "pkgs", "ptyprocess"]));
    assert_eq!(split_text("", '.'), v(&[""]));
    assert_eq!(split_text("a.", '.'), v(&["a", ""]));
    assert!(same_text("closed", "closed"));
    assert!(!same_text("closed", "close"));
}

#[test]
fn repeated_path_label_is_never_both_on_and_off() {
    let config = vec![
        TagPaths { tag: "6.topic: x".to_string(), prefixes: v(&["a/"]) },
        TagPaths { tag: "6.topic: x".to_string(), prefixes: v(&["b/"]) },
    ];
    let plan = path_tags(&config, &v(&["a/file"]));
    assert_eq!(plan.add, v(&["6.topic: x"]));
    assert!(plan.remove.is_empty());
    let plan = path_tags(&config, &v(&["c/file"]));
    assert!(plan.add.is_empty());
    assert_eq!(plan.remove, v(&["6.topic: x", "6.topic: x"]));
}

#[test]
fn stdenv_query_command() {
    assert_eq!(stdenv_query().cli_cmd(), "nix-env -qaP --no-name --out-path -f . -A stdenv");
}
