use ofborg_eval::outpaths::{OutPath, OutPathDiff, PackageArch};
use ofborg_eval::stdenvs::{StdenvFrom, Stdenvs, System};

fn s(x: &str) -> Option<String> {
    Some(x.to_string())
}

#[test]
fn stdenvs_unchanged_when_equal() {
    let mut st = Stdenvs::new();
    st.identify_before(s("/nix/store/a"), s("/nix/store/b"));
    st.identify_after(s("/nix/store/a"), s("/nix/store/b"));
    assert!(st.are_same());
    assert!(st.changed().is_empty());
}

#[test]
fn stdenvs_changed_systems() {
    let mut st = Stdenvs::new();
    st.identify_before(s("/nix/store/a"), None);
    st.identify_after(s("/nix/store/c"), s("/nix/store/d"));
    assert!(!st.are_same());
    assert_eq!(st.changed(), vec![System::X8664Linux, System::X8664Darwin]);
}

#[test]
fn stdenvs_none_on_both_sides_is_unchanged() {
    let mut st = Stdenvs::new();
    st.identify(System::X8664Darwin, StdenvFrom::After, s("/nix/store/x"));
    st.identify(System::X8664Darwin, StdenvFrom::Before, s("/nix/store/x"));
    assert!(st.are_same());
    st.identify(System::X8664Linux, StdenvFrom::After, s("/nix/store/y"));
    assert_eq!(st.changed(), vec![System::X8664Linux]);
    assert_eq!(System::X8664Linux.name(), "x86_64-linux");
}

fn e(pkg: &str, arch: &str, path: &str) -> OutPath {
    OutPath {
        attr: PackageArch { package: pkg.to_string(), architecture: arch.to_string() },
        path: path.to_string(),
    }
}

fn diff() -> OutPathDiff {
    let mut d = OutPathDiff::new();
    d.set_before(vec![
        e("zlib", "x86_64-linux", "/z1"),
        e("gone", "x86_64-linux", "/g1"),
        e("gone", "x86_64-darwin", "/g2"),
        e("hello", "x86_64-linux", "/h1"),
        e("moved", "x86_64-linux", "/m1"),
        e("abc", "x86_64-linux", "/a1"),
    ]);
    d.set_after(vec![
        e("zlib", "x86_64-linux", "/z2"),
        e("hello", "x86_64-linux", "/h1"),
        e("moved", "x86_64-darwin", "/m2"),
        e("fresh", "x86_64-linux", "/f1"),
        e("abc", "x86_64-linux", "/a1"),
        e("abc", "x86_64-linux", "/a2"),
        e("aaa", "x86_64-linux", "/aa"),
    ]);
    d
}

#[test]
fn package_diff_sorted_and_disjoint() {
    assert!(OutPathDiff::new().package_diff().is_none());
    let (removed, added) = diff().package_diff().unwrap();
    assert_eq!(removed, vec!["gone"]);
    assert_eq!(added, vec!["aaa", "fresh"]);
}

#[test]
fn rebuild_lists_changed_and_new_attributes() {
    let attrs = diff().calculate_rebuild().unwrap();
    let got: Vec<(String, String)> =
        attrs.into_iter().map(|a| (a.package, a.architecture)).collect();
    let want: Vec<(String, String)> = vec![
        ("zlib", "x86_64-linux"),
        ("moved", "x86_64-darwin"),
        ("fresh", "x86_64-linux"),
        ("abc", "x86_64-linux"),
        ("aaa", "x86_64-linux"),
    ]
    .into_iter()
    .map(|(a, b)| (a.to_string(), b.to_string()))
    .collect();
    assert_eq!(got, want);
}

#[test]
fn rebuild_needs_both_sides() {
    let mut d = OutPathDiff::new();
    d.set_before(vec![]);
    assert!(d.calculate_rebuild().is_none());
    d.set_after(vec![]);
    assert_eq!(d.calculate_rebuild().unwrap().len(), 0);
}
