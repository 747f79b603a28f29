use ofborg_eval::commits::parse_commit_messages;

#[test]
fn test_parse_commit_messages() {
    let expect: Vec<&str> = vec![
        "firefox{-esr", // don't support such fancy syntax
        "}",            // Don't support such fancy syntax
        "firefox",
        "buildkite-agent",
        "python.pkgs.ptyprocess",
        "python.pkgs.ptyprocess",
        "android-studio-preview",
        "foo",
        "bar",
    ];
    assert_eq!(
        parse_commit_messages(
            &"
              firefox{-esr,}: fix failing build due to the google-api-key
              Merge pull request #34483 from andir/dovecot-cve-2017-15132
              firefox: enable official branding
              Merge pull request #34442 from rnhmjoj/virtual
              buildkite-agent: enable building on darwin
              python.pkgs.ptyprocess: 0.5 -> 0.5.2
              python.pkgs.ptyprocess: move expression
              Merge pull request #34465 from steveeJ/steveej-attempt-qtile-bump-0.10.7
              android-studio-preview: 3.1.0.8 -> 3.1.0.9
              Merge pull request #34188 from dotlambda/home-assistant
              Merge pull request #34414 from dotlambda/postfix
              foo,bar: something here: yeah
            "
            .lines()
            .map(|l| l.to_owned())
            .collect::<Vec<String>>(),
        ),
        expect
    );
}

fn lines(v: &[&str]) -> Vec<String> {
    v.iter().map(|s| s.to_string()).collect()
}

#[test]
fn parse_of_nothing_is_nothing() {
    assert_eq!(parse_commit_messages(&[]), Vec::<String>::new());
}

#[test]
fn parse_drops_lines_without_colon_and_trims() {
    let got = parse_commit_messages(&lines(&["no colon here", "  a ,\tb :x", ":", "c:"]));
    assert_eq!(got, vec!["a", "b", "", "c"]);
}

#[test]
fn parse_is_stable_and_keeps_order() {
    let input = lines(&["zlib: bump", "abc, zlib: fix", "zlib: again"]);
    let first = parse_commit_messages(&input);
    let second = parse_commit_messages(&input);
    assert_eq!(first, second);
    assert_eq!(first, vec!["zlib", "abc", "zlib", "zlib"]);
    let mut joined = parse_commit_messages(&input[..1]);
    joined.extend(parse_commit_messages(&input[1..]));
    assert_eq!(joined, first);
}

#[test]
fn parse_trims_unicode_whitespace() {
    let got = parse_commit_messages(&lines(&["\u{3000}hello\u{a0}: x"]));
    assert_eq!(got, vec!["hello"]);
}
