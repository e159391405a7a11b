use qmaur::display::{
    decimal_text, info_lines, join, search_lines, show_info, PackageInfo, SearchHit,
};

fn strings(v: &[&str]) -> Vec<String> {
    v.iter().map(|s| s.to_string()).collect()
}

fn sample() -> PackageInfo {
    PackageInfo {
        name: "foo".to_string(),
        version: "1.0-1".to_string(),
        package_base: "foo-base".to_string(),
        url: None,
        license: strings(&["MIT", "GPL"]),
        num_votes: 42,
        maintainer: Some("me".to_string()),
        last_modified: 0,
        groups: Vec::new(),
        provides: strings(&["bar"]),
        replaces: Vec::new(),
        conflicts: Vec::new(),
        depends: Vec::new(),
        opt_depends: strings(&["x", "y"]),
        make_depends: Vec::new(),
        check_depends: Vec::new(),
    }
}

#[test]
fn decimal_numerals() {
    assert_eq!(decimal_text(0), "0");
    assert_eq!(decimal_text(7), "7");
    assert_eq!(decimal_text(1234), "1234");
    assert_eq!(decimal_text(u32::MAX), "4294967295");
}

#[test]
fn join_with_separator() {
    assert_eq!(join(&Vec::new(), ", "), "");
    assert_eq!(join(&strings(&["a"]), ", "), "a");
    assert_eq!(join(&strings(&["a", "b", "c"]), ", "), "a, b, c");
}

#[test]
fn search_hits_shown() {
    let hits = vec![
        SearchHit {
            name: "foo".to_string(),
            version: "1".to_string(),
            description: Some("a tool".to_string()),
        },
        SearchHit { name: "bar".to_string(), version: "2".to_string(), description: None },
    ];
    assert_eq!(search_lines(&hits), strings(&["foo [1]", "    a tool", "bar [2]", "    "]));
}

#[test]
fn info_shown() {
    let got = info_lines(&sample(), "then");
    assert_eq!(
        got,
        strings(&[
            "foo",
            "    version: 1.0-1",
            "    AUR url: https://aur.archlinux.org/packages/foo/",
            "    git url: https://aur.archlinux.org/foo-base.git",
            "    upstream url: <none>",
            "    license: MIT, GPL",
            "    votes: 42",
            "    maintainer: me",
            "    last update: then",
            "    provides: bar",
            "    dependencies: ",
            "    optional: x y",
        ])
    );
}

#[test]
fn info_with_all_lists() {
    let mut p = sample();
    p.url = Some("https://example.org".to_string());
    p.maintainer = None;
    p.groups = strings(&["g"]);
    p.replaces = strings(&["r1", "r2"]);
    p.conflicts = strings(&["c"]);
    p.depends = strings(&["d1", "d2"]);
    p.make_depends = strings(&["m"]);
    p.check_depends = strings(&["k"]);
    let got = info_lines(&p, "t");
    assert_eq!(got[4], "    upstream url: https://example.org");
    assert_eq!(got[7], "    maintainer: <orphaned>");
    assert_eq!(
        got[9..].to_vec(),
        strings(&[
            "    group: g",
            "    provides: bar",
            "    replaces: r1 r2",
            "    conflicts: c",
            "    dependencies: d1 d2",
            "    optional: x y",
            "    build deps: m",
            "    check deps: k",
        ])
    );
}

#[test]
fn info_time_in_local_zone() {
    let got = show_info(&sample());
    assert_eq!(got.len(), 12);
    assert_eq!(got[0], "foo");
    assert!(got[8].starts_with("    last update: 19"));
    assert_ne!(got[8], "    last update: <out of range>");
    let mut far = sample();
    far.last_modified = i64::MAX;
    assert_eq!(show_info(&far)[8], "    last update: <out of range>");
}
