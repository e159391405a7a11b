use qmaur::compare::{compare, lookup_names, Report};
use qmaur::inventory::Package;
use qmaur::level::{log_level, LogLevel};

fn pkg(name: &str, version: &str) -> Package {
    Package { name: name.to_string(), version: version.to_string() }
}

fn lines(rs: &[Report]) -> Vec<String> {
    let mut v: Vec<String> = rs.iter().map(|r| r.line()).collect();
    v.sort();
    v
}

#[test]
fn one_update_for_changed_version() {
    let r = compare(vec![pkg("a", "1"), pkg("b", "2")], vec![pkg("a", "2"), pkg("b", "2")]);
    assert_eq!(r.len(), 1);
    match &r[0] {
        Report::Update { name, local, remote } => {
            assert_eq!(name, "a");
            assert_eq!(local, "1");
            assert_eq!(remote, "2");
        }
        Report::Missing { .. } => panic!("expected an update"),
    }
    assert_eq!(r[0].line(), "a 1 -> 2");
    assert!(!r[0].is_missing());
}

#[test]
fn absent_package_noticed_once() {
    let r = compare(vec![pkg("a", "1"), pkg("gone", "5"), pkg("gone", "6")], vec![pkg("a", "1")]);
    assert_eq!(r.len(), 1);
    assert!(r[0].is_missing());
    assert_eq!(r[0].line(), "package gone was not found in the AUR");
}

#[test]
fn mixed_reports() {
    let r = compare(
        vec![pkg("a", "1"), pkg("b", "2"), pkg("c", "3"), pkg("a", "1.5")],
        vec![pkg("a", "2"), pkg("c", "3"), pkg("x", "9")],
    );
    assert_eq!(
        lines(&r),
        vec!["a 1.5 -> 2".to_string(), "package b was not found in the AUR".to_string()]
    );
}

#[test]
fn nothing_installed_nothing_reported() {
    assert!(compare(Vec::new(), vec![pkg("a", "1")]).is_empty());
}

#[test]
fn names_asked_once_each() {
    let mut n = lookup_names(&vec![pkg("b", "1"), pkg("a", "2"), pkg("b", "3")]);
    n.sort();
    assert_eq!(n, vec!["a".to_string(), "b".to_string()]);
}

#[test]
fn verbosity_levels() {
    assert_eq!(log_level(0, 0), LogLevel::Warn);
    assert_eq!(log_level(1, 0), LogLevel::Info);
    assert_eq!(log_level(2, 0), LogLevel::Debug);
    assert_eq!(log_level(3, 0), LogLevel::Trace);
    assert_eq!(log_level(0, 1), LogLevel::Error);
    assert_eq!(log_level(0, 2), LogLevel::Off);
    assert_eq!(log_level(u64::MAX, 0), LogLevel::Trace);
    assert_eq!(log_level(0, u64::MAX), LogLevel::Off);
    assert_eq!(log_level(2, 1), LogLevel::Info);
}
