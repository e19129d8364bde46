use fsgc::dur::parse;
use fsgc::rule::Rule;
use fsgc::rule::RuleConfig;
use fsgc::rule::Timestamps;
use fsgc::target::Decision;
use fsgc::target::Error;
use fsgc::target::Observation;
use fsgc::target::Target;

const HOUR: u128 = 3_600_000_000_000;

fn hour_rule() -> Rule {
    Rule::from(RuleConfig::Simple(parse("1h").unwrap()))
}

fn old_times(now: u128) -> Timestamps {
    Timestamps { created: Some(now - 2 * HOUR), modified: Some(now - 2 * HOUR), accessed: None }
}

fn fresh_times(now: u128) -> Timestamps {
    Timestamps { created: Some(now), modified: Some(now), accessed: None }
}

fn leaf_text(e: &Error) -> &str {
    match e {
        Error::Io(m) => m,
        Error::Glob(m) => m,
        Error::Pattern(m) => m,
        Error::Many(_) => panic!("aggregate where a leaf was expected"),
    }
}

#[test]
fn flatten_splices_nested_aggregates() {
    let e = Error::Many(vec![
        Error::Io("A".to_string()),
        Error::Many(vec![Error::Glob("B".to_string()), Error::Io("C".to_string())]),
        Error::Io("D".to_string()),
    ]);
    let flat = e.flatten();
    let texts: Vec<&str> = flat.iter().map(leaf_text).collect();
    assert_eq!(texts, vec!["A", "B", "C", "D"]);
}

#[test]
fn flatten_deeply_nested() {
    let e = Error::Many(vec![
        Error::Many(vec![Error::Many(vec![Error::Io("A".to_string())]), Error::Many(vec![])]),
        Error::Glob("B".to_string()),
    ]);
    let flat = e.flatten();
    let texts: Vec<&str> = flat.iter().map(leaf_text).collect();
    assert_eq!(texts, vec!["A", "B"]);
}

#[test]
fn flatten_leaf_is_itself() {
    let e = Error::Pattern("bad".to_string());
    let flat = e.flatten();
    assert_eq!(flat.len(), 1);
    assert_eq!(leaf_text(&flat[0]), "bad");

    let none = Error::Many(vec![]);
    assert_eq!(none.flatten().len(), 0);
}

#[test]
fn is_many_distinguishes_aggregates() {
    assert!(Error::Many(vec![]).is_many());
    assert!(!Error::Io("x".to_string()).is_many());
}

#[test]
fn decide_records_read_failures() {
    let t = Target::new("logs/*".to_string(), hour_rule());
    let now = 100 * HOUR;
    match t.decide(now, Observation::GlobFailed("no access".to_string())) {
        Decision::Record(Error::Glob(m)) => assert_eq!(m, "no access"),
        other => panic!("unexpected decision {:?}", other),
    }
    match t.decide(now, Observation::MetaFailed("gone".to_string())) {
        Decision::Record(Error::Io(m)) => assert_eq!(m, "gone"),
        other => panic!("unexpected decision {:?}", other),
    }
}

#[test]
fn decide_keeps_fresh_and_removes_old() {
    let t = Target::new("logs/*".to_string(), hour_rule());
    let now = 100 * HOUR;
    assert!(matches!(
        t.decide(now, Observation::Entry { is_dir: false, times: fresh_times(now) }),
        Decision::Keep
    ));
    assert!(matches!(
        t.decide(now, Observation::Entry { is_dir: false, times: old_times(now) }),
        Decision::RemoveFile
    ));
    assert!(matches!(
        t.decide(now, Observation::Entry { is_dir: true, times: old_times(now) }),
        Decision::RemoveDir
    ));
}

#[test]
fn failure_on_one_path_leaves_others_deletable() {
    // One pass over three matches: the middle one fails its metadata
    // read, the other two are old.  Both of the others are still
    // deleted, and exactly the failure is recorded.
    let t = Target::new("logs/*".to_string(), hour_rule());
    let now = 100 * HOUR;
    let obs = vec![
        Observation::Entry { is_dir: false, times: old_times(now) },
        Observation::MetaFailed("unreadable".to_string()),
        Observation::Entry { is_dir: true, times: old_times(now) },
    ];
    let mut errs: Vec<Error> = Vec::new();
    let mut removed = 0;
    for o in obs {
        match t.decide(now, o) {
            Decision::Record(e) => errs.push(e),
            Decision::Keep => {}
            Decision::RemoveFile | Decision::RemoveDir => removed += 1,
        }
    }
    assert_eq!(removed, 2);
    assert_eq!(errs.len(), 1);
    let r = t.finish(errs);
    match r {
        Err(Error::Many(v)) => {
            assert_eq!(v.len(), 1);
            assert_eq!(leaf_text(&v[0]), "unreadable");
        }
        other => panic!("unexpected result {:?}", other),
    }
}

#[test]
fn zero_matches_succeed_trivially() {
    let t = Target::new("no/such/place/*".to_string(), hour_rule());
    assert!(t.finish(Vec::new()).is_ok());
}

#[test]
fn second_pass_with_nothing_eligible_is_idle() {
    // First pass: the only match is old and gets removed.  Second
    // pass: what remains (nothing old, one fresh entry) yields no
    // deletion and no failure.
    let t = Target::new("cache/*".to_string(), hour_rule());
    let now = 100 * HOUR;
    assert!(matches!(
        t.decide(now, Observation::Entry { is_dir: false, times: old_times(now) }),
        Decision::RemoveFile
    ));

    let second = vec![Observation::Entry { is_dir: false, times: fresh_times(now) }];
    let mut errs: Vec<Error> = Vec::new();
    let mut removed = 0;
    for o in second {
        match t.decide(now, o) {
            Decision::Record(e) => errs.push(e),
            Decision::Keep => {}
            Decision::RemoveFile | Decision::RemoveDir => removed += 1,
        }
    }
    assert_eq!(removed, 0);
    assert!(t.finish(errs).is_ok());
}

#[test]
fn check_pattern_accepts_valid_and_rejects_invalid() {
    let ok = Target::new("src/**/*.rs".to_string(), hour_rule());
    assert!(ok.check_pattern().is_ok());

    let bad = Target::new("***".to_string(), hour_rule());
    match bad.check_pattern() {
        Err(Error::Pattern(m)) => assert!(!m.is_empty()),
        other => panic!("unexpected result {:?}", other),
    }
}

#[test]
fn finish_wraps_failures_in_order() {
    let t = Target::new("x".to_string(), hour_rule());
    let errs = vec![Error::Io("first".to_string()), Error::Glob("second".to_string())];
    match t.finish(errs) {
        Err(e) => {
            let texts: Vec<String> =
                e.flatten().iter().map(|x| leaf_text(x).to_string()).collect();
            assert_eq!(texts, vec!["first".to_string(), "second".to_string()]);
        }
        Ok(()) => panic!("failures were dropped"),
    }
}
