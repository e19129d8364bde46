use fsgc::dur::parse;
use fsgc::dur::Duration;
use fsgc::rule::DetailedRule;
use fsgc::rule::Rule;
use fsgc::rule::RuleConfig;
use fsgc::rule::Timestamps;

const HOUR: u128 = 3_600_000_000_000;

fn detailed(
    age: Duration,
    modified: Option<bool>,
    accessed: Option<bool>,
    created: Option<bool>,
) -> Rule {
    Rule::from(RuleConfig::Detailed(DetailedRule { age, modified, accessed, created }))
}

#[test]
fn short_form_equals_explicit_detailed_form() {
    let age = parse("2d").unwrap();
    let short = Rule::from(RuleConfig::Simple(age));
    let long = detailed(age, Some(true), Some(false), Some(true));
    assert_eq!(short, long);
    assert!(short.created);
    assert!(short.modified);
    assert!(!short.accessed);
}

#[test]
fn detailed_form_defaults_are_asymmetric() {
    let age = parse("2d").unwrap();
    let r = detailed(age, None, None, None);
    assert!(r.modified);
    assert!(r.accessed);
    assert!(!r.created);
    assert_eq!(r.age, age);
}

#[test]
fn modified_only_rule_deletes_old_entry() {
    let rule = detailed(parse("1h").unwrap(), Some(true), Some(false), Some(false));
    let now = 100 * HOUR;
    let ts = Timestamps {
        created: Some(now - HOUR / 6),
        modified: Some(now - 2 * HOUR),
        accessed: Some(now),
    };
    assert!(rule.should_delete(now, &ts));
}

#[test]
fn recent_enabled_timestamp_keeps_entry() {
    let rule = detailed(parse("1h").unwrap(), Some(true), Some(false), Some(false));
    let now = 100 * HOUR;
    let ts = Timestamps {
        created: Some(now - 3 * HOUR),
        modified: Some(now - HOUR / 2),
        accessed: None,
    };
    assert!(!rule.should_delete(now, &ts));
}

#[test]
fn all_kinds_disabled_never_deletes() {
    let rule = detailed(parse("1h").unwrap(), Some(false), Some(false), Some(false));
    let now = 100 * HOUR;
    let ts = Timestamps { created: Some(0), modified: Some(0), accessed: Some(0) };
    assert!(!rule.should_delete(now, &ts));
}

#[test]
fn unreadable_timestamps_never_delete() {
    let rule = Rule::from(RuleConfig::Simple(parse("1h").unwrap()));
    let now = 100 * HOUR;
    let ts = Timestamps { created: None, modified: None, accessed: None };
    assert!(!rule.should_delete(now, &ts));
}

#[test]
fn boundary_age_is_deletable() {
    let rule = detailed(parse("1h").unwrap(), Some(true), Some(false), Some(false));
    let now = 100 * HOUR;
    let ts = Timestamps { created: None, modified: Some(now - HOUR), accessed: None };
    assert!(rule.should_delete(now, &ts));
}

#[test]
fn disabled_kind_is_never_consulted() {
    // accessed is recent but disabled: the entry is still deletable.
    let rule = detailed(parse("1h").unwrap(), Some(true), Some(false), Some(false));
    let now = 100 * HOUR;
    let ts = Timestamps {
        created: None,
        modified: Some(now - 2 * HOUR),
        accessed: Some(now),
    };
    assert!(rule.should_delete(now, &ts));
}

#[test]
fn unreadable_enabled_kind_does_not_block() {
    // modified cannot be read, created is old: still deletable under
    // the short form, which enables created and modified.
    let rule = Rule::from(RuleConfig::Simple(parse("1h").unwrap()));
    let now = 100 * HOUR;
    let ts = Timestamps { created: Some(now - 2 * HOUR), modified: None, accessed: None };
    assert!(rule.should_delete(now, &ts));
}
