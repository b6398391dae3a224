use relay_pii::{
    AliasRule, CompiledPiiConfig, MultipleRule, PatternRule, PiiConfig, RedactPairRule, Redaction,
    RuleSpec, RuleType, SelectorSpec,
};

fn rule(id: &str, ty: RuleType, redaction: Redaction) -> (String, RuleSpec) {
    (id.to_string(), RuleSpec { ty, redaction })
}

fn application(selector: &str, ids: &[&str]) -> (SelectorSpec, Vec<String>) {
    (
        SelectorSpec(selector.to_string()),
        ids.iter().map(|id| id.to_string()).collect(),
    )
}

fn alias(target: &str, hide_inner: bool) -> RuleType {
    RuleType::Alias(AliasRule {
        rule: target.to_string(),
        hide_inner,
    })
}

fn multiple(targets: &[&str], hide_inner: bool) -> RuleType {
    RuleType::Multiple(MultipleRule {
        rules: targets.iter().map(|id| id.to_string()).collect(),
        hide_inner,
    })
}

#[test]
fn test_scenario_alias_hide_inner() {
    let config = PiiConfig {
        rules: vec![rule("strip-emails", alias("@email", true), Redaction::Mask)],
        applications: vec![application("$message", &["strip-emails"])],
    };
    let compiled = CompiledPiiConfig::new(&config);
    assert_eq!(compiled.applications.len(), 1);
    let (selector, refs) = &compiled.applications[0];
    assert_eq!(selector.0, "$message");
    assert_eq!(refs.len(), 1);
    assert_eq!(refs[0].id, "@email");
    assert_eq!(refs[0].origin, "strip-emails");
    assert!(matches!(refs[0].ty, RuleType::Email));
    assert_eq!(refs[0].redaction, Redaction::Mask);
}

#[test]
fn test_dedup_by_id() {
    let config = PiiConfig {
        rules: vec![
            rule("first", alias("@email", false), Redaction::Default),
            rule("second", multiple(&["@email", "@ip"], false), Redaction::Default),
        ],
        applications: vec![application("$string", &["first", "second"])],
    };
    let compiled = CompiledPiiConfig::new(&config);
    let refs = &compiled.applications[0].1;
    assert_eq!(refs.len(), 2);
    assert_eq!(refs[0].id, "@email");
    assert_eq!(refs[1].id, "@ip");
}

#[test]
fn test_precedence_at_top_level() {
    let config = PiiConfig {
        rules: vec![rule(
            "@email",
            RuleType::Pattern(PatternRule {
                pattern: "[^@]+@example\\.com".to_string(),
            }),
            Redaction::Remove,
        )],
        applications: vec![application("$message", &["@email"])],
    };
    let compiled = CompiledPiiConfig::new(&config);
    let refs = &compiled.applications[0].1;
    assert_eq!(refs.len(), 1);
    assert!(matches!(refs[0].ty, RuleType::Pattern(_)));
    assert_eq!(refs[0].redaction, Redaction::Remove);
}

#[test]
fn test_precedence_nested() {
    let config = PiiConfig {
        rules: vec![
            rule("wrapper", alias("@email", false), Redaction::Default),
            rule("@email", RuleType::Uuid, Redaction::Replace),
        ],
        applications: vec![application("$message", &["wrapper"])],
    };
    let compiled = CompiledPiiConfig::new(&config);
    let refs = &compiled.applications[0].1;
    assert_eq!(refs.len(), 1);
    assert_eq!(refs[0].id, "@email");
    assert!(matches!(refs[0].ty, RuleType::Uuid));
    assert_eq!(refs[0].redaction, Redaction::Replace);
}

#[test]
fn test_redaction_override_on_deferring_child() {
    let config = PiiConfig {
        rules: vec![rule(
            "mask-all",
            multiple(&["@email", "@ip"], true),
            Redaction::Replace,
        )],
        applications: vec![application("$string", &["mask-all"])],
    };
    let compiled = CompiledPiiConfig::new(&config);
    let refs = &compiled.applications[0].1;
    assert_eq!(refs.len(), 2);
    for r in refs {
        assert_eq!(r.redaction, Redaction::Replace);
        assert_eq!(r.origin, "mask-all");
    }
}

#[test]
fn test_deferring_wrapper_keeps_child_redaction() {
    let config = PiiConfig {
        rules: vec![
            rule("wrap", multiple(&["inner"], true), Redaction::Default),
            rule("inner", RuleType::Email, Redaction::Remove),
        ],
        applications: vec![application("$message", &["wrap"])],
    };
    let compiled = CompiledPiiConfig::new(&config);
    let refs = &compiled.applications[0].1;
    assert_eq!(refs.len(), 1);
    assert_eq!(refs[0].id, "inner");
    assert_eq!(refs[0].origin, "wrap");
    assert_eq!(refs[0].redaction, Redaction::Remove);
}

#[test]
fn test_origin_override_hide_inner() {
    let config = PiiConfig {
        rules: vec![rule("wrapper", alias("@mac", true), Redaction::Default)],
        applications: vec![application("$message", &["wrapper"])],
    };
    let compiled = CompiledPiiConfig::new(&config);
    let refs = &compiled.applications[0].1;
    assert_eq!(refs.len(), 1);
    assert_eq!(refs[0].id, "@mac");
    assert_eq!(refs[0].origin, "wrapper");
}

#[test]
fn test_origin_kept_without_hide_inner() {
    let config = PiiConfig {
        rules: vec![rule("wrapper", alias("@mac", false), Redaction::Default)],
        applications: vec![application("$message", &["wrapper"])],
    };
    let compiled = CompiledPiiConfig::new(&config);
    let refs = &compiled.applications[0].1;
    assert_eq!(refs.len(), 1);
    assert_eq!(refs[0].id, "@mac");
    assert_eq!(refs[0].origin, "@mac");
}

#[test]
fn test_dangling_and_unknown_are_silent() {
    let config = PiiConfig {
        rules: vec![rule(
            "future",
            RuleType::Unknown("not-yet-invented".to_string()),
            Redaction::Mask,
        )],
        applications: vec![application("$string", &["no-such-rule", "future", "@ip"])],
    };
    let compiled = CompiledPiiConfig::new(&config);
    let refs = &compiled.applications[0].1;
    assert_eq!(refs.len(), 1);
    assert_eq!(refs[0].id, "@ip");
}

#[test]
fn test_ordering_determinism() {
    let config = PiiConfig {
        rules: vec![],
        applications: vec![
            application("$b", &["@uuid", "@ip", "@email"]),
            application("$a", &["@mac"]),
        ],
    };
    let once = CompiledPiiConfig::new(&config);
    let twice = CompiledPiiConfig::new(&config);
    assert_eq!(once.applications.len(), 2);
    assert_eq!(once.applications[0].0 .0, "$b");
    assert_eq!(once.applications[1].0 .0, "$a");
    let ids: Vec<&str> = once.applications[0]
        .1
        .iter()
        .map(|r| r.id.as_str())
        .collect();
    assert_eq!(ids, vec!["@email", "@ip", "@uuid"]);
    assert_eq!(format!("{:?}", once), format!("{:?}", twice));
}

#[test]
fn test_empty_policy_and_empty_selector() {
    let empty = PiiConfig {
        rules: vec![],
        applications: vec![],
    };
    assert_eq!(CompiledPiiConfig::new(&empty).applications.len(), 0);

    let no_rules = PiiConfig {
        rules: vec![],
        applications: vec![application("$message", &[])],
    };
    let compiled = CompiledPiiConfig::new(&no_rules);
    assert_eq!(compiled.applications.len(), 1);
    assert_eq!(compiled.applications[0].1.len(), 0);
}

#[test]
fn test_wrapper_cycle_contributes_nothing() {
    let config = PiiConfig {
        rules: vec![
            rule("a", alias("b", false), Redaction::Default),
            rule("b", alias("a", false), Redaction::Default),
        ],
        applications: vec![application("$message", &["a", "@mac"])],
    };
    let compiled = CompiledPiiConfig::new(&config);
    let refs = &compiled.applications[0].1;
    assert_eq!(refs.len(), 1);
    assert_eq!(refs[0].id, "@mac");
}

#[test]
fn test_validation_rejects_bad_pattern() {
    let config = PiiConfig {
        rules: vec![rule(
            "broken",
            RuleType::Pattern(PatternRule {
                pattern: "(".to_string(),
            }),
            Redaction::Mask,
        )],
        applications: vec![application("$message", &["broken"])],
    };
    let compiled = CompiledPiiConfig::new(&config);
    let err = compiled.force_compile().unwrap_err();
    assert_eq!(err.pattern, "(");
    assert!(!err.message.is_empty());
}

#[test]
fn test_validation_rejects_bad_key_pattern() {
    let config = PiiConfig {
        rules: vec![rule(
            "broken-pair",
            RuleType::RedactPair(RedactPairRule {
                key_pattern: "[unclosed".to_string(),
            }),
            Redaction::Mask,
        )],
        applications: vec![application("$map", &["broken-pair"])],
    };
    let compiled = CompiledPiiConfig::new(&config);
    let err = compiled.force_compile().unwrap_err();
    assert_eq!(err.pattern, "[unclosed");
}

#[test]
fn test_validation_accepts_good_patterns_and_detectors() {
    let config = PiiConfig {
        rules: vec![rule(
            "digits",
            RuleType::Pattern(PatternRule {
                pattern: "[0-9]+".to_string(),
            }),
            Redaction::Mask,
        )],
        applications: vec![application("$message", &["digits", "@email", "@creditcard"])],
    };
    let compiled = CompiledPiiConfig::new(&config);
    assert!(compiled.force_compile().is_ok());
}

#[test]
fn test_validation_passes_with_detectors_only() {
    let config = PiiConfig {
        rules: vec![],
        applications: vec![application("$message", &["@email", "@iban", "@usssn"])],
    };
    let compiled = CompiledPiiConfig::new(&config);
    assert!(compiled.force_compile().is_ok());
}

#[test]
fn test_validation_reports_first_bad_pattern() {
    let config = PiiConfig {
        rules: vec![
            rule(
                "first-bad",
                RuleType::Pattern(PatternRule {
                    pattern: "*oops".to_string(),
                }),
                Redaction::Mask,
            ),
            rule(
                "second-bad",
                RuleType::Pattern(PatternRule {
                    pattern: ")".to_string(),
                }),
                Redaction::Mask,
            ),
        ],
        applications: vec![
            application("$a", &["first-bad"]),
            application("$b", &["second-bad"]),
        ],
    };
    let compiled = CompiledPiiConfig::new(&config);
    let err = compiled.force_compile().unwrap_err();
    assert_eq!(err.pattern, "*oops");
}
