use relay_pii::{
    builtin_rule, collect_rules, get_rule, AliasRule, PiiConfig, Redaction, RuleRef, RuleSpec,
    RuleType,
};

fn empty_config() -> PiiConfig {
    PiiConfig {
        rules: vec![],
        applications: vec![],
    }
}

#[test]
fn test_builtin_rule_known_ids() {
    let email = builtin_rule("@email").unwrap();
    assert!(matches!(email.ty, RuleType::Email));
    assert_eq!(email.redaction, Redaction::Default);

    let password = builtin_rule("@password").unwrap();
    assert!(matches!(password.ty, RuleType::Password));

    assert!(builtin_rule("@no-such-detector").is_none());
    assert!(builtin_rule("email").is_none());
}

#[test]
fn test_get_rule_falls_back_to_builtin() {
    let config = empty_config();
    let r = get_rule(&config, &"@uuid".to_string()).unwrap();
    assert_eq!(r.id, "@uuid");
    assert_eq!(r.origin, "@uuid");
    assert!(matches!(r.ty, RuleType::Uuid));
    assert_eq!(r.redaction, Redaction::Default);

    assert!(get_rule(&config, &"missing".to_string()).is_none());
}

#[test]
fn test_get_rule_prefers_policy_table() {
    let config = PiiConfig {
        rules: vec![(
            "@uuid".to_string(),
            RuleSpec {
                ty: RuleType::Mac,
                redaction: Redaction::Remove,
            },
        )],
        applications: vec![],
    };
    let r = get_rule(&config, &"@uuid".to_string()).unwrap();
    assert!(matches!(r.ty, RuleType::Mac));
    assert_eq!(r.redaction, Redaction::Remove);
}

#[test]
fn test_for_parent_merges_origin_and_redaction() {
    let child = RuleRef {
        id: "@email".to_string(),
        origin: "@email".to_string(),
        ty: RuleType::Email,
        redaction: Redaction::Default,
    };
    let parent = RuleRef {
        id: "wrapper".to_string(),
        origin: "wrapper".to_string(),
        ty: RuleType::Email,
        redaction: Redaction::Mask,
    };
    let merged = child.for_parent(parent);
    assert_eq!(merged.id, "@email");
    assert_eq!(merged.origin, "wrapper");
    assert_eq!(merged.redaction, Redaction::Mask);

    let child = RuleRef {
        id: "@ip".to_string(),
        origin: "@ip".to_string(),
        ty: RuleType::Ip,
        redaction: Redaction::Remove,
    };
    let deferring_parent = RuleRef {
        id: "wrapper".to_string(),
        origin: "wrapper".to_string(),
        ty: RuleType::Ip,
        redaction: Redaction::Default,
    };
    let merged = child.for_parent(deferring_parent);
    assert_eq!(merged.origin, "wrapper");
    assert_eq!(merged.redaction, Redaction::Remove);
}

#[test]
fn test_collect_rules_inserts_sorted() {
    let config = PiiConfig {
        rules: vec![(
            "both".to_string(),
            RuleSpec {
                ty: RuleType::Alias(AliasRule {
                    rule: "@ip".to_string(),
                    hide_inner: false,
                }),
                redaction: Redaction::Default,
            },
        )],
        applications: vec![],
    };
    let mut acc = Vec::new();
    collect_rules(&config, &mut acc, &"@uuid".to_string(), None, 8);
    collect_rules(&config, &mut acc, &"both".to_string(), None, 8);
    collect_rules(&config, &mut acc, &"@uuid".to_string(), None, 8);
    let ids: Vec<&str> = acc.iter().map(|r| r.id.as_str()).collect();
    assert_eq!(ids, vec!["@ip", "@uuid"]);
}
