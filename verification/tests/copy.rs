use rspack_hooks::copy::{
    CopyPluginConfig, Pattern, RawCopyConfig, RawGlobOptions, RawPattern, ToType,
};

fn raw(from: &str, to_type: Option<&str>) -> RawPattern {
    RawPattern {
        from: from.to_string(),
        to: None,
        context: None,
        to_type: to_type.map(|t| t.to_string()),
        no_error_on_missing: false,
        force: false,
        priority: 0,
        glob_options: RawGlobOptions { case_sensitive_match: None, dot: None },
    }
}

#[test]
fn to_type_is_read_in_any_letter_case() {
    for word in ["DIR", "dir", "Dir"] {
        assert_eq!(Pattern::from(raw("a", Some(word))).to_type, Some(ToType::Dir));
    }
    for word in ["file", "FILE", "fIlE"] {
        assert_eq!(Pattern::from(raw("a", Some(word))).to_type, Some(ToType::File));
    }
    for word in ["template", "Template", "TEMPLATE"] {
        assert_eq!(Pattern::from(raw("a", Some(word))).to_type, Some(ToType::Template));
    }
}

#[test]
fn unknown_to_type_is_left_open() {
    for word in ["xyz", "", "dirs", " dir", "directory", "d\u{130}r"] {
        assert_eq!(Pattern::from(raw("a", Some(word))).to_type, None);
    }
}

#[test]
fn missing_to_type_is_left_open() {
    assert_eq!(Pattern::from(raw("a", None)).to_type, None);
}

#[test]
fn parse_and_from_lowercase_agree_on_lower_case_words() {
    assert_eq!(ToType::parse("Dir"), Some(ToType::Dir));
    assert_eq!(ToType::from_lowercase(&"dir".to_string()), Some(ToType::Dir));
    assert_eq!(ToType::from_lowercase(&"file".to_string()), Some(ToType::File));
    assert_eq!(ToType::from_lowercase(&"template".to_string()), Some(ToType::Template));
    assert_eq!(ToType::from_lowercase(&"Dir".to_string()), None);
}

#[test]
fn normal_form_carries_every_field_over() {
    let pattern = Pattern::from(RawPattern {
        from: "src/**/*.png".to_string(),
        to: Some("img".to_string()),
        context: Some("/work".to_string()),
        to_type: Some("Dir".to_string()),
        no_error_on_missing: true,
        force: true,
        priority: -7,
        glob_options: RawGlobOptions { case_sensitive_match: Some(false), dot: Some(true) },
    });
    assert_eq!(pattern.from, "src/**/*.png");
    assert_eq!(pattern.to, Some("img".to_string()));
    assert_eq!(pattern.context, Some("/work".to_string()));
    assert_eq!(pattern.to_type, Some(ToType::Dir));
    assert!(pattern.no_error_on_missing);
    assert!(pattern.force);
    assert_eq!(pattern.priority, -7);
    assert_eq!(pattern.glob_options.case_sensitive_match, Some(false));
    assert_eq!(pattern.glob_options.dot, Some(true));
}

#[test]
fn force_is_carried_over_unchanged() {
    let mut off = raw("a", None);
    off.force = false;
    let mut on = raw("a", None);
    on.force = true;
    assert!(!Pattern::from(off).force);
    assert!(Pattern::from(on).force);
}

#[test]
fn configuration_keeps_the_order_of_declaration() {
    let config = CopyPluginConfig::from(RawCopyConfig {
        patterns: vec![raw("one", Some("file")), raw("two", Some("nope")), raw("three", None)],
    });
    let froms: Vec<&str> = config.patterns.iter().map(|p| p.from.as_str()).collect();
    assert_eq!(froms, vec!["one", "two", "three"]);
    assert_eq!(config.patterns[0].to_type, Some(ToType::File));
    assert_eq!(config.patterns[1].to_type, None);
    assert_eq!(config.patterns[2].to_type, None);
}

#[test]
fn empty_configuration_has_no_patterns() {
    let config = CopyPluginConfig::from(RawCopyConfig { patterns: vec![] });
    assert!(config.patterns.is_empty());
}

#[test]
fn into_gives_the_normal_form_too() {
    let pattern: Pattern = raw("a", Some("TEMPLATE")).into();
    assert_eq!(pattern.to_type, Some(ToType::Template));
    let config: CopyPluginConfig = RawCopyConfig { patterns: vec![raw("a", None)] }.into();
    assert_eq!(config.patterns.len(), 1);
}

#[test]
fn base_is_the_context_or_else_the_default() {
    let mut with = raw("a", None);
    with.context = Some("/ctx".to_string());
    assert_eq!(Pattern::from(with).base_dir(&"/default".to_string()), "/ctx");
    assert_eq!(Pattern::from(raw("a", None)).base_dir(&"/default".to_string()), "/default");
}
