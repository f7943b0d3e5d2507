use open_audit::builtins;
use open_audit::front_matter::FrontValue;
use open_audit::spec::{
    decode_meta, parse, spec_from_front_matter, Expected, Field, Kind, MetaError, Mode, SpecError,
    SpecSource, VariantOf,
};

const MINIMAL: &str = "---\nname: test\nmode: trusted\nkind: prompt\n---\nbody text\n";

fn builtin_source() -> SpecSource {
    SpecSource::Builtin("test/spec".to_string())
}

#[test]
fn parses_minimal_frontmatter() {
    let spec = parse(MINIMAL, builtin_source()).unwrap();
    assert_eq!(spec.meta.name, "test");
    assert_eq!(spec.meta.mode, Mode::Trusted);
    assert_eq!(spec.meta.kind, Kind::Prompt);
    assert!(spec.meta.default_scope.is_none());
    assert!(spec.meta.deterministic_checks.is_empty());
    assert_eq!(spec.body.trim(), "body text");
}

#[test]
fn parses_full_frontmatter() {
    let text = "---\n\
        name: security\n\
        mode: untrusted\n\
        kind: hybrid\n\
        default_scope:\n  \
          include: [\"**/*\"]\n  \
          exclude: [\".git/**\"]\n\
        deterministic_checks:\n  \
          - secret-scan-tree\n  \
          - obfuscation-scan\n\
        ---\n\
        # body\n";
    let spec = parse(text, builtin_source()).unwrap();
    assert_eq!(spec.meta.mode, Mode::Untrusted);
    assert_eq!(spec.meta.kind, Kind::Hybrid);
    let scope = spec.meta.default_scope.expect("scope");
    assert_eq!(scope.includes, vec!["**/*"]);
    assert_eq!(scope.exclude, vec![".git/**"]);
    assert_eq!(spec.meta.deterministic_checks.len(), 2);
}

#[test]
fn missing_frontmatter_errors() {
    let err = parse("just a body, no frontmatter\n", builtin_source()).unwrap_err();
    assert!(err.message().contains("missing YAML frontmatter"));
}

#[test]
fn missing_required_field_errors() {
    // missing `kind`
    let text = "---\nname: test\nmode: trusted\n---\nbody\n";
    let err = parse(text, builtin_source()).unwrap_err();
    assert!(err.message().to_lowercase().contains("kind"));
}

#[test]
fn parses_every_builtin() {
    for b in builtins::all() {
        let spec = parse(b.body, SpecSource::Builtin(b.catalog_path.to_string()))
            .unwrap_or_else(|e| panic!("failed to parse builtin {}: {}", b.catalog_path, e.message()));
        // catalog_path = "<mode>/<name>"; meta.mode and meta.name should agree.
        let (mode_seg, name_seg) = b.catalog_path.split_once('/').unwrap();
        assert_eq!(spec.meta.name, name_seg, "name mismatch in {}", b.catalog_path);
        let mode_str = match spec.meta.mode {
            Mode::Trusted => "trusted",
            Mode::Untrusted => "untrusted",
        };
        assert_eq!(mode_str, mode_seg, "mode mismatch in {}", b.catalog_path);
    }
}

#[test]
fn missing_field_message_names_the_field() {
    let text = "---\nname: test\nmode: trusted\n---\nbody\n";
    let err = parse(text, SpecSource::AdHoc("./x.md".to_string())).unwrap_err();
    assert_eq!(
        err.message(),
        "parsing spec at ./x.md: Deserialize error: missing field `kind`"
    );
}

#[test]
fn unknown_mode_is_reported_with_the_choices() {
    let text = "---\nname: t\nmode: friendly\nkind: prompt\n---\n";
    let err = parse(text, builtin_source()).unwrap_err();
    match &err {
        SpecError::Meta { fault: MetaError::UnknownVariant(found, VariantOf::Mode), .. } => {
            assert_eq!(found, "friendly")
        }
        other => panic!("unexpected {other:?}"),
    }
    assert_eq!(
        err.message(),
        "parsing builtin spec: Deserialize error: unknown variant `friendly`, expected `trusted` or `untrusted`"
    );
}

#[test]
fn wrong_types_are_reported() {
    let text = "---\nname: [a]\nmode: trusted\nkind: prompt\n---\n";
    let err = parse(text, builtin_source()).unwrap_err();
    assert!(matches!(err, SpecError::Meta { fault: MetaError::Type(Expected::Str), .. }));
    let text = "---\nname: a\nmode: trusted\nkind: prompt\ndeterministic_checks: nope\n---\n";
    let err = parse(text, builtin_source()).unwrap_err();
    assert!(matches!(err, SpecError::Meta { fault: MetaError::Type(Expected::Array), .. }));
    let text = "---\n- a\n- b\n---\n";
    let err = parse(text, builtin_source()).unwrap_err();
    assert_eq!(err.message(), "parsing builtin spec: Type error, expected: hash map");
}

#[test]
fn malformed_yaml_is_a_front_matter_error() {
    let text = "---\nname: [unclosed\n---\nbody\n";
    let err = parse(text, SpecSource::Local("/r/.oaudit/auditors/trusted/x.md".to_string())).unwrap_err();
    match err {
        SpecError::FrontMatter { context, .. } => {
            assert_eq!(context, "parsing spec at /r/.oaudit/auditors/trusted/x.md")
        }
        other => panic!("unexpected {other:?}"),
    }
}

#[test]
fn unknown_keys_are_ignored_and_null_scope_is_none() {
    let text = "---\nname: t\nmode: untrusted\nkind: deterministic\nextra: 3\ndefault_scope: ~\n---\nb\n";
    let spec = parse(text, builtin_source()).unwrap();
    assert_eq!(spec.meta.kind, Kind::Deterministic);
    assert!(spec.meta.default_scope.is_none());
    assert_eq!(spec.body, "b");
}

#[test]
fn enum_as_single_key_map_with_null() {
    let v = FrontValue::Hash(vec![
        ("name".to_string(), FrontValue::Str("n".to_string())),
        ("mode".to_string(), FrontValue::Hash(vec![("trusted".to_string(), FrontValue::Null)])),
        ("kind".to_string(), FrontValue::Str("prompt".to_string())),
    ]);
    let meta = decode_meta(&v).unwrap();
    assert_eq!(meta.mode, Mode::Trusted);
    let v = FrontValue::Hash(vec![(
        "mode".to_string(),
        FrontValue::Hash(vec![("trusted".to_string(), FrontValue::Int(1))]),
    )]);
    assert!(matches!(decode_meta(&v), Err(MetaError::Type(Expected::NullForUnit))));
}

#[test]
fn duplicate_keys_are_refused() {
    let v = FrontValue::Hash(vec![
        ("name".to_string(), FrontValue::Str("a".to_string())),
        ("name".to_string(), FrontValue::Str("b".to_string())),
    ]);
    assert!(matches!(decode_meta(&v), Err(MetaError::Duplicate(Field::Name))));
}

#[test]
fn missing_fields_are_checked_in_order() {
    let v = FrontValue::Hash(vec![("kind".to_string(), FrontValue::Str("prompt".to_string()))]);
    assert!(matches!(decode_meta(&v), Err(MetaError::Missing(Field::Name))));
    let v = FrontValue::Hash(vec![("name".to_string(), FrontValue::Str("x".to_string()))]);
    assert!(matches!(decode_meta(&v), Err(MetaError::Missing(Field::Mode))));
}

#[test]
fn no_data_is_missing_front_matter() {
    let fm = open_audit::front_matter::FrontMatter { data: None, content: "c".to_string() };
    assert!(matches!(
        spec_from_front_matter(fm, builtin_source()),
        Err(SpecError::MissingFrontMatter)
    ));
    // An empty front-matter block counts as none.
    let err = parse("---\n---\nThis is content", builtin_source()).unwrap_err();
    assert!(matches!(err, SpecError::MissingFrontMatter));
}

#[test]
fn header_key_order_does_not_matter() {
    let a = parse("---\nkind: prompt\nmode: trusted\nname: z\n---\nb\n", builtin_source()).unwrap();
    let b = parse("---\nname: z\nmode: trusted\nkind: prompt\n---\nb\n", builtin_source()).unwrap();
    assert_eq!(a.meta.name, b.meta.name);
    assert_eq!(a.meta.mode, b.meta.mode);
    assert_eq!(a.meta.kind, b.meta.kind);
    assert_eq!(a.body, b.body);
}

#[test]
fn invalid_header_reports_a_header_fault() {
    let err = parse("---\nname: 3\nmode: trusted\nkind: prompt\n---\n", builtin_source()).unwrap_err();
    match err {
        SpecError::Meta { fault, .. } => assert!(matches!(fault, MetaError::Type(Expected::Str))),
        _ => panic!("expected a header fault"),
    }
}
