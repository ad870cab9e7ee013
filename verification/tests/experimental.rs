use codex_threads::experimental::{ExperimentalError, ExperimentalFeature, ExperimentalFeatures};

#[test]
fn experimental_command_requires_explicit_enable() {
    let features = ExperimentalFeatures::parse_csv(None).unwrap();
    let error = features.ensure_enabled(ExperimentalFeature::RestoreAppThread).unwrap_err();
    assert!(error.message().contains("--enable-experimentals restore-app-thread"));
}

#[test]
fn enable_experimentals_rejects_unknown_feature_names() {
    let error = ExperimentalFeatures::parse_csv(Some("restore-app-thread,unknown-feature")).unwrap_err();
    assert!(error.message().contains("unknown-feature"));
}

#[test]
fn enable_experimentals_rejects_empty_feature_entries() {
    let error = ExperimentalFeatures::parse_csv(Some("restore-app-thread,,aaa")).unwrap_err();
    assert!(error.message().contains("空"));
}

#[test]
fn enabled_feature_passes_the_check() {
    let features = ExperimentalFeatures::parse_csv(Some(" restore-app-thread , restore-app-thread")).unwrap();
    assert_eq!(features.enabled, vec![ExperimentalFeature::RestoreAppThread]);
    assert!(features.ensure_enabled(ExperimentalFeature::RestoreAppThread).is_ok());
}

#[test]
fn feature_names_round_trip() {
    assert_eq!(ExperimentalFeature::RestoreAppThread.as_str(), "restore-app-thread");
    assert_eq!(
        ExperimentalFeature::parse("restore-app-thread").unwrap(),
        ExperimentalFeature::RestoreAppThread
    );
    match ExperimentalFeature::parse("nope") {
        Err(ExperimentalError::Unknown { name }) => assert_eq!(name, "nope"),
        _ => panic!("expected an unknown feature"),
    }
}

#[test]
fn experimental_error_messages_are_exact() {
    assert_eq!(
        ExperimentalError::Unknown { name: "x".to_string() }.message(),
        "未知实验能力: x。当前可用值: restore-app-thread"
    );
    assert_eq!(
        ExperimentalError::NotEnabled { feature: ExperimentalFeature::RestoreAppThread }.message(),
        "这个能力当前仍处于实验阶段。请显式添加 --enable-experimentals restore-app-thread 后再执行。"
    );
    assert!(matches!(
        ExperimentalFeatures::parse_csv(Some("")),
        Err(ExperimentalError::EmptyEntry)
    ));
}
