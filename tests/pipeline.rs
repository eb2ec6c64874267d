use lint_engine::process_file::{
    change_outcome, classify, process_file, required_features, unsupported_reason, DiffKind, FeatureName,
    FileDiagnostic, FileFeatures, FileStatus, Handler, Message, SharedTraversalOptions, Step,
    SupportKind, TraversalMode, TraversalOptions, Verdict,
};

fn features(lint: SupportKind, format: SupportKind, organize_imports: SupportKind) -> FileFeatures {
    FileFeatures { lint, format, organize_imports }
}

fn all(kind: SupportKind) -> FileFeatures {
    features(kind, kind, kind)
}

#[test]
fn switched_off_file_is_ignored_and_not_counted() {
    let mixed = features(SupportKind::Ignored, SupportKind::FeatureNotEnabled, SupportKind::Ignored);
    for mode in [TraversalMode::Lint, TraversalMode::Format, TraversalMode::Check, TraversalMode::CI] {
        let mut ctx = TraversalOptions::new(mode);
        let step = process_file(&mut ctx, "a.png", Some(mixed));
        assert!(matches!(step, Step::Done(Ok(FileStatus::Ignored))));
        assert_eq!(ctx.processed(), 0);
    }
}

#[test]
fn protected_file_end_to_end() {
    let mut ctx = TraversalOptions::new(TraversalMode::Lint);
    let f = features(SupportKind::Protected, SupportKind::Protected, SupportKind::Protected);
    match process_file(&mut ctx, "package.json", Some(f)) {
        Step::Done(Ok(FileStatus::Protected(p))) => assert_eq!(p, "package.json"),
        other => panic!("unexpected step {:?}", other),
    }
    assert_eq!(ctx.processed(), 0);
}

#[test]
fn protected_required_capability_in_check_mode() {
    let mut ctx = TraversalOptions::new(TraversalMode::Check);
    let f = features(SupportKind::Supported, SupportKind::Protected, SupportKind::Supported);
    assert!(matches!(
        process_file(&mut ctx, "p.json", Some(f)),
        Step::Done(Ok(FileStatus::Protected(_)))
    ));
    assert_eq!(ctx.processed(), 0);
}

#[test]
fn unsupported_file_is_an_error() {
    let mut ctx = TraversalOptions::new(TraversalMode::Format);
    let f = features(SupportKind::Supported, SupportKind::FileNotSupported, SupportKind::Supported);
    match process_file(&mut ctx, "x.bin", Some(f)) {
        Step::Done(Err(Message::Error(FileDiagnostic { category, path, verbose }))) => {
            assert_eq!(category, "files/missingHandler");
            assert_eq!(path, "x.bin");
            assert!(verbose);
        }
        other => panic!("unexpected step {:?}", other),
    }
    assert_eq!(ctx.processed(), 0);
    let mut ctx = TraversalOptions::new(TraversalMode::Migrate);
    assert!(matches!(
        process_file(&mut ctx, "x.bin", Some(all(SupportKind::FileNotSupported))),
        Step::Done(Err(Message::Error(_)))
    ));
}

#[test]
fn unresolved_file_is_an_error() {
    let mut ctx = TraversalOptions::new(TraversalMode::Lint);
    assert!(matches!(
        process_file(&mut ctx, "x.unknown", None),
        Step::Done(Err(Message::Error(_)))
    ));
    assert_eq!(ctx.processed(), 0);
}

#[test]
fn supported_file_is_counted_and_dispatched() {
    let cases = [
        (TraversalMode::Lint, Handler::Lint),
        (TraversalMode::Format, Handler::Format),
        (TraversalMode::Check, Handler::Check),
        (TraversalMode::CI, Handler::Check),
    ];
    for (mode, handler) in cases {
        let mut ctx = TraversalOptions::new(mode);
        let step = process_file(&mut ctx, "a.js", Some(all(SupportKind::Supported)));
        assert!(matches!(step, Step::Dispatch(h) if h == handler));
        assert_eq!(ctx.processed(), 1);
        assert_eq!(ctx.mode(), mode);
    }
}

#[test]
fn lint_mode_ignores_other_capabilities() {
    let f = features(SupportKind::Supported, SupportKind::Protected, SupportKind::FileNotSupported);
    assert_eq!(classify(&Some(f), TraversalMode::Lint), Verdict::Process);
    assert_eq!(classify(&Some(f), TraversalMode::Format), Verdict::Protected);
}

#[test]
fn first_unsupported_capability_wins() {
    let f = features(SupportKind::FeatureNotEnabled, SupportKind::Protected, SupportKind::Supported);
    assert_eq!(unsupported_reason(&f, TraversalMode::Check), Some(SupportKind::FeatureNotEnabled));
    assert_eq!(classify(&Some(f), TraversalMode::CI), Verdict::Ignored);
    let f = features(SupportKind::Supported, SupportKind::FileNotSupported, SupportKind::Protected);
    assert_eq!(classify(&Some(f), TraversalMode::Check), Verdict::Unhandled);
    let f = features(SupportKind::Supported, SupportKind::Supported, SupportKind::Ignored);
    assert_eq!(classify(&Some(f), TraversalMode::Check), Verdict::Ignored);
    assert_eq!(unsupported_reason(&all(SupportKind::Supported), TraversalMode::Check), None);
}

#[test]
fn required_features_by_mode() {
    assert_eq!(
        required_features(TraversalMode::Check),
        vec![FeatureName::Lint, FeatureName::Format, FeatureName::OrganizeImports]
    );
    assert_eq!(required_features(TraversalMode::CI).len(), 3);
    assert_eq!(required_features(TraversalMode::Format), vec![FeatureName::Format]);
    assert_eq!(required_features(TraversalMode::Lint), vec![FeatureName::Lint]);
    assert!(required_features(TraversalMode::Migrate).is_empty());
}

#[test]
fn feature_queries() {
    let f = features(SupportKind::Supported, SupportKind::Ignored, SupportKind::Protected);
    assert_eq!(f.support_kind_for(FeatureName::Lint), SupportKind::Supported);
    assert_eq!(f.support_kind_for(FeatureName::Format), SupportKind::Ignored);
    assert_eq!(f.support_kind_for(FeatureName::OrganizeImports), SupportKind::Protected);
    assert!(!f.is_ignored());
    assert!(!f.is_not_supported());
    assert!(all(SupportKind::FileNotSupported).is_not_supported());
    assert!(SupportKind::Ignored.is_off());
    assert!(!SupportKind::Protected.is_off());
    assert!(SupportKind::Supported.is_supported());
}

#[test]
fn message_error_classes() {
    assert!(Message::Failure.is_error());
    assert!(!Message::SkippedFixes { skipped_suggested_fixes: 2 }.is_error());
    let diff = Message::Diff {
        file_name: "a.js".to_string(),
        old: "a".to_string(),
        new: "b".to_string(),
        diff_kind: DiffKind::Format,
    };
    assert!(diff.is_error());
    let diags = Message::Diagnostics {
        name: "a.js".to_string(),
        content: String::new(),
        diagnostics: Vec::new(),
        skipped_diagnostics: 0,
    };
    assert!(diags.is_error());
}

#[test]
fn shared_options_view() {
    let ctx = TraversalOptions::new(TraversalMode::CI);
    let shared = SharedTraversalOptions::new(&ctx);
    assert_eq!(shared.options().mode(), TraversalMode::CI);
    assert_eq!(shared.options().processed(), 0);
    assert_eq!(shared.mode(), TraversalMode::CI);
}

#[test]
fn unchanged_content_needs_nothing() {
    let c = change_outcome("a.js", "x === y;", "x === y;", DiffKind::Format, false);
    assert!(matches!(c.status, FileStatus::Success));
    assert!(c.write.is_none());
}

#[test]
fn write_mode_persists_new_content() {
    let c = change_outcome("a.js", "x == y;", "x === y;", DiffKind::Format, true);
    assert!(matches!(c.status, FileStatus::Success));
    assert_eq!(c.write, Some("x === y;".to_string()));
}

#[test]
fn check_mode_reports_a_diff() {
    let c = change_outcome("a.js", "b;a;", "a;b;", DiffKind::OrganizeImports, false);
    assert!(c.write.is_none());
    match c.status {
        FileStatus::Message(Message::Diff { file_name, old, new, diff_kind }) => {
            assert_eq!(file_name, "a.js");
            assert_eq!(old, "b;a;");
            assert_eq!(new, "a;b;");
            assert_eq!(diff_kind, DiffKind::OrganizeImports);
        }
        other => panic!("unexpected outcome {:?}", other),
    }
}
