use afd::metadata::create_source;
use afd::metadata::create_step;
use afd::metadata::create_warning;
use afd::metadata::update_step_status;
use afd::metadata::Alternative;
use afd::metadata::PlanStep;
use afd::metadata::PlanStepStatus;
use afd::metadata::Source;
use afd::metadata::SourceType;
use afd::metadata::Warning;
use afd::metadata::WarningSeverity;
use afd::Double;

fn d(value: f64) -> Double {
    Double::from_bits(value.to_bits())
}

#[test]
fn test_source_creation() {
    let source = Source::new("MDN Web Docs", SourceType::Url)
        .with_url("https://developer.mozilla.org")
        .with_relevance(d(0.95));

    assert_eq!(source.name, "MDN Web Docs");
    assert_eq!(source.source_type, SourceType::Url);
    assert_eq!(source.url, Some("https://developer.mozilla.org".to_string()));
    assert_eq!(source.relevance, Some(d(0.95)));
}

#[test]
fn test_plan_step() {
    let step = PlanStep::new(1, "Parse input")
        .with_status(PlanStepStatus::Completed)
        .with_duration(150);

    assert_eq!(step.step, 1);
    assert_eq!(step.status, PlanStepStatus::Completed);
    assert_eq!(step.duration_ms, Some(150));
}

#[test]
fn test_alternative() {
    let alt = Alternative::new("Option B", "Lower confidence").with_confidence(d(0.7));

    assert_eq!(alt.data, "Option B");
    assert_eq!(alt.reason, "Lower confidence");
    assert_eq!(alt.confidence, Some(d(0.7)));
}

#[test]
fn test_warning() {
    let warning = Warning::new("DEPRECATED_FEATURE", "This feature will be removed in v2")
        .with_severity(WarningSeverity::Medium);

    assert_eq!(warning.code, "DEPRECATED_FEATURE");
    assert_eq!(warning.severity, Some(WarningSeverity::Medium));
}

#[test]
fn scores_are_held_between_zero_and_one() {
    assert_eq!(Source::new("a", SourceType::Api).with_relevance(d(1.5)).relevance, Some(d(1.0)));
    assert_eq!(Source::new("a", SourceType::Api).with_relevance(d(-0.5)).relevance, Some(d(0.0)));
    assert_eq!(Alternative::new(1, "r").with_confidence(d(7.0)).confidence, Some(d(1.0)));
    assert_eq!(Alternative::new(1, "r").with_confidence(d(-1e300)).confidence, Some(d(0.0)));
    assert_eq!(
        Alternative::new(1, "r").with_confidence(d(f64::INFINITY)).confidence,
        Some(d(1.0))
    );
    assert_eq!(Alternative::new(1, "r").with_confidence(d(0.25)).confidence, Some(d(0.25)));
}

#[test]
fn step_and_warning_helpers() {
    let source = create_source("db", SourceType::Database, Some("pg://x"));
    assert_eq!(source.url, Some("pg://x".to_string()));
    assert!(create_source("db", SourceType::Database, None).url.is_none());
    let noted = Source::new("f", SourceType::File).with_accessed_at("2025").with_snippet("abc");
    assert_eq!(noted.accessed_at, Some("2025".to_string()));
    assert_eq!(noted.snippet, Some("abc".to_string()));

    let mut step = create_step(2, "Load", PlanStepStatus::Running);
    assert_eq!(step.status, PlanStepStatus::Running);
    update_step_status(&mut step, PlanStepStatus::Failed, Some(12), Some("disk"));
    assert_eq!(step.status, PlanStepStatus::Failed);
    assert_eq!(step.duration_ms, Some(12));
    assert_eq!(step.error, Some("disk".to_string()));
    update_step_status(&mut step, PlanStepStatus::Skipped, None, None);
    assert_eq!(step.status, PlanStepStatus::Skipped);
    assert_eq!(step.duration_ms, Some(12));
    assert_eq!(step.error, Some("disk".to_string()));
    let failed = PlanStep::new(1, "x").with_error("no");
    assert_eq!(failed.status, PlanStepStatus::Failed);
    assert_eq!(failed.error, Some("no".to_string()));

    assert_eq!(create_warning("W", "m", None).severity, Some(WarningSeverity::Medium));
    assert_eq!(
        create_warning("W", "m", Some(WarningSeverity::High)).severity,
        Some(WarningSeverity::High)
    );
}
