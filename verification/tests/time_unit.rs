use glean_core::error::ErrorKind;
use glean_core::time_unit::TimeUnit;

#[test]
fn every_wire_code_converts_to_its_ordinal() {
    assert_eq!(TimeUnit::try_from(0).unwrap(), TimeUnit::Nanosecond);
    assert_eq!(TimeUnit::try_from(1).unwrap(), TimeUnit::Microsecond);
    assert_eq!(TimeUnit::try_from(2).unwrap(), TimeUnit::Millisecond);
    assert_eq!(TimeUnit::try_from(3).unwrap(), TimeUnit::Second);
    assert_eq!(TimeUnit::try_from(4).unwrap(), TimeUnit::Minute);
    assert_eq!(TimeUnit::try_from(5).unwrap(), TimeUnit::Hour);
    assert_eq!(TimeUnit::try_from(6).unwrap(), TimeUnit::Day);
}

#[test]
fn out_of_range_code_fails_with_the_offending_value() {
    let error = TimeUnit::try_from(7).unwrap_err();
    assert_eq!(*error.kind(), ErrorKind::TimeUnit(7));

    let error = TimeUnit::try_from(-1).unwrap_err();
    assert_eq!(*error.kind(), ErrorKind::TimeUnit(-1));
}

#[test]
fn format_patterns_are_exact() {
    assert_eq!(TimeUnit::Nanosecond.format_pattern(), "%Y-%m-%dT%H:%M:%S%.f%:z");
    assert_eq!(TimeUnit::Microsecond.format_pattern(), "%Y-%m-%dT%H:%M:%S%.6f%:z");
    assert_eq!(TimeUnit::Millisecond.format_pattern(), "%Y-%m-%dT%H:%M:%S%.3f%:z");
    assert_eq!(TimeUnit::Second.format_pattern(), "%Y-%m-%dT%H:%M:%S%:z");
    assert_eq!(TimeUnit::Minute.format_pattern(), "%Y-%m-%dT%H:%M%:z");
    assert_eq!(TimeUnit::Hour.format_pattern(), "%Y-%m-%dT%H%:z");
    assert_eq!(TimeUnit::Day.format_pattern(), "%Y-%m-%d%:z");
}

#[test]
fn finer_resolutions_keep_subsecond_fields_coarser_drop_them() {
    // The patterns up to millisecond precision carry a fractional
    // seconds field; from second precision on they drop it entirely.
    assert!(TimeUnit::Nanosecond.format_pattern().contains("%.f"));
    assert!(TimeUnit::Microsecond.format_pattern().contains("%.6f"));
    assert!(TimeUnit::Millisecond.format_pattern().contains("%.3f"));
    assert!(!TimeUnit::Second.format_pattern().contains("f"));
    assert!(!TimeUnit::Minute.format_pattern().contains(":%S"));
    assert!(!TimeUnit::Hour.format_pattern().contains("%M"));
    assert!(!TimeUnit::Day.format_pattern().contains("%H"));
}
