use glean_core::common::{CommonMetricData, Lifetime};
use glean_core::error_recording::{record_error, test_get_num_recorded_errors, ErrorType};
use glean_core::glean::Glean;

fn string_metric_meta() -> CommonMetricData {
    CommonMetricData {
        name: "string_metric".into(),
        category: "telemetry".into(),
        send_in_pings: vec!["store1".into(), "store2".into()],
        disabled: false,
        lifetime: Lifetime::User,
    }
}

#[test]
fn recording_of_all_error_types() {
    let mut glean = Glean::new();

    let meta = string_metric_meta();

    record_error(&mut glean, &meta, ErrorType::InvalidValue, "Invalid value");

    record_error(&mut glean, &meta, ErrorType::InvalidLabel, "Invalid label");

    for store in &["store1", "store2", "metrics"] {
        assert_eq!(
            Ok(1),
            test_get_num_recorded_errors(&glean, &meta, ErrorType::InvalidValue, Some(store))
        );
        assert_eq!(
            Ok(1),
            test_get_num_recorded_errors(&glean, &meta, ErrorType::InvalidLabel, Some(store))
        );
    }
}

#[test]
fn unknown_store_reports_no_error() {
    let mut glean = Glean::new();
    let meta = string_metric_meta();

    record_error(&mut glean, &meta, ErrorType::InvalidValue, "Invalid value");

    let result = test_get_num_recorded_errors(&glean, &meta, ErrorType::InvalidValue, Some("store3"));
    assert_eq!(
        result,
        Err(
            "No error recorded for glean.error.invalid_value/telemetry.string_metric in 'store3' store"
                .to_string()
        )
    );
}

#[test]
fn recording_twice_counts_two() {
    let mut glean = Glean::new();
    let meta = string_metric_meta();

    record_error(&mut glean, &meta, ErrorType::InvalidValue, "first");
    record_error(&mut glean, &meta, ErrorType::InvalidValue, "second");

    for store in &["store1", "store2", "metrics"] {
        assert_eq!(
            Ok(2),
            test_get_num_recorded_errors(&glean, &meta, ErrorType::InvalidValue, Some(store))
        );
    }
}

#[test]
fn ping_name_defaults_to_first_configured_ping() {
    let mut glean = Glean::new();
    let meta = string_metric_meta();

    record_error(&mut glean, &meta, ErrorType::InvalidLabel, "Invalid label");

    assert_eq!(
        Ok(1),
        test_get_num_recorded_errors(&glean, &meta, ErrorType::InvalidLabel, None)
    );
}

#[test]
fn labeled_instance_strips_label_when_recording() {
    let mut glean = Glean::new();
    let labeled = CommonMetricData {
        name: "string_metric/label1".into(),
        category: "telemetry".into(),
        send_in_pings: vec!["store1".into()],
        disabled: false,
        lifetime: Lifetime::User,
    };
    let base = CommonMetricData {
        name: "string_metric".into(),
        category: "telemetry".into(),
        send_in_pings: vec!["store1".into()],
        disabled: false,
        lifetime: Lifetime::User,
    };

    record_error(&mut glean, &labeled, ErrorType::InvalidLabel, "Invalid label");

    // Recording stripped the label, so the count sits under the base
    // metric's identifier.
    assert_eq!(
        Ok(1),
        test_get_num_recorded_errors(&glean, &base, ErrorType::InvalidLabel, Some("store1"))
    );
    // The query keeps the label, so the labeled instance itself has no
    // recorded error.
    assert_eq!(
        Err(
            "No error recorded for glean.error.invalid_label/telemetry.string_metric/label1 in 'store1' store"
                .to_string()
        ),
        test_get_num_recorded_errors(&glean, &labeled, ErrorType::InvalidLabel, Some("store1"))
    );
}

#[test]
fn metrics_ping_not_duplicated_when_already_routed() {
    let mut glean = Glean::new();
    let meta = CommonMetricData {
        name: "m".into(),
        category: "cat".into(),
        send_in_pings: vec!["metrics".into()],
        disabled: false,
        lifetime: Lifetime::Ping,
    };

    record_error(&mut glean, &meta, ErrorType::InvalidValue, "oops");

    assert_eq!(
        Ok(1),
        test_get_num_recorded_errors(&glean, &meta, ErrorType::InvalidValue, Some("metrics"))
    );
}

#[test]
fn error_type_tokens() {
    assert_eq!(ErrorType::InvalidValue.to_string(), "invalid_value");
    assert_eq!(ErrorType::InvalidLabel.to_string(), "invalid_label");
}

#[test]
fn counter_saturates_at_i32_max() {
    let mut glean = Glean::new();
    glean.add_counter("store1", "cat.m", i32::MAX);
    glean.add_counter("store1", "cat.m", 1);
    assert_eq!(glean.counter_value("store1", "cat.m"), Some(i32::MAX));
}
