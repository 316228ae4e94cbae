use d2c::outcome::{
    elapsed_seconds, updated_outcome, whole_hours, RunStatus, Tally, UpdateOutcome, UpdateResult, SECONDS_PER_HOUR,
};
use d2c::source::{assess_directory, partition_units, ConfigUnit, DirectoryVerdict};
use d2c::model::{DesiredRecord, DesiredZoneConfig};
use d2c::outcome::{Report, UnitFailure};

#[test]
fn elapsed_is_the_difference_of_the_two_times() {
    assert_eq!(elapsed_seconds(1_700_000_000, 1_700_003_600), 3600);
    assert_eq!(elapsed_seconds(10, 10), 0);
    assert_eq!(elapsed_seconds(0, 86_400), 86_400);
}

#[test]
fn elapsed_is_negative_when_the_new_time_is_earlier() {
    assert_eq!(elapsed_seconds(100, 40), -60);
}

#[test]
fn elapsed_never_overflows() {
    assert_eq!(elapsed_seconds(i64::MIN, i64::MAX), i64::MAX as i128 - i64::MIN as i128);
    assert_eq!(elapsed_seconds(i64::MAX, i64::MIN), i64::MIN as i128 - i64::MAX as i128);
    assert_eq!(elapsed_seconds(i64::MIN, i64::MAX), 18_446_744_073_709_551_615);
}

#[test]
fn whole_hours_round_toward_zero() {
    assert_eq!(SECONDS_PER_HOUR, 3600);
    assert_eq!(whole_hours(0), 0);
    assert_eq!(whole_hours(3599), 0);
    assert_eq!(whole_hours(3600), 1);
    assert_eq!(whole_hours(7199), 1);
    assert_eq!(whole_hours(7200), 2);
    assert_eq!(whole_hours(-1), 0);
    assert_eq!(whole_hours(-3599), 0);
    assert_eq!(whole_hours(-3600), -1);
    assert_eq!(whole_hours(-7201), -2);
    assert_eq!(whole_hours(90_000), 25);
}

#[test]
fn updated_outcome_reports_hostname_time_and_elapsed() {
    let outcome = updated_outcome("home.example.com".to_string(), 1_000, 8_200);
    assert_eq!(
        outcome,
        UpdateOutcome {
            hostname: "home.example.com".to_string(),
            result: UpdateResult::Updated { modified_at: 8_200, elapsed_seconds: 7_200 },
        }
    );
    assert!(!outcome.is_failure());
    assert_eq!(outcome.elapsed_hours(), Some(2));
}

#[test]
fn not_found_and_provider_error_are_failures_without_elapsed_time() {
    let missing = UpdateOutcome { hostname: "ghost.example.com".to_string(), result: UpdateResult::NotFound };
    let refused = UpdateOutcome {
        hostname: "api.example.com".to_string(),
        result: UpdateResult::ProviderError { detail: "HTTP 500".to_string() },
    };
    assert!(missing.is_failure());
    assert!(refused.is_failure());
    assert_eq!(missing.elapsed_hours(), None);
    assert_eq!(refused.elapsed_hours(), None);
}

#[test]
fn status_is_the_worst_thing_in_the_tally() {
    assert_eq!(Tally { unit_failed: false, record_failed: false }.final_status(), RunStatus::Success);
    assert_eq!(Tally { unit_failed: false, record_failed: true }.final_status(), RunStatus::RecordsFailed);
    assert_eq!(Tally { unit_failed: true, record_failed: false }.final_status(), RunStatus::UnitsFailed);
    assert_eq!(Tally { unit_failed: true, record_failed: true }.final_status(), RunStatus::UnitsFailed);
}

#[test]
fn exit_code_is_zero_for_success_only() {
    assert_eq!(RunStatus::Success.exit_code(), 0);
    assert_eq!(RunStatus::Fatal.exit_code(), 1);
    assert_eq!(RunStatus::UnitsFailed.exit_code(), 2);
    assert_eq!(RunStatus::RecordsFailed.exit_code(), 3);
}

fn zone(source: &str) -> DesiredZoneConfig {
    DesiredZoneConfig {
        source: source.to_string(),
        zone_id: format!("zone-{source}"),
        api_credential: format!("token-{source}"),
        records: vec![DesiredRecord { hostname: format!("{source}.example.com"), proxied: false }],
    }
}

fn broken(source: &str, detail: &str) -> ConfigUnit {
    ConfigUnit::Invalid { source: source.to_string(), detail: detail.to_string() }
}

#[test]
fn units_are_separated_in_the_order_delivered() {
    let units = vec![
        ConfigUnit::Valid(zone("a")),
        broken("b.toml", "missing field `api`"),
        ConfigUnit::Valid(zone("c")),
        broken("d.toml", "expected a table"),
    ];
    let (valid, rejected) = partition_units(units);
    assert_eq!(valid, vec![zone("a"), zone("c")]);
    assert_eq!(
        rejected,
        vec![
            Report::UnitFailed {
                source: "b.toml".to_string(),
                cause: UnitFailure::Parse,
                detail: "missing field `api`".to_string(),
            },
            Report::UnitFailed {
                source: "d.toml".to_string(),
                cause: UnitFailure::Parse,
                detail: "expected a table".to_string(),
            },
        ]
    );
}

#[test]
fn no_units_separate_into_nothing() {
    let (valid, rejected) = partition_units(vec![]);
    assert_eq!(valid, vec![]);
    assert_eq!(rejected, vec![]);
}

#[test]
fn only_invalid_units_leave_nothing_to_process() {
    let (valid, rejected) = partition_units(vec![broken("x", "bad"), broken("y", "worse")]);
    assert_eq!(valid, vec![]);
    assert_eq!(rejected.len(), 2);
}

#[test]
fn directory_must_exist_and_be_a_directory() {
    assert_eq!(assess_directory(true, true), DirectoryVerdict::Proceed);
    assert_eq!(assess_directory(true, false), DirectoryVerdict::Abort);
    assert_eq!(assess_directory(false, false), DirectoryVerdict::CreateAndAbort);
    assert_eq!(assess_directory(false, true), DirectoryVerdict::CreateAndAbort);
}
