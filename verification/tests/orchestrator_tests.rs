use d2c::engine::UpdateRequest;
use d2c::model::{DesiredRecord, DesiredZoneConfig, Ipv4Address, RecordContent, RemoteRecord};
use d2c::orchestrator::{Command, Event, Run, Step};
use d2c::outcome::{Report, RunStatus, UnitFailure, UpdateOutcome, UpdateResult};
use d2c::source::ConfigUnit;

const ADDRESS: Ipv4Address = Ipv4Address(5, 6, 7, 8);
const T0: i64 = 1_700_000_000;
const T1: i64 = 1_700_010_800;

fn record(hostname: &str, proxied: bool) -> DesiredRecord {
    DesiredRecord { hostname: hostname.to_string(), proxied }
}

fn unit(source: &str, hostnames: &[&str]) -> DesiredZoneConfig {
    DesiredZoneConfig {
        source: source.to_string(),
        zone_id: format!("zone-{source}"),
        api_credential: format!("token-{source}"),
        records: hostnames.iter().map(|h| record(h, true)).collect(),
    }
}

fn remote(id: &str, hostname: &str, modified_at: i64) -> RemoteRecord {
    RemoteRecord {
        id: id.to_string(),
        hostname: hostname.to_string(),
        content: RecordContent::Address(Ipv4Address(1, 2, 3, 4)),
        modified_at,
    }
}

fn update(source: &str, id: &str, hostname: &str) -> Command {
    Command::UpdateRecord {
        request: UpdateRequest {
            zone_id: format!("zone-{source}"),
            record_id: id.to_string(),
            hostname: hostname.to_string(),
            content: ADDRESS,
            proxied: true,
        },
    }
}

fn updated(source: &str, hostname: &str, previous: i64, modified_at: i64) -> Report {
    Report::Record {
        source: source.to_string(),
        outcome: UpdateOutcome {
            hostname: hostname.to_string(),
            result: UpdateResult::Updated {
                modified_at,
                elapsed_seconds: modified_at as i128 - previous as i128,
            },
        },
    }
}

fn not_found(source: &str, hostname: &str) -> Report {
    Report::Record {
        source: source.to_string(),
        outcome: UpdateOutcome { hostname: hostname.to_string(), result: UpdateResult::NotFound },
    }
}

fn provider_error(source: &str, hostname: &str, detail: &str) -> Report {
    Report::Record {
        source: source.to_string(),
        outcome: UpdateOutcome {
            hostname: hostname.to_string(),
            result: UpdateResult::ProviderError { detail: detail.to_string() },
        },
    }
}

fn started(source: &str) -> Report {
    Report::UnitStarted { source: source.to_string() }
}

fn done(source: &str) -> Report {
    Report::UnitDone { source: source.to_string() }
}

fn build(source: &str) -> Command {
    Command::BuildClient { credential: format!("token-{source}") }
}

fn list(source: &str) -> Command {
    Command::ListRecords { zone_id: format!("zone-{source}") }
}

fn succeeded(hostname: &str, modified_at: i64) -> Event {
    Event::UpdateSucceeded { hostname: hostname.to_string(), modified_at }
}

/// Feeds the events to a fresh run and returns every report and command made,
/// the first command included, and the run as it stands afterwards.
fn drive(events: Vec<Event>) -> (Vec<Report>, Vec<Command>, Run) {
    let Step { mut run, mut reports, command } = Run::start();
    let mut commands = vec![command];
    for event in events {
        let step = run.step(event);
        run = step.run;
        reports.extend(step.reports);
        commands.push(step.command);
    }
    (reports, commands, run)
}

fn loaded(units: Vec<DesiredZoneConfig>) -> Event {
    Event::ConfigsLoaded { units: units.into_iter().map(ConfigUnit::Valid).collect() }
}

fn resolved() -> Event {
    Event::AddressResolved { address: ADDRESS }
}

#[test]
fn run_begins_by_resolving_the_address() {
    let step = Run::start();
    assert_eq!(step.command, Command::ResolveAddress);
    assert_eq!(step.reports, vec![]);
    assert!(!step.run.is_finished());
    assert_eq!(step.run.status(), None);
    assert_eq!(step.run.pending_command(), Command::ResolveAddress);
}

#[test]
fn resolved_address_leads_to_loading_the_units() {
    let (reports, commands, run) = drive(vec![resolved()]);
    assert_eq!(reports, vec![]);
    assert_eq!(commands, vec![Command::ResolveAddress, Command::LoadConfigs]);
    assert_eq!(run.pending_command(), Command::LoadConfigs);
}

#[test]
fn unresolved_address_ends_the_run_before_any_provider_call() {
    let (reports, commands, run) = drive(vec![
        Event::AddressUnresolved,
        loaded(vec![unit("a", &["a.example.com"])]),
        Event::ClientReady,
        Event::RecordsListed { records: vec![remote("r", "a.example.com", T0)] },
        succeeded("a.example.com", T1),
    ]);
    assert_eq!(reports, vec![Report::AddressUnresolved]);
    let stop = Command::Stop { status: RunStatus::Fatal };
    assert_eq!(
        commands,
        vec![Command::ResolveAddress, stop.clone(), stop.clone(), stop.clone(), stop.clone(), stop.clone()]
    );
    for command in &commands {
        assert!(!matches!(command, Command::ListRecords { .. } | Command::UpdateRecord { .. }));
    }
    assert!(run.is_finished());
    assert_eq!(run.status(), Some(RunStatus::Fatal));
    assert_eq!(RunStatus::Fatal.exit_code(), 1);
}

#[test]
fn unreadable_configuration_source_ends_the_run() {
    let (reports, commands, run) =
        drive(vec![resolved(), Event::ConfigsUnavailable { detail: "permission denied".to_string() }]);
    assert_eq!(reports, vec![Report::ConfigsUnavailable { detail: "permission denied".to_string() }]);
    assert_eq!(commands[2], Command::Stop { status: RunStatus::Fatal });
    assert_eq!(run.status(), Some(RunStatus::Fatal));
}

#[test]
fn home_record_is_updated_and_elapsed_time_reported() {
    let (reports, commands, run) = drive(vec![
        resolved(),
        loaded(vec![unit("home", &["home.example.com"])]),
        Event::ClientReady,
        Event::RecordsListed { records: vec![remote("rec1", "home.example.com", T0)] },
        succeeded("home.example.com", T1),
    ]);
    assert_eq!(
        commands,
        vec![
            Command::ResolveAddress,
            Command::LoadConfigs,
            build("home"),
            list("home"),
            update("home", "rec1", "home.example.com"),
            Command::Stop { status: RunStatus::Success },
        ]
    );
    assert_eq!(
        reports,
        vec![
            started("home"),
            Report::Record {
                source: "home".to_string(),
                outcome: UpdateOutcome {
                    hostname: "home.example.com".to_string(),
                    result: UpdateResult::Updated { modified_at: T1, elapsed_seconds: (T1 - T0) as i128 },
                },
            },
            done("home"),
        ]
    );
    match &reports[1] {
        Report::Record { outcome, .. } => {
            assert!(!outcome.is_failure());
            assert_eq!(outcome.elapsed_hours(), Some(3));
        }
        other => panic!("unexpected report {other:?}"),
    }
    assert_eq!(run.status(), Some(RunStatus::Success));
    assert_eq!(RunStatus::Success.exit_code(), 0);
}

#[test]
fn ghost_record_is_warned_about_and_never_updated() {
    let (reports, commands, run) = drive(vec![
        resolved(),
        loaded(vec![DesiredZoneConfig {
            source: "ghost".to_string(),
            zone_id: "zone-ghost".to_string(),
            api_credential: "token-ghost".to_string(),
            records: vec![record("ghost.example.com", false)],
        }]),
        Event::ClientReady,
        Event::RecordsListed { records: vec![] },
    ]);
    assert_eq!(reports, vec![started("ghost"), not_found("ghost", "ghost.example.com"), done("ghost")]);
    assert_eq!(
        commands,
        vec![
            Command::ResolveAddress,
            Command::LoadConfigs,
            build("ghost"),
            list("ghost"),
            Command::Stop { status: RunStatus::RecordsFailed },
        ]
    );
    assert!(commands.iter().all(|c| !matches!(c, Command::UpdateRecord { .. })));
    assert_eq!(run.status(), Some(RunStatus::RecordsFailed));
}

#[test]
fn failed_client_of_one_unit_leaves_the_other_units_untouched() {
    let units = vec![unit("a", &["a.example.com"]), unit("b", &["b.example.com"]), unit("c", &["c.example.com"])];
    let (reports, commands, run) = drive(vec![
        resolved(),
        loaded(units),
        Event::ClientFailed { detail: "bad credential".to_string() },
        Event::ClientReady,
        Event::RecordsListed { records: vec![remote("rb", "b.example.com", T0)] },
        succeeded("b.example.com", T1),
        Event::ClientReady,
        Event::RecordsListed { records: vec![remote("rc", "c.example.com", T0 + 1)] },
        succeeded("c.example.com", T1),
    ]);
    assert_eq!(
        reports,
        vec![
            started("a"),
            Report::UnitFailed {
                source: "a".to_string(),
                cause: UnitFailure::ClientConstruction,
                detail: "bad credential".to_string(),
            },
            started("b"),
            updated("b", "b.example.com", T0, T1),
            done("b"),
            started("c"),
            updated("c", "c.example.com", T0 + 1, T1),
            done("c"),
        ]
    );
    assert_eq!(
        commands,
        vec![
            Command::ResolveAddress,
            Command::LoadConfigs,
            build("a"),
            build("b"),
            list("b"),
            update("b", "rb", "b.example.com"),
            build("c"),
            list("c"),
            update("c", "rc", "c.example.com"),
            Command::Stop { status: RunStatus::UnitsFailed },
        ]
    );
    assert_eq!(run.status(), Some(RunStatus::UnitsFailed));
}

#[test]
fn units_after_a_failed_one_are_processed_as_if_it_were_absent() {
    let tail = vec![
        Event::ClientReady,
        Event::RecordsListed { records: vec![remote("rb", "b.example.com", T0)] },
        succeeded("b.example.com", T1),
    ];
    let mut with_failure = vec![
        resolved(),
        loaded(vec![unit("a", &["a.example.com"]), unit("b", &["b.example.com"])]),
        Event::ClientFailed { detail: "no".to_string() },
    ];
    with_failure.extend(tail.clone());
    let mut without = vec![resolved(), loaded(vec![unit("b", &["b.example.com"])])];
    without.extend(tail);
    let (reports_with, commands_with, _) = drive(with_failure);
    let (reports_without, commands_without, _) = drive(without);
    assert_eq!(reports_with[2..], reports_without[..]);
    assert_eq!(commands_with[3..6], commands_without[2..5]);
    assert_eq!(commands_with[6], Command::Stop { status: RunStatus::UnitsFailed });
    assert_eq!(commands_without[5], Command::Stop { status: RunStatus::Success });
}

#[test]
fn failed_listing_gives_up_the_unit_and_goes_on() {
    let (reports, commands, run) = drive(vec![
        resolved(),
        loaded(vec![unit("a", &["a.example.com"]), unit("b", &["b.example.com"])]),
        Event::ClientReady,
        Event::ListingFailed { detail: "timeout".to_string() },
        Event::ClientReady,
        Event::RecordsListed { records: vec![remote("rb", "b.example.com", T0)] },
        succeeded("b.example.com", T1),
    ]);
    assert_eq!(
        reports,
        vec![
            started("a"),
            Report::UnitFailed {
                source: "a".to_string(),
                cause: UnitFailure::RecordListing,
                detail: "timeout".to_string(),
            },
            started("b"),
            updated("b", "b.example.com", T0, T1),
            done("b"),
        ]
    );
    assert_eq!(
        commands[2..],
        [
            build("a"),
            list("a"),
            build("b"),
            list("b"),
            update("b", "rb", "b.example.com"),
            Command::Stop { status: RunStatus::UnitsFailed },
        ]
    );
    assert_eq!(run.status(), Some(RunStatus::UnitsFailed));
}

#[test]
fn failed_update_of_one_record_leaves_the_others_to_be_attempted() {
    let hostnames = ["www.example.com", "api.example.com", "mail.example.com"];
    let (reports, commands, run) = drive(vec![
        resolved(),
        loaded(vec![unit("site", &hostnames)]),
        Event::ClientReady,
        Event::RecordsListed {
            records: vec![
                remote("r-mail", "mail.example.com", T0),
                remote("r-api", "api.example.com", T0),
                remote("r-www", "www.example.com", T0),
            ],
        },
        succeeded("www.example.com", T1),
        Event::UpdateFailed { detail: "HTTP 500".to_string() },
        succeeded("mail.example.com", T1 + 1),
    ]);
    assert_eq!(
        commands[4..],
        [
            update("site", "r-www", "www.example.com"),
            update("site", "r-api", "api.example.com"),
            update("site", "r-mail", "mail.example.com"),
            Command::Stop { status: RunStatus::RecordsFailed },
        ]
    );
    assert_eq!(
        reports,
        vec![
            started("site"),
            updated("site", "www.example.com", T0, T1),
            provider_error("site", "api.example.com", "HTTP 500"),
            updated("site", "mail.example.com", T0, T1 + 1),
            done("site"),
        ]
    );
    assert_eq!(run.status(), Some(RunStatus::RecordsFailed));
    assert_eq!(RunStatus::RecordsFailed.exit_code(), 3);
}

#[test]
fn records_after_a_failed_update_fare_as_after_a_successful_one() {
    let prefix = vec![
        resolved(),
        loaded(vec![unit("site", &["a.example.com", "gone.example.com", "b.example.com"])]),
        Event::ClientReady,
        Event::RecordsListed {
            records: vec![remote("ra", "a.example.com", T0), remote("rb", "b.example.com", T0)],
        },
    ];
    let mut failing = prefix.clone();
    failing.push(Event::UpdateFailed { detail: "refused".to_string() });
    failing.push(succeeded("b.example.com", T1));
    let mut succeeding = prefix;
    succeeding.push(succeeded("a.example.com", T1));
    succeeding.push(succeeded("b.example.com", T1));
    let (reports_failing, commands_failing, _) = drive(failing);
    let (reports_succeeding, commands_succeeding, _) = drive(succeeding);
    assert_eq!(reports_failing[1], provider_error("site", "a.example.com", "refused"));
    assert_eq!(reports_succeeding[1], updated("site", "a.example.com", T0, T1));
    assert_eq!(reports_failing[2..], reports_succeeding[2..]);
    assert_eq!(reports_failing[2], not_found("site", "gone.example.com"));
    assert_eq!(commands_failing[..6], commands_succeeding[..6]);
    assert_eq!(commands_failing[5], update("site", "rb", "b.example.com"));
}

#[test]
fn unparsable_unit_is_reported_and_the_rest_proceed() {
    let (reports, commands, run) = drive(vec![
        resolved(),
        Event::ConfigsLoaded {
            units: vec![
                ConfigUnit::Invalid { source: "bad.toml".to_string(), detail: "missing field `dns`".to_string() },
                ConfigUnit::Valid(unit("good", &["good.example.com"])),
            ],
        },
        Event::ClientReady,
        Event::RecordsListed { records: vec![remote("rg", "good.example.com", T0)] },
        succeeded("good.example.com", T1),
    ]);
    assert_eq!(
        reports,
        vec![
            Report::UnitFailed {
                source: "bad.toml".to_string(),
                cause: UnitFailure::Parse,
                detail: "missing field `dns`".to_string(),
            },
            started("good"),
            updated("good", "good.example.com", T0, T1),
            done("good"),
        ]
    );
    assert_eq!(commands[2], build("good"));
    assert_eq!(commands[5], Command::Stop { status: RunStatus::UnitsFailed });
    assert_eq!(run.status(), Some(RunStatus::UnitsFailed));
    assert_eq!(RunStatus::UnitsFailed.exit_code(), 2);
}

#[test]
fn run_without_units_succeeds_at_once() {
    let (reports, commands, run) = drive(vec![resolved(), Event::ConfigsLoaded { units: vec![] }]);
    assert_eq!(reports, vec![]);
    assert_eq!(commands[2], Command::Stop { status: RunStatus::Success });
    assert_eq!(run.status(), Some(RunStatus::Success));
}

#[test]
fn unit_without_records_is_done_as_soon_as_its_listing_arrives() {
    let (reports, commands, _) = drive(vec![
        resolved(),
        loaded(vec![unit("empty", &[]), unit("b", &["b.example.com"])]),
        Event::ClientReady,
        Event::RecordsListed { records: vec![remote("r", "x.example.com", T0)] },
    ]);
    assert_eq!(reports, vec![started("empty"), done("empty"), started("b")]);
    assert_eq!(commands[4], build("b"));
}

#[test]
fn records_not_listed_are_passed_over_between_updates() {
    let (reports, commands, run) = drive(vec![
        resolved(),
        loaded(vec![unit("mix", &["n1.example.com", "a.example.com", "n2.example.com", "n3.example.com"])]),
        Event::ClientReady,
        Event::RecordsListed { records: vec![remote("ra", "a.example.com", T0)] },
        succeeded("a.example.com", T1),
    ]);
    assert_eq!(
        reports,
        vec![
            started("mix"),
            not_found("mix", "n1.example.com"),
            updated("mix", "a.example.com", T0, T1),
            not_found("mix", "n2.example.com"),
            not_found("mix", "n3.example.com"),
            done("mix"),
        ]
    );
    assert_eq!(commands[4], update("mix", "ra", "a.example.com"));
    assert_eq!(commands[5], Command::Stop { status: RunStatus::RecordsFailed });
    assert_eq!(run.status(), Some(RunStatus::RecordsFailed));
}

#[test]
fn outcome_carries_the_hostname_the_provider_answered_with() {
    let (reports, _, _) = drive(vec![
        resolved(),
        loaded(vec![unit("u", &["home.example.com"])]),
        Event::ClientReady,
        Event::RecordsListed { records: vec![remote("r", "home.example.com", T0)] },
        succeeded("home.example.com.", T1),
    ]);
    assert_eq!(reports[1], updated("u", "home.example.com.", T0, T1));
}

#[test]
fn update_request_carries_the_resolved_address_and_the_proxy_flag() {
    let config = DesiredZoneConfig {
        source: "u".to_string(),
        zone_id: "zone-u".to_string(),
        api_credential: "token-u".to_string(),
        records: vec![record("direct.example.com", false)],
    };
    let (_, commands, _) = drive(vec![
        Event::AddressResolved { address: Ipv4Address(198, 51, 100, 7) },
        loaded(vec![config]),
        Event::ClientReady,
        Event::RecordsListed { records: vec![remote("r9", "direct.example.com", T0)] },
    ]);
    assert_eq!(
        commands[4],
        Command::UpdateRecord {
            request: UpdateRequest {
                zone_id: "zone-u".to_string(),
                record_id: "r9".to_string(),
                hostname: "direct.example.com".to_string(),
                content: Ipv4Address(198, 51, 100, 7),
                proxied: false,
            },
        }
    );
}

#[test]
fn event_that_answers_nothing_pending_changes_nothing() {
    let (reports, commands, run) = drive(vec![
        Event::ClientReady,
        succeeded("x.example.com", T1),
        resolved(),
        Event::RecordsListed { records: vec![] },
        loaded(vec![unit("a", &["a.example.com"])]),
        Event::UpdateFailed { detail: "stray".to_string() },
        Event::AddressUnresolved,
        Event::ClientReady,
        Event::ClientFailed { detail: "stray".to_string() },
        resolved(),
    ]);
    assert_eq!(reports, vec![started("a")]);
    assert_eq!(
        commands,
        vec![
            Command::ResolveAddress,
            Command::ResolveAddress,
            Command::ResolveAddress,
            Command::LoadConfigs,
            Command::LoadConfigs,
            build("a"),
            build("a"),
            build("a"),
            list("a"),
            list("a"),
            list("a"),
        ]
    );
    assert!(!run.is_finished());
    assert_eq!(run.pending_command(), list("a"));
}

#[test]
fn stray_event_during_an_update_repeats_the_update_command() {
    let (reports, commands, run) = drive(vec![
        resolved(),
        loaded(vec![unit("a", &["a.example.com"])]),
        Event::ClientReady,
        Event::RecordsListed { records: vec![remote("ra", "a.example.com", T0)] },
        Event::ClientReady,
        Event::ListingFailed { detail: "stray".to_string() },
    ]);
    assert_eq!(reports, vec![started("a")]);
    assert_eq!(commands[4], update("a", "ra", "a.example.com"));
    assert_eq!(commands[5], update("a", "ra", "a.example.com"));
    assert_eq!(commands[6], update("a", "ra", "a.example.com"));
    assert_eq!(run.pending_command(), update("a", "ra", "a.example.com"));
}

#[test]
fn elapsed_time_is_negative_when_the_provider_clock_went_back() {
    let (reports, _, _) = drive(vec![
        resolved(),
        loaded(vec![unit("u", &["home.example.com"])]),
        Event::ClientReady,
        Event::RecordsListed { records: vec![remote("r", "home.example.com", T1)] },
        succeeded("home.example.com", T0),
    ]);
    assert_eq!(reports[1], updated("u", "home.example.com", T1, T0));
    match &reports[1] {
        Report::Record { outcome, .. } => assert_eq!(outcome.elapsed_hours(), Some(-3)),
        other => panic!("unexpected report {other:?}"),
    }
}

#[test]
fn unit_failure_outweighs_record_failure_in_the_final_status() {
    let (_, commands, run) = drive(vec![
        resolved(),
        loaded(vec![unit("a", &["ghost.example.com"]), unit("b", &["b.example.com"])]),
        Event::ClientReady,
        Event::RecordsListed { records: vec![] },
        Event::ClientFailed { detail: "no".to_string() },
    ]);
    assert_eq!(commands[5], Command::Stop { status: RunStatus::UnitsFailed });
    assert_eq!(run.status(), Some(RunStatus::UnitsFailed));
}
