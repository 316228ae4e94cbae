//! What a run reports: the outcome of each wanted record, the fate of each
//! configuration unit, and the status the whole run ends with.

use vstd::prelude::*;

verus! {

/// The number of seconds in an hour.
pub const SECONDS_PER_HOUR: i128 = 3600;

/// How the update of one wanted record ended.
#[derive(Clone, Debug, PartialEq, Eq)]
pub enum UpdateResult {
    /// The provider rewrote the record.
    Updated {
        /// When the provider says it modified the record, in seconds since the Unix epoch.
        modified_at: i64,
        /// Seconds between the record's previous modification and this one.
        elapsed_seconds: i128,
    },
    /// The provider has no record with the wanted hostname; the operator has
    /// to add one on the provider's side.
    NotFound,
    /// The provider refused or failed the update.
    ProviderError { detail: String },
}

/// Mathematical model of an [`UpdateResult`].
pub enum UpdateResultView {
    Updated { modified_at: i64, elapsed_seconds: i128 },
    NotFound,
    ProviderError { detail: Seq<char> },
}

impl View for UpdateResult {
    type V = UpdateResultView;

    open spec fn view(&self) -> UpdateResultView {
        match *self {
            UpdateResult::Updated { modified_at, elapsed_seconds } => UpdateResultView::Updated {
                modified_at,
                elapsed_seconds,
            },
            UpdateResult::NotFound => UpdateResultView::NotFound,
            UpdateResult::ProviderError { detail } => UpdateResultView::ProviderError { detail: detail@ },
        }
    }
}

/// The outcome of one wanted record in one run.
#[derive(Clone, Debug, PartialEq, Eq)]
pub struct UpdateOutcome {
    pub hostname: String,
    pub result: UpdateResult,
}

/// Mathematical model of an [`UpdateOutcome`].
pub struct UpdateOutcomeView {
    pub hostname: Seq<char>,
    pub result: UpdateResultView,
}

impl View for UpdateOutcome {
    type V = UpdateOutcomeView;

    open spec fn view(&self) -> UpdateOutcomeView {
        UpdateOutcomeView { hostname: self.hostname@, result: self.result@ }
    }
}

impl UpdateOutcomeView {
    /// The record was not brought up to date.
    pub open spec fn is_failure(self) -> bool {
        !(self.result is Updated)
    }
}

/// The step at which a configuration unit was given up.
#[derive(Clone, Copy, Debug, PartialEq, Eq, Structural)]
pub enum UnitFailure {
    /// The unit's configuration could not be parsed.
    Parse,
    /// No provider client could be built from the unit's credential.
    ClientConstruction,
    /// The provider did not list the zone's records.
    RecordListing,
}

/// One event of a run, in a form fit for logging.
#[derive(Clone, Debug, PartialEq, Eq)]
pub enum Report {
    /// The public address could not be resolved; the run is over.
    AddressUnresolved,
    /// The configuration units could not be read at all; the run is over.
    ConfigsUnavailable { detail: String },
    /// Work on a configuration unit begins.
    UnitStarted { source: String },
    /// A configuration unit was given up; the run goes on with the next.
    UnitFailed { source: String, cause: UnitFailure, detail: String },
    /// One wanted record of a unit was dealt with.
    Record { source: String, outcome: UpdateOutcome },
    /// Every wanted record of a unit was dealt with.
    UnitDone { source: String },
}

/// Mathematical model of a [`Report`].
pub enum ReportView {
    AddressUnresolved,
    ConfigsUnavailable { detail: Seq<char> },
    UnitStarted { source: Seq<char> },
    UnitFailed { source: Seq<char>, cause: UnitFailure, detail: Seq<char> },
    Record { source: Seq<char>, outcome: UpdateOutcomeView },
    UnitDone { source: Seq<char> },
}

impl View for Report {
    type V = ReportView;

    open spec fn view(&self) -> ReportView {
        match *self {
            Report::AddressUnresolved => ReportView::AddressUnresolved,
            Report::ConfigsUnavailable { detail } => ReportView::ConfigsUnavailable { detail: detail@ },
            Report::UnitStarted { source } => ReportView::UnitStarted { source: source@ },
            Report::UnitFailed { source, cause, detail } => ReportView::UnitFailed {
                source: source@,
                cause,
                detail: detail@,
            },
            Report::Record { source, outcome } => ReportView::Record { source: source@, outcome: outcome@ },
            Report::UnitDone { source } => ReportView::UnitDone { source: source@ },
        }
    }
}

impl ReportView {
    /// The report says that a whole unit was given up.
    pub open spec fn is_unit_failure(self) -> bool {
        self is UnitFailed
    }

    /// The report says that one record was not brought up to date.
    pub open spec fn is_record_failure(self) -> bool {
        self matches ReportView::Record { outcome, .. } && outcome.is_failure()
    }

    /// The report says that the run cannot go on.
    pub open spec fn is_fatal(self) -> bool {
        self is AddressUnresolved || self is ConfigsUnavailable
    }
}

/// How a run ended, from best to worst.
#[derive(Clone, Copy, Debug, PartialEq, Eq, Structural)]
pub enum RunStatus {
    /// Every unit was processed and every wanted record was updated.
    Success,
    /// Every unit was processed, but some record was not found or not updated.
    RecordsFailed,
    /// Some unit was given up.
    UnitsFailed,
    /// The run could not start its work.
    Fatal,
}

/// What went wrong so far in a run that is still going.
#[derive(Clone, Copy, Debug, PartialEq, Eq, Structural)]
pub struct Tally {
    /// Some unit was given up.
    pub unit_failed: bool,
    /// Some record was not found or not updated.
    pub record_failed: bool,
}

impl Tally {
    /// The status of a run that reaches its end with this tally.
    pub open spec fn status(self) -> RunStatus {
        if self.unit_failed {
            RunStatus::UnitsFailed
        } else if self.record_failed {
            RunStatus::RecordsFailed
        } else {
            RunStatus::Success
        }
    }

    /// The tally of a run in which nothing has gone wrong.
    pub open spec fn clean() -> Tally {
        Tally { unit_failed: false, record_failed: false }
    }

    /// Computes the status of a run that reaches its end with this tally.
    pub fn final_status(self) -> (status: RunStatus)
        ensures
            status == self.status(),
    {
        if self.unit_failed {
            RunStatus::UnitsFailed
        } else if self.record_failed {
            RunStatus::RecordsFailed
        } else {
            RunStatus::Success
        }
    }
}

impl RunStatus {
    /// The exit code a process reports for this status.
    pub open spec fn exit_code_spec(self) -> i32 {
        match self {
            RunStatus::Success => 0,
            RunStatus::Fatal => 1,
            RunStatus::UnitsFailed => 2,
            RunStatus::RecordsFailed => 3,
        }
    }

    /// The exit code a process reports for this status: zero for full
    /// success only, and a different code for each kind of failure.
    pub fn exit_code(self) -> (code: i32)
        ensures
            code == self.exit_code_spec(),
            code == 0 <==> self == RunStatus::Success,
    {
        match self {
            RunStatus::Success => 0,
            RunStatus::Fatal => 1,
            RunStatus::UnitsFailed => 2,
            RunStatus::RecordsFailed => 3,
        }
    }
}

/// Seconds from one modification time to a later one.
pub open spec fn elapsed_spec(previous: i64, current: i64) -> int {
    current - previous
}

/// Whole hours in a number of seconds, rounded toward zero.
pub open spec fn whole_hours_spec(seconds: int) -> int {
    if seconds >= 0 {
        seconds / 3600
    } else {
        -((-seconds) / 3600)
    }
}

/// Seconds from a record's previous modification to its current one;
/// negative when the current one is the earlier.
pub fn elapsed_seconds(previous: i64, current: i64) -> (elapsed: i128)
    ensures
        elapsed == elapsed_spec(previous, current),
{
    current as i128 - previous as i128
}

/// Whole hours in a number of seconds, rounded toward zero.
pub fn whole_hours(seconds: i128) -> (hours: i128)
    ensures
        hours == whole_hours_spec(seconds as int),
{
    seconds / SECONDS_PER_HOUR
}

/// The outcome of a record the provider rewrote: the hostname the provider
/// answered with, the new modification time, and the time since the previous one.
pub fn updated_outcome(hostname: String, previous_modified_at: i64, modified_at: i64) -> (outcome: UpdateOutcome)
    ensures
        outcome@ == updated_outcome_spec(hostname@, previous_modified_at, modified_at),
{
    UpdateOutcome {
        hostname,
        result: UpdateResult::Updated {
            modified_at,
            elapsed_seconds: elapsed_seconds(previous_modified_at, modified_at),
        },
    }
}

/// The outcome of a record the provider rewrote.
pub open spec fn updated_outcome_spec(
    hostname: Seq<char>,
    previous_modified_at: i64,
    modified_at: i64,
) -> UpdateOutcomeView {
    UpdateOutcomeView {
        hostname,
        result: UpdateResultView::Updated {
            modified_at,
            elapsed_seconds: elapsed_spec(previous_modified_at, modified_at) as i128,
        },
    }
}

impl UpdateOutcome {
    /// Whether the record was not brought up to date.
    pub fn is_failure(&self) -> (failed: bool)
        ensures
            failed == self@.is_failure(),
    {
        match &self.result {
            UpdateResult::Updated { .. } => false,
            UpdateResult::NotFound => true,
            UpdateResult::ProviderError { .. } => true,
        }
    }

    /// Whole hours since the record's previous modification, rounded toward
    /// zero, if the record was updated.
    pub fn elapsed_hours(&self) -> (hours: Option<i128>)
        ensures
            match self@.result {
                UpdateResultView::Updated { modified_at, elapsed_seconds } => hours == Some(
                    whole_hours_spec(elapsed_seconds as int) as i128,
                ),
                _ => hours is None,
            },
    {
        match &self.result {
            UpdateResult::Updated { elapsed_seconds, .. } => Some(whole_hours(*elapsed_seconds)),
            UpdateResult::NotFound => None,
            UpdateResult::ProviderError { .. } => None,
        }
    }
}

} // verus!
