//! The orchestrator: one run, end to end, as a state machine.
//!
//! The machine never performs outside work itself. Each step takes the
//! event that answers the command last issued and returns the reports to
//! log and the next command to perform: resolve the address, load the
//! configuration units, build a provider client, list a zone's records,
//! update one record, or stop. The caller performs the command and hands
//! back the event.
//!
//! Failures are isolated at two levels. A unit whose client cannot be built
//! or whose records cannot be listed is given up and the run goes on with the
//! next unit; a record that is not found or whose update fails is reported
//! and the run goes on with the next record. Only a failure to resolve the
//! address or to read the configuration units ends the run.

use crate::engine::{
    plan, plan_spec, request_spec, update_request, Action, PlanEntry, PlanEntryView, UpdateRequest,
    UpdateRequestView,
};
use crate::model::{views, DesiredZoneConfig, DesiredZoneConfigView, Ipv4Address, RemoteRecord, RemoteRecordView};
use crate::outcome::{
    updated_outcome, updated_outcome_spec, Report, ReportView, RunStatus, Tally, UnitFailure, UpdateOutcome,
    UpdateOutcomeView, UpdateResult, UpdateResultView,
};
use crate::source::{partition_units, rejections, valid_units, ConfigUnit, ConfigUnitView};
use vstd::pervasive::unreached;
use vstd::prelude::*;

verus! {

/// What the outside world answered to the command last issued.
#[derive(Clone, Debug, PartialEq, Eq)]
pub enum Event {
    /// The public address was resolved.
    AddressResolved { address: Ipv4Address },
    /// The public address could not be resolved.
    AddressUnresolved,
    /// The configuration source delivered its units.
    ConfigsLoaded { units: Vec<ConfigUnit> },
    /// The configuration source could not be read.
    ConfigsUnavailable { detail: String },
    /// A provider client was built for the current unit.
    ClientReady,
    /// No provider client could be built for the current unit.
    ClientFailed { detail: String },
    /// The provider listed the records of the current unit's zone.
    RecordsListed { records: Vec<RemoteRecord> },
    /// The provider did not list the records of the current unit's zone.
    ListingFailed { detail: String },
    /// The provider rewrote the record and answered with its name and new
    /// modification time.
    UpdateSucceeded { hostname: String, modified_at: i64 },
    /// The provider refused or failed the update.
    UpdateFailed { detail: String },
}

/// Mathematical model of an [`Event`].
pub enum EventView {
    AddressResolved { address: Ipv4Address },
    AddressUnresolved,
    ConfigsLoaded { units: Seq<ConfigUnitView> },
    ConfigsUnavailable { detail: Seq<char> },
    ClientReady,
    ClientFailed { detail: Seq<char> },
    RecordsListed { records: Seq<RemoteRecordView> },
    ListingFailed { detail: Seq<char> },
    UpdateSucceeded { hostname: Seq<char>, modified_at: i64 },
    UpdateFailed { detail: Seq<char> },
}

impl View for Event {
    type V = EventView;

    open spec fn view(&self) -> EventView {
        match *self {
            Event::AddressResolved { address } => EventView::AddressResolved { address },
            Event::AddressUnresolved => EventView::AddressUnresolved,
            Event::ConfigsLoaded { units } => EventView::ConfigsLoaded { units: views(units@) },
            Event::ConfigsUnavailable { detail } => EventView::ConfigsUnavailable { detail: detail@ },
            Event::ClientReady => EventView::ClientReady,
            Event::ClientFailed { detail } => EventView::ClientFailed { detail: detail@ },
            Event::RecordsListed { records } => EventView::RecordsListed { records: views(records@) },
            Event::ListingFailed { detail } => EventView::ListingFailed { detail: detail@ },
            Event::UpdateSucceeded { hostname, modified_at } => EventView::UpdateSucceeded {
                hostname: hostname@,
                modified_at,
            },
            Event::UpdateFailed { detail } => EventView::UpdateFailed { detail: detail@ },
        }
    }
}

/// The outside work the caller is asked to perform next.
#[derive(Clone, Debug, PartialEq, Eq)]
pub enum Command {
    /// Resolve the caller's public IPv4 address.
    ResolveAddress,
    /// Load the configuration units.
    LoadConfigs,
    /// Build a provider client bound to this credential.
    BuildClient { credential: String },
    /// List the records of this zone.
    ListRecords { zone_id: String },
    /// Send this update to the provider.
    UpdateRecord { request: UpdateRequest },
    /// The run is over: end with this status.
    Stop { status: RunStatus },
}

/// Mathematical model of a [`Command`].
pub enum CommandView {
    ResolveAddress,
    LoadConfigs,
    BuildClient { credential: Seq<char> },
    ListRecords { zone_id: Seq<char> },
    UpdateRecord { request: UpdateRequestView },
    Stop { status: RunStatus },
}

impl View for Command {
    type V = CommandView;

    open spec fn view(&self) -> CommandView {
        match *self {
            Command::ResolveAddress => CommandView::ResolveAddress,
            Command::LoadConfigs => CommandView::LoadConfigs,
            Command::BuildClient { credential } => CommandView::BuildClient { credential: credential@ },
            Command::ListRecords { zone_id } => CommandView::ListRecords { zone_id: zone_id@ },
            Command::UpdateRecord { request } => CommandView::UpdateRecord { request: request@ },
            Command::Stop { status } => CommandView::Stop { status },
        }
    }
}

impl CommandView {
    /// The command asks the provider to list or to change records.
    pub open spec fn calls_provider(self) -> bool {
        self is ListRecords || self is UpdateRecord
    }
}

/// Where the work on the current unit stands.
///
/// A unit is `Loaded`, then `ClientReady`, then `Applying`. The listing of its
/// records and the making of its plan fall within one step, so no run rests
/// between them. A unit that is done or given up is reported as such, and the
/// run turns to the next unit within the same step.
pub enum PhaseView {
    /// The unit's configuration is loaded; its provider client is being built.
    Loaded,
    /// The client is ready; the zone's records are being listed.
    ClientReady,
    /// The records were listed and the plan made; the update of entry `next`
    /// is under way, and the entries before it are dealt with.
    Applying { plan: Seq<PlanEntryView>, next: int },
}

/// Where a run stands.
pub enum StageView {
    /// The public address is being resolved.
    ResolvingAddress,
    /// The address is known; the configuration units are being loaded.
    LoadingConfigs { address: Ipv4Address },
    /// Unit `current` of `units` is being processed; those before it are dealt with.
    InUnit { address: Ipv4Address, units: Seq<DesiredZoneConfigView>, current: int, phase: PhaseView },
    /// The run is over.
    Finished { status: RunStatus },
}

/// Mathematical model of a [`Run`].
pub struct RunView {
    pub stage: StageView,
    pub tally: Tally,
}

/// Mathematical model of a [`Step`].
#[verifier::ext_equal]
pub struct StepView {
    pub run: RunView,
    pub reports: Seq<ReportView>,
    pub command: CommandView,
}

impl RunView {
    /// The stage is consistent: the current unit exists, and the plan entry
    /// whose update is under way exists and asks for an update.
    pub open spec fn wf(self) -> bool {
        match self.stage {
            StageView::InUnit { address, units, current, phase } => {
                &&& 0 <= current < units.len()
                &&& match phase {
                    PhaseView::Applying { plan, next } => 0 <= next < plan.len() && plan[next].action is ApplyUpdate,
                    _ => true,
                }
            },
            _ => true,
        }
    }

    /// The command whose answer the run is waiting for.
    pub open spec fn pending_command(self) -> CommandView {
        match self.stage {
            StageView::ResolvingAddress => CommandView::ResolveAddress,
            StageView::LoadingConfigs { address } => CommandView::LoadConfigs,
            StageView::InUnit { address, units, current, phase } => match phase {
                PhaseView::Loaded => CommandView::BuildClient { credential: units[current].api_credential },
                PhaseView::ClientReady => CommandView::ListRecords { zone_id: units[current].zone_id },
                PhaseView::Applying { plan, next } => CommandView::UpdateRecord {
                    request: request_spec(units[current].zone_id, plan[next]).unwrap(),
                },
            },
            StageView::Finished { status } => CommandView::Stop { status },
        }
    }

    /// The run is over.
    pub open spec fn finished(self) -> bool {
        self.stage is Finished
    }
}

/// A step with further reports placed before its own.
pub open spec fn prepend(reports: Seq<ReportView>, step: StepView) -> StepView {
    StepView { run: step.run, reports: reports + step.reports, command: step.command }
}

/// The step that begins a run.
pub open spec fn start_spec() -> StepView {
    StepView {
        run: RunView { stage: StageView::ResolvingAddress, tally: Tally::clean() },
        reports: Seq::empty(),
        command: CommandView::ResolveAddress,
    }
}

/// The step taken on an event that answers no pending command: nothing
/// changes, and the pending command is issued again.
pub open spec fn stay_spec(run: RunView) -> StepView {
    StepView { run, reports: Seq::empty(), command: run.pending_command() }
}

/// The step that ends a run that cannot do its work.
pub open spec fn abort_spec(tally: Tally, report: ReportView) -> StepView {
    StepView {
        run: RunView { stage: StageView::Finished { status: RunStatus::Fatal }, tally },
        reports: seq![report],
        command: CommandView::Stop { status: RunStatus::Fatal },
    }
}

/// The step that turns to unit `index`: the unit is announced and its client
/// asked for, or, past the last unit, the run ends with the status its tally gives.
pub open spec fn begin_unit_spec(
    address: Ipv4Address,
    units: Seq<DesiredZoneConfigView>,
    index: int,
    tally: Tally,
) -> StepView {
    if 0 <= index < units.len() {
        StepView {
            run: RunView {
                stage: StageView::InUnit { address, units, current: index, phase: PhaseView::Loaded },
                tally,
            },
            reports: seq![ReportView::UnitStarted { source: units[index].source }],
            command: CommandView::BuildClient { credential: units[index].api_credential },
        }
    } else {
        StepView {
            run: RunView { stage: StageView::Finished { status: tally.status() }, tally },
            reports: Seq::empty(),
            command: CommandView::Stop { status: tally.status() },
        }
    }
}

/// The step that gives up the current unit and turns to the next.
pub open spec fn fail_unit_spec(
    address: Ipv4Address,
    units: Seq<DesiredZoneConfigView>,
    current: int,
    tally: Tally,
    cause: UnitFailure,
    detail: Seq<char>,
) -> StepView {
    prepend(
        seq![ReportView::UnitFailed { source: units[current].source, cause, detail }],
        begin_unit_spec(address, units, current + 1, Tally { unit_failed: true, record_failed: tally.record_failed }),
    )
}

/// The position of the first entry at or after `from` that asks for an
/// update, or the plan's length if there is none.
pub open spec fn next_update(plan: Seq<PlanEntryView>, from: int) -> int
    decreases plan.len() - from,
{
    if from < 0 || from >= plan.len() {
        plan.len() as int
    } else if plan[from].action is ApplyUpdate {
        from
    } else {
        next_update(plan, from + 1)
    }
}

/// The report that the entry at `position` of a unit's plan found no record to update.
pub open spec fn not_found_report(source: Seq<char>, plan: Seq<PlanEntryView>, position: int) -> ReportView {
    ReportView::Record {
        source,
        outcome: UpdateOutcomeView { hostname: plan[position].desired.hostname, result: UpdateResultView::NotFound },
    }
}

/// One not-found report for each entry of the plan from `from` up to `to`.
pub open spec fn not_found_reports(
    source: Seq<char>,
    plan: Seq<PlanEntryView>,
    from: int,
    to: int,
) -> Seq<ReportView> {
    Seq::new((to - from) as nat, |i: int| not_found_report(source, plan, from + i))
}

/// The step that goes on with a unit's plan at entry `from`: the entries
/// that ask for nothing are reported as not found, up to the first that asks
/// for an update, which is issued; past the last entry the unit is done and
/// the run turns to the next unit.
pub open spec fn resume_plan_spec(
    address: Ipv4Address,
    units: Seq<DesiredZoneConfigView>,
    current: int,
    plan: Seq<PlanEntryView>,
    from: int,
    tally: Tally,
) -> StepView {
    let to = next_update(plan, from);
    let skipped = not_found_reports(units[current].source, plan, from, to);
    let tally = Tally { unit_failed: tally.unit_failed, record_failed: tally.record_failed || from < to };
    if to < plan.len() {
        StepView {
            run: RunView {
                stage: StageView::InUnit {
                    address,
                    units,
                    current,
                    phase: PhaseView::Applying { plan, next: to },
                },
                tally,
            },
            reports: skipped,
            command: CommandView::UpdateRecord { request: request_spec(units[current].zone_id, plan[to]).unwrap() },
        }
    } else {
        prepend(
            skipped.push(ReportView::UnitDone { source: units[current].source }),
            begin_unit_spec(address, units, current + 1, tally),
        )
    }
}

/// One step of a run: the state, reports and command that follow from a
/// state and the event that arrived in it.
pub open spec fn step_spec(run: RunView, event: EventView) -> StepView {
    match run.stage {
        StageView::ResolvingAddress => match event {
            EventView::AddressResolved { address } => StepView {
                run: RunView { stage: StageView::LoadingConfigs { address }, tally: run.tally },
                reports: Seq::empty(),
                command: CommandView::LoadConfigs,
            },
            EventView::AddressUnresolved => abort_spec(run.tally, ReportView::AddressUnresolved),
            _ => stay_spec(run),
        },
        StageView::LoadingConfigs { address } => match event {
            EventView::ConfigsLoaded { units } => prepend(
                rejections(units),
                begin_unit_spec(
                    address,
                    valid_units(units),
                    0,
                    Tally {
                        unit_failed: run.tally.unit_failed || rejections(units).len() > 0,
                        record_failed: run.tally.record_failed,
                    },
                ),
            ),
            EventView::ConfigsUnavailable { detail } => abort_spec(
                run.tally,
                ReportView::ConfigsUnavailable { detail },
            ),
            _ => stay_spec(run),
        },
        StageView::InUnit { address, units, current, phase } => match phase {
            PhaseView::Loaded => match event {
                EventView::ClientReady => StepView {
                    run: RunView {
                        stage: StageView::InUnit { address, units, current, phase: PhaseView::ClientReady },
                        tally: run.tally,
                    },
                    reports: Seq::empty(),
                    command: CommandView::ListRecords { zone_id: units[current].zone_id },
                },
                EventView::ClientFailed { detail } => fail_unit_spec(
                    address,
                    units,
                    current,
                    run.tally,
                    UnitFailure::ClientConstruction,
                    detail,
                ),
                _ => stay_spec(run),
            },
            PhaseView::ClientReady => match event {
                EventView::RecordsListed { records } => resume_plan_spec(
                    address,
                    units,
                    current,
                    plan_spec(units[current].records, records, address),
                    0,
                    run.tally,
                ),
                EventView::ListingFailed { detail } => fail_unit_spec(
                    address,
                    units,
                    current,
                    run.tally,
                    UnitFailure::RecordListing,
                    detail,
                ),
                _ => stay_spec(run),
            },
            PhaseView::Applying { plan, next } => match event {
                EventView::UpdateSucceeded { hostname, modified_at } => prepend(
                    seq![
                        ReportView::Record {
                            source: units[current].source,
                            outcome: updated_outcome_spec(
                                hostname,
                                plan[next].action->previous_modified_at,
                                modified_at,
                            ),
                        },
                    ],
                    resume_plan_spec(address, units, current, plan, next + 1, run.tally),
                ),
                EventView::UpdateFailed { detail } => prepend(
                    seq![
                        ReportView::Record {
                            source: units[current].source,
                            outcome: UpdateOutcomeView {
                                hostname: plan[next].desired.hostname,
                                result: UpdateResultView::ProviderError { detail },
                            },
                        },
                    ],
                    resume_plan_spec(
                        address,
                        units,
                        current,
                        plan,
                        next + 1,
                        Tally { unit_failed: run.tally.unit_failed, record_failed: true },
                    ),
                ),
                _ => stay_spec(run),
            },
        },
        StageView::Finished { status } => stay_spec(run),
    }
}

/// Where the work on the current unit stands.
#[derive(Debug)]
enum Phase {
    Loaded,
    ClientReady,
    Applying { plan: Vec<PlanEntry>, next: usize },
}

impl View for Phase {
    type V = PhaseView;

    closed spec fn view(&self) -> PhaseView {
        match *self {
            Phase::Loaded => PhaseView::Loaded,
            Phase::ClientReady => PhaseView::ClientReady,
            Phase::Applying { plan, next } => PhaseView::Applying { plan: views(plan@), next: next as int },
        }
    }
}

/// Where a run stands.
#[derive(Debug)]
enum Stage {
    ResolvingAddress,
    LoadingConfigs { address: Ipv4Address },
    InUnit { address: Ipv4Address, units: Vec<DesiredZoneConfig>, current: usize, phase: Phase },
    Finished { status: RunStatus },
}

impl View for Stage {
    type V = StageView;

    closed spec fn view(&self) -> StageView {
        match *self {
            Stage::ResolvingAddress => StageView::ResolvingAddress,
            Stage::LoadingConfigs { address } => StageView::LoadingConfigs { address },
            Stage::InUnit { address, units, current, phase } => StageView::InUnit {
                address,
                units: views(units@),
                current: current as int,
                phase: phase@,
            },
            Stage::Finished { status } => StageView::Finished { status },
        }
    }
}

/// A run in progress: where it stands and what has gone wrong so far.
#[derive(Debug)]
pub struct Run {
    stage: Stage,
    tally: Tally,
}

impl View for Run {
    type V = RunView;

    closed spec fn view(&self) -> RunView {
        RunView { stage: self.stage@, tally: self.tally }
    }
}

/// What one step of a run produces.
#[derive(Debug)]
pub struct Step {
    /// The run after the step.
    pub run: Run,
    /// What happened during the step, in order, for the caller to log.
    pub reports: Vec<Report>,
    /// What the caller is to do next.
    pub command: Command,
}

impl View for Step {
    type V = StepView;

    open spec fn view(&self) -> StepView {
        StepView { run: self.run@, reports: views(self.reports@), command: self.command@ }
    }
}

/// The step taken on an event that answers no pending command.
fn stay(run: Run) -> (out: Step)
    ensures
        out@ == stay_spec(run@),
{
    let command = run.pending_command();
    let out = Step { run, reports: Vec::new(), command };
    assert(out@.reports =~= Seq::empty());
    out
}

/// The step that ends a run that cannot do its work.
fn abort(tally: Tally, report: Report) -> (out: Step)
    ensures
        out@ == abort_spec(tally, report@),
{
    let mut reports: Vec<Report> = Vec::new();
    reports.push(report);
    let out = Step {
        run: Run { stage: Stage::Finished { status: RunStatus::Fatal }, tally },
        reports,
        command: Command::Stop { status: RunStatus::Fatal },
    };
    assert(out@.reports =~= seq![report@]);
    out
}

/// The step that turns to unit `index`, after the reports already made.
fn begin_unit(
    address: Ipv4Address,
    units: Vec<DesiredZoneConfig>,
    index: usize,
    tally: Tally,
    reports: Vec<Report>,
) -> (out: Step)
    ensures
        out@ == prepend(views(reports@), begin_unit_spec(address, views(units@), index as int, tally)),
{
    let mut reports = reports;
    let ghost before = views(reports@);
    if index < units.len() {
        assert(views(units@)[index as int] == units@[index as int]@);
        reports.push(Report::UnitStarted { source: units[index].source.clone() });
        let command = Command::BuildClient { credential: units[index].api_credential.clone() };
        let out = Step {
            run: Run { stage: Stage::InUnit { address, units, current: index, phase: Phase::Loaded }, tally },
            reports,
            command,
        };
        assert(out@.reports =~= before + seq![ReportView::UnitStarted { source: units@[index as int]@.source }]);
        out
    } else {
        let status = tally.final_status();
        let out = Step { run: Run { stage: Stage::Finished { status }, tally }, reports, command: Command::Stop { status } };
        assert(out@.reports =~= before + Seq::<ReportView>::empty());
        out
    }
}

/// The step that gives up unit `current` and turns to the next.
fn fail_unit(
    address: Ipv4Address,
    units: Vec<DesiredZoneConfig>,
    current: usize,
    tally: Tally,
    cause: UnitFailure,
    detail: String,
) -> (out: Step)
    requires
        current < units.len(),
    ensures
        out@ == fail_unit_spec(address, views(units@), current as int, tally, cause, detail@),
{
    assert(views(units@)[current as int] == units@[current as int]@);
    let mut reports: Vec<Report> = Vec::new();
    reports.push(Report::UnitFailed { source: units[current].source.clone(), cause, detail });
    assert(views(reports@) =~= seq![
        ReportView::UnitFailed { source: units@[current as int]@.source, cause, detail: detail@ },
    ]);
    begin_unit(
        address,
        units,
        current + 1,
        Tally { unit_failed: true, record_failed: tally.record_failed },
        reports,
    )
}

/// Skipping an entry that asks for nothing does not change which update comes next.
proof fn lemma_next_update_skips(plan: Seq<PlanEntryView>, from: int)
    requires
        0 <= from < plan.len(),
        !(plan[from].action is ApplyUpdate),
    ensures
        next_update(plan, from) == next_update(plan, from + 1),
{
}

/// The not-found reports up to and including an entry are those up to it
/// followed by its own.
proof fn lemma_not_found_reports_extend(source: Seq<char>, plan: Seq<PlanEntryView>, from: int, to: int)
    requires
        from <= to,
    ensures
        not_found_reports(source, plan, from, to + 1) == not_found_reports(source, plan, from, to).push(
            not_found_report(source, plan, to),
        ),
{
    assert(not_found_reports(source, plan, from, to + 1) =~= not_found_reports(source, plan, from, to).push(
        not_found_report(source, plan, to),
    ));
}

/// The step that goes on with the plan of unit `current` at entry `from`,
/// after the reports already made.
#[verifier::loop_isolation(false)]
fn resume_plan(
    address: Ipv4Address,
    units: Vec<DesiredZoneConfig>,
    current: usize,
    plan: Vec<PlanEntry>,
    from: usize,
    tally: Tally,
    reports: Vec<Report>,
) -> (out: Step)
    requires
        current < units.len(),
        from <= plan.len(),
    ensures
        out@ == prepend(
            views(reports@),
            resume_plan_spec(address, views(units@), current as int, views(plan@), from as int, tally),
        ),
{
    let ghost before = views(reports@);
    let ghost unit = units@[current as int]@;
    let ghost entries = views(plan@);
    let mut reports = reports;
    let mut tally = tally;
    let ghost tally_before = tally;
    let mut k: usize = from;
    assert(views(units@)[current as int] == unit);
    while k < plan.len()
        invariant
            from <= k <= plan.len(),
            current < units.len(),
            unit == units@[current as int]@,
            entries == views(plan@),
            next_update(entries, from as int) == next_update(entries, k as int),
            views(reports@) == before + not_found_reports(unit.source, entries, from as int, k as int),
            tally == (Tally {
                unit_failed: tally_before.unit_failed,
                record_failed: tally_before.record_failed || from < k,
            }),
        decreases plan.len() - k,
    {
        assert(entries[k as int] == plan@[k as int]@);
        match update_request(&units[current].zone_id, &plan[k]) {
            Some(request) => {
                assert(next_update(entries, k as int) == k);
                let out = Step {
                    run: Run {
                        stage: Stage::InUnit { address, units, current, phase: Phase::Applying { plan, next: k } },
                        tally,
                    },
                    reports,
                    command: Command::UpdateRecord { request },
                };
                proof {
                    let expected = prepend(
                        before,
                        resume_plan_spec(address, views(units@), current as int, entries, from as int, tally_before),
                    );
                    assert(out@.run == expected.run);
                    assert(out@.command == expected.command);
                    assert(out@.reports =~= expected.reports);
                }
                return out;
            },
            None => {
                reports.push(
                    Report::Record {
                        source: units[current].source.clone(),
                        outcome: UpdateOutcome {
                            hostname: plan[k].desired.hostname.clone(),
                            result: UpdateResult::NotFound,
                        },
                    },
                );
                tally.record_failed = true;
                proof {
                    lemma_next_update_skips(entries, k as int);
                    lemma_not_found_reports_extend(unit.source, entries, from as int, k as int);
                    let so_far = not_found_reports(unit.source, entries, from as int, k as int);
                    let own = not_found_report(unit.source, entries, k as int);
                    assert(views(reports@) =~= (before + so_far).push(own));
                    assert((before + so_far).push(own) =~= before + so_far.push(own));
                }
                k = k + 1;
            },
        }
    }
    let ghost skipped = not_found_reports(unit.source, entries, from as int, plan.len() as int);
    let ghost done = ReportView::UnitDone { source: unit.source };
    assert(next_update(entries, from as int) == plan.len());
    reports.push(Report::UnitDone { source: units[current].source.clone() });
    proof {
        assert(views(reports@) =~= (before + skipped).push(done));
    }
    let out = begin_unit(address, units, current + 1, tally, reports);
    proof {
        let rest = begin_unit_spec(address, views(units@), current as int + 1, tally);
        let expected = prepend(
            before,
            resume_plan_spec(address, views(units@), current as int, entries, from as int, tally_before),
        );
        assert(out@.reports =~= (before + skipped).push(done) + rest.reports);
        assert((before + skipped).push(done) + rest.reports =~= before + (skipped.push(done) + rest.reports));
        assert(out@.run == expected.run);
        assert(out@.command == expected.command);
        assert(out@.reports =~= expected.reports);
    }
    out
}

impl Run {
    /// Every run a caller can hold is consistent.
    #[verifier::type_invariant]
    closed spec fn consistent(self) -> bool {
        self@.wf()
    }

    /// Begins a run: nothing has gone wrong yet, and the first thing to do
    /// is to resolve the public address.
    pub fn start() -> (out: Step)
        ensures
            out@ == start_spec(),
            out@.run.wf(),
    {
        let out = Step {
            run: Run { stage: Stage::ResolvingAddress, tally: Tally { unit_failed: false, record_failed: false } },
            reports: Vec::new(),
            command: Command::ResolveAddress,
        };
        assert(out@.reports =~= Seq::empty());
        out
    }

    /// Whether the run is over.
    pub fn is_finished(&self) -> (finished: bool)
        ensures
            finished == self@.finished(),
    {
        match &self.stage {
            Stage::Finished { .. } => true,
            _ => false,
        }
    }

    /// The status the run ended with, once it is over.
    pub fn status(&self) -> (status: Option<RunStatus>)
        ensures
            status == match self@.stage {
                StageView::Finished { status } => Some(status),
                _ => None,
            },
    {
        match &self.stage {
            Stage::Finished { status } => Some(*status),
            _ => None,
        }
    }

    /// The command whose answer the run is waiting for.
    pub fn pending_command(&self) -> (command: Command)
        ensures
            self@.wf(),
            command@ == self@.pending_command(),
    {
        proof {
            use_type_invariant(self);
        }
        match &self.stage {
            Stage::ResolvingAddress => Command::ResolveAddress,
            Stage::LoadingConfigs { .. } => Command::LoadConfigs,
            Stage::InUnit { units, current, phase, .. } => {
                assert(views(units@)[*current as int] == units@[*current as int]@);
                match phase {
                    Phase::Loaded => Command::BuildClient { credential: units[*current].api_credential.clone() },
                    Phase::ClientReady => Command::ListRecords { zone_id: units[*current].zone_id.clone() },
                    Phase::Applying { plan, next } => {
                        assert(views(plan@)[*next as int] == plan@[*next as int]@);
                        match update_request(&units[*current].zone_id, &plan[*next]) {
                            Some(request) => Command::UpdateRecord { request },
                            None => unreached(),
                        }
                    },
                }
            },
            Stage::Finished { status } => Command::Stop { status: *status },
        }
    }

    /// Takes one step: consumes the event that answers the pending command
    /// and returns the run that follows, the reports to log and the next
    /// command. An event that answers no pending command changes nothing.
    pub fn step(self, event: Event) -> (out: Step)
        ensures
            self@.wf(),
            out@ == step_spec(self@, event@),
            out@.run.wf(),
    {
        proof {
            use_type_invariant(&self);
        }
        let out = self.advance(event);
        proof {
            use_type_invariant(&out.run);
        }
        out
    }

    /// The step itself.
    fn advance(self, event: Event) -> (out: Step)
        ensures
            out@ == step_spec(self@, event@),
    {
        proof {
            use_type_invariant(&self);
        }
        let Run { stage, tally } = self;
        match stage {
            Stage::ResolvingAddress => match event {
                Event::AddressResolved { address } => {
                    let out = Step {
                        run: Run { stage: Stage::LoadingConfigs { address }, tally },
                        reports: Vec::new(),
                        command: Command::LoadConfigs,
                    };
                    assert(out@.reports =~= Seq::empty());
                    out
                },
                Event::AddressUnresolved => abort(tally, Report::AddressUnresolved),
                _ => stay(Run { stage: Stage::ResolvingAddress, tally }),
            },
            Stage::LoadingConfigs { address } => match event {
                Event::ConfigsLoaded { units } => {
                    let (valid, rejected) = partition_units(units);
                    let tally = Tally {
                        unit_failed: tally.unit_failed || rejected.len() > 0,
                        record_failed: tally.record_failed,
                    };
                    begin_unit(address, valid, 0, tally, rejected)
                },
                Event::ConfigsUnavailable { detail } => abort(tally, Report::ConfigsUnavailable { detail }),
                _ => stay(Run { stage: Stage::LoadingConfigs { address }, tally }),
            },
            Stage::InUnit { address, units, current, phase } => match phase {
                Phase::Loaded => match event {
                    Event::ClientReady => {
                        assert(views(units@)[current as int] == units@[current as int]@);
                        let command = Command::ListRecords { zone_id: units[current].zone_id.clone() };
                        let out = Step {
                            run: Run { stage: Stage::InUnit { address, units, current, phase: Phase::ClientReady }, tally },
                            reports: Vec::new(),
                            command,
                        };
                        assert(out@.reports =~= Seq::empty());
                        out
                    },
                    Event::ClientFailed { detail } => fail_unit(
                        address,
                        units,
                        current,
                        tally,
                        UnitFailure::ClientConstruction,
                        detail,
                    ),
                    _ => stay(Run { stage: Stage::InUnit { address, units, current, phase: Phase::Loaded }, tally }),
                },
                Phase::ClientReady => match event {
                    Event::RecordsListed { records } => {
                        assert(views(units@)[current as int] == units@[current as int]@);
                        let entries = plan(&units[current].records, &records, address);
                        let out = resume_plan(address, units, current, entries, 0, tally, Vec::new());
                        assert(out@.reports =~= resume_plan_spec(
                            address,
                            views(units@),
                            current as int,
                            views(entries@),
                            0,
                            tally,
                        ).reports);
                        out
                    },
                    Event::ListingFailed { detail } => fail_unit(
                        address,
                        units,
                        current,
                        tally,
                        UnitFailure::RecordListing,
                        detail,
                    ),
                    _ => stay(
                        Run { stage: Stage::InUnit { address, units, current, phase: Phase::ClientReady }, tally },
                    ),
                },
                Phase::Applying { plan, next } => match event {
                    Event::UpdateSucceeded { hostname, modified_at } => {
                        assert(next < plan.len());
                        assert(views(units@)[current as int] == units@[current as int]@);
                        assert(views(plan@)[next as int] == plan@[next as int]@);
                        let previous = match &plan[next].action {
                            Action::ApplyUpdate { previous_modified_at, .. } => *previous_modified_at,
                            Action::Skip { .. } => unreached(),
                        };
                        let mut reports: Vec<Report> = Vec::new();
                        reports.push(
                            Report::Record {
                                source: units[current].source.clone(),
                                outcome: updated_outcome(hostname, previous, modified_at),
                            },
                        );
                        assert(views(reports@) =~= seq![
                            ReportView::Record {
                                source: units@[current as int]@.source,
                                outcome: updated_outcome_spec(hostname@, previous, modified_at),
                            },
                        ]);
                        resume_plan(address, units, current, plan, next + 1, tally, reports)
                    },
                    Event::UpdateFailed { detail } => {
                        assert(next < plan.len());
                        assert(views(units@)[current as int] == units@[current as int]@);
                        assert(views(plan@)[next as int] == plan@[next as int]@);
                        let mut reports: Vec<Report> = Vec::new();
                        reports.push(
                            Report::Record {
                                source: units[current].source.clone(),
                                outcome: UpdateOutcome {
                                    hostname: plan[next].desired.hostname.clone(),
                                    result: UpdateResult::ProviderError { detail },
                                },
                            },
                        );
                        assert(views(reports@) =~= seq![
                            ReportView::Record {
                                source: units@[current as int]@.source,
                                outcome: UpdateOutcomeView {
                                    hostname: plan@[next as int]@.desired.hostname,
                                    result: UpdateResultView::ProviderError { detail: detail@ },
                                },
                            },
                        ]);
                        resume_plan(
                            address,
                            units,
                            current,
                            plan,
                            next + 1,
                            Tally { unit_failed: tally.unit_failed, record_failed: true },
                            reports,
                        )
                    },
                    _ => stay(
                        Run {
                            stage: Stage::InUnit { address, units, current, phase: Phase::Applying { plan, next } },
                            tally,
                        },
                    ),
                },
            },
            Stage::Finished { status } => stay(Run { stage: Stage::Finished { status }, tally }),
        }
    }
}

} // verus!
