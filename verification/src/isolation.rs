//! What holds of every run: failures stay where they happen.
//!
//! The statements here are about [`step_spec`], the function every step of
//! a [`Run`](crate::orchestrator::Run) is proved to compute, and about
//! [`trace_spec`], which folds it over a sequence of events.

use crate::engine::{
    first_match, has_match, lemma_first_match_characterised, plan_spec, request_spec, ActionView, PlanEntryView,
};
use crate::model::{DesiredZoneConfigView, Ipv4Address, RemoteRecordView};
use crate::orchestrator::{
    begin_unit_spec, fail_unit_spec, next_update, resume_plan_spec, start_spec, step_spec, CommandView, EventView,
    PhaseView, RunView, StageView, StepView,
};
use crate::outcome::{ReportView, RunStatus, Tally, UnitFailure, UpdateOutcomeView, UpdateResultView};
use crate::source::{rejections, valid_units, ConfigUnitView};
use vstd::prelude::*;

verus! {

/// Everything a run produced over a sequence of events.
#[verifier::ext_equal]
pub struct TraceView {
    /// The run after the last event.
    pub run: RunView,
    /// Every report made, in order.
    pub reports: Seq<ReportView>,
    /// The command issued in answer to each event, in order.
    pub commands: Seq<CommandView>,
}

/// The trace of a run that receives `events` one after the other.
pub open spec fn trace_spec(run: RunView, events: Seq<EventView>) -> TraceView
    decreases events.len(),
{
    if events.len() == 0 {
        TraceView { run, reports: Seq::empty(), commands: Seq::empty() }
    } else {
        let before = trace_spec(run, events.drop_last());
        let step = step_spec(before.run, events.last());
        TraceView {
            run: step.run,
            reports: before.reports + step.reports,
            commands: before.commands.push(step.command),
        }
    }
}

/// Two runs have the same work ahead of them: they stand at the same point
/// of the same unit, and the same units follow. The units behind them and
/// what went wrong there may differ.
pub open spec fn same_work(a: RunView, b: RunView) -> bool {
    match a.stage {
        StageView::ResolvingAddress => b.stage is ResolvingAddress,
        StageView::LoadingConfigs { address } => b.stage == a.stage,
        StageView::InUnit { address, units, current, phase } => {
            &&& b.stage is InUnit
            &&& b.stage->InUnit_address == address
            &&& b.stage->phase == phase
            &&& b.stage->units[b.stage->current] == units[current]
            &&& b.stage->units.skip(b.stage->current + 1) == units.skip(current + 1)
        },
        StageView::Finished { status } => b.stage is Finished,
    }
}

/// Two commands ask for the same outside work; two commands to stop may
/// carry different statuses.
pub open spec fn same_command(a: CommandView, b: CommandView) -> bool {
    a == b || (a is Stop && b is Stop)
}

/// Two steps lead to the same work, make the same reports and ask for the
/// same outside work.
pub open spec fn steps_agree(a: StepView, b: StepView) -> bool {
    &&& same_work(a.run, b.run)
    &&& a.reports == b.reports
    &&& same_command(a.command, b.command)
}

/// Two traces end with the same work ahead, made the same reports and asked
/// for the same outside work throughout.
pub open spec fn traces_agree(a: TraceView, b: TraceView) -> bool {
    &&& same_work(a.run, b.run)
    &&& a.reports == b.reports
    &&& a.commands.len() == b.commands.len()
    &&& forall|i: int| 0 <= i < a.commands.len() ==> same_command(#[trigger] a.commands[i], b.commands[i])
}

/// The update asked for next in a plan, at or after entry `from`, is the
/// first entry there that asks for one; every entry before it asks for none.
pub proof fn lemma_next_update_is_first(plan: Seq<PlanEntryView>, from: int)
    requires
        0 <= from <= plan.len(),
    ensures
        from <= next_update(plan, from) <= plan.len(),
        next_update(plan, from) < plan.len() ==> plan[next_update(plan, from)].action is ApplyUpdate,
        forall|j: int| from <= j < next_update(plan, from) ==> (#[trigger] plan[j]).action is Skip,
    decreases plan.len() - from,
{
    if from < plan.len() && !(plan[from].action is ApplyUpdate) {
        lemma_next_update_is_first(plan, from + 1);
    }
}

/// A step leaves a consistent run consistent, and the command it issues is
/// the one the new run is waiting on.
pub proof fn lemma_step_keeps_consistency(run: RunView, event: EventView)
    requires
        run.wf(),
    ensures
        step_spec(run, event).run.wf(),
        step_spec(run, event).command == step_spec(run, event).run.pending_command(),
{
    match run.stage {
        StageView::InUnit { address, units, current, phase } => {
            match phase {
                PhaseView::ClientReady => {
                    if let EventView::RecordsListed { records } = event {
                        lemma_next_update_is_first(plan_spec(units[current].records, records, address), 0);
                    }
                },
                PhaseView::Applying { plan, next } => {
                    lemma_next_update_is_first(plan, next + 1);
                },
                _ => {},
            }
        },
        _ => {},
    }
}

/// Turning to a unit depends only on that unit and those after it.
proof fn lemma_begin_unit_agrees(
    address: Ipv4Address,
    units_a: Seq<DesiredZoneConfigView>,
    index_a: int,
    tally_a: Tally,
    units_b: Seq<DesiredZoneConfigView>,
    index_b: int,
    tally_b: Tally,
)
    requires
        0 <= index_a <= units_a.len(),
        0 <= index_b <= units_b.len(),
        units_a.skip(index_a) == units_b.skip(index_b),
    ensures
        steps_agree(
            begin_unit_spec(address, units_a, index_a, tally_a),
            begin_unit_spec(address, units_b, index_b, tally_b),
        ),
{
    let rest_a = units_a.skip(index_a);
    let rest_b = units_b.skip(index_b);
    assert(rest_a.len() == units_a.len() - index_a);
    assert(rest_b.len() == units_b.len() - index_b);
    if index_a < units_a.len() {
        assert(units_a[index_a] == rest_a[0]);
        assert(units_b[index_b] == rest_b[0]);
        assert(units_a.skip(index_a + 1) =~= rest_a.skip(1));
        assert(units_b.skip(index_b + 1) =~= rest_b.skip(1));
    }
}

/// Going on with a unit's plan depends only on that unit, the plan and the
/// units after it.
proof fn lemma_resume_plan_agrees(
    address: Ipv4Address,
    units_a: Seq<DesiredZoneConfigView>,
    current_a: int,
    tally_a: Tally,
    units_b: Seq<DesiredZoneConfigView>,
    current_b: int,
    tally_b: Tally,
    plan: Seq<PlanEntryView>,
    from: int,
)
    requires
        0 <= current_a < units_a.len(),
        0 <= current_b < units_b.len(),
        units_a[current_a] == units_b[current_b],
        units_a.skip(current_a + 1) == units_b.skip(current_b + 1),
        0 <= from <= plan.len(),
    ensures
        steps_agree(
            resume_plan_spec(address, units_a, current_a, plan, from, tally_a),
            resume_plan_spec(address, units_b, current_b, plan, from, tally_b),
        ),
{
    let to = next_update(plan, from);
    lemma_next_update_is_first(plan, from);
    if to >= plan.len() {
        let after_a = Tally { unit_failed: tally_a.unit_failed, record_failed: tally_a.record_failed || from < to };
        let after_b = Tally { unit_failed: tally_b.unit_failed, record_failed: tally_b.record_failed || from < to };
        lemma_begin_unit_agrees(address, units_a, current_a + 1, after_a, units_b, current_b + 1, after_b);
    }
}

/// Giving up a unit depends only on that unit and those after it.
proof fn lemma_fail_unit_agrees(
    address: Ipv4Address,
    units_a: Seq<DesiredZoneConfigView>,
    current_a: int,
    tally_a: Tally,
    units_b: Seq<DesiredZoneConfigView>,
    current_b: int,
    tally_b: Tally,
    cause: UnitFailure,
    detail: Seq<char>,
)
    requires
        0 <= current_a < units_a.len(),
        0 <= current_b < units_b.len(),
        units_a[current_a] == units_b[current_b],
        units_a.skip(current_a + 1) == units_b.skip(current_b + 1),
    ensures
        steps_agree(
            fail_unit_spec(address, units_a, current_a, tally_a, cause, detail),
            fail_unit_spec(address, units_b, current_b, tally_b, cause, detail),
        ),
{
    lemma_begin_unit_agrees(
        address,
        units_a,
        current_a + 1,
        Tally { unit_failed: true, record_failed: tally_a.record_failed },
        units_b,
        current_b + 1,
        Tally { unit_failed: true, record_failed: tally_b.record_failed },
    );
}

/// What a step does depends only on the work ahead: two runs with the same
/// work ahead answer the same event with the same reports and the same
/// command, and have the same work ahead afterwards. How earlier units and
/// records fared changes nothing but the status the run will end with.
pub proof fn lemma_step_depends_on_work_ahead(a: RunView, b: RunView, event: EventView)
    requires
        a.wf(),
        b.wf(),
        same_work(a, b),
    ensures
        steps_agree(step_spec(a, event), step_spec(b, event)),
{
    match a.stage {
        StageView::ResolvingAddress => {},
        StageView::LoadingConfigs { address } => {
            if let EventView::ConfigsLoaded { units } = event {
                let valid = valid_units(units);
                let tally_a = Tally {
                    unit_failed: a.tally.unit_failed || rejections(units).len() > 0,
                    record_failed: a.tally.record_failed,
                };
                let tally_b = Tally {
                    unit_failed: b.tally.unit_failed || rejections(units).len() > 0,
                    record_failed: b.tally.record_failed,
                };
                lemma_begin_unit_agrees(address, valid, 0, tally_a, valid, 0, tally_b);
            }
        },
        StageView::InUnit { address, units, current, phase } => {
            let units_b = b.stage->units;
            let current_b = b.stage->current;
            match phase {
                PhaseView::Loaded => {
                    if let EventView::ClientFailed { detail } = event {
                        lemma_fail_unit_agrees(
                            address,
                            units,
                            current,
                            a.tally,
                            units_b,
                            current_b,
                            b.tally,
                            UnitFailure::ClientConstruction,
                            detail,
                        );
                    }
                },
                PhaseView::ClientReady => {
                    if let EventView::RecordsListed { records } = event {
                        lemma_resume_plan_agrees(
                            address,
                            units,
                            current,
                            a.tally,
                            units_b,
                            current_b,
                            b.tally,
                            plan_spec(units[current].records, records, address),
                            0,
                        );
                    }
                    if let EventView::ListingFailed { detail } = event {
                        lemma_fail_unit_agrees(
                            address,
                            units,
                            current,
                            a.tally,
                            units_b,
                            current_b,
                            b.tally,
                            UnitFailure::RecordListing,
                            detail,
                        );
                    }
                },
                PhaseView::Applying { plan, next } => {
                    if let EventView::UpdateSucceeded { hostname, modified_at } = event {
                        lemma_resume_plan_agrees(
                            address,
                            units,
                            current,
                            a.tally,
                            units_b,
                            current_b,
                            b.tally,
                            plan,
                            next + 1,
                        );
                    }
                    if let EventView::UpdateFailed { detail } = event {
                        lemma_resume_plan_agrees(
                            address,
                            units,
                            current,
                            Tally { unit_failed: a.tally.unit_failed, record_failed: true },
                            units_b,
                            current_b,
                            Tally { unit_failed: b.tally.unit_failed, record_failed: true },
                            plan,
                            next + 1,
                        );
                    }
                },
            }
        },
        StageView::Finished { status } => {},
    }
}

/// A consistent run stays consistent over any sequence of events.
pub proof fn lemma_trace_keeps_consistency(run: RunView, events: Seq<EventView>)
    requires
        run.wf(),
    ensures
        trace_spec(run, events).run.wf(),
        trace_spec(run, events).commands.len() == events.len(),
    decreases events.len(),
{
    if events.len() > 0 {
        lemma_trace_keeps_consistency(run, events.drop_last());
        lemma_step_keeps_consistency(trace_spec(run, events.drop_last()).run, events.last());
    }
}

/// Two runs with the same work ahead produce, over any sequence of events,
/// the same reports and the same commands.
pub proof fn lemma_trace_depends_on_work_ahead(a: RunView, b: RunView, events: Seq<EventView>)
    requires
        a.wf(),
        b.wf(),
        same_work(a, b),
    ensures
        traces_agree(trace_spec(a, events), trace_spec(b, events)),
    decreases events.len(),
{
    if events.len() > 0 {
        let earlier = events.drop_last();
        lemma_trace_depends_on_work_ahead(a, b, earlier);
        lemma_trace_keeps_consistency(a, earlier);
        lemma_trace_keeps_consistency(b, earlier);
        lemma_step_depends_on_work_ahead(trace_spec(a, earlier).run, trace_spec(b, earlier).run, events.last());
    }
}

/// The run over `units` alone, from their first unit on, with nothing gone wrong.
pub open spec fn fresh_run_spec(address: Ipv4Address, units: Seq<DesiredZoneConfigView>) -> StepView {
    begin_unit_spec(address, units, 0, Tally::clean())
}

/// What the run does once a unit is given up.
proof fn lemma_given_up_unit_is_isolated(
    run: RunView,
    cause: UnitFailure,
    detail: Seq<char>,
    later: Seq<EventView>,
)
    requires
        run.wf(),
        run.stage is InUnit,
    ensures
        ({
            let units = run.stage->units;
            let current = run.stage->current;
            let failed = fail_unit_spec(run.stage->InUnit_address, units, current, run.tally, cause, detail);
            let fresh = fresh_run_spec(run.stage->InUnit_address, units.skip(current + 1));
            &&& failed.reports == seq![ReportView::UnitFailed { source: units[current].source, cause, detail }]
                + fresh.reports
            &&& same_command(failed.command, fresh.command)
            &&& traces_agree(trace_spec(failed.run, later), trace_spec(fresh.run, later))
        }),
{
    let address = run.stage->InUnit_address;
    let units = run.stage->units;
    let current = run.stage->current;
    let rest = units.skip(current + 1);
    let after = Tally { unit_failed: true, record_failed: run.tally.record_failed };
    assert(rest.skip(0) =~= rest);
    lemma_begin_unit_agrees(address, units, current + 1, after, rest, 0, Tally::clean());
    let failed = fail_unit_spec(address, units, current, run.tally, cause, detail);
    let fresh = fresh_run_spec(address, rest);
    lemma_trace_depends_on_work_ahead(failed.run, fresh.run, later);
}

/// When no provider client can be built for a unit, the unit is reported
/// as failed, and from there on the run reports and
/// commands exactly what a run over the remaining units alone would, whatever
/// events follow. The failure of one unit changes nothing for the others.
pub proof fn lemma_client_failure_is_isolated(run: RunView, detail: Seq<char>, later: Seq<EventView>)
    requires
        run.wf(),
        run.stage is InUnit,
        run.stage->phase is Loaded,
    ensures
        ({
            let units = run.stage->units;
            let current = run.stage->current;
            let failed = step_spec(run, EventView::ClientFailed { detail });
            let fresh = fresh_run_spec(run.stage->InUnit_address, units.skip(current + 1));
            &&& failed.reports == seq![
                ReportView::UnitFailed {
                    source: units[current].source,
                    cause: UnitFailure::ClientConstruction,
                    detail,
                },
            ] + fresh.reports
            &&& same_command(failed.command, fresh.command)
            &&& traces_agree(trace_spec(failed.run, later), trace_spec(fresh.run, later))
        }),
{
    lemma_given_up_unit_is_isolated(run, UnitFailure::ClientConstruction, detail, later);
}

/// When the provider does not list a unit's records, the unit is reported
/// as failed, and from there on the run reports and
/// commands exactly what a run over the remaining units alone would, whatever
/// events follow.
pub proof fn lemma_listing_failure_is_isolated(run: RunView, detail: Seq<char>, later: Seq<EventView>)
    requires
        run.wf(),
        run.stage is InUnit,
        run.stage->phase is ClientReady,
    ensures
        ({
            let units = run.stage->units;
            let current = run.stage->current;
            let failed = step_spec(run, EventView::ListingFailed { detail });
            let fresh = fresh_run_spec(run.stage->InUnit_address, units.skip(current + 1));
            &&& failed.reports == seq![
                ReportView::UnitFailed { source: units[current].source, cause: UnitFailure::RecordListing, detail },
            ] + fresh.reports
            &&& same_command(failed.command, fresh.command)
            &&& traces_agree(trace_spec(failed.run, later), trace_spec(fresh.run, later))
        }),
{
    lemma_given_up_unit_is_isolated(run, UnitFailure::RecordListing, detail, later);
}

/// A unit that could not be parsed is reported and left out; the run then
/// reports and commands exactly what it would had that unit never been
/// delivered.
pub proof fn lemma_parse_failure_is_isolated(
    run: RunView,
    before: Seq<ConfigUnitView>,
    source: Seq<char>,
    detail: Seq<char>,
    after: Seq<ConfigUnitView>,
    later: Seq<EventView>,
)
    requires
        run.stage is LoadingConfigs,
    ensures
        ({
            let invalid = ConfigUnitView::Invalid { source, detail };
            let with = step_spec(run, EventView::ConfigsLoaded { units: before.push(invalid) + after });
            let without = step_spec(run, EventView::ConfigsLoaded { units: before + after });
            &&& valid_units(before.push(invalid) + after) == valid_units(before + after)
            &&& rejections(before.push(invalid) + after) == rejections(before).push(
                ReportView::UnitFailed { source, cause: UnitFailure::Parse, detail },
            ) + rejections(after)
            &&& same_command(with.command, without.command)
            &&& with.run.tally.unit_failed
            &&& traces_agree(trace_spec(with.run, later), trace_spec(without.run, later))
        }),
{
    let invalid = ConfigUnitView::Invalid { source, detail };
    let report = ReportView::UnitFailed { source, cause: UnitFailure::Parse, detail };
    lemma_units_split(before.push(invalid), after);
    lemma_units_split(before, after);
    assert(before.push(invalid).drop_last() =~= before);
    assert(rejections(before.push(invalid)) == rejections(before).push(report));
    assert(valid_units(before.push(invalid)) == valid_units(before));
    let address = run.stage->LoadingConfigs_address;
    let with = step_spec(run, EventView::ConfigsLoaded { units: before.push(invalid) + after });
    let without = step_spec(run, EventView::ConfigsLoaded { units: before + after });
    let valid = valid_units(before + after);
    lemma_begin_unit_agrees(address, valid, 0, with.run.tally, valid, 0, without.run.tally);
    lemma_step_keeps_consistency(run, EventView::ConfigsLoaded { units: before.push(invalid) + after });
    lemma_step_keeps_consistency(run, EventView::ConfigsLoaded { units: before + after });
    assert(rejections(before.push(invalid) + after).len() > 0);
    lemma_trace_depends_on_work_ahead(with.run, without.run, later);
}

/// Separating the units delivered goes unit by unit: the valid units and the
/// rejections of two lists one after the other are those of the first
/// followed by those of the second.
pub proof fn lemma_units_split(first: Seq<ConfigUnitView>, second: Seq<ConfigUnitView>)
    ensures
        valid_units(first + second) == valid_units(first) + valid_units(second),
        rejections(first + second) == rejections(first) + rejections(second),
    decreases second.len(),
{
    if second.len() == 0 {
        assert(first + second =~= first);
        assert(valid_units(first) + valid_units(second) =~= valid_units(first));
        assert(rejections(first) + rejections(second) =~= rejections(first));
    } else {
        lemma_units_split(first, second.drop_last());
        assert((first + second).drop_last() =~= first + second.drop_last());
        assert((first + second).last() == second.last());
        assert(valid_units(first + second) =~= valid_units(first) + valid_units(second));
        assert(rejections(first + second) =~= rejections(first) + rejections(second));
    }
}

/// When the update of one record fails, the failure is reported for that
/// record, and the run goes on exactly as it would had the
/// update succeeded: the same records are reported as not found, the same
/// update is commanded next, and so on whatever events follow. Later records
/// of the unit are attempted all the same.
pub proof fn lemma_update_failure_is_isolated(
    run: RunView,
    detail: Seq<char>,
    hostname: Seq<char>,
    modified_at: i64,
    later: Seq<EventView>,
)
    requires
        run.wf(),
        run.stage is InUnit,
        run.stage->phase is Applying,
    ensures
        ({
            let units = run.stage->units;
            let current = run.stage->current;
            let plan = run.stage->phase->plan;
            let next = run.stage->phase->next;
            let failed = step_spec(run, EventView::UpdateFailed { detail });
            let succeeded = step_spec(run, EventView::UpdateSucceeded { hostname, modified_at });
            let following = next_update(plan, next + 1);
            &&& failed.reports.len() > 0
            &&& failed.reports[0] == ReportView::Record {
                source: units[current].source,
                outcome: UpdateOutcomeView {
                    hostname: plan[next].desired.hostname,
                    result: UpdateResultView::ProviderError { detail },
                },
            }
            &&& failed.reports.skip(1) == succeeded.reports.skip(1)
            &&& same_command(failed.command, succeeded.command)
            &&& following < plan.len() ==> failed.command == CommandView::UpdateRecord {
                request: request_spec(units[current].zone_id, plan[following]).unwrap(),
            }
            &&& failed.run.tally.record_failed
            &&& traces_agree(trace_spec(failed.run, later), trace_spec(succeeded.run, later))
        }),
{
    let address = run.stage->InUnit_address;
    let units = run.stage->units;
    let current = run.stage->current;
    let plan = run.stage->phase->plan;
    let next = run.stage->phase->next;
    let failed_event = EventView::UpdateFailed { detail };
    let succeeded_event = EventView::UpdateSucceeded { hostname, modified_at };
    let failed = step_spec(run, failed_event);
    let succeeded = step_spec(run, succeeded_event);
    let tally_failed = Tally { unit_failed: run.tally.unit_failed, record_failed: true };
    lemma_resume_plan_agrees(address, units, current, tally_failed, units, current, run.tally, plan, next + 1);
    let rest_failed = resume_plan_spec(address, units, current, plan, next + 1, tally_failed);
    let rest_succeeded = resume_plan_spec(address, units, current, plan, next + 1, run.tally);
    assert(failed.reports.skip(1) =~= rest_failed.reports);
    assert(succeeded.reports.skip(1) =~= rest_succeeded.reports);
    lemma_next_update_is_first(plan, next + 1);
    lemma_step_keeps_consistency(run, failed_event);
    lemma_step_keeps_consistency(run, succeeded_event);
    lemma_trace_depends_on_work_ahead(failed.run, succeeded.run, later);
}

/// Once a run is over it stays over: whatever events arrive, it makes no
/// report and only repeats the command to stop.
pub proof fn lemma_finished_run_stays_finished(run: RunView, later: Seq<EventView>)
    requires
        run.stage is Finished,
    ensures
        trace_spec(run, later).run == run,
        trace_spec(run, later).reports == Seq::<ReportView>::empty(),
        trace_spec(run, later).commands.len() == later.len(),
        forall|i: int|
            0 <= i < later.len() ==> #[trigger] trace_spec(run, later).commands[i] == (CommandView::Stop {
                status: run.stage->status,
            }),
    decreases later.len(),
{
    if later.len() > 0 {
        lemma_finished_run_stays_finished(run, later.drop_last());
        assert(trace_spec(run, later).reports =~= Seq::<ReportView>::empty());
    } else {
        assert(trace_spec(run, later).reports =~= Seq::<ReportView>::empty());
    }
}

/// A run whose address cannot be resolved reports so and stops at once with the fatal status. Neither its first command nor any
/// command it issues afterwards, whatever events arrive, asks the provider
/// to list or to update records.
pub proof fn lemma_unresolved_address_ends_run(later: Seq<EventView>)
    ensures
        ({
            let begun = start_spec();
            let aborted = step_spec(begun.run, EventView::AddressUnresolved);
            &&& begun.command == CommandView::ResolveAddress
            &&& aborted.reports == seq![ReportView::AddressUnresolved]
            &&& aborted.command == CommandView::Stop { status: RunStatus::Fatal }
            &&& aborted.run.stage == StageView::Finished { status: RunStatus::Fatal }
            &&& trace_spec(aborted.run, later).reports == Seq::<ReportView>::empty()
            &&& forall|i: int|
                0 <= i < later.len() ==> !(#[trigger] trace_spec(aborted.run, later).commands[i]).calls_provider()
        }),
{
    let aborted = step_spec(start_spec().run, EventView::AddressUnresolved);
    lemma_finished_run_stays_finished(aborted.run, later);
}

/// The provider is called only once the address is known: a command to
/// list or to update records is only ever issued by a run that is working on
/// a unit, for that unit's zone.
pub proof fn lemma_provider_calls_need_address(run: RunView, event: EventView)
    requires
        run.wf(),
    ensures
        ({
            let out = step_spec(run, event);
            let unit = out.run.stage->units[out.run.stage->current];
            &&& out.command.calls_provider() ==> out.run.stage is InUnit
            &&& out.command.calls_provider() ==> !(run.stage is ResolvingAddress) && !(run.stage is Finished)
            &&& out.command matches CommandView::ListRecords { zone_id } ==> zone_id == unit.zone_id
            &&& out.command matches CommandView::UpdateRecord { request } ==> request.zone_id == unit.zone_id
        }),
{
    lemma_step_keeps_consistency(run, event);
}

/// When the provider's list for a unit arrives, the update commanded next,
/// if any, rewrites the first listed record that has the wanted hostname. From
/// then on the unit's plan is the one made from that list.
pub proof fn lemma_first_update_targets_listed_record(run: RunView, records: Seq<RemoteRecordView>)
    requires
        run.wf(),
        run.stage is InUnit,
        run.stage->phase is ClientReady,
    ensures
        ({
            let out = step_spec(run, EventView::RecordsListed { records });
            let unit = run.stage->units[run.stage->current];
            &&& out.command matches CommandView::UpdateRecord { request } ==> {
                &&& request.zone_id == unit.zone_id
                &&& request.content == run.stage->InUnit_address
                &&& has_match(records, request.hostname)
                &&& first_match(records, request.hostname) matches Some(i) && records[i].id == request.record_id
            }
            &&& out.command is UpdateRecord ==> {
                &&& out.run.stage is InUnit
                &&& out.run.stage->current == run.stage->current
                &&& out.run.stage->phase is Applying
                &&& out.run.stage->phase->plan == plan_spec(unit.records, records, run.stage->InUnit_address)
            }
        }),
{
    let address = run.stage->InUnit_address;
    let unit = run.stage->units[run.stage->current];
    let plan = plan_spec(unit.records, records, address);
    lemma_next_update_is_first(plan, 0);
    let to = next_update(plan, 0);
    if to < plan.len() {
        lemma_first_match_characterised(records, unit.records[to].hostname);
    }
}

/// While a unit's plan is carried out, every update commanded rewrites
/// the first listed record that has the wanted hostname, and the plan stays
/// the one made from the provider's list. A wanted record whose hostname the
/// provider did not list is never the subject of an update.
pub proof fn lemma_later_updates_target_listed_records(
    run: RunView,
    records: Seq<RemoteRecordView>,
    event: EventView,
)
    requires
        run.wf(),
        run.stage is InUnit,
        run.stage->phase is Applying,
        run.stage->phase->plan == plan_spec(
            run.stage->units[run.stage->current].records,
            records,
            run.stage->InUnit_address,
        ),
    ensures
        ({
            let out = step_spec(run, event);
            let unit = run.stage->units[run.stage->current];
            &&& out.command matches CommandView::UpdateRecord { request } ==> {
                &&& request.zone_id == unit.zone_id
                &&& request.content == run.stage->InUnit_address
                &&& has_match(records, request.hostname)
                &&& first_match(records, request.hostname) matches Some(i) && records[i].id == request.record_id
            }
            &&& out.command is UpdateRecord ==> {
                &&& out.run.stage is InUnit
                &&& out.run.stage->current == run.stage->current
                &&& out.run.stage->phase is Applying
                &&& out.run.stage->phase->plan == run.stage->phase->plan
            }
        }),
{
    let address = run.stage->InUnit_address;
    let unit = run.stage->units[run.stage->current];
    let plan = run.stage->phase->plan;
    let next = run.stage->phase->next;
    lemma_next_update_is_first(plan, next + 1);
    let to = next_update(plan, next + 1);
    if to < plan.len() {
        lemma_first_match_characterised(records, unit.records[to].hostname);
    }
    lemma_first_match_characterised(records, unit.records[next].hostname);
}

/// Once its records are listed, a unit is never given up as a whole:
/// whatever answers its updates get, the step reports no unit as failed, and
/// either goes on to another update of the same unit or reports the unit as
/// done.
pub proof fn lemma_applying_unit_is_never_given_up(run: RunView, event: EventView)
    requires
        run.wf(),
        run.stage is InUnit,
        run.stage->phase is Applying,
    ensures
        ({
            let out = step_spec(run, event);
            let source = run.stage->units[run.stage->current].source;
            &&& forall|i: int| 0 <= i < out.reports.len() ==> !(#[trigger] out.reports[i]).is_unit_failure()
            &&& out.run.tally.unit_failed == run.tally.unit_failed
            &&& {
                ||| out.run.stage is InUnit && out.run.stage->current == run.stage->current
                    && out.run.stage->phase is Applying
                ||| exists|i: int|
                    0 <= i < out.reports.len() && #[trigger] out.reports[i] == (ReportView::UnitDone { source })
            }
        }),
{
    let units = run.stage->units;
    let current = run.stage->current;
    let plan = run.stage->phase->plan;
    let next = run.stage->phase->next;
    let out = step_spec(run, event);
    let source = units[current].source;
    lemma_next_update_is_first(plan, next + 1);
    let to = next_update(plan, next + 1);
    if (event is UpdateSucceeded || event is UpdateFailed) && to >= plan.len() {
        let position = 1 + (to - (next + 1));
        assert(out.reports[position] == ReportView::UnitDone { source });
    }
}

/// Units are processed one at a time in the order delivered, and the
/// entries of a unit's plan in the order wanted: a step never changes the
/// units or the address, never goes back to an earlier unit or skips one, and
/// within a unit keeps the plan and only moves forward in it.
pub proof fn lemma_run_advances_in_order(run: RunView, event: EventView)
    requires
        run.wf(),
        run.stage is InUnit,
    ensures
        ({
            let out = step_spec(run, event);
            out.run.stage is InUnit ==> {
                &&& out.run.stage->units == run.stage->units
                &&& out.run.stage->InUnit_address == run.stage->InUnit_address
                &&& run.stage->current <= out.run.stage->current <= run.stage->current + 1
                &&& out.run.stage->current == run.stage->current + 1 ==> out.run.stage->phase is Loaded
                &&& out.run.stage->current == run.stage->current && run.stage->phase is Applying ==> {
                    &&& out.run.stage->phase is Applying
                    &&& out.run.stage->phase->plan == run.stage->phase->plan
                    &&& out.run.stage->phase->next >= run.stage->phase->next
                    &&& out.run.stage->phase->next == run.stage->phase->next ==> out == StepView {
                        run,
                        reports: Seq::empty(),
                        command: run.pending_command(),
                    }
                }
            }
        }),
{
    match run.stage->phase {
        PhaseView::ClientReady => {
            if let EventView::RecordsListed { records } = event {
                let unit = run.stage->units[run.stage->current];
                lemma_next_update_is_first(plan_spec(unit.records, records, run.stage->InUnit_address), 0);
            }
        },
        PhaseView::Applying { plan, next } => {
            lemma_next_update_is_first(plan, next + 1);
        },
        _ => {},
    }
}

/// The run works with this address, or is over.
pub open spec fn holds_address(run: RunView, address: Ipv4Address) -> bool {
    match run.stage {
        StageView::ResolvingAddress => false,
        StageView::LoadingConfigs { address: held } => held == address,
        StageView::InUnit { address: held, units, current, phase } => {
            &&& held == address
            &&& phase matches PhaseView::Applying { plan, next } ==> forall|k: int|
                0 <= k < plan.len() ==> ((#[trigger] plan[k]).action matches ActionView::ApplyUpdate { content, .. }
                    ==> content == address)
        },
        StageView::Finished { status } => true,
    }
}

/// A step keeps the address a run works with.
proof fn lemma_step_keeps_address(run: RunView, address: Ipv4Address, event: EventView)
    requires
        run.wf(),
        holds_address(run, address),
    ensures
        holds_address(step_spec(run, event).run, address),
        !(step_spec(run, event).command is ResolveAddress),
        step_spec(run, event).command matches CommandView::UpdateRecord { request } ==> request.content == address,
{
    lemma_step_keeps_consistency(run, event);
    match run.stage {
        StageView::InUnit { address: held, units, current, phase } => {
            match phase {
                PhaseView::ClientReady => {
                    if let EventView::RecordsListed { records } = event {
                        lemma_next_update_is_first(plan_spec(units[current].records, records, address), 0);
                    }
                },
                PhaseView::Applying { plan, next } => {
                    lemma_next_update_is_first(plan, next + 1);
                },
                _ => {},
            }
        },
        _ => {},
    }
}

/// The address resolved at the start of a run is the one every later step
/// works with: the run never asks for the address again, and every update it
/// commands writes that address, whatever events arrive.
pub proof fn lemma_address_is_resolved_once(run: RunView, address: Ipv4Address, later: Seq<EventView>)
    requires
        run.wf(),
        holds_address(run, address),
    ensures
        holds_address(trace_spec(run, later).run, address),
        trace_spec(run, later).run.wf(),
        forall|i: int|
            0 <= i < later.len() ==> {
                let command = #[trigger] trace_spec(run, later).commands[i];
                &&& !(command is ResolveAddress)
                &&& command matches CommandView::UpdateRecord { request } ==> request.content == address
            },
    decreases later.len(),
{
    if later.len() > 0 {
        let earlier = later.drop_last();
        lemma_address_is_resolved_once(run, address, earlier);
        lemma_trace_keeps_consistency(run, earlier);
        lemma_trace_keeps_consistency(run, later);
        let before = trace_spec(run, earlier).run;
        lemma_step_keeps_address(before, address, later.last());
    } else {
        lemma_trace_keeps_consistency(run, later);
    }
}

} // verus!
