//! The status a run ends with accounts for every failure it reported, and
//! for nothing else.

use crate::engine::{plan_spec, PlanEntryView};
use crate::isolation::{lemma_next_update_is_first, lemma_step_keeps_consistency, trace_spec};
use crate::orchestrator::{
    begin_unit_spec, next_update, not_found_reports, resume_plan_spec, start_spec, step_spec, EventView, PhaseView,
    RunView, StageView,
};
use crate::outcome::{ReportView, RunStatus, Tally};
use crate::source::{rejections, ConfigUnitView};
use vstd::prelude::*;

verus! {

/// Some report says that the run cannot go on.
pub open spec fn has_fatal(reports: Seq<ReportView>) -> bool {
    exists|i: int| 0 <= i < reports.len() && (#[trigger] reports[i]).is_fatal()
}

/// Some report says that a unit was given up.
pub open spec fn has_unit_failure(reports: Seq<ReportView>) -> bool {
    exists|i: int| 0 <= i < reports.len() && (#[trigger] reports[i]).is_unit_failure()
}

/// Some report says that a record was not brought up to date.
pub open spec fn has_record_failure(reports: Seq<ReportView>) -> bool {
    exists|i: int| 0 <= i < reports.len() && (#[trigger] reports[i]).is_record_failure()
}

/// The status that a list of reports calls for: the worst thing reported.
pub open spec fn status_of(reports: Seq<ReportView>) -> RunStatus {
    if has_fatal(reports) {
        RunStatus::Fatal
    } else if has_unit_failure(reports) {
        RunStatus::UnitsFailed
    } else if has_record_failure(reports) {
        RunStatus::RecordsFailed
    } else {
        RunStatus::Success
    }
}

/// A tally and a stage say no more and no less than the reports made so far.
pub open spec fn accounts_for(run: RunView, reports: Seq<ReportView>) -> bool {
    &&& run.tally.unit_failed <==> has_unit_failure(reports)
    &&& run.tally.record_failed <==> has_record_failure(reports)
    &&& has_fatal(reports) <==> run.stage == (StageView::Finished { status: RunStatus::Fatal })
    &&& run.stage matches StageView::Finished { status } ==> status == status_of(reports)
}

/// What two lists of reports say one after the other is what either says.
pub proof fn lemma_failures_of_concatenation(first: Seq<ReportView>, second: Seq<ReportView>)
    ensures
        has_fatal(first + second) <==> has_fatal(first) || has_fatal(second),
        has_unit_failure(first + second) <==> has_unit_failure(first) || has_unit_failure(second),
        has_record_failure(first + second) <==> has_record_failure(first) || has_record_failure(second),
{
    let both = first + second;
    assert forall|i: int| 0 <= i < first.len() implies #[trigger] both[i] == first[i] by {}
    assert forall|i: int| 0 <= i < second.len() implies #[trigger] both[first.len() + i] == second[i] by {}
    if has_fatal(first) {
        let i = choose|i: int| 0 <= i < first.len() && (#[trigger] first[i]).is_fatal();
        assert(both[i].is_fatal());
    }
    if has_fatal(second) {
        let i = choose|i: int| 0 <= i < second.len() && (#[trigger] second[i]).is_fatal();
        assert(both[first.len() + i].is_fatal());
    }
    if has_fatal(both) {
        let i = choose|i: int| 0 <= i < both.len() && (#[trigger] both[i]).is_fatal();
        if i < first.len() {
            assert(first[i].is_fatal());
        } else {
            assert(second[i - first.len()].is_fatal());
        }
    }
    if has_unit_failure(first) {
        let i = choose|i: int| 0 <= i < first.len() && (#[trigger] first[i]).is_unit_failure();
        assert(both[i].is_unit_failure());
    }
    if has_unit_failure(second) {
        let i = choose|i: int| 0 <= i < second.len() && (#[trigger] second[i]).is_unit_failure();
        assert(both[first.len() + i].is_unit_failure());
    }
    if has_unit_failure(both) {
        let i = choose|i: int| 0 <= i < both.len() && (#[trigger] both[i]).is_unit_failure();
        if i < first.len() {
            assert(first[i].is_unit_failure());
        } else {
            assert(second[i - first.len()].is_unit_failure());
        }
    }
    if has_record_failure(first) {
        let i = choose|i: int| 0 <= i < first.len() && (#[trigger] first[i]).is_record_failure();
        assert(both[i].is_record_failure());
    }
    if has_record_failure(second) {
        let i = choose|i: int| 0 <= i < second.len() && (#[trigger] second[i]).is_record_failure();
        assert(both[first.len() + i].is_record_failure());
    }
    if has_record_failure(both) {
        let i = choose|i: int| 0 <= i < both.len() && (#[trigger] both[i]).is_record_failure();
        if i < first.len() {
            assert(first[i].is_record_failure());
        } else {
            assert(second[i - first.len()].is_record_failure());
        }
    }
}

/// The reports of the units that could not be parsed are unit failures,
/// one for each such unit.
pub proof fn lemma_rejections_are_unit_failures(units: Seq<ConfigUnitView>)
    ensures
        forall|i: int| 0 <= i < rejections(units).len() ==> (#[trigger] rejections(units)[i]) is UnitFailed,
        rejections(units).len() <= units.len(),
        rejections(units).len() > 0 <==> exists|k: int| 0 <= k < units.len() && (#[trigger] units[k]) is Invalid,
    decreases units.len(),
{
    if units.len() > 0 {
        let earlier = units.drop_last();
        lemma_rejections_are_unit_failures(earlier);
        if exists|k: int| 0 <= k < earlier.len() && (#[trigger] earlier[k]) is Invalid {
            let k = choose|k: int| 0 <= k < earlier.len() && (#[trigger] earlier[k]) is Invalid;
            assert(units[k] is Invalid);
        }
        if units.last() is Invalid {
            assert(units[units.len() - 1] is Invalid);
        }
        if exists|k: int| 0 <= k < units.len() && (#[trigger] units[k]) is Invalid {
            let k = choose|k: int| 0 <= k < units.len() && (#[trigger] units[k]) is Invalid;
            if k < earlier.len() {
                assert(earlier[k] is Invalid);
            }
        }
    }
}

/// One step adds to the tally exactly the failures it reports, and ends the
/// run as fatal exactly when it reports that the run cannot go on.
pub proof fn lemma_step_accounts_for_reports(run: RunView, event: EventView)
    requires
        run.wf(),
    ensures
        ({
            let out = step_spec(run, event);
            &&& out.run.tally.unit_failed <==> run.tally.unit_failed || has_unit_failure(out.reports)
            &&& out.run.tally.record_failed <==> run.tally.record_failed || has_record_failure(out.reports)
            &&& run.stage is Finished ==> out.run == run && out.reports.len() == 0
            &&& !(run.stage is Finished) ==> (has_fatal(out.reports) <==> out.run.stage == (StageView::Finished {
                status: RunStatus::Fatal,
            }))
            &&& !(run.stage is Finished) ==> (out.run.stage matches StageView::Finished { status } ==> status
                == RunStatus::Fatal || status == out.run.tally.status())
        }),
{
    let out = step_spec(run, event);
    match run.stage {
        StageView::ResolvingAddress => {
            if event is AddressUnresolved {
                assert(out.reports[0].is_fatal());
            }
        },
        StageView::LoadingConfigs { address } => {
            match event {
                EventView::ConfigsLoaded { units } => {
                    lemma_rejections_are_unit_failures(units);
                    let rejected = rejections(units);
                    let rest = out.reports.skip(rejected.len() as int);
                    assert(out.reports =~= rejected + rest);
                    lemma_failures_of_concatenation(rejected, rest);
                    if rejected.len() > 0 {
                        assert(rejected[0].is_unit_failure());
                    }
                },
                EventView::ConfigsUnavailable { detail } => {
                    assert(out.reports[0].is_fatal());
                },
                _ => {},
            }
        },
        StageView::InUnit { address, units, current, phase } => {
            match phase {
                PhaseView::Loaded => {
                    if let EventView::ClientFailed { detail } = event {
                        assert(out.reports[0].is_unit_failure());
                    }
                },
                PhaseView::ClientReady => {
                    match event {
                        EventView::RecordsListed { records } => {
                            let plan = plan_spec(units[current].records, records, address);
                            lemma_resume_accounts_for_reports(run, plan, 0, run.tally);
                        },
                        EventView::ListingFailed { detail } => {
                            assert(out.reports[0].is_unit_failure());
                        },
                        _ => {},
                    }
                },
                PhaseView::Applying { plan, next } => {
                    match event {
                        EventView::UpdateSucceeded { hostname, modified_at } => {
                            lemma_resume_accounts_for_reports(run, plan, next + 1, run.tally);
                            let rest = resume_plan_spec(address, units, current, plan, next + 1, run.tally);
                            lemma_failures_of_concatenation(out.reports.take(1), rest.reports);
                            assert(out.reports =~= out.reports.take(1) + rest.reports);
                        },
                        EventView::UpdateFailed { detail } => {
                            let tally = Tally { unit_failed: run.tally.unit_failed, record_failed: true };
                            lemma_resume_accounts_for_reports(run, plan, next + 1, tally);
                            let rest = resume_plan_spec(address, units, current, plan, next + 1, tally);
                            lemma_failures_of_concatenation(out.reports.take(1), rest.reports);
                            assert(out.reports =~= out.reports.take(1) + rest.reports);
                            assert(out.reports[0].is_record_failure());
                        },
                        _ => {},
                    }
                },
            }
        },
        StageView::Finished { status } => {},
    }
}

/// Going on with a plan adds to the tally exactly the records it reports
/// as not found.
proof fn lemma_resume_accounts_for_reports(run: RunView, plan: Seq<PlanEntryView>, from: int, tally: Tally)
    requires
        run.wf(),
        run.stage is InUnit,
        0 <= from <= plan.len(),
    ensures
        ({
            let out = resume_plan_spec(
                run.stage->InUnit_address,
                run.stage->units,
                run.stage->current,
                plan,
                from,
                tally,
            );
            &&& out.run.tally.unit_failed == tally.unit_failed
            &&& !has_unit_failure(out.reports)
            &&& !has_fatal(out.reports)
            &&& out.run.tally.record_failed <==> tally.record_failed || has_record_failure(out.reports)
            &&& out.run.stage matches StageView::Finished { status } ==> status == out.run.tally.status()
        }),
{
    let address = run.stage->InUnit_address;
    let units = run.stage->units;
    let current = run.stage->current;
    let out = resume_plan_spec(address, units, current, plan, from, tally);
    let to = next_update(plan, from);
    lemma_next_update_is_first(plan, from);
    let skipped = not_found_reports(units[current].source, plan, from, to);
    assert forall|i: int| 0 <= i < skipped.len() implies (#[trigger] skipped[i]).is_record_failure() by {}
    if from < to {
        assert(skipped[0].is_record_failure());
    }
    if to < plan.len() {
        assert(out.reports == skipped);
    } else {
        let done = skipped.push(ReportView::UnitDone { source: units[current].source });
        let after = Tally { unit_failed: tally.unit_failed, record_failed: tally.record_failed || from < to };
        let rest = begin_unit_spec(address, units, current + 1, after);
        assert(out.reports == done + rest.reports);
        lemma_failures_of_concatenation(done, rest.reports);
        lemma_failures_of_concatenation(skipped, seq![ReportView::UnitDone { source: units[current].source }]);
        assert(done =~= skipped + seq![ReportView::UnitDone { source: units[current].source }]);
    }
}

/// Over any sequence of events, the tally and the stage of a run that
/// started consistent with its reports stay consistent with them.
pub proof fn lemma_trace_accounts_for_reports(events: Seq<EventView>)
    ensures
        trace_spec(start_spec().run, events).run.wf(),
        accounts_for(trace_spec(start_spec().run, events).run, trace_spec(start_spec().run, events).reports),
    decreases events.len(),
{
    let begun = start_spec().run;
    if events.len() > 0 {
        let earlier = events.drop_last();
        lemma_trace_accounts_for_reports(earlier);
        let before = trace_spec(begun, earlier);
        let step = step_spec(before.run, events.last());
        lemma_step_keeps_consistency(before.run, events.last());
        lemma_step_accounts_for_reports(before.run, events.last());
        lemma_failures_of_concatenation(before.reports, step.reports);
        if before.run.stage is Finished {
            assert(before.reports + step.reports =~= before.reports);
        }
    }
}

/// The status a run ends with reflects what it reported: fatal when it
/// reported that it could not go on; otherwise that units failed when any
/// unit was given up; otherwise that records failed when any record was not
/// found or not updated; and success only when no failure of any kind was
/// reported.
pub proof fn lemma_status_reflects_reports(events: Seq<EventView>)
    ensures
        ({
            let trace = trace_spec(start_spec().run, events);
            trace.run.stage matches StageView::Finished { status } ==> {
                &&& status == status_of(trace.reports)
                &&& status == RunStatus::Success <==> forall|i: int|
                    0 <= i < trace.reports.len() ==> {
                        &&& !(#[trigger] trace.reports[i]).is_fatal()
                        &&& !trace.reports[i].is_unit_failure()
                        &&& !trace.reports[i].is_record_failure()
                    }
            }
        }),
{
    lemma_trace_accounts_for_reports(events);
}

} // verus!
