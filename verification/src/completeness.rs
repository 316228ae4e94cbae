//! Every wanted record of a unit whose records were listed is reported
//! exactly once, in the order wanted, whatever the provider answers to the
//! updates; then the unit is reported as done.

use crate::engine::{plan_spec, request_spec, ActionView, PlanEntryView};
use crate::isolation::{lemma_next_update_is_first, lemma_step_keeps_consistency, trace_spec};
use crate::model::RemoteRecordView;
use crate::orchestrator::{
    begin_unit_spec, next_update, not_found_report, not_found_reports, resume_plan_spec, step_spec, CommandView,
    EventView, PhaseView, RunView, StageView,
};
use crate::outcome::{updated_outcome_spec, ReportView, Tally, UpdateOutcomeView, UpdateResultView};
use vstd::prelude::*;

verus! {

/// The event answers an update.
pub open spec fn is_answer(event: EventView) -> bool {
    event is UpdateSucceeded || event is UpdateFailed
}

/// How many of the first `upto` entries of a plan ask for an update.
pub open spec fn updates_before(plan: Seq<PlanEntryView>, upto: int) -> int
    decreases upto,
{
    if upto <= 0 {
        0
    } else {
        updates_before(plan, upto - 1) + if plan[upto - 1].action is ApplyUpdate {
            1int
        } else {
            0int
        }
    }
}

/// What is reported of the entry at `position`: that it was not found, or
/// what the provider answered to its update. The answer to an entry's
/// update is the one at the place the entry has among the entries that ask
/// for an update.
pub open spec fn entry_report(
    source: Seq<char>,
    plan: Seq<PlanEntryView>,
    answers: Seq<EventView>,
    position: int,
) -> ReportView {
    match plan[position].action {
        ActionView::Skip { reason } => not_found_report(source, plan, position),
        ActionView::ApplyUpdate { record_id, content, previous_modified_at } => ReportView::Record {
            source,
            outcome: match answers[updates_before(plan, position)] {
                EventView::UpdateSucceeded { hostname, modified_at } => updated_outcome_spec(
                    hostname,
                    previous_modified_at,
                    modified_at,
                ),
                EventView::UpdateFailed { detail } => UpdateOutcomeView {
                    hostname: plan[position].desired.hostname,
                    result: UpdateResultView::ProviderError { detail },
                },
                _ => UpdateOutcomeView {
                    hostname: plan[position].desired.hostname,
                    result: UpdateResultView::NotFound,
                },
            },
        },
    }
}

/// One report for each of the first `upto` entries of a plan, in order.
pub open spec fn entry_reports(
    source: Seq<char>,
    plan: Seq<PlanEntryView>,
    answers: Seq<EventView>,
    upto: int,
) -> Seq<ReportView> {
    Seq::new(upto as nat, |position: int| entry_report(source, plan, answers, position))
}

/// The request for each entry of a plan that asks for an update, in order.
pub open spec fn requests_before(zone_id: Seq<char>, plan: Seq<PlanEntryView>, upto: int) -> Seq<CommandView>
    decreases upto,
{
    if upto <= 0 {
        Seq::empty()
    } else {
        match request_spec(zone_id, plan[upto - 1]) {
            Some(request) => requests_before(zone_id, plan, upto - 1).push(CommandView::UpdateRecord { request }),
            None => requests_before(zone_id, plan, upto - 1),
        }
    }
}

/// Entries that ask for nothing add nothing to the count of updates.
proof fn lemma_skipped_entries_ask_for_nothing(zone_id: Seq<char>, plan: Seq<PlanEntryView>, from: int, to: int)
    requires
        0 <= from <= to <= plan.len(),
        forall|j: int| from <= j < to ==> (#[trigger] plan[j]).action is Skip,
    ensures
        updates_before(plan, to) == updates_before(plan, from),
        requests_before(zone_id, plan, to) == requests_before(zone_id, plan, from),
    decreases to - from,
{
    if from < to {
        assert(plan[to - 1].action is Skip);
        lemma_skipped_entries_ask_for_nothing(zone_id, plan, from, to - 1);
    }
}

/// The count of updates grows with the number of entries counted, and no
/// faster.
proof fn lemma_updates_before_grows(plan: Seq<PlanEntryView>, from: int, to: int)
    requires
        0 <= from <= to,
    ensures
        updates_before(plan, from) <= updates_before(plan, to) <= updates_before(plan, from) + (to - from),
    decreases to,
{
    if from < to {
        lemma_updates_before_grows(plan, from, to - 1);
    }
}

/// The requests counted are as many as the updates counted.
proof fn lemma_requests_are_counted(zone_id: Seq<char>, plan: Seq<PlanEntryView>, upto: int)
    ensures
        requests_before(zone_id, plan, upto).len() == updates_before(plan, upto),
        updates_before(plan, upto) >= 0,
    decreases upto,
{
    if upto > 0 {
        lemma_requests_are_counted(zone_id, plan, upto - 1);
    }
}

/// Where a unit stands after its records were listed and the first
/// `answered` updates were answered.
pub open spec fn unit_progress(
    run: RunView,
    plan: Seq<PlanEntryView>,
    answers: Seq<EventView>,
    answered: int,
    reached: RunView,
    reports: Seq<ReportView>,
    commands: Seq<CommandView>,
) -> bool {
    let units = run.stage->units;
    let current = run.stage->current;
    let unit = units[current];
    let address = run.stage->InUnit_address;
    &&& commands.len() == answered + 1
    &&& reached.tally.unit_failed == run.tally.unit_failed
    &&& if answered < updates_before(plan, plan.len() as int) {
        let next = reached.stage->phase->next;
        &&& reached.stage == (StageView::InUnit {
            address,
            units,
            current,
            phase: PhaseView::Applying { plan, next },
        })
        &&& 0 <= next < plan.len()
        &&& plan[next].action is ApplyUpdate
        &&& updates_before(plan, next) == answered
        &&& reports == entry_reports(unit.source, plan, answers, next)
        &&& commands == requests_before(unit.zone_id, plan, next + 1)
    } else {
        let rest = begin_unit_spec(address, units, current + 1, reached.tally);
        &&& reached == rest.run
        &&& reports == entry_reports(unit.source, plan, answers, plan.len() as int).push(
            ReportView::UnitDone { source: unit.source },
        ) + rest.reports
        &&& commands == requests_before(unit.zone_id, plan, plan.len() as int).push(rest.command)
    }
}

/// Going on with a plan from an entry reports the entries it passes, one
/// report each, and reaches the next update or the end of the unit.
proof fn lemma_resume_reports_entries(
    run: RunView,
    plan: Seq<PlanEntryView>,
    answers: Seq<EventView>,
    from: int,
    tally: Tally,
    earlier: Seq<ReportView>,
    asked: Seq<CommandView>,
)
    requires
        run.wf(),
        run.stage is InUnit,
        0 <= from <= plan.len(),
        0 <= updates_before(plan, from) <= answers.len(),
        answers.len() == updates_before(plan, plan.len() as int),
        tally.unit_failed == run.tally.unit_failed,
        earlier == entry_reports(run.stage->units[run.stage->current].source, plan, answers, from),
        asked == requests_before(run.stage->units[run.stage->current].zone_id, plan, from),
    ensures
        ({
            let out = resume_plan_spec(
                run.stage->InUnit_address,
                run.stage->units,
                run.stage->current,
                plan,
                from,
                tally,
            );
            unit_progress(
                run,
                plan,
                answers,
                updates_before(plan, from),
                out.run,
                earlier + out.reports,
                asked.push(out.command),
            )
        }),
{
    let address = run.stage->InUnit_address;
    let units = run.stage->units;
    let current = run.stage->current;
    let unit = units[current];
    let out = resume_plan_spec(address, units, current, plan, from, tally);
    let to = next_update(plan, from);
    lemma_next_update_is_first(plan, from);
    lemma_skipped_entries_ask_for_nothing(unit.zone_id, plan, from, to);
    lemma_requests_are_counted(unit.zone_id, plan, from);
    let skipped = not_found_reports(unit.source, plan, from, to);
    assert(earlier + skipped =~= entry_reports(unit.source, plan, answers, to));
    if to < plan.len() {
        lemma_updates_before_grows(plan, to + 1, plan.len() as int);
        assert(updates_before(plan, to + 1) == updates_before(plan, to) + 1);
        assert(earlier + out.reports =~= entry_reports(unit.source, plan, answers, to));
        assert(asked.push(out.command) =~= requests_before(unit.zone_id, plan, to + 1));
    } else {
        let after = Tally { unit_failed: tally.unit_failed, record_failed: tally.record_failed || from < to };
        let rest = begin_unit_spec(address, units, current + 1, after);
        assert(out.run.tally == after);
        assert(earlier + out.reports =~= entry_reports(unit.source, plan, answers, plan.len() as int).push(
            ReportView::UnitDone { source: unit.source },
        ) + rest.reports);
    }
}

/// Where a unit stands after its records were listed and some of its
/// updates were answered.
proof fn lemma_unit_progresses(
    run: RunView,
    records: Seq<RemoteRecordView>,
    answers: Seq<EventView>,
    answered: int,
)
    requires
        run.wf(),
        run.stage is InUnit,
        run.stage->phase is ClientReady,
        forall|i: int| 0 <= i < answers.len() ==> is_answer(#[trigger] answers[i]),
        answers.len() == updates_before(
            plan_spec(run.stage->units[run.stage->current].records, records, run.stage->InUnit_address),
            run.stage->units[run.stage->current].records.len() as int,
        ),
        0 <= answered <= answers.len(),
    ensures
        ({
            let plan = plan_spec(run.stage->units[run.stage->current].records, records, run.stage->InUnit_address);
            let trace = trace_spec(run, seq![EventView::RecordsListed { records }] + answers.take(answered));
            &&& trace.run.wf()
            &&& unit_progress(run, plan, answers, answered, trace.run, trace.reports, trace.commands)
        }),
    decreases answered,
{
    let address = run.stage->InUnit_address;
    let units = run.stage->units;
    let current = run.stage->current;
    let unit = units[current];
    let plan = plan_spec(unit.records, records, address);
    let listed = EventView::RecordsListed { records };
    let events = seq![listed] + answers.take(answered);
    if answered == 0 {
        assert(events.drop_last() =~= Seq::<EventView>::empty());
        assert(events.last() == listed);
        let out = step_spec(run, listed);
        lemma_step_keeps_consistency(run, listed);
        let none = entry_reports(unit.source, plan, answers, 0);
        assert(none =~= Seq::<ReportView>::empty());
        lemma_requests_are_counted(unit.zone_id, plan, plan.len() as int);
        lemma_resume_reports_entries(run, plan, answers, 0, run.tally, none, Seq::empty());
        assert(none + out.reports =~= out.reports);
        reveal_with_fuel(trace_spec, 2);
        assert(trace_spec(run, events.drop_last()).run == run);
        assert(trace_spec(run, events).reports =~= out.reports);
        assert(trace_spec(run, events).commands =~= Seq::<CommandView>::empty().push(out.command));
    } else {
        let answer = answers[answered - 1];
        let earlier = seq![listed] + answers.take(answered - 1);
        assert(events.drop_last() =~= earlier);
        assert(events.last() == answer);
        assert(is_answer(answer));
        lemma_unit_progresses(run, records, answers, answered - 1);
        let before = trace_spec(run, earlier);
        let next = before.run.stage->phase->next;
        let out = step_spec(before.run, answer);
        lemma_step_keeps_consistency(before.run, answer);
        let own = entry_report(unit.source, plan, answers, next);
        let so_far = entry_reports(unit.source, plan, answers, next);
        assert(so_far.push(own) =~= entry_reports(unit.source, plan, answers, next + 1));
        let tally = if answer is UpdateFailed {
            Tally { unit_failed: before.run.tally.unit_failed, record_failed: true }
        } else {
            before.run.tally
        };
        let rest = resume_plan_spec(address, units, current, plan, next + 1, tally);
        assert(out.reports =~= seq![own] + rest.reports);
        lemma_resume_reports_entries(
            run,
            plan,
            answers,
            next + 1,
            tally,
            so_far.push(own),
            before.commands,
        );
        assert(before.reports + out.reports =~= so_far.push(own) + rest.reports);
    }
}

/// Every wanted record of a unit is answered exactly once. After the
/// provider listed the unit's records and answered each update the run
/// commanded, with success or failure in any mix, the run has made one report
/// for each wanted record, in the order wanted, then reported the unit as
/// done and turned to the next unit. It commanded one update for each entry
/// that asked for one, in order, and gave up no unit on the way.
pub proof fn lemma_listed_unit_reports_every_record_once(
    run: RunView,
    records: Seq<RemoteRecordView>,
    answers: Seq<EventView>,
)
    requires
        run.wf(),
        run.stage is InUnit,
        run.stage->phase is ClientReady,
        forall|i: int| 0 <= i < answers.len() ==> is_answer(#[trigger] answers[i]),
        answers.len() == updates_before(
            plan_spec(run.stage->units[run.stage->current].records, records, run.stage->InUnit_address),
            run.stage->units[run.stage->current].records.len() as int,
        ),
    ensures
        ({
            let address = run.stage->InUnit_address;
            let units = run.stage->units;
            let current = run.stage->current;
            let unit = units[current];
            let plan = plan_spec(unit.records, records, address);
            let trace = trace_spec(run, seq![EventView::RecordsListed { records }] + answers);
            let rest = begin_unit_spec(address, units, current + 1, trace.run.tally);
            let reported = entry_reports(unit.source, plan, answers, plan.len() as int);
            &&& reported.len() == unit.records.len()
            &&& forall|k: int|
                0 <= k < reported.len() ==> {
                    &&& (#[trigger] reported[k]) is Record
                    &&& reported[k]->Record_source == unit.source
                    &&& reported[k]->outcome.result is Updated || reported[k]->outcome.hostname
                        == unit.records[k].hostname
                }
            &&& trace.reports == reported.push(ReportView::UnitDone { source: unit.source }) + rest.reports
            &&& trace.commands == requests_before(unit.zone_id, plan, plan.len() as int).push(rest.command)
            &&& trace.run == rest.run
            &&& trace.run.tally.unit_failed == run.tally.unit_failed
        }),
{
    let plan = plan_spec(run.stage->units[run.stage->current].records, records, run.stage->InUnit_address);
    lemma_unit_progresses(run, records, answers, answers.len() as int);
    assert(answers.take(answers.len() as int) =~= answers);
}

} // verus!
