//! The reconciliation engine: from the records wanted in a zone, the records
//! the provider reports for it and the address to point at, to a plan that
//! names, for each wanted record, the provider record to rewrite or the reason
//! to leave it alone.
//!
//! Matching is exact, case-sensitive equality of hostnames, and the first
//! matching provider record wins. A matched record is always rewritten,
//! whether or not it already holds the target address. The engine performs
//! no I/O.

use crate::model::{views, DesiredRecord, DesiredRecordView, Ipv4Address, RemoteRecord, RemoteRecordView};
use vstd::prelude::*;

verus! {

/// Why a wanted record is left alone.
#[derive(Clone, Copy, Debug, PartialEq, Eq, Structural)]
pub enum SkipReason {
    /// No provider record has the wanted hostname.
    NotFound,
}

/// What to do about one wanted record.
#[derive(Clone, Debug, PartialEq, Eq)]
pub enum Action {
    /// Rewrite the provider record `record_id` to hold `content`.
    ApplyUpdate {
        record_id: String,
        /// The address the record must point at after the update.
        content: Ipv4Address,
        /// When the provider had last modified the record before this run.
        previous_modified_at: i64,
    },
    /// Leave the record alone.
    Skip { reason: SkipReason },
}

/// Mathematical model of an [`Action`].
pub enum ActionView {
    ApplyUpdate { record_id: Seq<char>, content: Ipv4Address, previous_modified_at: i64 },
    Skip { reason: SkipReason },
}

impl View for Action {
    type V = ActionView;

    open spec fn view(&self) -> ActionView {
        match *self {
            Action::ApplyUpdate { record_id, content, previous_modified_at } => ActionView::ApplyUpdate {
                record_id: record_id@,
                content,
                previous_modified_at,
            },
            Action::Skip { reason } => ActionView::Skip { reason },
        }
    }
}

/// A wanted record together with what the engine decided about it.
#[derive(Clone, Debug, PartialEq, Eq)]
pub struct PlanEntry {
    pub desired: DesiredRecord,
    pub action: Action,
}

/// Mathematical model of a [`PlanEntry`].
pub struct PlanEntryView {
    pub desired: DesiredRecordView,
    pub action: ActionView,
}

impl View for PlanEntry {
    type V = PlanEntryView;

    open spec fn view(&self) -> PlanEntryView {
        PlanEntryView { desired: self.desired@, action: self.action@ }
    }
}

/// One mutation to send to the provider.
#[derive(Clone, Debug, PartialEq, Eq)]
pub struct UpdateRequest {
    pub zone_id: String,
    pub record_id: String,
    pub hostname: String,
    pub content: Ipv4Address,
    pub proxied: bool,
}

/// Mathematical model of an [`UpdateRequest`].
pub struct UpdateRequestView {
    pub zone_id: Seq<char>,
    pub record_id: Seq<char>,
    pub hostname: Seq<char>,
    pub content: Ipv4Address,
    pub proxied: bool,
}

impl View for UpdateRequest {
    type V = UpdateRequestView;

    open spec fn view(&self) -> UpdateRequestView {
        UpdateRequestView {
            zone_id: self.zone_id@,
            record_id: self.record_id@,
            hostname: self.hostname@,
            content: self.content,
            proxied: self.proxied,
        }
    }
}

/// Some record of `remote` has exactly this hostname.
pub open spec fn has_match(remote: Seq<RemoteRecordView>, hostname: Seq<char>) -> bool {
    exists|i: int| 0 <= i < remote.len() && (#[trigger] remote[i]).hostname == hostname
}

/// `i` is the position of the first record of `remote` with exactly this hostname.
pub open spec fn is_first_match(remote: Seq<RemoteRecordView>, hostname: Seq<char>, i: int) -> bool {
    &&& 0 <= i < remote.len()
    &&& remote[i].hostname == hostname
    &&& forall|j: int| 0 <= j < i ==> (#[trigger] remote[j]).hostname != hostname
}

/// The position of the first record of `remote` with exactly this hostname, if any.
pub open spec fn first_match(remote: Seq<RemoteRecordView>, hostname: Seq<char>) -> Option<int> {
    if exists|i: int| is_first_match(remote, hostname, i) {
        Some(choose|i: int| is_first_match(remote, hostname, i))
    } else {
        None
    }
}

/// The action the matching policy prescribes for one wanted record.
pub open spec fn action_spec(
    desired: DesiredRecordView,
    remote: Seq<RemoteRecordView>,
    address: Ipv4Address,
) -> ActionView {
    match first_match(remote, desired.hostname) {
        Some(i) => ActionView::ApplyUpdate {
            record_id: remote[i].id,
            content: address,
            previous_modified_at: remote[i].modified_at,
        },
        None => ActionView::Skip { reason: SkipReason::NotFound },
    }
}

/// The plan for a zone: one entry per wanted record, in the order wanted.
pub open spec fn plan_spec(
    desired: Seq<DesiredRecordView>,
    remote: Seq<RemoteRecordView>,
    address: Ipv4Address,
) -> Seq<PlanEntryView> {
    Seq::new(
        desired.len(),
        |k: int| PlanEntryView { desired: desired[k], action: action_spec(desired[k], remote, address) },
    )
}

/// `entry` pairs its wanted record with the action the matching policy allows:
/// an update of the first provider record with that hostname, or a skip when
/// no provider record has it.
pub open spec fn follows_policy(
    entry: PlanEntryView,
    remote: Seq<RemoteRecordView>,
    address: Ipv4Address,
) -> bool {
    match entry.action {
        ActionView::ApplyUpdate { record_id, content, previous_modified_at } => {
            &&& content == address
            &&& exists|i: int|
                {
                    &&& #[trigger] is_first_match(remote, entry.desired.hostname, i)
                    &&& remote[i].id == record_id
                    &&& remote[i].modified_at == previous_modified_at
                }
        },
        ActionView::Skip { reason } => {
            &&& reason == SkipReason::NotFound
            &&& !has_match(remote, entry.desired.hostname)
        },
    }
}

/// `plan` answers `desired` record by record, each entry following the policy.
pub open spec fn is_plan(
    plan: Seq<PlanEntryView>,
    desired: Seq<DesiredRecordView>,
    remote: Seq<RemoteRecordView>,
    address: Ipv4Address,
) -> bool {
    &&& plan.len() == desired.len()
    &&& forall|k: int|
        0 <= k < plan.len() ==> (#[trigger] plan[k]).desired == desired[k] && follows_policy(
            plan[k],
            remote,
            address,
        )
}

/// The request that carries out a plan entry in a zone, if the entry asks for one.
pub open spec fn request_spec(zone_id: Seq<char>, entry: PlanEntryView) -> Option<UpdateRequestView> {
    match entry.action {
        ActionView::ApplyUpdate { record_id, content, previous_modified_at } => Some(
            UpdateRequestView {
                zone_id,
                record_id,
                hostname: entry.desired.hostname,
                content,
                proxied: entry.desired.proxied,
            },
        ),
        ActionView::Skip { reason } => None,
    }
}

/// A position that is a first match is the first match.
pub proof fn lemma_first_match_is_unique(remote: Seq<RemoteRecordView>, hostname: Seq<char>, i: int)
    requires
        is_first_match(remote, hostname, i),
    ensures
        first_match(remote, hostname) == Some(i),
{
    let chosen = choose|k: int| is_first_match(remote, hostname, k);
    assert(is_first_match(remote, hostname, chosen));
    if chosen < i {
        assert(remote[chosen].hostname != hostname);
    } else if i < chosen {
        assert(remote[i].hostname != hostname);
    }
}

/// Wherever a hostname occurs among the provider's records, it has a first occurrence.
pub proof fn lemma_match_has_first(remote: Seq<RemoteRecordView>, hostname: Seq<char>, i: int)
    requires
        0 <= i < remote.len(),
        remote[i].hostname == hostname,
    ensures
        first_match(remote, hostname) is Some,
        is_first_match(remote, hostname, first_match(remote, hostname).unwrap()),
        first_match(remote, hostname).unwrap() <= i,
    decreases i,
{
    if forall|j: int| 0 <= j < i ==> (#[trigger] remote[j]).hostname != hostname {
        assert(is_first_match(remote, hostname, i));
        lemma_first_match_is_unique(remote, hostname, i);
    } else {
        let j = choose|j: int| 0 <= j < i && (#[trigger] remote[j]).hostname == hostname;
        lemma_match_has_first(remote, hostname, j);
    }
}

/// The first match is found exactly when some record has the hostname, and it
/// is then the least position holding it.
pub proof fn lemma_first_match_characterised(remote: Seq<RemoteRecordView>, hostname: Seq<char>)
    ensures
        first_match(remote, hostname) is Some <==> has_match(remote, hostname),
        first_match(remote, hostname) matches Some(i) ==> is_first_match(remote, hostname, i),
{
    if has_match(remote, hostname) {
        let i = choose|i: int| 0 <= i < remote.len() && (#[trigger] remote[i]).hostname == hostname;
        lemma_match_has_first(remote, hostname, i);
    }
    if first_match(remote, hostname) is Some {
        let i = first_match(remote, hostname).unwrap();
        assert(is_first_match(remote, hostname, i));
        assert(remote[i].hostname == hostname);
    }
}

/// A wanted record whose hostname occurs exactly once among the provider's
/// records is planned as an update of that very record.
pub proof fn lemma_single_match_is_updated(
    desired: Seq<DesiredRecordView>,
    remote: Seq<RemoteRecordView>,
    address: Ipv4Address,
    k: int,
    i: int,
)
    requires
        0 <= k < desired.len(),
        0 <= i < remote.len(),
        remote[i].hostname == desired[k].hostname,
        forall|j: int| 0 <= j < remote.len() && j != i ==> (#[trigger] remote[j]).hostname != desired[k].hostname,
    ensures
        plan_spec(desired, remote, address)[k] == (PlanEntryView {
            desired: desired[k],
            action: ActionView::ApplyUpdate {
                record_id: remote[i].id,
                content: address,
                previous_modified_at: remote[i].modified_at,
            },
        }),
{
    assert(is_first_match(remote, desired[k].hostname, i));
    lemma_first_match_is_unique(remote, desired[k].hostname, i);
}

/// Where several provider records share a wanted hostname, the plan updates
/// the first of them.
pub proof fn lemma_first_duplicate_wins(
    desired: Seq<DesiredRecordView>,
    remote: Seq<RemoteRecordView>,
    address: Ipv4Address,
    k: int,
    i: int,
)
    requires
        0 <= k < desired.len(),
        is_first_match(remote, desired[k].hostname, i),
    ensures
        plan_spec(desired, remote, address)[k].action == (ActionView::ApplyUpdate {
            record_id: remote[i].id,
            content: address,
            previous_modified_at: remote[i].modified_at,
        }),
{
    lemma_first_match_is_unique(remote, desired[k].hostname, i);
}

/// A wanted record whose hostname no provider record has is planned as a
/// skip, and no request is derived from it.
pub proof fn lemma_absent_hostname_is_skipped(
    desired: Seq<DesiredRecordView>,
    remote: Seq<RemoteRecordView>,
    address: Ipv4Address,
    zone_id: Seq<char>,
    k: int,
)
    requires
        0 <= k < desired.len(),
        forall|j: int| 0 <= j < remote.len() ==> (#[trigger] remote[j]).hostname != desired[k].hostname,
    ensures
        plan_spec(desired, remote, address)[k] == (PlanEntryView {
            desired: desired[k],
            action: ActionView::Skip { reason: SkipReason::NotFound },
        }),
        request_spec(zone_id, plan_spec(desired, remote, address)[k]) is None,
{
    lemma_first_match_characterised(remote, desired[k].hostname);
}

/// Every request derived from a plan rewrites a record the provider reported
/// under the same hostname: no hostname absent from the provider's list is
/// ever the subject of an update.
pub proof fn lemma_requests_name_reported_records(
    desired: Seq<DesiredRecordView>,
    remote: Seq<RemoteRecordView>,
    address: Ipv4Address,
    zone_id: Seq<char>,
    k: int,
)
    requires
        0 <= k < desired.len(),
        request_spec(zone_id, plan_spec(desired, remote, address)[k]) is Some,
    ensures
        ({
            let request = request_spec(zone_id, plan_spec(desired, remote, address)[k]).unwrap();
            &&& request.zone_id == zone_id
            &&& request.hostname == desired[k].hostname
            &&& request.proxied == desired[k].proxied
            &&& request.content == address
            &&& exists|i: int|
                #[trigger] is_first_match(remote, request.hostname, i) && remote[i].id == request.record_id
        }),
{
    lemma_first_match_characterised(remote, desired[k].hostname);
    let i = first_match(remote, desired[k].hostname).unwrap();
    assert(is_first_match(remote, desired[k].hostname, i));
}

/// The plan the engine computes follows the matching policy, and it is the
/// only sequence that does: planning the same inputs again gives the same plan.
pub proof fn lemma_plan_is_determined(
    plan: Seq<PlanEntryView>,
    desired: Seq<DesiredRecordView>,
    remote: Seq<RemoteRecordView>,
    address: Ipv4Address,
)
    ensures
        is_plan(plan, desired, remote, address) <==> plan == plan_spec(desired, remote, address),
{
    let computed = plan_spec(desired, remote, address);
    assert forall|k: int| 0 <= k < computed.len() implies follows_policy(
        #[trigger] computed[k],
        remote,
        address,
    ) by {
        lemma_first_match_characterised(remote, desired[k].hostname);
        if first_match(remote, desired[k].hostname) is Some {
            let i = first_match(remote, desired[k].hostname).unwrap();
            assert(is_first_match(remote, computed[k].desired.hostname, i));
        }
    }
    assert(is_plan(computed, desired, remote, address));
    if is_plan(plan, desired, remote, address) {
        assert forall|k: int| 0 <= k < plan.len() implies plan[k] == computed[k] by {
            let entry = plan[k];
            assert(entry.desired == desired[k] && follows_policy(entry, remote, address));
            lemma_first_match_characterised(remote, desired[k].hostname);
            match entry.action {
                ActionView::ApplyUpdate { record_id, content, previous_modified_at } => {
                    let i = choose|i: int|
                        {
                            &&& #[trigger] is_first_match(remote, entry.desired.hostname, i)
                            &&& remote[i].id == record_id
                            &&& remote[i].modified_at == previous_modified_at
                        };
                    lemma_first_match_is_unique(remote, desired[k].hostname, i);
                },
                ActionView::Skip { reason } => {},
            }
        }
        assert(plan =~= computed);
    }
}

/// Planning has no hidden state: any two plans that follow the matching
/// policy for the same wanted records, provider records and address are the
/// same plan.
pub proof fn lemma_plan_is_repeatable(
    first: Seq<PlanEntryView>,
    second: Seq<PlanEntryView>,
    desired: Seq<DesiredRecordView>,
    remote: Seq<RemoteRecordView>,
    address: Ipv4Address,
)
    requires
        is_plan(first, desired, remote, address),
        is_plan(second, desired, remote, address),
    ensures
        first == second,
{
    lemma_plan_is_determined(first, desired, remote, address);
    lemma_plan_is_determined(second, desired, remote, address);
}

/// Finds the first provider record with exactly this hostname.
pub fn find_record(remote: &Vec<RemoteRecord>, hostname: &String) -> (found: Option<usize>)
    ensures
        match found {
            Some(i) => first_match(views(remote@), hostname@) == Some(i as int),
            None => first_match(views(remote@), hostname@) is None,
        },
{
    let ghost records = views(remote@);
    let mut i: usize = 0;
    while i < remote.len()
        invariant
            i <= remote.len(),
            records == views(remote@),
            forall|j: int| 0 <= j < i ==> (#[trigger] records[j]).hostname != hostname@,
        decreases remote.len() - i,
    {
        if remote[i].hostname == *hostname {
            proof {
                assert(records[i as int] == remote@[i as int]@);
                assert(is_first_match(records, hostname@, i as int));
                lemma_first_match_is_unique(records, hostname@, i as int);
            }
            return Some(i);
        }
        proof {
            assert(records[i as int] == remote@[i as int]@);
        }
        i = i + 1;
    }
    proof {
        lemma_first_match_characterised(records, hostname@);
    }
    None
}

/// Decides what to do about one wanted record.
pub fn decide(desired: &DesiredRecord, remote: &Vec<RemoteRecord>, address: Ipv4Address) -> (action: Action)
    ensures
        action@ == action_spec(desired@, views(remote@), address),
{
    match find_record(remote, &desired.hostname) {
        Some(i) => {
            assert(views(remote@)[i as int] == remote@[i as int]@);
            Action::ApplyUpdate {
                record_id: remote[i].id.clone(),
                content: address,
                previous_modified_at: remote[i].modified_at,
            }
        },
        None => Action::Skip { reason: SkipReason::NotFound },
    }
}

/// Computes the plan for a zone: for each wanted record, in order, an update
/// of the first provider record with the same hostname, or a skip when there
/// is none.
pub fn plan(desired: &Vec<DesiredRecord>, remote: &Vec<RemoteRecord>, address: Ipv4Address) -> (entries: Vec<
    PlanEntry,
>)
    ensures
        views(entries@) == plan_spec(views(desired@), views(remote@), address),
        is_plan(views(entries@), views(desired@), views(remote@), address),
{
    let ghost wanted = views(desired@);
    let ghost reported = views(remote@);
    let mut entries: Vec<PlanEntry> = Vec::new();
    let mut k: usize = 0;
    while k < desired.len()
        invariant
            k <= desired.len(),
            wanted == views(desired@),
            reported == views(remote@),
            entries.len() == k,
            forall|j: int| 0 <= j < k ==> (#[trigger] entries@[j])@ == plan_spec(wanted, reported, address)[j],
        decreases desired.len() - k,
    {
        let action = decide(&desired[k], remote, address);
        let entry = PlanEntry { desired: desired[k].duplicate(), action };
        proof {
            assert(wanted[k as int] == desired@[k as int]@);
        }
        entries.push(entry);
        k = k + 1;
    }
    proof {
        assert(views(entries@) =~= plan_spec(wanted, reported, address));
        lemma_plan_is_determined(views(entries@), wanted, reported, address);
    }
    entries
}

/// Builds the request that carries out a plan entry in a zone; a skipped
/// entry yields none.
pub fn update_request(zone_id: &String, entry: &PlanEntry) -> (request: Option<UpdateRequest>)
    ensures
        match request {
            Some(r) => request_spec(zone_id@, entry@) == Some(r@),
            None => request_spec(zone_id@, entry@) is None,
        },
{
    match &entry.action {
        Action::ApplyUpdate { record_id, content, .. } => Some(
            UpdateRequest {
                zone_id: zone_id.clone(),
                record_id: record_id.clone(),
                hostname: entry.desired.hostname.clone(),
                content: *content,
                proxied: entry.desired.proxied,
            },
        ),
        Action::Skip { .. } => None,
    }
}

} // verus!
