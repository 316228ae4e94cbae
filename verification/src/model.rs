//! The records an operator wants and the records a provider reports.
//!
//! Every executable type has a view: the same data with strings as `Seq<char>`
//! and vectors as `Seq`. Contracts throughout the crate are stated over views.

use vstd::prelude::*;

verus! {

/// The views of the elements of a sequence, in order.
pub open spec fn views<T: View>(items: Seq<T>) -> Seq<T::V> {
    items.map_values(|item: T| item@)
}

/// An IPv4 address as its four octets, most significant first.
#[derive(Clone, Copy, Debug, PartialEq, Eq, Structural)]
pub struct Ipv4Address(pub u8, pub u8, pub u8, pub u8);

/// One host record the operator wants to keep pointed at the current address.
///
/// It carries no address: the target address is resolved once per run and
/// applies to every record of every configuration unit.
#[derive(Clone, Debug, PartialEq, Eq)]
pub struct DesiredRecord {
    pub hostname: String,
    pub proxied: bool,
}

/// Mathematical model of a [`DesiredRecord`].
pub struct DesiredRecordView {
    pub hostname: Seq<char>,
    pub proxied: bool,
}

impl View for DesiredRecord {
    type V = DesiredRecordView;

    open spec fn view(&self) -> DesiredRecordView {
        DesiredRecordView { hostname: self.hostname@, proxied: self.proxied }
    }
}

impl DesiredRecord {
    /// An independent copy of this record.
    pub fn duplicate(&self) -> (copy: DesiredRecord)
        ensures
            copy@ == self@,
    {
        DesiredRecord { hostname: self.hostname.clone(), proxied: self.proxied }
    }
}

/// One configuration unit: a zone, the credential that may edit it, and the
/// records wanted in it.
#[derive(Clone, Debug, PartialEq, Eq)]
pub struct DesiredZoneConfig {
    /// Name of the unit this configuration came from, for diagnostics.
    pub source: String,
    pub zone_id: String,
    pub api_credential: String,
    pub records: Vec<DesiredRecord>,
}

/// Mathematical model of a [`DesiredZoneConfig`].
pub struct DesiredZoneConfigView {
    pub source: Seq<char>,
    pub zone_id: Seq<char>,
    pub api_credential: Seq<char>,
    pub records: Seq<DesiredRecordView>,
}

impl View for DesiredZoneConfig {
    type V = DesiredZoneConfigView;

    open spec fn view(&self) -> DesiredZoneConfigView {
        DesiredZoneConfigView {
            source: self.source@,
            zone_id: self.zone_id@,
            api_credential: self.api_credential@,
            records: views(self.records@),
        }
    }
}

/// What a provider-side record currently holds.
#[derive(Clone, Copy, Debug, PartialEq, Eq, Structural)]
pub enum RecordContent {
    /// An IPv4 host record pointing at the given address.
    Address(Ipv4Address),
    /// Any other kind of record.
    Other,
}

/// A record as the provider reports it for a zone.
#[derive(Clone, Debug, PartialEq, Eq)]
pub struct RemoteRecord {
    /// Opaque handle by which the provider addresses the record.
    pub id: String,
    pub hostname: String,
    pub content: RecordContent,
    /// When the provider last modified the record, in seconds since the Unix epoch.
    pub modified_at: i64,
}

/// Mathematical model of a [`RemoteRecord`].
pub struct RemoteRecordView {
    pub id: Seq<char>,
    pub hostname: Seq<char>,
    pub content: RecordContent,
    pub modified_at: i64,
}

impl View for RemoteRecord {
    type V = RemoteRecordView;

    open spec fn view(&self) -> RemoteRecordView {
        RemoteRecordView {
            id: self.id@,
            hostname: self.hostname@,
            content: self.content,
            modified_at: self.modified_at,
        }
    }
}

} // verus!
