//! What the configuration source hands over: one entry per configuration
//! unit found, each independently valid or not.

use crate::model::{views, DesiredZoneConfig, DesiredZoneConfigView};
use crate::outcome::{Report, ReportView, UnitFailure};
use vstd::prelude::*;

verus! {

/// One configuration unit as the source delivered it.
#[derive(Clone, Debug, PartialEq, Eq)]
pub enum ConfigUnit {
    /// The unit parsed into a configuration.
    Valid(DesiredZoneConfig),
    /// The unit could not be parsed.
    Invalid { source: String, detail: String },
}

/// Mathematical model of a [`ConfigUnit`].
pub enum ConfigUnitView {
    Valid(DesiredZoneConfigView),
    Invalid { source: Seq<char>, detail: Seq<char> },
}

impl View for ConfigUnit {
    type V = ConfigUnitView;

    open spec fn view(&self) -> ConfigUnitView {
        match *self {
            ConfigUnit::Valid(config) => ConfigUnitView::Valid(config@),
            ConfigUnit::Invalid { source, detail } => ConfigUnitView::Invalid {
                source: source@,
                detail: detail@,
            },
        }
    }
}

/// The configurations of the valid units, in the order delivered.
pub open spec fn valid_units(units: Seq<ConfigUnitView>) -> Seq<DesiredZoneConfigView>
    decreases units.len(),
{
    if units.len() == 0 {
        Seq::empty()
    } else {
        match units.last() {
            ConfigUnitView::Valid(config) => valid_units(units.drop_last()).push(config),
            ConfigUnitView::Invalid { source, detail } => valid_units(units.drop_last()),
        }
    }
}

/// One failure report for each invalid unit, in the order delivered.
pub open spec fn rejections(units: Seq<ConfigUnitView>) -> Seq<ReportView>
    decreases units.len(),
{
    if units.len() == 0 {
        Seq::empty()
    } else {
        match units.last() {
            ConfigUnitView::Valid(config) => rejections(units.drop_last()),
            ConfigUnitView::Invalid { source, detail } => rejections(units.drop_last()).push(
                ReportView::UnitFailed { source, cause: UnitFailure::Parse, detail },
            ),
        }
    }
}

/// Separates the units delivered into the configurations to process and the
/// reports of those that could not be parsed. A unit that failed to parse
/// keeps no other unit from being processed.
pub fn partition_units(units: Vec<ConfigUnit>) -> (parts: (Vec<DesiredZoneConfig>, Vec<Report>))
    ensures
        views(parts.0@) == valid_units(views(units@)),
        views(parts.1@) == rejections(views(units@)),
{
    let ghost delivered = views(units@);
    let mut valid: Vec<DesiredZoneConfig> = Vec::new();
    let mut rejected: Vec<Report> = Vec::new();
    for unit in iter: units
        invariant
            delivered == views(iter.seq()),
            views(valid@) == valid_units(delivered.take(iter.index() as int)),
            views(rejected@) == rejections(delivered.take(iter.index() as int)),
    {
        proof {
            let n = iter.index() as int;
            assert(delivered.take(n + 1).drop_last() =~= delivered.take(n));
            assert(delivered.take(n + 1).last() == unit@);
        }
        match unit {
            ConfigUnit::Valid(config) => {
                valid.push(config);
            },
            ConfigUnit::Invalid { source, detail } => {
                rejected.push(Report::UnitFailed { source, cause: UnitFailure::Parse, detail });
            },
        }
        proof {
            let n = iter.index() as int;
            assert(views(valid@) =~= valid_units(delivered.take(n + 1)));
            assert(views(rejected@) =~= rejections(delivered.take(n + 1)));
        }
    }
    proof {
        assert(delivered.take(delivered.len() as int) =~= delivered);
    }
    (valid, rejected)
}

/// What to do about the configuration directory before a run.
#[derive(Clone, Copy, Debug, PartialEq, Eq, Structural)]
pub enum DirectoryVerdict {
    /// The directory is there: go on.
    Proceed,
    /// Nothing is at the path: create the directory for the operator to
    /// fill, and give up this run.
    CreateAndAbort,
    /// Something else is at the path: give up this run.
    Abort,
}

/// The verdict on a configuration directory, from what was found at its path.
pub open spec fn directory_verdict(present: bool, is_directory: bool) -> DirectoryVerdict {
    if !present {
        DirectoryVerdict::CreateAndAbort
    } else if !is_directory {
        DirectoryVerdict::Abort
    } else {
        DirectoryVerdict::Proceed
    }
}

/// Decides what to do about the configuration directory. A run proceeds
/// only when the path exists and is a directory; a missing directory is
/// created, but the run still ends, since there is nothing in it yet.
pub fn assess_directory(present: bool, is_directory: bool) -> (verdict: DirectoryVerdict)
    ensures
        verdict == directory_verdict(present, is_directory),
        verdict == DirectoryVerdict::Proceed <==> present && is_directory,
{
    if !present {
        DirectoryVerdict::CreateAndAbort
    } else if !is_directory {
        DirectoryVerdict::Abort
    } else {
        DirectoryVerdict::Proceed
    }
}

} // verus!
