//! Opening a split through memory, local disk and remote storage, step by
//! step.

use vstd::prelude::*;

use crate::error::HelixDbError;
use crate::split_cache::state::{advanced, FtsStats};

verus! {

/// What is to be done next to open one split.
#[derive(Debug)]
pub enum OpenStep {
    /// Look the split up in memory.
    LookUp,
    /// Join the opening of the split's identity; report yes if another caller
    /// shares it.
    JoinOpening,
    /// Look the split up in memory again, as the one that opens it.
    LookUpAgain,
    /// Look whether the artifact is there.
    ProbeDisk,
    /// Validate the artifact.
    ValidateDisk,
    /// Lease the artifact and open it.
    OpenDisk,
    /// Note an access to the artifact.
    NoteAccess,
    /// Remove the invalid artifact.
    DiscardArtifact,
    /// Open the split against remote storage.
    OpenRemote,
    /// Retain the opened split in memory.
    Retain,
    /// Return the split found in memory.
    UseRetained,
    /// Return the opened split.
    UseOpened,
    /// The split cannot be opened.
    Fail { error: HelixDbError },
}

/// What a step reports.
#[derive(Debug)]
pub enum OpenReport {
    Yes,
    No,
    Failed(HelixDbError),
}

/// The step behind `step`, which reported `report`.
pub open spec fn open_next(step: OpenStep, report: OpenReport, disk_enabled: bool) -> OpenStep {
    match step {
        OpenStep::LookUp => if report is Yes {
            OpenStep::UseRetained
        } else {
            OpenStep::JoinOpening
        },
        OpenStep::JoinOpening => OpenStep::LookUpAgain,
        OpenStep::LookUpAgain => if report is Yes {
            OpenStep::UseRetained
        } else if disk_enabled {
            OpenStep::ProbeDisk
        } else {
            OpenStep::OpenRemote
        },
        OpenStep::ProbeDisk => if report is Yes {
            OpenStep::ValidateDisk
        } else {
            OpenStep::OpenRemote
        },
        OpenStep::ValidateDisk => if report is Failed {
            OpenStep::DiscardArtifact
        } else {
            OpenStep::OpenDisk
        },
        OpenStep::OpenDisk => if report is Failed {
            OpenStep::DiscardArtifact
        } else {
            OpenStep::NoteAccess
        },
        OpenStep::NoteAccess => OpenStep::Retain,
        OpenStep::DiscardArtifact => OpenStep::OpenRemote,
        OpenStep::OpenRemote => match report {
            OpenReport::Failed(error) => OpenStep::Fail { error },
            _ => OpenStep::Retain,
        },
        OpenStep::Retain => OpenStep::UseOpened,
        OpenStep::UseRetained => OpenStep::UseRetained,
        OpenStep::UseOpened => OpenStep::UseOpened,
        OpenStep::Fail { error } => OpenStep::Fail { error },
    }
}

/// The counters after a step and its report.
pub open spec fn open_counted(
    step: OpenStep,
    report: OpenReport,
    disk_enabled: bool,
    stats: FtsStats,
) -> FtsStats {
    let remote = if !(step is OpenRemote) && open_next(step, report, disk_enabled) is OpenRemote {
        FtsStats { remote_opens: advanced(stats.remote_opens, 1), ..stats }
    } else {
        stats
    };
    match step {
        OpenStep::LookUp => if report is Yes {
            FtsStats { memory_hits: advanced(stats.memory_hits, 1), ..remote }
        } else {
            FtsStats { memory_misses: advanced(stats.memory_misses, 1), ..remote }
        },
        OpenStep::JoinOpening => if report is Yes {
            FtsStats {
                singleflight_followers: advanced(stats.singleflight_followers, 1),
                ..remote
            }
        } else {
            remote
        },
        OpenStep::ProbeDisk => if report is Yes {
            remote
        } else {
            FtsStats { disk_misses: advanced(stats.disk_misses, 1), ..remote }
        },
        OpenStep::ValidateDisk => if report is Failed {
            FtsStats {
                disk_corruptions: advanced(stats.disk_corruptions, 1),
                open_failures: advanced(stats.open_failures, 1),
                ..remote
            }
        } else {
            remote
        },
        OpenStep::OpenDisk => if report is Failed {
            FtsStats {
                disk_corruptions: advanced(stats.disk_corruptions, 1),
                open_failures: advanced(stats.open_failures, 1),
                ..remote
            }
        } else {
            FtsStats { disk_hits: advanced(stats.disk_hits, 1), ..remote }
        },
        OpenStep::OpenRemote => if report is Failed {
            FtsStats { open_failures: advanced(stats.open_failures, 1), ..remote }
        } else {
            remote
        },
        _ => remote,
    }
}

fn is_yes(report: &OpenReport) -> (yes: bool)
    ensures
        yes == (*report is Yes),
{
    match report {
        OpenReport::Yes => true,
        _ => false,
    }
}

fn is_failed(report: &OpenReport) -> (failed: bool)
    ensures
        failed == (*report is Failed),
{
    match report {
        OpenReport::Failed(_) => true,
        _ => false,
    }
}

/// The step behind `step`; what happened is counted.
pub fn continue_open(
    step: OpenStep,
    report: OpenReport,
    disk_enabled: bool,
    stats: &mut FtsStats,
) -> (next: OpenStep)
    ensures
        next == open_next(step, report, disk_enabled),
        *final(stats) == open_counted(step, report, disk_enabled, *old(stats)),
{
    match step {
        OpenStep::LookUp => if is_yes(&report) {
            stats.memory_hits = stats.memory_hits.wrapping_add(1);
            OpenStep::UseRetained
        } else {
            stats.memory_misses = stats.memory_misses.wrapping_add(1);
            OpenStep::JoinOpening
        },
        OpenStep::JoinOpening => {
            if is_yes(&report) {
                stats.singleflight_followers = stats.singleflight_followers.wrapping_add(1);
            }
            OpenStep::LookUpAgain
        },
        OpenStep::LookUpAgain => if is_yes(&report) {
            OpenStep::UseRetained
        } else if disk_enabled {
            OpenStep::ProbeDisk
        } else {
            stats.remote_opens = stats.remote_opens.wrapping_add(1);
            OpenStep::OpenRemote
        },
        OpenStep::ProbeDisk => if is_yes(&report) {
            OpenStep::ValidateDisk
        } else {
            stats.disk_misses = stats.disk_misses.wrapping_add(1);
            stats.remote_opens = stats.remote_opens.wrapping_add(1);
            OpenStep::OpenRemote
        },
        OpenStep::ValidateDisk => if is_failed(&report) {
            stats.disk_corruptions = stats.disk_corruptions.wrapping_add(1);
            stats.open_failures = stats.open_failures.wrapping_add(1);
            OpenStep::DiscardArtifact
        } else {
            OpenStep::OpenDisk
        },
        OpenStep::OpenDisk => if is_failed(&report) {
            stats.disk_corruptions = stats.disk_corruptions.wrapping_add(1);
            stats.open_failures = stats.open_failures.wrapping_add(1);
            OpenStep::DiscardArtifact
        } else {
            stats.disk_hits = stats.disk_hits.wrapping_add(1);
            OpenStep::NoteAccess
        },
        OpenStep::NoteAccess => OpenStep::Retain,
        OpenStep::DiscardArtifact => {
            stats.remote_opens = stats.remote_opens.wrapping_add(1);
            OpenStep::OpenRemote
        },
        OpenStep::OpenRemote => match report {
            OpenReport::Failed(error) => {
                stats.open_failures = stats.open_failures.wrapping_add(1);
                OpenStep::Fail { error }
            },
            _ => OpenStep::Retain,
        },
        OpenStep::Retain => OpenStep::UseOpened,
        OpenStep::UseRetained => OpenStep::UseRetained,
        OpenStep::UseOpened => OpenStep::UseOpened,
        OpenStep::Fail { error } => OpenStep::Fail { error },
    }
}

/// Whether nothing is left to do.
pub open spec fn open_is_over(step: OpenStep) -> bool {
    step is UseRetained || step is UseOpened || step is Fail
}

/// The most steps that can still follow.
pub open spec fn open_steps_left(step: OpenStep) -> nat {
    match step {
        OpenStep::LookUp => 9,
        OpenStep::JoinOpening => 8,
        OpenStep::LookUpAgain => 7,
        OpenStep::ProbeDisk => 6,
        OpenStep::ValidateDisk => 5,
        OpenStep::OpenDisk => 4,
        OpenStep::NoteAccess => 2,
        OpenStep::DiscardArtifact => 3,
        OpenStep::OpenRemote => 2,
        OpenStep::Retain => 1,
        OpenStep::UseRetained => 0,
        OpenStep::UseOpened => 0,
        OpenStep::Fail { .. } => 0,
    }
}

/// Whatever the steps report, an open comes to its end.
pub proof fn law_open_ends(step: OpenStep, report: OpenReport, disk_enabled: bool)
    ensures
        open_steps_left(step) == 0 <==> open_is_over(step),
        !open_is_over(step) ==> open_steps_left(open_next(step, report, disk_enabled))
            < open_steps_left(step),
{
}

/// A fault of the local copy never fails an open: the copy is discarded and
/// the split is opened remotely. Only a remote fault fails it.
pub proof fn law_disk_faults_fall_back_to_remote(
    step: OpenStep,
    report: OpenReport,
    disk_enabled: bool,
)
    requires
        !open_is_over(step),
    ensures
        open_next(step, report, disk_enabled) matches OpenStep::Fail { error } ==> step
            == OpenStep::OpenRemote && report == OpenReport::Failed(error),
        (step is ValidateDisk || step is OpenDisk) && report is Failed ==> open_next(
            open_next(step, report, disk_enabled),
            OpenReport::Yes,
            disk_enabled,
        ) == OpenStep::OpenRemote,
{
}

/// Every failure to open a split is counted once, on the local path as on the
/// remote one.
pub proof fn law_open_failures_are_counted(
    step: OpenStep,
    report: OpenReport,
    disk_enabled: bool,
    stats: FtsStats,
)
    ensures
        open_counted(step, report, disk_enabled, stats).open_failures == if (step is ValidateDisk
            || step is OpenDisk || step is OpenRemote) && report is Failed {
            advanced(stats.open_failures, 1)
        } else {
            stats.open_failures
        },
{
}

/// Every remote open is counted once, when it begins.
pub proof fn law_remote_opens_are_counted(
    step: OpenStep,
    report: OpenReport,
    disk_enabled: bool,
    stats: FtsStats,
)
    requires
        !open_is_over(step),
    ensures
        open_counted(step, report, disk_enabled, stats).remote_opens == if open_next(
            step,
            report,
            disk_enabled,
        ) is OpenRemote {
            advanced(stats.remote_opens, 1)
        } else {
            stats.remote_opens
        },
{
}

/// The way to an open split: from memory if it is there, then from a valid local
/// artifact, then from remote storage; what was opened is retained. A fault of the
/// artifact discards it, and a remote fault fails the open.
pub proof fn law_opens_try_the_nearest_first(
    step: OpenStep,
    report: OpenReport,
    disk_enabled: bool,
    stats: &mut FtsStats,
    next: OpenStep,
)
    requires
        call_ensures(continue_open, (step, report, disk_enabled, stats), next),
    ensures
        step is LookUp && report is Yes ==> next is UseRetained,
        step is LookUp && !(report is Yes) ==> next is JoinOpening,
        step is JoinOpening ==> next is LookUpAgain,
        step is LookUpAgain && report is Yes ==> next is UseRetained,
        step is LookUpAgain && !(report is Yes) && disk_enabled ==> next is ProbeDisk,
        step is LookUpAgain && !(report is Yes) && !disk_enabled ==> next is OpenRemote,
        step is ProbeDisk && report is Yes ==> next is ValidateDisk,
        step is ProbeDisk && !(report is Yes) ==> next is OpenRemote,
        step is ValidateDisk && !(report is Failed) ==> next is OpenDisk,
        step is OpenDisk && !(report is Failed) ==> next is NoteAccess,
        (step is ValidateDisk || step is OpenDisk) && report is Failed ==> next is DiscardArtifact,
        step is DiscardArtifact ==> next is OpenRemote,
        step is OpenRemote && report is Failed ==> next is Fail && next->error == report->Failed_0,
        step is OpenRemote && !(report is Failed) ==> next is Retain,
        step is NoteAccess ==> next is Retain,
        step is Retain ==> next is UseOpened,
        step is UseRetained ==> next is UseRetained,
        step is UseOpened ==> next is UseOpened,
        step is Fail ==> next is Fail && next->error == step->error,
{
}

/// How much a counter that is not full has grown.
pub open spec fn grows(before: u64, after: u64, by: bool) -> bool {
    by && before < u64::MAX ==> after == before + 1
}

/// Every event of an open is counted under its own name, and nothing else is.
pub proof fn law_opens_count_their_events(
    step: OpenStep,
    report: OpenReport,
    disk_enabled: bool,
    stats: &mut FtsStats,
    next: OpenStep,
)
    requires
        call_ensures(continue_open, (step, report, disk_enabled, stats), next),
    ensures
        ({
            let before = *old(stats);
            let after = *final(stats);
            let hit = step is LookUp && report is Yes;
            let miss = step is LookUp && !(report is Yes);
            let follows = step is JoinOpening && report is Yes;
            let disk_miss = step is ProbeDisk && !(report is Yes);
            let disk_hit = step is OpenDisk && !(report is Failed);
            let corrupt = (step is ValidateDisk || step is OpenDisk) && report is Failed;
            let failed = corrupt || step is OpenRemote && report is Failed;
            let remote = !(step is OpenRemote) && next is OpenRemote;
            &&& grows(before.memory_hits, after.memory_hits, hit)
            &&& !hit ==> after.memory_hits == before.memory_hits
            &&& grows(before.memory_misses, after.memory_misses, miss)
            &&& !miss ==> after.memory_misses == before.memory_misses
            &&& grows(before.singleflight_followers, after.singleflight_followers, follows)
            &&& !follows ==> after.singleflight_followers == before.singleflight_followers
            &&& grows(before.disk_misses, after.disk_misses, disk_miss)
            &&& !disk_miss ==> after.disk_misses == before.disk_misses
            &&& grows(before.disk_hits, after.disk_hits, disk_hit)
            &&& !disk_hit ==> after.disk_hits == before.disk_hits
            &&& grows(before.disk_corruptions, after.disk_corruptions, corrupt)
            &&& !corrupt ==> after.disk_corruptions == before.disk_corruptions
            &&& grows(before.open_failures, after.open_failures, failed)
            &&& !failed ==> after.open_failures == before.open_failures
            &&& grows(before.remote_opens, after.remote_opens, remote)
            &&& !remote ==> after.remote_opens == before.remote_opens
            &&& after.memory_evictions == before.memory_evictions
            &&& after.disk_evictions == before.disk_evictions
            &&& after.hydration_attempts == before.hydration_attempts
            &&& after.hydration_completions == before.hydration_completions
            &&& after.hydration_failures == before.hydration_failures
        }),
{
}

} // verus!
