//! Making a complete local copy of a split's artifact, step by step.
//!
//! Files and the object store are touched outside the library. It decides what
//! is done next from what the last step reported.

use vstd::prelude::*;

use crate::error::HelixDbError;
use crate::split_cache::disk::DiskUsage;

verus! {

/// What is to be done next for one artifact.
#[derive(Debug)]
pub enum HydrationStep {
    /// Look whether the artifact is there; report one if it is.
    ProbeExisting,
    /// Validate the artifact that is there.
    ValidateExisting,
    /// Note an access to the valid artifact that is there.
    NoteAccess,
    /// Remove the invalid artifact that is there.
    DiscardExisting,
    /// Download the blob into a staging file and sync it.
    Download,
    /// Validate the staging file.
    ValidateStaging,
    /// Rename the staging file to the artifact.
    Publish,
    /// The rename failed: look whether another publisher was first; report one
    /// if the artifact is there.
    ProbePublished { error: HelixDbError },
    /// Remove the staging file that lost to another publisher.
    DropLostStaging,
    /// Sync the directory of the artifact.
    SyncParent { published: bool },
    /// Report the size of the published artifact.
    Measure,
    /// Write the artifact's access metadata.
    WriteMetadata { published: bool },
    /// Remove the staging file of the failed attempt.
    DropFailedStaging { error: HelixDbError },
    /// The artifact is there; the number is that of the bytes written into it,
    /// zero unless this attempt has published it.
    Complete { bytes: u64 },
    /// The attempt failed.
    Failed { error: HelixDbError },
}

/// What a step reports: a number where the step asks for one, or an error.
pub type StepReport = Result<u64, HelixDbError>;

/// The first step. Without a disk tier there is nothing to do.
pub open spec fn hydration_start(disk_enabled: bool) -> HydrationStep {
    if disk_enabled {
        HydrationStep::ProbeExisting
    } else {
        HydrationStep::Complete { bytes: 0 }
    }
}

/// The step behind `step`, which reported `report`, for a blob of `blob_size`
/// bytes.
pub open spec fn hydration_next(
    step: HydrationStep,
    report: StepReport,
    blob_size: u64,
) -> HydrationStep {
    match step {
        HydrationStep::ProbeExisting => match report {
            Ok(1) => HydrationStep::ValidateExisting,
            _ => HydrationStep::Download,
        },
        HydrationStep::ValidateExisting => match report {
            Ok(_) => HydrationStep::NoteAccess,
            Err(_) => HydrationStep::DiscardExisting,
        },
        HydrationStep::NoteAccess => HydrationStep::Complete { bytes: 0 },
        HydrationStep::DiscardExisting => HydrationStep::Download,
        HydrationStep::Download => match report {
            Ok(_) => HydrationStep::ValidateStaging,
            Err(error) => HydrationStep::DropFailedStaging { error },
        },
        HydrationStep::ValidateStaging => match report {
            Ok(_) => HydrationStep::Publish,
            Err(error) => HydrationStep::DropFailedStaging { error },
        },
        HydrationStep::Publish => match report {
            Ok(_) => HydrationStep::SyncParent { published: true },
            Err(error) => HydrationStep::ProbePublished { error },
        },
        HydrationStep::ProbePublished { error } => match report {
            Ok(1) => HydrationStep::DropLostStaging,
            _ => HydrationStep::DropFailedStaging { error },
        },
        HydrationStep::DropLostStaging => HydrationStep::SyncParent { published: false },
        HydrationStep::SyncParent { published } => match report {
            Ok(_) => if published {
                HydrationStep::Measure
            } else {
                HydrationStep::WriteMetadata { published: false }
            },
            Err(error) => HydrationStep::DropFailedStaging { error },
        },
        HydrationStep::Measure => match report {
            Ok(_) => HydrationStep::WriteMetadata { published: true },
            Err(error) => HydrationStep::DropFailedStaging { error },
        },
        HydrationStep::WriteMetadata { published } => match report {
            Ok(_) => HydrationStep::Complete {
                bytes: if published {
                    blob_size
                } else {
                    0
                },
            },
            Err(error) => HydrationStep::DropFailedStaging { error },
        },
        HydrationStep::DropFailedStaging { error } => HydrationStep::Failed { error },
        HydrationStep::Complete { bytes } => HydrationStep::Complete { bytes },
        HydrationStep::Failed { error } => HydrationStep::Failed { error },
    }
}

/// The first step.
pub fn start_hydration(disk_enabled: bool) -> (step: HydrationStep)
    ensures
        step == hydration_start(disk_enabled),
{
    if disk_enabled {
        HydrationStep::ProbeExisting
    } else {
        HydrationStep::Complete { bytes: 0 }
    }
}

/// The step behind `step`. A published artifact is accounted for once its size
/// is known.
pub fn continue_hydration(
    step: HydrationStep,
    report: StepReport,
    blob_size: u64,
    usage: &mut DiskUsage,
) -> (next: HydrationStep)
    ensures
        next == hydration_next(step, report, blob_size),
        match (step, report) {
            (HydrationStep::Measure, Ok(size)) => {
                &&& final(usage).count == (old(usage).count + 1) % 0x1_0000_0000_0000_0000
                &&& final(usage).bytes == (old(usage).bytes + size) % 0x1_0000_0000_0000_0000
            },
            _ => *final(usage) == *old(usage),
        },
{
    match step {
        HydrationStep::ProbeExisting => match report {
            Ok(1) => HydrationStep::ValidateExisting,
            _ => HydrationStep::Download,
        },
        HydrationStep::ValidateExisting => match report {
            Ok(_) => HydrationStep::NoteAccess,
            Err(_) => HydrationStep::DiscardExisting,
        },
        HydrationStep::NoteAccess => HydrationStep::Complete { bytes: 0 },
        HydrationStep::DiscardExisting => HydrationStep::Download,
        HydrationStep::Download => match report {
            Ok(_) => HydrationStep::ValidateStaging,
            Err(error) => HydrationStep::DropFailedStaging { error },
        },
        HydrationStep::ValidateStaging => match report {
            Ok(_) => HydrationStep::Publish,
            Err(error) => HydrationStep::DropFailedStaging { error },
        },
        HydrationStep::Publish => match report {
            Ok(_) => HydrationStep::SyncParent { published: true },
            Err(error) => HydrationStep::ProbePublished { error },
        },
        HydrationStep::ProbePublished { error } => match report {
            Ok(1) => HydrationStep::DropLostStaging,
            _ => HydrationStep::DropFailedStaging { error },
        },
        HydrationStep::DropLostStaging => HydrationStep::SyncParent { published: false },
        HydrationStep::SyncParent { published } => match report {
            Ok(_) => if published {
                HydrationStep::Measure
            } else {
                HydrationStep::WriteMetadata { published: false }
            },
            Err(error) => HydrationStep::DropFailedStaging { error },
        },
        HydrationStep::Measure => match report {
            Ok(size) => {
                usage.published(size);
                HydrationStep::WriteMetadata { published: true }
            },
            Err(error) => HydrationStep::DropFailedStaging { error },
        },
        HydrationStep::WriteMetadata { published } => match report {
            Ok(_) => HydrationStep::Complete {
                bytes: if published {
                    blob_size
                } else {
                    0
                },
            },
            Err(error) => HydrationStep::DropFailedStaging { error },
        },
        HydrationStep::DropFailedStaging { error } => HydrationStep::Failed { error },
        HydrationStep::Complete { bytes } => HydrationStep::Complete { bytes },
        HydrationStep::Failed { error } => HydrationStep::Failed { error },
    }
}

/// Whether nothing is left to do.
pub open spec fn hydration_is_over(step: HydrationStep) -> bool {
    step is Complete || step is Failed
}

/// The most steps that can still follow.
pub open spec fn hydration_steps_left(step: HydrationStep) -> nat {
    match step {
        HydrationStep::ProbeExisting => 11,
        HydrationStep::ValidateExisting => 10,
        HydrationStep::NoteAccess => 1,
        HydrationStep::DiscardExisting => 9,
        HydrationStep::Download => 8,
        HydrationStep::ValidateStaging => 7,
        HydrationStep::Publish => 6,
        HydrationStep::ProbePublished { .. } => 5,
        HydrationStep::DropLostStaging => 4,
        HydrationStep::SyncParent { published } => if published {
            4
        } else {
            3
        },
        HydrationStep::Measure => 3,
        HydrationStep::WriteMetadata { .. } => 2,
        HydrationStep::DropFailedStaging { .. } => 1,
        HydrationStep::Complete { .. } => 0,
        HydrationStep::Failed { .. } => 0,
    }
}

/// Whatever the steps report, an attempt comes to its end.
pub proof fn law_hydration_ends(step: HydrationStep, report: StepReport, blob_size: u64)
    ensures
        hydration_steps_left(step) == 0 <==> hydration_is_over(step),
        !hydration_is_over(step) ==> hydration_steps_left(
            hydration_next(step, report, blob_size),
        ) < hydration_steps_left(step),
{
}

/// An attempt fails only after its staging file has been removed, and with the
/// error of the step that failed.
pub proof fn law_failed_hydration_drops_staging(
    step: HydrationStep,
    report: StepReport,
    blob_size: u64,
)
    requires
        !hydration_is_over(step),
    ensures
        hydration_next(step, report, blob_size) matches HydrationStep::Failed { error }
            ==> step == (HydrationStep::DropFailedStaging { error }),
        hydration_next(step, report, blob_size) matches HydrationStep::DropFailedStaging { error }
            ==> report == StepReport::Err(error) || step == (HydrationStep::ProbePublished {
            error,
        }),
{
}

/// Bytes are reported as written only behind the metadata of an artifact that
/// this attempt has published, out of a validated staging file. None are for an
/// artifact that was there, nor for one that another publisher was first with.
pub proof fn law_hydration_reports_published_bytes(
    step: HydrationStep,
    report: StepReport,
    blob_size: u64,
)
    requires
        !hydration_is_over(step),
    ensures
        hydration_next(step, report, blob_size) matches HydrationStep::Complete { bytes } ==> {
            ||| step is NoteAccess && bytes == 0
            ||| step == (HydrationStep::WriteMetadata { published: false }) && report is Ok
                && bytes == 0
            ||| step == (HydrationStep::WriteMetadata { published: true }) && report is Ok
                && bytes == blob_size
        },
        hydration_next(step, report, blob_size) is Publish ==> step is ValidateStaging && report is Ok,
        hydration_next(step, report, blob_size) is NoteAccess ==> step is ValidateExisting
            && report is Ok,
        hydration_next(step, report, blob_size) == (HydrationStep::WriteMetadata {
            published: true,
        }) ==> step is Measure && report is Ok,
        hydration_next(step, report, blob_size) == (HydrationStep::WriteMetadata {
            published: false,
        }) ==> step == (HydrationStep::SyncParent { published: false }) && report is Ok,
        hydration_next(step, report, blob_size) is Measure ==> step == (
        HydrationStep::SyncParent { published: true }) && report is Ok,
        hydration_next(step, report, blob_size) == (HydrationStep::SyncParent { published: true })
            ==> step is Publish && report is Ok,
        hydration_next(step, report, blob_size) == (HydrationStep::SyncParent {
            published: false,
        }) ==> step is DropLostStaging,
{
}

/// An attempt starts with a look at what is there, and without a disk tier it is
/// complete at once.
pub proof fn law_hydration_starts_with_a_look(disk_enabled: bool, step: HydrationStep)
    requires
        call_ensures(start_hydration, (disk_enabled,), step),
    ensures
        disk_enabled ==> step is ProbeExisting,
        !disk_enabled ==> step is Complete && step->bytes == 0,
{
}

/// What is there is validated and kept, and noted as accessed; what is not there or
/// not valid is downloaded.
pub proof fn law_valid_artifacts_are_kept(
    step: HydrationStep,
    report: StepReport,
    blob_size: u64,
    usage: &mut DiskUsage,
    next: HydrationStep,
)
    requires
        call_ensures(continue_hydration, (step, report, blob_size, usage), next),
    ensures
        step is ProbeExisting && report is Ok && report->Ok_0 == 1 ==> next is ValidateExisting,
        step is ProbeExisting && !(report is Ok && report->Ok_0 == 1) ==> next is Download,
        step is ValidateExisting && report is Ok ==> next is NoteAccess,
        step is ValidateExisting && report is Err ==> next is DiscardExisting,
        step is NoteAccess ==> next is Complete && next->bytes == 0,
        step is DiscardExisting ==> next is Download,
        step is Complete ==> next is Complete && next->bytes == step->bytes,
        step is Failed ==> next is Failed && next->Failed_error == step->Failed_error,
        !(step is Measure && report is Ok) ==> *final(usage) == *old(usage),
{
}

/// A download is validated before it is published. What this attempt has published
/// is measured and accounted for before its metadata is written, and its bytes are
/// reported; where another publisher was first, the own staging file goes and
/// nothing is accounted for. Any error on the way drops the staging file and fails.
pub proof fn law_downloads_are_published_once(
    step: HydrationStep,
    report: StepReport,
    blob_size: u64,
    usage: &mut DiskUsage,
    next: HydrationStep,
)
    requires
        call_ensures(continue_hydration, (step, report, blob_size, usage), next),
    ensures
        step is Download && report is Ok ==> next is ValidateStaging,
        step is ValidateStaging && report is Ok ==> next is Publish,
        step is Publish && report is Ok ==> next is SyncParent && next->SyncParent_published,
        step is Publish && report is Err ==> next is ProbePublished && next->ProbePublished_error
            == report->Err_0,
        step is ProbePublished && report is Ok && report->Ok_0 == 1 ==> next is DropLostStaging,
        step is ProbePublished && !(report is Ok && report->Ok_0 == 1) ==> next is DropFailedStaging
            && next->DropFailedStaging_error == step->ProbePublished_error,
        step is DropLostStaging ==> next is SyncParent && !next->SyncParent_published,
        step is SyncParent && report is Ok && step->SyncParent_published ==> next is Measure,
        step is SyncParent && report is Ok && !step->SyncParent_published ==> next is WriteMetadata
            && !next->WriteMetadata_published,
        step is Measure && report is Ok ==> next is WriteMetadata && next->WriteMetadata_published,
        step is Measure && report is Ok && old(usage).count < u64::MAX && old(usage).bytes
            + report->Ok_0 <= u64::MAX ==> final(usage).count == old(usage).count + 1 && final(usage).bytes == old(usage).bytes + report->Ok_0,
        step is WriteMetadata && report is Ok ==> next is Complete && next->bytes == if step->WriteMetadata_published {
            blob_size
        } else {
            0
        },
        (step is Download || step is ValidateStaging || step is SyncParent || step is Measure
            || step is WriteMetadata) && report is Err ==> next is DropFailedStaging
            && next->DropFailedStaging_error == report->Err_0,
        step is DropFailedStaging ==> next is Failed && next->Failed_error
            == step->DropFailedStaging_error,
{
}

} // verus!
