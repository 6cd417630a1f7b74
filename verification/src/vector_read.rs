//! Reading one managed vector generation, step by step.
//!
//! The vector rows are read outside the library. It decides what is read, and
//! through which view, from what the last step reported.

use vstd::prelude::*;

use crate::error::{invariant_violation, HelixDbError, HelixDbErrorView};
use crate::text::manifest::{read_source, ReadSource};

verus! {

/// Who owns the vector rows that a query asks for.
#[derive(Debug, Clone, Copy, PartialEq, Eq, Structural)]
pub enum VectorSearchAuthority {
    /// The tenant has no partition of the index.
    AbsentManagedPartition,
    /// A resolved generation.
    Managed,
}

/// What a request reads through.
#[derive(Debug, Clone, Copy, PartialEq, Eq, Structural)]
pub struct RequestView {
    /// Whether the request has a write transaction.
    pub active_write: bool,
    /// Whether the request has a stable read view.
    pub has_view: bool,
    /// The sequence number by which that view compares with cached rows.
    pub comparable_sequence: Option<u64>,
}

/// How far shared cache rows may serve a request.
#[derive(Debug, Clone, Copy, PartialEq, Eq, Structural)]
pub enum VectorReadVisibility {
    /// Not at all.
    Unavailable,
    /// As far as the sequence number allows.
    Comparable(u64),
}

/// How far shared cache rows may serve a request. Writes in flight are not in
/// the shared cache, so a request with a write transaction must not use it.
pub open spec fn visibility_of(view: RequestView) -> VectorReadVisibility {
    if !view.active_write && view.has_view {
        match view.comparable_sequence {
            Some(sequence) => VectorReadVisibility::Comparable(sequence),
            None => VectorReadVisibility::Unavailable,
        }
    } else {
        VectorReadVisibility::Unavailable
    }
}

/// How far shared cache rows may serve a request.
pub fn read_visibility(view: RequestView) -> (visibility: VectorReadVisibility)
    ensures
        visibility == visibility_of(view),
{
    if view.active_write {
        return VectorReadVisibility::Unavailable;
    }
    if !view.has_view {
        return VectorReadVisibility::Unavailable;
    }
    match view.comparable_sequence {
        Some(sequence) => VectorReadVisibility::Comparable(sequence),
        None => VectorReadVisibility::Unavailable,
    }
}

/// What is to be done next for one vector query.
#[derive(Debug)]
pub enum VectorSearchStep {
    /// There is nothing to search: the result is empty.
    ReturnNothing,
    /// Make the read index of the generation.
    OpenIndex { visibility: VectorReadVisibility },
    /// Read the generation's physical metadata.
    ReadMetadata { source: ReadSource },
    /// Make the search parameters.
    MakeParameters { source: ReadSource },
    /// Search, within the candidates if there are any.
    Search { source: ReadSource, restricted: bool },
    /// Return what the search found.
    ReturnResults,
    /// The query cannot be answered.
    Fail { error: HelixDbError },
}

/// What a step reports.
#[derive(Debug)]
pub enum VectorReport {
    /// The step succeeded.
    Done,
    /// The metadata row is missing.
    Missing,
    /// The metadata row is there, but not for the generation's definition.
    Mismatch,
    /// The generation or the parameters were rejected for the given reason.
    Rejected(String),
    /// The step failed.
    Failed(HelixDbError),
}

/// What a step comes to, with errors as their views.
pub ghost enum VectorStepView {
    ReturnNothing,
    OpenIndex { visibility: VectorReadVisibility },
    ReadMetadata { source: ReadSource },
    MakeParameters { source: ReadSource },
    Search { source: ReadSource, restricted: bool },
    ReturnResults,
    Fail { error: HelixDbErrorView },
}

impl View for VectorSearchStep {
    type V = VectorStepView;

    open spec fn view(&self) -> VectorStepView {
        match *self {
            VectorSearchStep::ReturnNothing => VectorStepView::ReturnNothing,
            VectorSearchStep::OpenIndex { visibility } => VectorStepView::OpenIndex { visibility },
            VectorSearchStep::ReadMetadata { source } => VectorStepView::ReadMetadata { source },
            VectorSearchStep::MakeParameters { source } => VectorStepView::MakeParameters {
                source,
            },
            VectorSearchStep::Search { source, restricted } => VectorStepView::Search {
                source,
                restricted,
            },
            VectorSearchStep::ReturnResults => VectorStepView::ReturnResults,
            VectorSearchStep::Fail { error } => VectorStepView::Fail { error: error@ },
        }
    }
}

/// An invariant violation with the given text.
pub open spec fn violation(text: Seq<char>) -> VectorStepView {
    VectorStepView::Fail { error: HelixDbErrorView::InvariantViolation(text) }
}

/// The view that a request reads through, if it has one.
pub open spec fn source_of(view: RequestView) -> Option<ReadSource> {
    if view.active_write {
        Some(ReadSource::Transaction)
    } else if view.has_view {
        Some(ReadSource::Snapshot)
    } else {
        None
    }
}

/// The first step of a query.
pub open spec fn vector_start(authority: VectorSearchAuthority, view: RequestView) -> VectorStepView {
    match authority {
        VectorSearchAuthority::AbsentManagedPartition => VectorStepView::ReturnNothing,
        VectorSearchAuthority::Managed => VectorStepView::OpenIndex {
            visibility: visibility_of(view),
        },
    }
}

/// The step behind `step`, which reported `report`.
pub open spec fn vector_next(
    step: VectorSearchStep,
    report: VectorReport,
    view: RequestView,
    restricted: bool,
) -> VectorStepView {
    match (step, report) {
        (VectorSearchStep::OpenIndex { .. }, VectorReport::Rejected(reason)) => violation(
            "validated vector read factory rejected generation: "@ + reason@,
        ),
        (VectorSearchStep::OpenIndex { .. }, VectorReport::Failed(error)) => VectorStepView::Fail {
            error: error@,
        },
        (VectorSearchStep::OpenIndex { .. }, _) => match source_of(view) {
            Some(source) => VectorStepView::ReadMetadata { source },
            None => violation("vector metadata read"@ + " escaped its request read view"@),
        },
        (VectorSearchStep::ReadMetadata { .. }, VectorReport::Failed(error)) =>
            VectorStepView::Fail { error: error@ },
        (VectorSearchStep::ReadMetadata { .. }, VectorReport::Missing) => violation(
            "managed vector ownership references missing physical metadata"@,
        ),
        (VectorSearchStep::ReadMetadata { .. }, VectorReport::Mismatch) => violation(
            "managed vector descriptor and physical metadata contract mismatch"@,
        ),
        (VectorSearchStep::ReadMetadata { source }, _) => VectorStepView::MakeParameters { source },
        (VectorSearchStep::MakeParameters { .. }, VectorReport::Rejected(reason)) =>
            VectorStepView::Fail { error: HelixDbErrorView::InvalidVectorConfig(reason@) },
        (VectorSearchStep::MakeParameters { .. }, VectorReport::Failed(error)) =>
            VectorStepView::Fail { error: error@ },
        (VectorSearchStep::MakeParameters { source }, _) => VectorStepView::Search {
            source,
            restricted,
        },
        (VectorSearchStep::Search { .. }, VectorReport::Failed(error)) => match error@ {
            HelixDbErrorView::IndexNotFound(_) => violation(
                "managed vector ownership references missing physical rows"@,
            ),
            other => VectorStepView::Fail { error: other },
        },
        (VectorSearchStep::Search { .. }, _) => VectorStepView::ReturnResults,
        (finished, _) => finished@,
    }
}

/// The first step of a query.
pub fn start_vector_search(authority: VectorSearchAuthority, view: RequestView) -> (step:
    VectorSearchStep)
    ensures
        step@ == vector_start(authority, view),
{
    match authority {
        VectorSearchAuthority::AbsentManagedPartition => VectorSearchStep::ReturnNothing,
        VectorSearchAuthority::Managed => VectorSearchStep::OpenIndex {
            visibility: read_visibility(view),
        },
    }
}

fn fail(text: &str) -> (step: VectorSearchStep)
    ensures
        step@ == violation(text@),
{
    VectorSearchStep::Fail { error: invariant_violation(text) }
}

/// The step behind `step`, which reported `report`.
pub fn continue_vector_search(
    step: VectorSearchStep,
    report: VectorReport,
    view: RequestView,
    restricted: bool,
) -> (next: VectorSearchStep)
    ensures
        next@ == vector_next(step, report, view, restricted),
{
    match (step, report) {
        (VectorSearchStep::OpenIndex { .. }, VectorReport::Rejected(reason)) => {
            let mut message = "validated vector read factory rejected generation: ".to_owned();
            message.append(reason.as_str());
            fail(message.as_str())
        },
        (VectorSearchStep::OpenIndex { .. }, VectorReport::Failed(error)) =>
            VectorSearchStep::Fail { error },
        (VectorSearchStep::OpenIndex { .. }, _) => match read_source(
            view.active_write,
            view.has_view,
            "vector metadata read",
        ) {
            Ok(source) => VectorSearchStep::ReadMetadata { source },
            Err(error) => VectorSearchStep::Fail { error },
        },
        (VectorSearchStep::ReadMetadata { .. }, VectorReport::Failed(error)) =>
            VectorSearchStep::Fail { error },
        (VectorSearchStep::ReadMetadata { .. }, VectorReport::Missing) => fail(
            "managed vector ownership references missing physical metadata",
        ),
        (VectorSearchStep::ReadMetadata { .. }, VectorReport::Mismatch) => fail(
            "managed vector descriptor and physical metadata contract mismatch",
        ),
        (VectorSearchStep::ReadMetadata { source }, _) => VectorSearchStep::MakeParameters {
            source,
        },
        (VectorSearchStep::MakeParameters { .. }, VectorReport::Rejected(reason)) =>
            VectorSearchStep::Fail { error: HelixDbError::InvalidVectorConfig(reason) },
        (VectorSearchStep::MakeParameters { .. }, VectorReport::Failed(error)) =>
            VectorSearchStep::Fail { error },
        (VectorSearchStep::MakeParameters { source }, _) => VectorSearchStep::Search {
            source,
            restricted,
        },
        (VectorSearchStep::Search { .. }, VectorReport::Failed(error)) => match error {
            HelixDbError::IndexNotFound(_) => fail(
                "managed vector ownership references missing physical rows",
            ),
            other => VectorSearchStep::Fail { error: other },
        },
        (VectorSearchStep::Search { .. }, _) => VectorSearchStep::ReturnResults,
        (finished, _) => finished,
    }
}

/// Whether nothing is left to do.
pub open spec fn vector_search_is_over(step: VectorStepView) -> bool {
    step is ReturnNothing || step is ReturnResults || step is Fail
}

/// The most steps that can still follow.
pub open spec fn vector_steps_left(step: VectorStepView) -> nat {
    match step {
        VectorStepView::OpenIndex { .. } => 4,
        VectorStepView::ReadMetadata { .. } => 3,
        VectorStepView::MakeParameters { .. } => 2,
        VectorStepView::Search { .. } => 1,
        _ => 0,
    }
}

/// Whatever the steps report, a query comes to its end.
pub proof fn law_vector_search_ends(
    step: VectorSearchStep,
    report: VectorReport,
    view: RequestView,
    restricted: bool,
)
    ensures
        vector_steps_left(step@) == 0 <==> vector_search_is_over(step@),
        !vector_search_is_over(step@) ==> vector_steps_left(
            vector_next(step, report, view, restricted),
        ) < vector_steps_left(step@),
{
}

/// No vector row is read before the metadata has been found and matched, and
/// the rows are read through the view that the metadata were read through.
pub proof fn law_rows_are_read_behind_checked_metadata(
    step: VectorSearchStep,
    report: VectorReport,
    view: RequestView,
    restricted: bool,
)
    requires
        !vector_search_is_over(step@),
    ensures
        vector_next(step, report, view, restricted) matches VectorStepView::Search {
            source,
            restricted: within,
        } ==> step == (VectorSearchStep::MakeParameters { source }) && within == restricted,
        vector_next(step, report, view, restricted) matches VectorStepView::MakeParameters {
            source,
        } ==> step == (VectorSearchStep::ReadMetadata { source }) && !(report is Missing)
            && !(report is Mismatch) && !(report is Failed),
        vector_next(step, report, view, restricted) matches VectorStepView::ReadMetadata { source }
            ==> source_of(view) == Some(source),
{
}

/// A request with a write transaction never sees shared cache rows.
pub proof fn law_writes_bypass_shared_cache(view: RequestView)
    requires
        view.active_write,
    ensures
        visibility_of(view) == VectorReadVisibility::Unavailable,
{
}

/// Metadata and rows are read through the write transaction of the request
/// exactly if it has one, so that a search finds what the request has written;
/// the read view serves only requests without one; and a request with neither
/// reads nothing.
pub proof fn law_vector_searches_see_own_writes(
    step: VectorSearchStep,
    report: VectorReport,
    view: RequestView,
    restricted: bool,
    next: VectorSearchStep,
)
    requires
        call_ensures(continue_vector_search, (step, report, view, restricted), next),
        !vector_search_is_over(step@),
    ensures
        next matches VectorSearchStep::ReadMetadata { source } ==> {
            &&& source == ReadSource::Transaction <==> view.active_write
            &&& source == ReadSource::Snapshot <==> !view.active_write && view.has_view
        },
        step is OpenIndex && report is Done ==> (next is ReadMetadata <==> view.active_write
            || view.has_view),
        step is OpenIndex && report is Done && !view.active_write && !view.has_view ==> next
            is Fail && next->error@ is InvariantViolation,
        next matches VectorSearchStep::MakeParameters { source } ==> step == (
        VectorSearchStep::ReadMetadata { source }),
        next matches VectorSearchStep::Search { source, restricted: within } ==> step == (
        VectorSearchStep::MakeParameters { source }) && within == restricted,
{
}

/// A whole query, each step of which succeeds: it reads the metadata, then the
/// rows, both through the same view, within the candidates exactly if it has
/// any, and returns what it found.
pub proof fn law_successful_vector_search(
    view: RequestView,
    restricted: bool,
    opening: VectorSearchStep,
    reading: VectorSearchStep,
    preparing: VectorSearchStep,
    searching: VectorSearchStep,
    found: VectorSearchStep,
)
    requires
        view.active_write || view.has_view,
        call_ensures(start_vector_search, (VectorSearchAuthority::Managed, view), opening),
        call_ensures(
            continue_vector_search,
            (opening, VectorReport::Done, view, restricted),
            reading,
        ),
        call_ensures(
            continue_vector_search,
            (reading, VectorReport::Done, view, restricted),
            preparing,
        ),
        call_ensures(
            continue_vector_search,
            (preparing, VectorReport::Done, view, restricted),
            searching,
        ),
        call_ensures(
            continue_vector_search,
            (searching, VectorReport::Done, view, restricted),
            found,
        ),
    ensures
        ({
            let source = if view.active_write {
                ReadSource::Transaction
            } else {
                ReadSource::Snapshot
            };
            &&& opening is OpenIndex
            &&& reading == (VectorSearchStep::ReadMetadata { source })
            &&& preparing == (VectorSearchStep::MakeParameters { source })
            &&& searching == (VectorSearchStep::Search { source, restricted })
            &&& found == VectorSearchStep::ReturnResults
        }),
{
}

/// For a tenant without a partition there is nothing to search; any other query
/// opens the index first.
pub proof fn law_absent_vector_partitions_are_empty(
    authority: VectorSearchAuthority,
    view: RequestView,
    step: VectorSearchStep,
)
    requires
        call_ensures(start_vector_search, (authority, view), step),
    ensures
        step == VectorSearchStep::ReturnNothing <==> authority
            == VectorSearchAuthority::AbsentManagedPartition,
        step is OpenIndex <==> authority == VectorSearchAuthority::Managed,
{
}

/// What a failed step fails with is what the query fails with, unchanged; only
/// rows that are missing behind metadata that were found are reported as a
/// broken invariant.
pub proof fn law_vector_faults_are_reported(
    step: VectorSearchStep,
    error: HelixDbError,
    view: RequestView,
    restricted: bool,
    next: VectorSearchStep,
)
    requires
        call_ensures(
            continue_vector_search,
            (step, VectorReport::Failed(error), view, restricted),
            next,
        ),
        !vector_search_is_over(step@),
    ensures
        next matches VectorSearchStep::Fail { error: reported } && {
            if step is Search && error is IndexNotFound {
                reported@ is InvariantViolation
            } else {
                reported@ == error@
            }
        },
{
}

/// Metadata that are missing or belong to another definition end a query as a
/// broken invariant, rejected parameters as an invalid configuration for the
/// given reason, and a rejected generation as a broken invariant that names the
/// reason.
pub proof fn law_vector_rejections_are_reported(
    step: VectorSearchStep,
    report: VectorReport,
    view: RequestView,
    restricted: bool,
    next: VectorSearchStep,
)
    requires
        call_ensures(continue_vector_search, (step, report, view, restricted), next),
    ensures
        step is ReadMetadata && (report is Missing || report is Mismatch) ==> next is Fail
            && next->error@ is InvariantViolation,
        step is MakeParameters && report is Rejected ==> next is Fail && next->error@
            == HelixDbErrorView::InvalidVectorConfig(report->Rejected_0@),
        step is OpenIndex && report is Rejected ==> next is Fail
            && next->error@ is InvariantViolation && report->Rejected_0@.len()
            <= next->error@.text().len() && next->error@.text().skip(
            next->error@.text().len() - report->Rejected_0@.len(),
        ) == report->Rejected_0@,
{
    if step is OpenIndex && report is Rejected {
        let head = "validated vector read factory rejected generation: "@;
        let reason = report->Rejected_0@;
        assert((head + reason).skip(head.len() as int) =~= reason);
    }
}

/// Shared cache rows serve a request exactly as far as the sequence number of
/// its read view allows: without one, or besides a write transaction, not at
/// all.
pub proof fn law_shared_rows_serve_comparable_views(
    view: RequestView,
    visibility: VectorReadVisibility,
    step: VectorSearchStep,
)
    requires
        call_ensures(read_visibility, (view,), visibility),
        call_ensures(start_vector_search, (VectorSearchAuthority::Managed, view), step),
    ensures
        step == (VectorSearchStep::OpenIndex { visibility }),
        visibility matches VectorReadVisibility::Comparable(sequence) ==> view.has_view
            && !view.active_write && view.comparable_sequence == Some(sequence),
        visibility == VectorReadVisibility::Unavailable <==> view.active_write || !view.has_view
            || view.comparable_sequence is None,
{
}

/// A failed query says what failed: what was rejected or missing is named, an
/// error that a step reports is passed on, and only an index that has vanished
/// below an owner becomes a violation.
pub proof fn law_failed_vector_searches_say_why(
    step: VectorSearchStep,
    report: VectorReport,
    view: RequestView,
    restricted: bool,
    next: VectorSearchStep,
)
    requires
        call_ensures(continue_vector_search, (step, report, view, restricted), next),
    ensures
        step is OpenIndex ==> (report matches VectorReport::Rejected(reason) ==> next is Fail
            && next->error@ == HelixDbErrorView::InvariantViolation(
            "validated vector read factory rejected generation: "@ + reason@,
        )),
        step is OpenIndex && report is Done && !view.active_write && !view.has_view ==> next
            is Fail && next->error@ == HelixDbErrorView::InvariantViolation(
            "vector metadata read"@ + " escaped its request read view"@,
        ),
        step is ReadMetadata && report is Missing ==> next is Fail && next->error@
            == HelixDbErrorView::InvariantViolation(
            "managed vector ownership references missing physical metadata"@,
        ),
        step is ReadMetadata && report is Mismatch ==> next is Fail && next->error@
            == HelixDbErrorView::InvariantViolation(
            "managed vector descriptor and physical metadata contract mismatch"@,
        ),
        step is MakeParameters ==> (report matches VectorReport::Rejected(reason) ==> next is Fail
            && next->error@ == HelixDbErrorView::InvalidVectorConfig(reason@)),
        step is OpenIndex || step is ReadMetadata || step is MakeParameters ==> (
        report matches VectorReport::Failed(error) ==> next is Fail && next->error@ == error@),
        step is Search ==> (report matches VectorReport::Failed(error) ==> next is Fail
            && next->error@ == if error@ is IndexNotFound {
            HelixDbErrorView::InvariantViolation(
                "managed vector ownership references missing physical rows"@,
            )
        } else {
            error@
        }),
{
}

} // verus!
