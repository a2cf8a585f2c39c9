//! Lifecycle state machine for a checkup record.
//!
//! A record moves through upload, extraction and analysis phases.  The
//! status is a best-effort, externally observable label: callers may also
//! write a label out of band, so parsing is total over the six known labels
//! and rejects nothing else than unknown text.

use vstd::prelude::*;

verus! {

/// Coarse lifecycle phase of a checkup record.
#[derive(Clone, Copy, Debug, PartialEq, Eq, Structural)]
pub enum RecordStatus {
    PendingUpload,
    PendingOcr,
    OcrProcessing,
    OcrDone,
    AiProcessing,
    AiDone,
}

/// The label under which each phase is stored and reported.
pub open spec fn status_label(s: RecordStatus) -> Seq<char> {
    match s {
        RecordStatus::PendingUpload => "pending_upload"@,
        RecordStatus::PendingOcr => "pending_ocr"@,
        RecordStatus::OcrProcessing => "ocr_processing"@,
        RecordStatus::OcrDone => "ocr_done"@,
        RecordStatus::AiProcessing => "ai_processing"@,
        RecordStatus::AiDone => "ai_done"@,
    }
}

impl RecordStatus {
    /// The stored label of this phase.
    pub fn label(&self) -> (r: &'static str)
        ensures
            r@ == status_label(*self),
    {
        match self {
            RecordStatus::PendingUpload => "pending_upload",
            RecordStatus::PendingOcr => "pending_ocr",
            RecordStatus::OcrProcessing => "ocr_processing",
            RecordStatus::OcrDone => "ocr_done",
            RecordStatus::AiProcessing => "ai_processing",
            RecordStatus::AiDone => "ai_done",
        }
    }
}

/// Status of a record that was just created.
pub fn on_record_created() -> (r: RecordStatus)
    ensures
        r == RecordStatus::PendingUpload,
{
    RecordStatus::PendingUpload
}

/// A successful file upload advances a record that was still waiting for
/// its first upload; any other phase is left as it stands.
pub fn on_file_uploaded(s: RecordStatus) -> (r: RecordStatus)
    ensures
        r == (if s == RecordStatus::PendingUpload {
            RecordStatus::PendingOcr
        } else {
            s
        }),
{
    if s == RecordStatus::PendingUpload {
        RecordStatus::PendingOcr
    } else {
        s
    }
}

/// Starting extraction marks the record as processing, whatever came before.
pub fn on_extraction_started(s: RecordStatus) -> (r: RecordStatus)
    ensures
        r == RecordStatus::OcrProcessing,
{
    RecordStatus::OcrProcessing
}

/// After a batch, one successful file is enough to advance; a batch with no
/// success at all falls back so the user can retry.
pub fn on_extraction_finished(success_count: usize) -> (r: RecordStatus)
    ensures
        r == (if success_count > 0 {
            RecordStatus::OcrDone
        } else {
            RecordStatus::PendingOcr
        }),
{
    if success_count > 0 {
        RecordStatus::OcrDone
    } else {
        RecordStatus::PendingOcr
    }
}

/// Starting the narrative analysis marks the record, whatever came before.
pub fn on_analysis_started(s: RecordStatus) -> (r: RecordStatus)
    ensures
        r == RecordStatus::AiProcessing,
{
    RecordStatus::AiProcessing
}

/// A finished analysis advances on success and falls back to the
/// extraction-done phase on any failure.
pub fn on_analysis_finished(ok: bool) -> (r: RecordStatus)
    ensures
        r == (if ok {
            RecordStatus::AiDone
        } else {
            RecordStatus::OcrDone
        }),
{
    if ok {
        RecordStatus::AiDone
    } else {
        RecordStatus::OcrDone
    }
}

} // verus!
