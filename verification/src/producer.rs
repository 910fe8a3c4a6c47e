//! The worker's side of the wire: how the result of a render becomes the frame
//! that is written to the parent.

use crate::frame::{
    all_wf, records_view, BodyModel, DiagnosticRecord, FrameBody, FrameModel, ResultFrame,
};
use vstd::prelude::*;

verus! {

/// How many warnings, and how many errors, a frame carries at most. The
/// recipient shows no more than 25 fields per list.
pub const MAX_DIAGNOSTIC_COUNT: usize = 25;

/// An artifact must be smaller than this many bytes (8 MiB).
pub const MAX_ARTIFACT_SIZE: usize = 8 * 1024 * 1024;

/// The hint of a diagnostic that came without one.
pub const DEFAULT_HINT: &'static str = "No hints provided.";

/// The artifact is too large to be sent.
#[derive(Debug, Clone, Copy, PartialEq, Eq, Structural)]
pub struct ArtifactTooLarge {
    pub size: usize,
}

/// The first `cap` elements of `s`, or all of `s` when it has fewer.
pub open spec fn capped<T>(s: Seq<T>, cap: int) -> Seq<T> {
    if 0 <= cap < s.len() {
        s.take(cap)
    } else if cap < 0 {
        Seq::empty()
    } else {
        s
    }
}

/// The body of the frame for `output`, with no more than `cap` errors. When no
/// error is left to name, the body is a success without artifact: that is what
/// an error count of zero means on the wire.
pub open spec fn body_for(
    output: Result<Seq<u8>, Seq<DiagnosticRecord>>,
    cap: int,
) -> BodyModel {
    match output {
        Ok(artifact) => BodyModel::Success { artifact },
        Err(errors) => if capped(errors, cap).len() == 0 {
            BodyModel::Success { artifact: Seq::empty() }
        } else {
            BodyModel::Failure { errors: records_view(capped(errors, cap)) }
        },
    }
}

/// The record for one diagnostic: its message, and its first hint or
/// [`DEFAULT_HINT`].
pub fn diagnostic(message: String, first_hint: Option<String>) -> (record: DiagnosticRecord)
    ensures
        record.title@ == message@,
        record.hint@ == match first_hint {
            Some(hint) => hint@,
            None => DEFAULT_HINT@,
        },
{
    let hint = match first_hint {
        Some(hint) => hint,
        None => DEFAULT_HINT.to_owned(),
    };
    DiagnosticRecord { title: message, hint }
}

/// Keeps the first `cap` records, the most important ones, and drops the rest.
pub fn truncate_diagnostics(records: Vec<DiagnosticRecord>, cap: usize) -> (kept: Vec<
    DiagnosticRecord,
>)
    ensures
        kept@ == capped(records@, cap as int),
{
    let mut kept = records;
    kept.truncate(cap);
    assert(kept@ =~= capped(records@, cap as int));
    kept
}

/// Builds the frame for the result of a render: the warnings, and either the
/// artifact or the errors, each list cut to `cap` records.
///
/// Fails when the artifact has [`MAX_ARTIFACT_SIZE`] bytes or more.
pub fn assemble(
    warnings: Vec<DiagnosticRecord>,
    output: Result<Vec<u8>, Vec<DiagnosticRecord>>,
    cap: usize,
) -> (assembled: Result<ResultFrame, ArtifactTooLarge>)
    ensures
        match output {
            Ok(artifact) if artifact@.len() >= MAX_ARTIFACT_SIZE => assembled == Err::<
                ResultFrame,
                ArtifactTooLarge,
            >(ArtifactTooLarge { size: artifact@.len() as usize }),
            _ => assembled matches Ok(frame) && frame@ == (FrameModel {
                warnings: records_view(capped(warnings@, cap as int)),
                body: body_for(output_view(output), cap as int),
            }),
        },
{
    let warnings = truncate_diagnostics(warnings, cap);
    let body = match output {
        Ok(artifact) => {
            if artifact.len() >= MAX_ARTIFACT_SIZE {
                return Err(ArtifactTooLarge { size: artifact.len() });
            }
            FrameBody::Success { artifact }
        },
        Err(errors) => {
            let errors = truncate_diagnostics(errors, cap);
            if errors.len() == 0 {
                FrameBody::Success { artifact: Vec::new() }
            } else {
                FrameBody::Failure { errors }
            }
        },
    };
    Ok(ResultFrame { warnings, body })
}

/// The value of what a render handed over.
pub open spec fn output_view(output: Result<Vec<u8>, Vec<DiagnosticRecord>>) -> Result<
    Seq<u8>,
    Seq<DiagnosticRecord>,
> {
    match output {
        Ok(artifact) => Ok(artifact@),
        Err(errors) => Err(errors@),
    }
}

/// What is assembled from well-formed records is a well-formed frame, so the
/// parent reads it back as it was written.
pub proof fn assembled_is_well_formed(
    warnings: Seq<DiagnosticRecord>,
    output: Result<Seq<u8>, Seq<DiagnosticRecord>>,
    cap: usize,
)
    requires
        all_wf(records_view(warnings)),
        output matches Err(errors) ==> all_wf(records_view(errors)),
    ensures
        (FrameModel {
            warnings: records_view(capped(warnings, cap as int)),
            body: body_for(output, cap as int),
        }).wf(),
{
    let kept = records_view(capped(warnings, cap as int));
    assert forall|i: int| 0 <= i < kept.len() implies (#[trigger] kept[i]).wf() by {
        assert(kept[i] == records_view(warnings)[i]);
    }
    if let Err(errors) = output {
        let named = records_view(capped(errors, cap as int));
        assert forall|i: int| 0 <= i < named.len() implies (#[trigger] named[i]).wf() by {
            assert(named[i] == records_view(errors)[i]);
        }
    }
}

} // verus!
