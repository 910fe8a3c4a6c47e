//! What a worker reports: diagnostics, and either an artifact or the errors
//! that kept it from producing one.

use crate::text::{is_line_text, is_whitespace, white_space};
use vstd::prelude::*;

verus! {

/// One warning or error: a title and a hint, each a single display line.
#[derive(Debug, Clone, PartialEq, Eq)]
pub struct DiagnosticRecord {
    pub title: String,
    pub hint: String,
}

/// What the worker produced: an artifact, or the errors that prevented it.
#[derive(Debug, Clone, PartialEq, Eq)]
pub enum FrameBody {
    Success { artifact: Vec<u8> },
    Failure { errors: Vec<DiagnosticRecord> },
}

/// The complete report of one worker run. Warnings and errors keep the order
/// in which the worker emitted them.
#[derive(Debug, Clone, PartialEq, Eq)]
pub struct ResultFrame {
    pub warnings: Vec<DiagnosticRecord>,
    pub body: FrameBody,
}

/// Mathematical value of a [`DiagnosticRecord`].
pub ghost struct RecordModel {
    pub title: Seq<char>,
    pub hint: Seq<char>,
}

/// Mathematical value of a [`FrameBody`].
pub ghost enum BodyModel {
    Success { artifact: Seq<u8> },
    Failure { errors: Seq<RecordModel> },
}

/// Mathematical value of a [`ResultFrame`].
pub ghost struct FrameModel {
    pub warnings: Seq<RecordModel>,
    pub body: BodyModel,
}

impl RecordModel {
    /// Both texts are single lines as a reader hands them out.
    pub open spec fn wf(self) -> bool {
        is_line_text(self.title) && is_line_text(self.hint)
    }
}

/// Every record of `records` is well formed.
pub open spec fn all_wf(records: Seq<RecordModel>) -> bool {
    forall|i: int| 0 <= i < records.len() ==> (#[trigger] records[i]).wf()
}

impl BodyModel {
    /// A failure names at least one error; every error is well formed.
    pub open spec fn wf(self) -> bool {
        match self {
            BodyModel::Success { artifact } => true,
            BodyModel::Failure { errors } => {
                &&& 0 < errors.len() <= u64::MAX
                &&& all_wf(errors)
            },
        }
    }
}

impl FrameModel {
    /// The frame is one that a reader of the wire format can return.
    pub open spec fn wf(self) -> bool {
        &&& self.warnings.len() <= u64::MAX
        &&& all_wf(self.warnings)
        &&& self.body.wf()
    }
}

impl View for DiagnosticRecord {
    type V = RecordModel;

    open spec fn view(&self) -> RecordModel {
        RecordModel { title: self.title@, hint: self.hint@ }
    }
}

/// The values of a run of records, in order.
pub open spec fn records_view(records: Seq<DiagnosticRecord>) -> Seq<RecordModel> {
    records.map_values(|r: DiagnosticRecord| r@)
}

impl View for FrameBody {
    type V = BodyModel;

    open spec fn view(&self) -> BodyModel {
        match self {
            FrameBody::Success { artifact } => BodyModel::Success { artifact: artifact@ },
            FrameBody::Failure { errors } => BodyModel::Failure { errors: records_view(errors@) },
        }
    }
}

impl View for ResultFrame {
    type V = FrameModel;

    open spec fn view(&self) -> FrameModel {
        FrameModel { warnings: records_view(self.warnings@), body: self.body@ }
    }
}

/// Whether `text` holds no line feed and does not end in white space.
pub fn is_line(text: &str) -> (yes: bool)
    ensures
        yes == is_line_text(text@),
{
    let mut single: bool = true;
    let mut ends_blank: bool = false;
    for ch in it: text.chars()
        invariant
            it.seq() == text@,
            single == !text@.take(it.index()).contains('\n'),
            ends_blank == (it.index() > 0 && white_space(text@[it.index() - 1])),
    {
        proof {
            let seen = text@.take(it.index());
            let next = text@.take(it.index() + 1);
            assert(next.drop_last() =~= seen);
            assert(next.last() == ch);
            if seen.contains('\n') {
                let i = choose|i: int| 0 <= i < seen.len() && seen[i] == '\n';
                assert(next[i] == '\n');
            }
            if next.contains('\n') && ch != '\n' {
                let i = choose|i: int| 0 <= i < next.len() && next[i] == '\n';
                assert(seen[i] == '\n');
            }
        }
        if ch == '\n' {
            single = false;
        }
        ends_blank = is_whitespace(ch);
    }
    proof {
        assert(text@.take(text@.len() as int) =~= text@);
    }
    single && !ends_blank
}

impl DiagnosticRecord {
    /// Whether both texts are single lines as a reader hands them out.
    pub fn is_well_formed(&self) -> (yes: bool)
        ensures
            yes == self@.wf(),
    {
        is_line(self.title.as_str()) && is_line(self.hint.as_str())
    }
}

/// Whether every record is well formed.
pub fn all_well_formed(records: &Vec<DiagnosticRecord>) -> (yes: bool)
    ensures
        yes == all_wf(records_view(records@)),
{
    let mut i: usize = 0;
    while i < records.len()
        invariant
            i <= records.len(),
            forall|k: int| 0 <= k < i ==> (#[trigger] records_view(records@)[k]).wf(),
        decreases records.len() - i,
    {
        if !records[i].is_well_formed() {
            assert(!records_view(records@)[i as int].wf());
            return false;
        }
        i += 1;
    }
    true
}

impl ResultFrame {
    /// Whether the frame is one that a reader of the wire format can return:
    /// writing it and reading it back then gives the same frame.
    pub fn is_well_formed(&self) -> (yes: bool)
        ensures
            yes == self@.wf(),
    {
        let warning_count: usize = self.warnings.len();
        assert(records_view(self.warnings@).len() == warning_count);
        if !all_well_formed(&self.warnings) {
            return false;
        }
        match &self.body {
            FrameBody::Success { artifact } => true,
            FrameBody::Failure { errors } => {
                let error_count: usize = errors.len();
                assert(records_view(errors@).len() == error_count);
                error_count > 0 && all_well_formed(errors)
            },
        }
    }
}

} // verus!
