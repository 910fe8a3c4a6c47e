//! What is shown for an outcome: the rendered image, if there is one, and the
//! diagnostics as lists, the errors before the warnings.

use crate::frame::{records_view, DiagnosticRecord, RecordModel};
use crate::orchestrator::{Outcome, OutcomeModel};
use vstd::prelude::*;

verus! {

/// Heading of the list of errors.
pub const ERRORS_TITLE: &'static str = "Compilation Errors";

/// Heading of the list of warnings.
pub const WARNINGS_TITLE: &'static str = "Compilation Warnings";

/// Colour of the list of errors.
pub const ERRORS_COLOR: u32 = 0xf33f33;

/// Colour of the list of warnings.
pub const WARNINGS_COLOR: u32 = 0xf7b955;

/// File name of the rendered image.
pub const IMAGE_NAME: &'static str = "typst.webp";

/// File name of a rendered image that is to be hidden until it is clicked.
pub const SPOILER_IMAGE_NAME: &'static str = "SPOILER_typst.webp";

/// What is said when the worker crashed.
pub const CRASH_NOTICE: &'static str =
    "The Typst renderer crashed. Please try again with simpler input.";

/// One list of diagnostics, shown under a heading.
#[derive(Debug, Clone, PartialEq, Eq)]
pub struct DiagnosticList {
    pub title: &'static str,
    pub color: u32,
    pub fields: Vec<DiagnosticRecord>,
}

/// The rendered image as it is attached.
#[derive(Debug, Clone, PartialEq, Eq)]
pub struct Attachment {
    pub filename: &'static str,
    pub file: Vec<u8>,
}

/// What is shown for an outcome.
#[derive(Debug, Clone, PartialEq, Eq)]
pub enum Delivery {
    /// The worker answered: the image, where it made one, replaces the
    /// placeholder, and the lists follow.
    Rendered { attachment: Option<Attachment>, lists: Vec<DiagnosticList> },
    /// The worker crashed: [`CRASH_NOTICE`] replaces the placeholder.
    Crashed,
    /// The deadline passed: a notice with the time waited replaces the
    /// placeholder.
    TimedOut,
}

/// Mathematical value of a [`DiagnosticList`].
pub ghost struct ListModel {
    pub title: Seq<char>,
    pub color: u32,
    pub fields: Seq<RecordModel>,
}

/// Mathematical value of a [`Delivery`].
pub ghost enum DeliveryModel {
    Rendered { attachment: Option<(Seq<char>, Seq<u8>)>, lists: Seq<ListModel> },
    Crashed,
    TimedOut,
}

impl View for DiagnosticList {
    type V = ListModel;

    open spec fn view(&self) -> ListModel {
        ListModel { title: self.title@, color: self.color, fields: records_view(self.fields@) }
    }
}

impl View for Delivery {
    type V = DeliveryModel;

    open spec fn view(&self) -> DeliveryModel {
        match self {
            Delivery::Rendered { attachment, lists } => DeliveryModel::Rendered {
                attachment: match attachment {
                    Some(a) => Some((a.filename@, a.file@)),
                    None => None,
                },
                lists: lists@.map_values(|l: DiagnosticList| l@),
            },
            Delivery::Crashed => DeliveryModel::Crashed,
            Delivery::TimedOut => DeliveryModel::TimedOut,
        }
    }
}

/// The list of errors.
pub open spec fn errors_list(errors: Seq<RecordModel>) -> ListModel {
    ListModel { title: ERRORS_TITLE@, color: ERRORS_COLOR, fields: errors }
}

/// The list of warnings.
pub open spec fn warnings_list(warnings: Seq<RecordModel>) -> ListModel {
    ListModel { title: WARNINGS_TITLE@, color: WARNINGS_COLOR, fields: warnings }
}

/// The lists that are shown: the errors, then the warnings, each only where
/// there are any.
pub open spec fn lists_for(errors: Seq<RecordModel>, warnings: Seq<RecordModel>) -> Seq<ListModel> {
    let first = if errors.len() > 0 {
        seq![errors_list(errors)]
    } else {
        Seq::empty()
    };
    let second = if warnings.len() > 0 {
        seq![warnings_list(warnings)]
    } else {
        Seq::empty()
    };
    first + second
}

/// The name under which the image is attached.
pub open spec fn image_name(spoiler: bool) -> Seq<char> {
    if spoiler {
        SPOILER_IMAGE_NAME@
    } else {
        IMAGE_NAME@
    }
}

/// What is shown for `outcome`. An empty artifact is not attached.
pub open spec fn delivery_for(outcome: OutcomeModel, spoiler: bool) -> DeliveryModel {
    match outcome {
        OutcomeModel::Success { artifact, warnings } => DeliveryModel::Rendered {
            attachment: if artifact.len() > 0 {
                Some((image_name(spoiler), artifact))
            } else {
                None
            },
            lists: lists_for(Seq::empty(), warnings),
        },
        OutcomeModel::Failure { errors, warnings } => DeliveryModel::Rendered {
            attachment: None,
            lists: lists_for(errors, warnings),
        },
        OutcomeModel::Timeout => DeliveryModel::TimedOut,
        OutcomeModel::Crash { reason } => DeliveryModel::Crashed,
    }
}

/// The lists for the diagnostics of a frame.
pub fn diagnostic_lists(
    errors: Vec<DiagnosticRecord>,
    warnings: Vec<DiagnosticRecord>,
) -> (lists: Vec<DiagnosticList>)
    ensures
        lists@.map_values(|l: DiagnosticList| l@) == lists_for(
            records_view(errors@),
            records_view(warnings@),
        ),
{
    let mut lists: Vec<DiagnosticList> = Vec::new();
    if errors.len() > 0 {
        lists.push(DiagnosticList { title: ERRORS_TITLE, color: ERRORS_COLOR, fields: errors });
    }
    if warnings.len() > 0 {
        lists.push(
            DiagnosticList { title: WARNINGS_TITLE, color: WARNINGS_COLOR, fields: warnings },
        );
    }
    assert(lists@.map_values(|l: DiagnosticList| l@) =~= lists_for(
        records_view(errors@),
        records_view(warnings@),
    ));
    lists
}

/// Decides what is shown for `outcome`.
pub fn plan(outcome: Outcome, spoiler: bool) -> (delivery: Delivery)
    ensures
        delivery@ == delivery_for(outcome@, spoiler),
{
    match outcome {
        Outcome::Success { artifact, warnings } => {
            let lists = diagnostic_lists(Vec::new(), warnings);
            let attachment = if artifact.len() > 0 {
                let filename = if spoiler {
                    SPOILER_IMAGE_NAME
                } else {
                    IMAGE_NAME
                };
                Some(Attachment { filename, file: artifact })
            } else {
                None
            };
            assert(records_view(Seq::<DiagnosticRecord>::empty()) =~= Seq::<RecordModel>::empty());
            Delivery::Rendered { attachment, lists }
        },
        Outcome::Failure { errors, warnings } => Delivery::Rendered {
            attachment: None,
            lists: diagnostic_lists(errors, warnings),
        },
        Outcome::Timeout => Delivery::TimedOut,
        Outcome::Crash { reason } => Delivery::Crashed,
    }
}

} // verus!
