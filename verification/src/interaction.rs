//! What an inbound interaction asks for, and what is answered at once.
//!
//! A ping is answered with a pong, a command with its fixed reply, and a
//! submitted editor with a request to render, which is answered later.

use crate::text::same_text;
use vstd::prelude::*;
use vstd::string::StringExecFns;

verus! {

/// One request to render: the text to compile, and how long it may take
/// before its worker is given up.
#[derive(Debug, Clone, PartialEq, Eq)]
pub struct ComputeRequest {
    pub text: String,
    pub deadline_ms: u64,
}

/// One labelled component of a submitted editor.
#[derive(Debug, Clone, PartialEq, Eq)]
pub enum ModalField {
    TextInput { custom_id: String, value: String },
    StringSelect { custom_id: String, values: Vec<String> },
    Other,
}

/// What came in.
#[derive(Debug, Clone, PartialEq, Eq)]
pub enum Inbound {
    Ping,
    Command { has_user: bool, chat_input: bool, name: String },
    ModalSubmit { has_user: bool, custom_id: String, fields: Vec<ModalField> },
    Other,
}

/// What is answered at once.
#[derive(Debug, Clone, PartialEq, Eq)]
pub enum Reply {
    Pong,
    /// How to use the service.
    Help,
    /// What the service is.
    Info,
    /// Open the editor.
    Editor,
    /// The answer is deferred until `request` has been rendered.
    Render { request: ComputeRequest, spoiler: bool },
}

/// Why nothing can be answered. None of these is sent by a well-behaved peer.
#[derive(Debug, Clone, Copy, PartialEq, Eq, Structural)]
pub enum Unhandled {
    MissingUser,
    NotChatInput,
    UnknownCommand,
    UnknownModal,
    MissingCode,
    UnknownInteraction,
}

/// Mathematical value of a [`Reply`].
pub ghost enum ReplyModel {
    Pong,
    Help,
    Info,
    Editor,
    Render { text: Seq<char>, deadline_ms: u64, spoiler: bool },
}

impl View for Reply {
    type V = ReplyModel;

    open spec fn view(&self) -> ReplyModel {
        match self {
            Reply::Pong => ReplyModel::Pong,
            Reply::Help => ReplyModel::Help,
            Reply::Info => ReplyModel::Info,
            Reply::Editor => ReplyModel::Editor,
            Reply::Render { request, spoiler } => ReplyModel::Render {
                text: request.text@,
                deadline_ms: request.deadline_ms,
                spoiler: *spoiler,
            },
        }
    }
}

/// The code that a field carries: the value of a text input named `code`.
pub open spec fn field_code(field: ModalField) -> Option<Seq<char>> {
    match field {
        ModalField::TextInput { custom_id, value } if custom_id@ == "code"@ => Some(value@),
        _ => None,
    }
}

/// The choice that a field carries: whether the first value of a select named
/// `spoiler` is `yes`.
pub open spec fn field_spoiler(field: ModalField) -> Option<bool> {
    match field {
        ModalField::StringSelect { custom_id, values } if custom_id@ == "spoiler"@ => Some(
            values@.len() > 0 && values@[0]@ == "yes"@,
        ),
        _ => None,
    }
}

/// The code of a submitted editor: that of the last field that carries one.
pub open spec fn code_of(fields: Seq<ModalField>) -> Option<Seq<char>>
    decreases fields.len(),
{
    if fields.len() == 0 {
        None
    } else {
        match field_code(fields.last()) {
            Some(code) => Some(code),
            None => code_of(fields.drop_last()),
        }
    }
}

/// Whether the rendering is to be hidden: the choice of the last field that
/// carries one, and no where none does.
pub open spec fn spoiler_of(fields: Seq<ModalField>) -> bool
    decreases fields.len(),
{
    if fields.len() == 0 {
        false
    } else {
        match field_spoiler(fields.last()) {
            Some(spoiler) => spoiler,
            None => spoiler_of(fields.drop_last()),
        }
    }
}

/// The reply to a command, by its name.
pub open spec fn command_reply(name: Seq<char>) -> Result<ReplyModel, Unhandled> {
    if name == "help"@ {
        Ok(ReplyModel::Help)
    } else if name == "info"@ {
        Ok(ReplyModel::Info)
    } else if name == "typst"@ {
        Ok(ReplyModel::Editor)
    } else {
        Err(Unhandled::UnknownCommand)
    }
}

/// The reply to whatever came in. The text to render is `preamble` followed
/// by the submitted code.
pub open spec fn reply_for(inbound: Inbound, preamble: Seq<char>, deadline_ms: u64) -> Result<
    ReplyModel,
    Unhandled,
> {
    match inbound {
        Inbound::Ping => Ok(ReplyModel::Pong),
        Inbound::Command { has_user, chat_input, name } => if !has_user {
            Err(Unhandled::MissingUser)
        } else if !chat_input {
            Err(Unhandled::NotChatInput)
        } else {
            command_reply(name@)
        },
        Inbound::ModalSubmit { has_user, custom_id, fields } => if !has_user {
            Err(Unhandled::MissingUser)
        } else if custom_id@ != "typst"@ {
            Err(Unhandled::UnknownModal)
        } else {
            match code_of(fields@) {
                None => Err(Unhandled::MissingCode),
                Some(code) => Ok(
                    ReplyModel::Render {
                        text: preamble + code,
                        deadline_ms,
                        spoiler: spoiler_of(fields@),
                    },
                ),
            }
        },
        Inbound::Other => Err(Unhandled::UnknownInteraction),
    }
}

/// The mathematical value of what [`InteractionHandler::handle`] returns.
pub open spec fn routed_view(routed: Result<Reply, Unhandled>) -> Result<ReplyModel, Unhandled> {
    match routed {
        Ok(reply) => Ok(reply@),
        Err(unhandled) => Err(unhandled),
    }
}

/// What a submitted editor holds: the code, if any field carries it, and
/// whether the rendering is to be hidden.
pub fn read_submission(fields: &Vec<ModalField>) -> (read: (Option<String>, bool))
    ensures
        match read.0 {
            Some(code) => code_of(fields@) == Some(code@),
            None => code_of(fields@) is None,
        },
        read.1 == spoiler_of(fields@),
{
    let mut code: Option<String> = None;
    let mut spoiler: bool = false;
    let mut i: usize = 0;
    while i < fields.len()
        invariant
            i <= fields.len(),
            match code {
                Some(code) => code_of(fields@.take(i as int)) == Some(code@),
                None => code_of(fields@.take(i as int)) is None,
            },
            spoiler == spoiler_of(fields@.take(i as int)),
        decreases fields.len() - i,
    {
        proof {
            let next = fields@.take(i + 1);
            assert(next.drop_last() =~= fields@.take(i as int));
            assert(next.last() == fields@[i as int]);
        }
        match &fields[i] {
            ModalField::TextInput { custom_id, value } => {
                if same_text(custom_id.as_str(), "code") {
                    code = Some(value.clone());
                }
            },
            ModalField::StringSelect { custom_id, values } => {
                if same_text(custom_id.as_str(), "spoiler") {
                    spoiler = values.len() > 0 && same_text(values[0].as_str(), "yes");
                }
            },
            ModalField::Other => {},
        }
        i += 1;
    }
    assert(fields@.take(fields.len() as int) =~= fields@);
    (code, spoiler)
}

/// Answers interactions. Every request to render that it hands out starts with
/// the same preamble and has the same deadline.
#[derive(Debug, Clone, PartialEq, Eq)]
pub struct InteractionHandler {
    pub compilation_timeout_ms: u64,
    pub preamble: String,
}

impl InteractionHandler {
    pub fn new(compilation_timeout_ms: u64, preamble: String) -> (handler: Self)
        ensures
            handler.compilation_timeout_ms == compilation_timeout_ms,
            handler.preamble@ == preamble@,
    {
        Self { compilation_timeout_ms, preamble }
    }

    /// Decides what is answered to `inbound`.
    pub fn handle(&self, inbound: &Inbound) -> (routed: Result<Reply, Unhandled>)
        ensures
            routed_view(routed) == reply_for(
                *inbound,
                self.preamble@,
                self.compilation_timeout_ms,
            ),
    {
        match inbound {
            Inbound::Ping => Ok(Reply::Pong),
            Inbound::Command { has_user, chat_input, name } => {
                if !*has_user {
                    Err(Unhandled::MissingUser)
                } else if !*chat_input {
                    Err(Unhandled::NotChatInput)
                } else if same_text(name.as_str(), "help") {
                    Ok(Reply::Help)
                } else if same_text(name.as_str(), "info") {
                    Ok(Reply::Info)
                } else if same_text(name.as_str(), "typst") {
                    Ok(Reply::Editor)
                } else {
                    Err(Unhandled::UnknownCommand)
                }
            },
            Inbound::ModalSubmit { has_user, custom_id, fields } => {
                if !*has_user {
                    return Err(Unhandled::MissingUser);
                }
                if !same_text(custom_id.as_str(), "typst") {
                    return Err(Unhandled::UnknownModal);
                }
                let (code, spoiler) = read_submission(fields);
                match code {
                    None => Err(Unhandled::MissingCode),
                    Some(code) => {
                        let text = self.preamble.clone().concat(code.as_str());
                        let request = ComputeRequest {
                            text,
                            deadline_ms: self.compilation_timeout_ms,
                        };
                        Ok(Reply::Render { request, spoiler })
                    },
                }
            },
            Inbound::Other => Err(Unhandled::UnknownInteraction),
        }
    }
}

} // verus!
