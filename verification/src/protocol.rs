//! The data model of the wire protocol.
//!
//! An envelope is one typed unit exchanged with the server, a tagged
//! union over exactly three kinds. `users` carries the full roster name
//! list, `register` and `message` carry a single string. The nested
//! record carried inside a `message` envelope's string is `MessageData`.

use vstd::prelude::*;

verus! {

/// The kind tag of an envelope.
#[derive(Clone, Copy, Debug, PartialEq, Eq, Structural)]
pub enum MsgTypes {
    Users,
    Register,
    Message,
}

/// One typed unit of the wire protocol. Exactly one payload shape is
/// populated per kind: a name list for `Users`, a single string for
/// `Register` and `Message`.
#[derive(Clone, Debug, PartialEq, Eq)]
pub enum Envelope {
    Users(Vec<Vec<u8>>),
    Register(Vec<u8>),
    Message(Vec<u8>),
}

/// Spec-level value of an [`Envelope`].
#[verifier::ext_equal]
pub enum EnvelopeView {
    Users(Seq<Seq<u8>>),
    Register(Seq<u8>),
    Message(Seq<u8>),
}

impl View for Envelope {
    type V = EnvelopeView;

    open spec fn view(&self) -> EnvelopeView {
        match self {
            Envelope::Users(names) => EnvelopeView::Users(names.deep_view()),
            Envelope::Register(data) => EnvelopeView::Register(data@),
            Envelope::Message(data) => EnvelopeView::Message(data@),
        }
    }
}

/// The kind tag of a spec-level envelope.
pub open spec fn kind_of(e: EnvelopeView) -> MsgTypes {
    match e {
        EnvelopeView::Users(_) => MsgTypes::Users,
        EnvelopeView::Register(_) => MsgTypes::Register,
        EnvelopeView::Message(_) => MsgTypes::Message,
    }
}

impl Envelope {
    /// The kind tag of this envelope.
    pub fn kind(&self) -> (k: MsgTypes)
        ensures
            k == kind_of(self@),
    {
        match self {
            Envelope::Users(_) => MsgTypes::Users,
            Envelope::Register(_) => MsgTypes::Register,
            Envelope::Message(_) => MsgTypes::Message,
        }
    }
}

/// The nested record carried inside a `message` envelope: who wrote it
/// and the message body.
#[derive(Clone, Debug, PartialEq, Eq)]
pub struct MessageData {
    pub from: Vec<u8>,
    pub message: Vec<u8>,
}

/// Spec-level value of a [`MessageData`].
#[verifier::ext_equal]
pub struct MessageDataView {
    pub from: Seq<u8>,
    pub message: Seq<u8>,
}

impl View for MessageData {
    type V = MessageDataView;

    open spec fn view(&self) -> MessageDataView {
        MessageDataView { from: self.from@, message: self.message@ }
    }
}

impl DeepView for MessageData {
    type V = MessageDataView;

    open spec fn deep_view(&self) -> MessageDataView {
        self.view()
    }
}

/// Why a piece of wire text was rejected.
#[derive(Clone, Copy, Debug, PartialEq, Eq, Structural)]
pub enum DecodeError {
    /// The text is not in the compact object form the schema uses —
    /// ill-formed syntax, a key the schema does not know, a repeated
    /// key, or a value of the wrong shape for its key.
    Syntax,
    /// The object reads cleanly but its fields make no envelope (or
    /// record): an unknown kind, a required field missing or null, or
    /// a forbidden field populated.
    Schema,
}

} // verus!
