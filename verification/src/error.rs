//! The failures that the library reports to its callers.

use vstd::prelude::*;
use vstd::string::StringExecFns;

verus! {

/// Why an operation of the library did not do what was asked.
#[derive(Clone, Debug, PartialEq, Eq)]
pub enum Error {
    /// The operation named a peer that has no session.
    PeerNotFound,
    /// A session with that peer exists already.
    PeerAlreadyExists,
    /// A media source with that id is registered already.
    DuplicateSourceId,
    /// The transport could not carry out a negotiation, attach or detach step.
    TransportFailure,
    /// One frame or packet could not be encoded, decoded or packetized.
    CodecFailure,
    /// The consumer at the other end of a hand-off is gone.
    ChannelClosed,
    /// `text` names none of the known MIME types.
    InvalidMimeType { text: String },
    /// `text` names a known MIME type for which no pipeline exists.
    UnhandledMimeType { text: String },
}

impl Error {
    /// The message of the error. An error about a MIME type ends with a
    /// colon, a space and the text that was refused.
    pub open spec fn spec_message(&self) -> Seq<char> {
        match self {
            Error::PeerNotFound => "peer not found"@,
            Error::PeerAlreadyExists => "peer already exists"@,
            Error::DuplicateSourceId => "duplicate media source id"@,
            Error::TransportFailure => "transport failure"@,
            Error::CodecFailure => "codec failure"@,
            Error::ChannelClosed => "channel closed"@,
            Error::InvalidMimeType { text } => "invalid mime type: "@ + text@,
            Error::UnhandledMimeType { text } => "unhandled mime type: "@ + text@,
        }
    }

    /// The message of the error, for logs and for the caller.
    pub fn message(&self) -> (message: String)
        ensures
            message@ == self.spec_message(),
    {
        match self {
            Error::PeerNotFound => "peer not found".to_owned(),
            Error::PeerAlreadyExists => "peer already exists".to_owned(),
            Error::DuplicateSourceId => "duplicate media source id".to_owned(),
            Error::TransportFailure => "transport failure".to_owned(),
            Error::CodecFailure => "codec failure".to_owned(),
            Error::ChannelClosed => "channel closed".to_owned(),
            Error::InvalidMimeType { text } => {
                let mut message: String = "invalid mime type: ".to_owned();
                message.append(text.as_str());
                message
            },
            Error::UnhandledMimeType { text } => {
                let mut message: String = "unhandled mime type: ".to_owned();
                message.append(text.as_str());
                message
            },
        }
    }
}

} // verus!
