//! What a message channel hands to either end of a connection.

use vstd::prelude::*;

verus! {

/// What arrives on a connection.
#[derive(Clone, Debug, PartialEq, Eq)]
pub enum Inbound {
    /// A binary frame, with its payload.
    Binary(Vec<u8>),
    /// The peer closed the channel.
    Close,
    /// A frame of another kind: text, ping or pong.
    Other,
    /// The transport failed.
    Failure,
}

/// An `Inbound` as a value of specifications.
pub enum InboundView {
    Binary(Seq<u8>),
    Close,
    Other,
    Failure,
}

impl View for Inbound {
    type V = InboundView;

    open spec fn view(&self) -> InboundView {
        match self {
            Inbound::Binary(data) => InboundView::Binary(data@),
            Inbound::Close => InboundView::Close,
            Inbound::Other => InboundView::Other,
            Inbound::Failure => InboundView::Failure,
        }
    }
}

} // verus!
