use vstd::prelude::*;

verus! {

/// Why a received record could not be turned into a message.
#[derive(Debug, Clone, Copy, PartialEq, Eq, Structural)]
pub enum DecodeFault {
    /// The record carried no payload at all.
    EmptyPayload,
    /// The payload is not valid text.
    NotText,
}

/// The error taxonomy of the client.
#[derive(Debug, Clone)]
pub enum ClientError {
    /// A connection handle could not be built from the configuration.
    ConnectError(String),
    /// The broker rejected the topic subscription.
    SubscribeFailed(String),
    /// A transient receive or send failure.
    TransportError(String),
    /// A received record is malformed; fatal for the consume loop.
    DecodeFailed(DecodeFault),
    /// A publish was not confirmed by the broker.
    DeliveryFailed(String),
    /// Creating a topic failed for a reason other than its prior existence.
    TopicCreateFailed(String),
    /// Broker metadata could not be fetched in time.
    MetadataUnavailable(String),
    /// The consume loop gave up after too many consecutive transport errors.
    RetriesExhausted,
}

} // verus!
