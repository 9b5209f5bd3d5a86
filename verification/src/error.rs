use vstd::prelude::*;

verus! {

/// The kinds of failure that the byte-level parsers report.
#[derive(Debug, Clone, Copy, PartialEq, Eq)]
pub enum WebFault {
    /// More bytes are needed before a decision can be made.
    Partial,
    /// A token was expected and none was found.
    Token,
    /// A line ending was malformed.
    NewLine,
    /// Any other parser failure.
    Other,
}

/// Which side brought a connection down.
#[derive(Debug, Clone, Copy, PartialEq, Eq)]
pub enum Initiator {
    User,
    Library,
    Remote,
}

/// Errors of the protocol layer.
#[derive(Debug)]
pub enum ProtError {
    /// A parser of the wire format refused the input.
    Web(WebFault),
    /// A chunk-size field whose value does not fit the machine's lengths.
    ChunkTooLarge,
    /// A connection-level error: debug data, the reason code and who raised it.
    GoAway(Vec<u8>, u32, Initiator),
    /// Reading from or writing to a stream failed.
    Io,
    /// The peer opened an HTTP/1.1 connection with the HTTP/2 preface: the
    /// connection continues as HTTP/2.
    ServerUpgradeHttp2,
    /// Any other failure, described by a static message.
    Extension(&'static str),
}

pub type ProtResult<T> = Result<T, ProtError>;

} // verus!
