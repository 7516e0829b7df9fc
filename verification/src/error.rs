use vstd::prelude::*;

verus! {

/// The closed failure taxonomy of the session layer. Every externally
/// observable failure maps to exactly one variant, so a facade can choose a
/// status code without inspecting free text.
#[derive(Debug, PartialEq, Eq)]
pub enum ClientError {
    /// Network failure or timeout; read-only operations may be retried by the
    /// caller.
    TransportError,
    /// Bad credentials, or a session that is (or turned out to be) not
    /// authenticated.
    Unauthorized,
    /// Primary credentials were accepted but the site demands a second
    /// factor; the session stays unauthenticated.
    MfaRequired,
    /// The site's markup or response no longer has the expected shape.
    MalformedPayload,
    /// The password holds a character that no slot of the current keypad
    /// layout offers; login is aborted before any submission.
    SlotNotFound(char),
    /// The quote endpoint returned nothing usable for the requested symbol.
    SymbolNotFound,
    /// The remote side rejected the order; its reason is passed through.
    OrderRejected(String),
    /// The requested account id is absent from a freshly discovered list.
    AccountNotFound,
}

/// Failure of one markup extraction: the pattern was absent, or its captured
/// payload did not decode. Both surface as `ClientError::MalformedPayload`
/// at the session level; they are kept apart here for diagnosis.
#[derive(Debug, PartialEq, Eq, Clone, Copy)]
pub enum ExtractError {
    NotFound,
    MalformedPayload,
}

} // verus!
