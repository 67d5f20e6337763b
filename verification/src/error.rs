use vstd::prelude::*;

verus! {

/// A free-form error carrying only a message.
#[derive(Debug, Clone)]
pub struct CustomError {
    pub message: String,
}

impl CustomError {
    pub fn new(error: &str) -> (r: Self)
        ensures
            r.message@ == error@,
    {
        Self { message: error.to_owned() }
    }
}

/// Which of the two required assets of a release is meant.
#[derive(Debug, Clone, Copy, PartialEq, Eq, Hash, Structural)]
pub enum AssetKind {
    Binary,
    Signature,
}

/// Every way in which serving a request can fail.
#[derive(Debug, Clone, Copy, PartialEq, Eq, Hash, Structural)]
pub enum ReleaseError {
    MalformedTag,
    AssetNotFound(AssetKind),
    SignatureFetchFailed,
    UpstreamUnavailable,
    InvalidVersionParam,
}

impl ReleaseError {
    /// The HTTP status that answers this error: 400 for a bad version
    /// parameter, 500 for everything else.
    pub open spec fn spec_status(self) -> u16 {
        if self == ReleaseError::InvalidVersionParam {
            400
        } else {
            500
        }
    }

    pub fn status(&self) -> (r: u16)
        ensures
            r == self.spec_status(),
    {
        match self {
            ReleaseError::InvalidVersionParam => 400,
            _ => 500,
        }
    }

    /// The words that describe this error to a client.
    pub open spec fn text(self) -> &'static str {
        match self {
            ReleaseError::MalformedTag => "release tag is not a semantic version",
            ReleaseError::AssetNotFound(AssetKind::Binary) => "Asset(binary) not found",
            ReleaseError::AssetNotFound(AssetKind::Signature) => "Asset(signature) not found",
            ReleaseError::SignatureFetchFailed => "signature could not be downloaded",
            ReleaseError::UpstreamUnavailable => "release host is unavailable",
            ReleaseError::InvalidVersionParam =>
                "Bad Request: params start and end must be semantic versions",
        }
    }

    /// This error as a message.
    pub fn describe(&self) -> (r: CustomError)
        ensures
            r.message@ == self.text()@,
    {
        match self {
            ReleaseError::MalformedTag => CustomError::new("release tag is not a semantic version"),
            ReleaseError::AssetNotFound(AssetKind::Binary) => CustomError::new(
                "Asset(binary) not found",
            ),
            ReleaseError::AssetNotFound(AssetKind::Signature) => CustomError::new(
                "Asset(signature) not found",
            ),
            ReleaseError::SignatureFetchFailed => CustomError::new(
                "signature could not be downloaded",
            ),
            ReleaseError::UpstreamUnavailable => CustomError::new("release host is unavailable"),
            ReleaseError::InvalidVersionParam => CustomError::new(
                "Bad Request: params start and end must be semantic versions",
            ),
        }
    }

    /// True exactly for the errors that are the client's fault.
    pub fn is_client_error(&self) -> (r: bool)
        ensures
            r == (*self == ReleaseError::InvalidVersionParam),
            r == (self.spec_status() == 400),
    {
        match self {
            ReleaseError::InvalidVersionParam => true,
            _ => false,
        }
    }
}

} // verus!
