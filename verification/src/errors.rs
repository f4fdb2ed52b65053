//! Error values surfaced by the library, one enum per failure class.

use vstd::prelude::*;

verus! {

/// The overlay query parameter named a variant this library does not offer.
#[derive(Clone, Debug, PartialEq)]
pub enum InvalidPostProcessConfig {
    Default { message: String },
}

impl InvalidPostProcessConfig {
    /// The stored description of what was wrong with the configuration.
    pub fn message(&self) -> (m: String)
        ensures
            m@ == self.spec_message(),
    {
        match self {
            InvalidPostProcessConfig::Default { message } => message.clone(),
        }
    }

    pub open spec fn spec_message(&self) -> Seq<char> {
        match self {
            InvalidPostProcessConfig::Default { message } => message@,
        }
    }
}

/// Producing the base image failed; always an internal fault.
#[derive(Clone, Debug, PartialEq)]
pub enum ImageProcessingError {
    Default { message: String },
}

impl ImageProcessingError {
    /// The stored description of the rendering failure.
    pub fn message(&self) -> (m: String)
        ensures
            m@ == self.spec_message(),
    {
        match self {
            ImageProcessingError::Default { message } => message.clone(),
        }
    }

    pub open spec fn spec_message(&self) -> Seq<char> {
        match self {
            ImageProcessingError::Default { message } => message@,
        }
    }
}

/// Overlay compositing failed: missing or malformed overlay or base bytes.
#[derive(Clone, Debug, PartialEq)]
pub enum ImagePostProcessingError {
    Default { message: String },
}

impl ImagePostProcessingError {
    /// The stored description of the post-processing failure.
    pub fn message(&self) -> (m: String)
        ensures
            m@ == self.spec_message(),
    {
        match self {
            ImagePostProcessingError::Default { message } => message.clone(),
        }
    }

    pub open spec fn spec_message(&self) -> Seq<char> {
        match self {
            ImagePostProcessingError::Default { message } => message@,
        }
    }
}

/// How a request fails: rejected client input, or an internal fault.
#[derive(Clone, Debug, PartialEq)]
pub enum UserError {
    ValidationError { message: String },
    InternalError,
}

impl UserError {
    /// The user-facing description of the failure.
    pub fn message(&self) -> (m: String)
        ensures
            m@ == self.spec_message(),
    {
        match self {
            UserError::ValidationError { message } => message.clone(),
            UserError::InternalError => "An internal server error occurred".to_owned(),
        }
    }

    pub open spec fn spec_message(&self) -> Seq<char> {
        match self {
            UserError::ValidationError { message } => message@,
            UserError::InternalError => "An internal server error occurred"@,
        }
    }
}

/// An image buffer could not be loaded at all.
#[derive(Clone, Debug, PartialEq)]
pub enum ImageLoaderError {
    FailedLoad { message: String },
}

impl ImageLoaderError {
    /// The stored description of the load failure.
    pub fn message(&self) -> (m: String)
        ensures
            m@ == self.spec_message(),
    {
        match self {
            ImageLoaderError::FailedLoad { message } => message.clone(),
        }
    }

    pub open spec fn spec_message(&self) -> Seq<char> {
        match self {
            ImageLoaderError::FailedLoad { message } => message@,
        }
    }
}

} // verus!
