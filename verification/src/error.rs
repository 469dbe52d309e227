//! Error types of the library.
//!
//! `WhitenoiseError` is the error of the core engine: its variants separate
//! identity, relay, encoding, membership and welcome faults, plus storage and
//! catch-all failures. `ApiError` is the flat, message-carrying error shape
//! handed across the presentation boundary; `api_error_from_core` maps one to
//! the other.

use vstd::prelude::*;

verus! {

/// Error of the core engine.
#[derive(Debug)]
pub enum WhitenoiseError {
    /// A public key is not 64 hexadecimal digits.
    InvalidPublicKey,
    /// A relay endpoint is not a well-formed `ws://` or `wss://` URL.
    InvalidRelayUrl,
    /// A binary identifier string is not valid hexadecimal.
    InvalidEncoding,
    /// No local account carries the given public key.
    AccountNotFound,
    /// No group carries the given group identifier.
    GroupNotFound,
    /// The group is not in the state the operation needs.
    GroupNotActive,
    /// The acting key is not an admin of the group.
    NotAdmin,
    /// A key to remove is not a member of the group.
    UnknownMember,
    /// A key to add has no published key package.
    MissingKeyPackage,
    /// The group kind does not admit the requested shape.
    InvalidGroupKind,
    /// No welcome carries the given invitation identifier.
    WelcomeNotFound,
    /// The welcome already left its pending state.
    AlreadyResolved,
    /// Local persistence failed; always propagated.
    Storage { message: String },
    /// An unanticipated failure, message preserved.
    Other { message: String },
}

/// Error shape handed across the presentation boundary.
#[derive(Debug)]
pub enum ApiError {
    Whitenoise { message: String },
    InvalidKey { message: String },
    NostrUrl { message: String },
    NostrTag { message: String },
    NostrEvent { message: String },
    NostrParse { message: String },
    NostrHex { message: String },
    Other { message: String },
}

/// The type name `error_type` returns for each variant.
pub open spec fn api_error_type_name(e: ApiError) -> Seq<char> {
    match e {
        ApiError::Whitenoise { .. } => "Whitenoise"@,
        ApiError::InvalidKey { .. } => "InvalidKey"@,
        ApiError::NostrUrl { .. } => "NostrUrl"@,
        ApiError::NostrTag { .. } => "NostrTag"@,
        ApiError::NostrEvent { .. } => "NostrEvent"@,
        ApiError::NostrParse { .. } => "NostrParse"@,
        ApiError::NostrHex { .. } => "NostrHex"@,
        ApiError::Other { .. } => "Other"@,
    }
}

/// The message each variant carries.
pub open spec fn api_error_message(e: ApiError) -> Seq<char> {
    match e {
        ApiError::Whitenoise { message } => message@,
        ApiError::InvalidKey { message } => message@,
        ApiError::NostrUrl { message } => message@,
        ApiError::NostrTag { message } => message@,
        ApiError::NostrEvent { message } => message@,
        ApiError::NostrParse { message } => message@,
        ApiError::NostrHex { message } => message@,
        ApiError::Other { message } => message@,
    }
}

impl ApiError {
    /// A user-friendly name of the error's kind.
    pub fn error_type(&self) -> (r: String)
        ensures
            r@ == api_error_type_name(*self),
    {
        match self {
            ApiError::Whitenoise { .. } => "Whitenoise".to_owned(),
            ApiError::InvalidKey { .. } => "InvalidKey".to_owned(),
            ApiError::NostrUrl { .. } => "NostrUrl".to_owned(),
            ApiError::NostrTag { .. } => "NostrTag".to_owned(),
            ApiError::NostrEvent { .. } => "NostrEvent".to_owned(),
            ApiError::NostrParse { .. } => "NostrParse".to_owned(),
            ApiError::NostrHex { .. } => "NostrHex".to_owned(),
            ApiError::Other { .. } => "Other".to_owned(),
        }
    }

    /// The error message as a string.
    pub fn message_text(&self) -> (r: String)
        ensures
            r@ == api_error_message(*self),
    {
        match self {
            ApiError::Whitenoise { message } => message.clone(),
            ApiError::InvalidKey { message } => message.clone(),
            ApiError::NostrUrl { message } => message.clone(),
            ApiError::NostrTag { message } => message.clone(),
            ApiError::NostrEvent { message } => message.clone(),
            ApiError::NostrParse { message } => message.clone(),
            ApiError::NostrHex { message } => message.clone(),
            ApiError::Other { message } => message.clone(),
        }
    }
}

/// The boundary variant a core error maps to.
pub open spec fn api_error_kind_of_core(e: WhitenoiseError) -> Seq<char> {
    match e {
        WhitenoiseError::InvalidPublicKey => "InvalidKey"@,
        WhitenoiseError::InvalidRelayUrl => "NostrUrl"@,
        WhitenoiseError::InvalidEncoding => "NostrHex"@,
        _ => "Whitenoise"@,
    }
}

/// The message the mapped boundary error carries.
pub open spec fn core_error_message(e: WhitenoiseError) -> Seq<char> {
    match e {
        WhitenoiseError::InvalidPublicKey => "malformed public key"@,
        WhitenoiseError::InvalidRelayUrl => "malformed relay url"@,
        WhitenoiseError::InvalidEncoding => "malformed hexadecimal string"@,
        WhitenoiseError::AccountNotFound => "account not found"@,
        WhitenoiseError::GroupNotFound => "group not found"@,
        WhitenoiseError::GroupNotActive => "group is not active"@,
        WhitenoiseError::NotAdmin => "actor is not an admin"@,
        WhitenoiseError::UnknownMember => "unknown member"@,
        WhitenoiseError::MissingKeyPackage => "missing key package"@,
        WhitenoiseError::InvalidGroupKind => "invalid group kind"@,
        WhitenoiseError::WelcomeNotFound => "welcome not found"@,
        WhitenoiseError::AlreadyResolved => "welcome already resolved"@,
        WhitenoiseError::Storage { message } => message@,
        WhitenoiseError::Other { message } => message@,
    }
}

/// Maps a core error to the boundary error, preserving kind and message.
pub fn api_error_from_core(e: &WhitenoiseError) -> (r: ApiError)
    ensures
        api_error_type_name(r) == api_error_kind_of_core(*e),
        api_error_message(r) == core_error_message(*e),
{
    match e {
        WhitenoiseError::InvalidPublicKey => ApiError::InvalidKey {
            message: "malformed public key".to_owned(),
        },
        WhitenoiseError::InvalidRelayUrl => ApiError::NostrUrl {
            message: "malformed relay url".to_owned(),
        },
        WhitenoiseError::InvalidEncoding => ApiError::NostrHex {
            message: "malformed hexadecimal string".to_owned(),
        },
        WhitenoiseError::AccountNotFound => ApiError::Whitenoise {
            message: "account not found".to_owned(),
        },
        WhitenoiseError::GroupNotFound => ApiError::Whitenoise {
            message: "group not found".to_owned(),
        },
        WhitenoiseError::GroupNotActive => ApiError::Whitenoise {
            message: "group is not active".to_owned(),
        },
        WhitenoiseError::NotAdmin => ApiError::Whitenoise {
            message: "actor is not an admin".to_owned(),
        },
        WhitenoiseError::UnknownMember => ApiError::Whitenoise {
            message: "unknown member".to_owned(),
        },
        WhitenoiseError::MissingKeyPackage => ApiError::Whitenoise {
            message: "missing key package".to_owned(),
        },
        WhitenoiseError::InvalidGroupKind => ApiError::Whitenoise {
            message: "invalid group kind".to_owned(),
        },
        WhitenoiseError::WelcomeNotFound => ApiError::Whitenoise {
            message: "welcome not found".to_owned(),
        },
        WhitenoiseError::AlreadyResolved => ApiError::Whitenoise {
            message: "welcome already resolved".to_owned(),
        },
        WhitenoiseError::Storage { message } => ApiError::Whitenoise { message: message.clone() },
        WhitenoiseError::Other { message } => ApiError::Whitenoise { message: message.clone() },
    }
}

} // verus!
