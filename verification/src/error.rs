//! The error type shared by every module.
use vstd::prelude::*;

verus! {

/// Errors of the archive: the variant names the kind, the text says what went wrong.
#[derive(Debug, PartialEq, Eq)]
pub enum ChatVaultError {
    /// Protocol or rule violation.
    Internal(String),
    /// Local index failure.
    Database(String),
    /// A file that should exist does not.
    FileNotFound { path: String },
    /// Content does not hash to what was expected.
    HashMismatch { expected: String, actual: String },
    /// A media payload could not be accepted.
    WeChatParse(String),
    /// A scanned file changed while it was read.
    Scan(String),
    /// Remote storage failure.
    WebDav(String),
}

impl ChatVaultError {
    /// The human-readable text carried by the error.
    pub fn message(&self) -> (r: String)
        ensures
            r@ == match self {
                ChatVaultError::Internal(m) => m@,
                ChatVaultError::Database(m) => m@,
                ChatVaultError::FileNotFound { path } => path@,
                ChatVaultError::HashMismatch { expected, .. } => expected@,
                ChatVaultError::WeChatParse(m) => m@,
                ChatVaultError::Scan(m) => m@,
                ChatVaultError::WebDav(m) => m@,
            },
    {
        match self {
            ChatVaultError::Internal(m) => m.clone(),
            ChatVaultError::Database(m) => m.clone(),
            ChatVaultError::FileNotFound { path } => path.clone(),
            ChatVaultError::HashMismatch { expected, .. } => expected.clone(),
            ChatVaultError::WeChatParse(m) => m.clone(),
            ChatVaultError::Scan(m) => m.clone(),
            ChatVaultError::WebDav(m) => m.clone(),
        }
    }
}

/// A message text built from a literal.
pub fn msg(s: &str) -> (r: String)
    ensures
        r@ == s@,
{
    String::from_str(s)
}

} // verus!
