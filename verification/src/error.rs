//! The errors of the library and the step of a command that met one.

use crate::text::{decimal, push_decimal};
use vstd::prelude::*;
use vstd::string::*;

verus! {

/// Why a command could not be carried out.
#[derive(Debug, Clone, PartialEq, Eq)]
pub enum Error {
    /// The secret is not Base32, with or without padding.
    InvalidEncoding,
    /// The secret decodes to fewer than 16 bytes.
    SecretTooShort { bytes: usize, bits: usize },
    /// The algorithm name is none of the three supported ones.
    UnsupportedAlgorithm(String),
    /// The digit count or the key length is not one that a code can be
    /// generated with.
    InvalidTotpConfig,
    /// No code could be computed, for want of a usable clock.
    CodeGenerationError,
    /// The credential store refused or failed; the text is its own.
    CredentialStoreError(String),
    /// The platform has no configuration directory to keep the index in.
    ConfigDirUnavailable,
    /// The index file could not be read or written; the text says why.
    IndexIoError(String),
}

/// An [`Error`] with its texts as sequences of characters.
pub enum ErrorView {
    InvalidEncoding,
    SecretTooShort { bytes: nat, bits: nat },
    UnsupportedAlgorithm(Seq<char>),
    InvalidTotpConfig,
    CodeGenerationError,
    CredentialStoreError(Seq<char>),
    ConfigDirUnavailable,
    IndexIoError(Seq<char>),
}

impl View for Error {
    type V = ErrorView;

    open spec fn view(&self) -> ErrorView {
        match self {
            Error::InvalidEncoding => ErrorView::InvalidEncoding,
            Error::SecretTooShort { bytes, bits } => ErrorView::SecretTooShort {
                bytes: *bytes as nat,
                bits: *bits as nat,
            },
            Error::UnsupportedAlgorithm(name) => ErrorView::UnsupportedAlgorithm(name@),
            Error::InvalidTotpConfig => ErrorView::InvalidTotpConfig,
            Error::CodeGenerationError => ErrorView::CodeGenerationError,
            Error::CredentialStoreError(detail) => ErrorView::CredentialStoreError(detail@),
            Error::ConfigDirUnavailable => ErrorView::ConfigDirUnavailable,
            Error::IndexIoError(detail) => ErrorView::IndexIoError(detail@),
        }
    }
}

impl ErrorView {
    /// The error in words.
    pub open spec fn message(self) -> Seq<char> {
        match self {
            ErrorView::InvalidEncoding => "invalid Base32 secret"@,
            ErrorView::SecretTooShort { bytes, bits } => "secret too short: got "@ + decimal(bytes)
                + " bytes ("@ + decimal(bits) + " bits), need \u{2265}16 bytes (128 bits)\nAre you sure this is a valid Base32-encoded TOTP secret?"@,
            ErrorView::UnsupportedAlgorithm(name) => "unsupported algorithm: "@ + name,
            ErrorView::InvalidTotpConfig =>
                "digits must be 6 to 8 and the secret at least 128 bits"@,
            ErrorView::CodeGenerationError => "system clock is before the Unix epoch"@,
            ErrorView::CredentialStoreError(detail) => detail,
            ErrorView::ConfigDirUnavailable => "could not find config dir"@,
            ErrorView::IndexIoError(detail) => detail,
        }
    }
}

impl Error {
    /// The error in words, for the user.
    pub fn message(&self) -> (text: String)
        ensures
            text@ == self@.message(),
    {
        match self {
            Error::InvalidEncoding => "invalid Base32 secret".to_owned(),
            Error::SecretTooShort { bytes, bits } => {
                let mut text = "secret too short: got ".to_owned();
                push_decimal(&mut text, *bytes);
                text.append(" bytes (");
                push_decimal(&mut text, *bits);
                text.append(
                    " bits), need \u{2265}16 bytes (128 bits)\nAre you sure this is a valid Base32-encoded TOTP secret?",
                );
                text
            },
            Error::UnsupportedAlgorithm(name) => {
                let mut text = "unsupported algorithm: ".to_owned();
                text.append(name.as_str());
                text
            },
            Error::InvalidTotpConfig =>
                "digits must be 6 to 8 and the secret at least 128 bits".to_owned(),
            Error::CodeGenerationError => "system clock is before the Unix epoch".to_owned(),
            Error::CredentialStoreError(detail) => detail.clone(),
            Error::ConfigDirUnavailable => "could not find config dir".to_owned(),
            Error::IndexIoError(detail) => detail.clone(),
        }
    }
}

} // verus!
