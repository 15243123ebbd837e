//! The errors that the library reports.
//!
//! Every failure ends the operation that met it: nothing is retried and
//! nothing is recovered inside the library. No error holds secret material.

use vstd::prelude::*;

verus! {

/// The numeric fields of a management message that stand for a name.
#[derive(Clone, Copy, Debug, PartialEq, Eq)]
pub enum EnumField {
    Command,
    Format,
    Compression,
    Encryption,
}

/// Credentials or key material that are missing or cannot be used.
#[derive(Clone, Copy, Debug, PartialEq, Eq)]
pub enum ConfigFault {
    /// The credential store has no entry for the user.
    UnknownUser,
    /// The user name does not fit the 32-bit size field of the startup frame.
    UsernameTooLong,
    /// The stored master key is not base64 text.
    MasterKeyUnreadable,
    /// The master key was not entered the same way twice.
    PassphraseMismatch,
}

/// A failure of the vault's primitives. Decryption reports one fault for
/// every cause, so that a wrong key and a changed secret look alike.
#[derive(Clone, Copy, Debug, PartialEq, Eq)]
pub enum CryptoFault {
    /// The system's source of randomness could not be read.
    Randomness,
    /// The cipher refused to encrypt.
    Seal,
    /// The secret did not decrypt under the key and the nonce given.
    Open,
}

/// What the SCRAM mechanism found wrong with a message of the server.
#[derive(Clone, Copy, Debug, PartialEq, Eq)]
pub enum ScramFault {
    /// A message was not formed as the mechanism requires.
    Protocol,
    /// The server asked for an extension that the client does not have.
    UnsupportedExtension,
    /// The server's signature does not prove that it knows the credentials.
    InvalidServer,
    /// The server turned the authentication down.
    Authentication,
    /// The user name was not valid.
    InvalidUser,
}

/// The step of the handshake at which the server's reply was refused.
#[derive(Clone, Copy, Debug, PartialEq, Eq)]
pub enum AuthFault {
    /// The reply to the startup frame was empty or did not begin with `R`.
    InvalidStartupResponse(Option<u8>),
    /// The reply to the client-first frame was empty or did not begin with `R`.
    InvalidServerFirst(Option<u8>),
    /// The reply to the client-final frame was empty or did not begin with `R`.
    InvalidServerFinal(Option<u8>),
    /// The closing reply was empty or did not begin with `R`.
    NotConfirmed(Option<u8>),
    /// A SCRAM reply was shorter than its header, or its text was not fit to
    /// be handed to the mechanism.
    MalformedMessage,
    /// The mechanism rejected the server-first message.
    Rejected(ScramFault),
    /// The server's signature did not match.
    ServerSignatureMismatch,
    /// The mechanism rejected the server-final message for another reason.
    RejectedFinal(ScramFault),
    /// A SCRAM message of the client does not fit the 32-bit size field.
    MessageTooLong,
}

/// A failure to move bytes; the library reports none itself and keeps the
/// kinds for the code that owns the socket.
#[derive(Clone, Copy, Debug, PartialEq, Eq)]
pub enum IoFault {
    Connect,
    Read,
    Write,
    KeyFile,
}

/// Text that could not be decoded or encoded.
#[derive(Clone, Copy, Debug, PartialEq, Eq)]
pub enum TextFault {
    /// Bytes that are not UTF-8.
    InvalidUtf8,
    /// Text that is not canonical padded base64.
    InvalidBase64,
    /// A stored secret shorter than its nonce and salt.
    SecretTooShort,
    /// Bytes whose base64 text would not fit in memory.
    TooLong,
}

/// The kinds of field that are rewritten for display.
#[derive(Clone, Copy, Debug, PartialEq, Eq)]
pub enum FieldKind {
    FileSize,
    HexString,
    Compression,
    Encryption,
    Command,
    ObjectArray,
    Plain,
}

/// A reply of the daemon that is not what the protocol promises.
#[derive(Clone, Copy, Debug, PartialEq, Eq)]
pub enum ProtocolFault {
    /// The reply is not JSON.
    MalformedJson,
    /// The reply is JSON but no object.
    NotAnObject,
    /// The reply has no `Outcome`.
    MissingOutcome,
    /// `Outcome` is no object.
    OutcomeNotObject,
    /// `Outcome` has no `Status`.
    MissingStatus,
    /// `Status` is no boolean.
    StatusNotBool,
    /// A field of the given kind does not hold an unsigned integer.
    NotUnsigned(FieldKind),
    /// A field that lists objects does not hold an array.
    NotArray,
    /// A number whose text is no JSON number.
    BadNumber,
    /// A request whose size does not fit the 32-bit field of its envelope.
    RequestTooLong,
    /// A reply whose envelope is shorter than its header.
    ShortEnvelope,
}

/// Everything that can go wrong, by kind.
#[derive(Clone, Copy, Debug, PartialEq, Eq)]
pub enum SessionError {
    Config(ConfigFault),
    Crypto(CryptoFault),
    Auth(AuthFault),
    Io(IoFault),
    Decode(TextFault),
    Protocol(ProtocolFault),
    /// The daemon answered, and its `Outcome.Status` is false.
    Application,
    /// A numeric code of the given field is outside the known set.
    UnrecognizedEnum(EnumField, u64),
}

impl ConfigFault {
    /// The words in which the fault is reported.
    pub open spec fn words(self) -> Seq<char> {
        match self {
            ConfigFault::UnknownUser => "unable to find user"@,
            ConfigFault::UsernameTooLong => "user name too long"@,
            ConfigFault::MasterKeyUnreadable => "master key is not base64 text"@,
            ConfigFault::PassphraseMismatch => "passwords do not match"@,
        }
    }

    pub fn message(&self) -> (text: &'static str)
        ensures
            text@ == self.words(),
    {
        match self {
            ConfigFault::UnknownUser => "unable to find user",
            ConfigFault::UsernameTooLong => "user name too long",
            ConfigFault::MasterKeyUnreadable => "master key is not base64 text",
            ConfigFault::PassphraseMismatch => "passwords do not match",
        }
    }
}

impl CryptoFault {
    /// The words in which the fault is reported; one phrase for every cause of a
    /// failed decryption.
    pub open spec fn words(self) -> Seq<char> {
        match self {
            CryptoFault::Randomness => "source of randomness could not be read"@,
            CryptoFault::Seal => "AES encryption failed"@,
            CryptoFault::Open => "AES decryption failed"@,
        }
    }

    pub fn message(&self) -> (text: &'static str)
        ensures
            text@ == self.words(),
    {
        match self {
            CryptoFault::Randomness => "source of randomness could not be read",
            CryptoFault::Seal => "AES encryption failed",
            CryptoFault::Open => "AES decryption failed",
        }
    }
}

impl AuthFault {
    /// The words in which the fault is reported.
    pub open spec fn words(self) -> Seq<char> {
        match self {
            AuthFault::InvalidStartupResponse(_) => "invalid startup response"@,
            AuthFault::InvalidServerFirst(_) => "invalid server-first message"@,
            AuthFault::InvalidServerFinal(_) => "invalid server-final message"@,
            AuthFault::NotConfirmed(_) => "authentication not confirmed"@,
            AuthFault::MalformedMessage => "malformed authentication message"@,
            AuthFault::Rejected(_) => "server-first message rejected"@,
            AuthFault::ServerSignatureMismatch => "server signature mismatch"@,
            AuthFault::RejectedFinal(_) => "server-final message rejected"@,
            AuthFault::MessageTooLong => "authentication message too long"@,
        }
    }

    pub fn message(&self) -> (text: &'static str)
        ensures
            text@ == self.words(),
    {
        match self {
            AuthFault::InvalidStartupResponse(_) => "invalid startup response",
            AuthFault::InvalidServerFirst(_) => "invalid server-first message",
            AuthFault::InvalidServerFinal(_) => "invalid server-final message",
            AuthFault::NotConfirmed(_) => "authentication not confirmed",
            AuthFault::MalformedMessage => "malformed authentication message",
            AuthFault::Rejected(_) => "server-first message rejected",
            AuthFault::ServerSignatureMismatch => "server signature mismatch",
            AuthFault::RejectedFinal(_) => "server-final message rejected",
            AuthFault::MessageTooLong => "authentication message too long",
        }
    }
}

impl IoFault {
    /// The words in which the fault is reported.
    pub open spec fn words(self) -> Seq<char> {
        match self {
            IoFault::Connect => "unable to connect"@,
            IoFault::Read => "unable to read"@,
            IoFault::Write => "unable to write"@,
            IoFault::KeyFile => "unable to reach the master key"@,
        }
    }

    pub fn message(&self) -> (text: &'static str)
        ensures
            text@ == self.words(),
    {
        match self {
            IoFault::Connect => "unable to connect",
            IoFault::Read => "unable to read",
            IoFault::Write => "unable to write",
            IoFault::KeyFile => "unable to reach the master key",
        }
    }
}

impl TextFault {
    /// The words in which the fault is reported.
    pub open spec fn words(self) -> Seq<char> {
        match self {
            TextFault::InvalidUtf8 => "invalid UTF-8"@,
            TextFault::InvalidBase64 => "invalid base64"@,
            TextFault::SecretTooShort => "not enough bytes to decrypt the text"@,
            TextFault::TooLong => "too long to encode"@,
        }
    }

    pub fn message(&self) -> (text: &'static str)
        ensures
            text@ == self.words(),
    {
        match self {
            TextFault::InvalidUtf8 => "invalid UTF-8",
            TextFault::InvalidBase64 => "invalid base64",
            TextFault::SecretTooShort => "not enough bytes to decrypt the text",
            TextFault::TooLong => "too long to encode",
        }
    }
}

impl ProtocolFault {
    /// The words in which the fault is reported.
    pub open spec fn words(self) -> Seq<char> {
        match self {
            ProtocolFault::MalformedJson => "failed to parse result"@,
            ProtocolFault::NotAnObject => "response is no json object"@,
            ProtocolFault::MissingOutcome => "fail to find outcome inside response"@,
            ProtocolFault::OutcomeNotObject => {
                "incorrect outcome type inside response, expect json object"@
            },
            ProtocolFault::MissingStatus => "fail to find status inside outcome"@,
            ProtocolFault::StatusNotBool => "incorrect status type inside outcome, expect bool"@,
            ProtocolFault::NotUnsigned(_) => "field holds no unsigned integer"@,
            ProtocolFault::NotArray => "list of backups is no array"@,
            ProtocolFault::BadNumber => "number cannot be written"@,
            ProtocolFault::RequestTooLong => "request too long"@,
            ProtocolFault::ShortEnvelope => "reply shorter than its header"@,
        }
    }

    pub fn message(&self) -> (text: &'static str)
        ensures
            text@ == self.words(),
    {
        match self {
            ProtocolFault::MalformedJson => "failed to parse result",
            ProtocolFault::NotAnObject => "response is no json object",
            ProtocolFault::MissingOutcome => "fail to find outcome inside response",
            ProtocolFault::OutcomeNotObject => {
                "incorrect outcome type inside response, expect json object"
            },
            ProtocolFault::MissingStatus => "fail to find status inside outcome",
            ProtocolFault::StatusNotBool => "incorrect status type inside outcome, expect bool",
            ProtocolFault::NotUnsigned(_) => "field holds no unsigned integer",
            ProtocolFault::NotArray => "list of backups is no array",
            ProtocolFault::BadNumber => "number cannot be written",
            ProtocolFault::RequestTooLong => "request too long",
            ProtocolFault::ShortEnvelope => "reply shorter than its header",
        }
    }
}

impl EnumField {
    /// The words in which a code of the field is refused.
    pub open spec fn words(self) -> Seq<char> {
        match self {
            EnumField::Command => "unrecognized command enum"@,
            EnumField::Format => "unrecognized format enum"@,
            EnumField::Compression => "unrecognized compression enum"@,
            EnumField::Encryption => "unrecognized encryption enum"@,
        }
    }

    pub fn message(&self) -> (text: &'static str)
        ensures
            text@ == self.words(),
    {
        match self {
            EnumField::Command => "unrecognized command enum",
            EnumField::Format => "unrecognized format enum",
            EnumField::Compression => "unrecognized compression enum",
            EnumField::Encryption => "unrecognized encryption enum",
        }
    }
}

impl SessionError {
    /// The words in which the error is reported. They name the cause and
    /// nothing of what was being protected.
    pub open spec fn detail_words(self) -> Seq<char> {
        match self {
            SessionError::Config(fault) => fault.words(),
            SessionError::Crypto(fault) => fault.words(),
            SessionError::Auth(fault) => fault.words(),
            SessionError::Io(fault) => fault.words(),
            SessionError::Decode(fault) => fault.words(),
            SessionError::Protocol(fault) => fault.words(),
            SessionError::Application => "getting false status inside outcome"@,
            SessionError::UnrecognizedEnum(field, _) => field.words(),
        }
    }

    pub fn detail(&self) -> (text: &'static str)
        ensures
            text@ == self.detail_words(),
    {
        match self {
            SessionError::Config(fault) => fault.message(),
            SessionError::Crypto(fault) => fault.message(),
            SessionError::Auth(fault) => fault.message(),
            SessionError::Io(fault) => fault.message(),
            SessionError::Decode(fault) => fault.message(),
            SessionError::Protocol(fault) => fault.message(),
            SessionError::Application => "getting false status inside outcome",
            SessionError::UnrecognizedEnum(field, _) => field.message(),
        }
    }

    /// The name of the error's kind.
    pub open spec fn kind_name(self) -> Seq<char> {
        match self {
            SessionError::Config(_) => "ConfigError"@,
            SessionError::Crypto(_) => "CryptoError"@,
            SessionError::Auth(_) => "AuthError"@,
            SessionError::Io(_) => "IOError"@,
            SessionError::Decode(_) => "DecodeError"@,
            SessionError::Protocol(_) => "ProtocolError"@,
            SessionError::Application => "ApplicationError"@,
            SessionError::UnrecognizedEnum(_, _) => "UnrecognizedEnumError"@,
        }
    }

    pub fn kind(&self) -> (text: &'static str)
        ensures
            text@ == self.kind_name(),
    {
        match self {
            SessionError::Config(_) => "ConfigError",
            SessionError::Crypto(_) => "CryptoError",
            SessionError::Auth(_) => "AuthError",
            SessionError::Io(_) => "IOError",
            SessionError::Decode(_) => "DecodeError",
            SessionError::Protocol(_) => "ProtocolError",
            SessionError::Application => "ApplicationError",
            SessionError::UnrecognizedEnum(_, _) => "UnrecognizedEnumError",
        }
    }
}

} // verus!
