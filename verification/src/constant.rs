//! Fixed values of the management protocol and the names of its numeric codes.

use vstd::prelude::*;
use crate::error::{EnumField, SessionError};

verus! {

/// The client version announced to the daemon; it matches pgmoneta-cli.
pub const CLIENT_VERSION: &'static str = "0.20.0";

pub const MANAGEMENT_CATEGORY_OUTCOME: &'static str = "Outcome";

pub const MANAGEMENT_ARGUMENT_STATUS: &'static str = "Status";

pub const MASTER_KEY_PATH: &'static str = ".pgmoneta-mcp/master.key";

/// The names of the log levels in the configuration.
pub struct LogLevel;

/// The names of the log sinks in the configuration.
pub struct LogType;

impl LogLevel {
    pub const TRACE: &'static str = "trace";

    pub const DEBUG: &'static str = "debug";

    pub const INFO: &'static str = "info";

    pub const WARN: &'static str = "warn";

    pub const ERROR: &'static str = "error";
}

impl LogType {
    pub const CONSOLE: &'static str = "console";

    pub const FILE: &'static str = "file";

    pub const SYSLOG: &'static str = "syslog";
}

pub struct Command;

pub struct Format;

pub struct Compression;

pub struct Encryption;

impl Command {
    pub const LIST_BACKUP: u32 = 2;

    pub const INFO: u32 = 18;

    /// The name of a command code, where the code is known.
    pub open spec fn name_of(command: u32) -> Option<Seq<char>> {
        if command == 2 {
            Some("list-backup"@)
        } else if command == 18 {
            Some("info"@)
        } else {
            None
        }
    }

    pub fn translate_command_enum(command: u32) -> (r: Result<&'static str, SessionError>)
        ensures
            match Self::name_of(command) {
                Some(name) => r matches Ok(s) && s@ == name,
                None => r == Err::<&'static str, SessionError>(
                    SessionError::UnrecognizedEnum(EnumField::Command, command as u64),
                ),
            },
    {
        if command == Self::LIST_BACKUP {
            Ok("list-backup")
        } else if command == Self::INFO {
            Ok("info")
        } else {
            Err(SessionError::UnrecognizedEnum(EnumField::Command, command as u64))
        }
    }
}

impl Format {
    pub const JSON: u8 = 0;

    /// The name of an output format code, where the code is known.
    pub open spec fn name_of(format: u8) -> Option<Seq<char>> {
        if format == 0 {
            Some("json"@)
        } else {
            None
        }
    }

    pub fn translate_format_enum(format: u8) -> (r: Result<&'static str, SessionError>)
        ensures
            match Self::name_of(format) {
                Some(name) => r matches Ok(s) && s@ == name,
                None => r == Err::<&'static str, SessionError>(
                    SessionError::UnrecognizedEnum(EnumField::Format, format as u64),
                ),
            },
    {
        if format == Self::JSON {
            Ok("json")
        } else {
            Err(SessionError::UnrecognizedEnum(EnumField::Format, format as u64))
        }
    }
}

impl Compression {
    pub const NONE: u8 = 0;

    pub const GZIP: u8 = 1;

    pub const ZSTD: u8 = 2;

    pub const LZ4: u8 = 3;

    pub const BZIP2: u8 = 4;

    pub const SERVER_GZIP: u8 = 5;

    pub const SERVER_ZSTD: u8 = 6;

    pub const SERVER_LZ4: u8 = 7;

    /// The name of a compression code, where the code is known.
    pub open spec fn name_of(compression: u8) -> Option<Seq<char>> {
        if compression == 0 {
            Some("none"@)
        } else if compression == 1 {
            Some("gzip"@)
        } else if compression == 2 {
            Some("zstd"@)
        } else if compression == 3 {
            Some("lz4"@)
        } else if compression == 4 {
            Some("bzip2"@)
        } else if compression == 5 {
            Some("server-side gzip"@)
        } else if compression == 6 {
            Some("server-side zstd"@)
        } else if compression == 7 {
            Some("server-side lz4"@)
        } else {
            None
        }
    }

    pub fn translate_compression_enum(compression: u8) -> (r: Result<&'static str, SessionError>)
        ensures
            match Self::name_of(compression) {
                Some(name) => r matches Ok(s) && s@ == name,
                None => r == Err::<&'static str, SessionError>(
                    SessionError::UnrecognizedEnum(EnumField::Compression, compression as u64),
                ),
            },
    {
        if compression == Self::NONE {
            Ok("none")
        } else if compression == Self::GZIP {
            Ok("gzip")
        } else if compression == Self::ZSTD {
            Ok("zstd")
        } else if compression == Self::LZ4 {
            Ok("lz4")
        } else if compression == Self::BZIP2 {
            Ok("bzip2")
        } else if compression == Self::SERVER_GZIP {
            Ok("server-side gzip")
        } else if compression == Self::SERVER_ZSTD {
            Ok("server-side zstd")
        } else if compression == Self::SERVER_LZ4 {
            Ok("server-side lz4")
        } else {
            Err(SessionError::UnrecognizedEnum(EnumField::Compression, compression as u64))
        }
    }
}

impl Encryption {
    pub const NONE: u8 = 0;

    pub const AES_256_CBC: u8 = 1;

    pub const AES_192_CBC: u8 = 2;

    pub const AES_128_CBC: u8 = 3;

    pub const AES_256_CTR: u8 = 4;

    pub const AES_192_CTR: u8 = 5;

    pub const AES_128_CTR: u8 = 6;

    /// The name of an encryption code, where the code is known.
    pub open spec fn name_of(encryption: u8) -> Option<Seq<char>> {
        if encryption == 0 {
            Some("none"@)
        } else if encryption == 1 {
            Some("aes_256_cbc"@)
        } else if encryption == 2 {
            Some("aes_192_cbc"@)
        } else if encryption == 3 {
            Some("aes_128_cbc"@)
        } else if encryption == 4 {
            Some("aes_256_ctr"@)
        } else if encryption == 5 {
            Some("aes_192_ctr"@)
        } else if encryption == 6 {
            Some("aes_128_ctr"@)
        } else {
            None
        }
    }

    pub fn translate_encryption_enum(encryption: u8) -> (r: Result<&'static str, SessionError>)
        ensures
            match Self::name_of(encryption) {
                Some(name) => r matches Ok(s) && s@ == name,
                None => r == Err::<&'static str, SessionError>(
                    SessionError::UnrecognizedEnum(EnumField::Encryption, encryption as u64),
                ),
            },
    {
        if encryption == Self::NONE {
            Ok("none")
        } else if encryption == Self::AES_256_CBC {
            Ok("aes_256_cbc")
        } else if encryption == Self::AES_192_CBC {
            Ok("aes_192_cbc")
        } else if encryption == Self::AES_128_CBC {
            Ok("aes_128_cbc")
        } else if encryption == Self::AES_256_CTR {
            Ok("aes_256_ctr")
        } else if encryption == Self::AES_192_CTR {
            Ok("aes_192_ctr")
        } else if encryption == Self::AES_128_CTR {
            Ok("aes_128_ctr")
        } else {
            Err(SessionError::UnrecognizedEnum(EnumField::Encryption, encryption as u64))
        }
    }
}

} // verus!
