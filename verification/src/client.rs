//! The management client: what is asked of the daemon, how a request is
//! wrapped for the wire, how a reply is unwrapped, and how the password of
//! an admin is recovered from the store.
//!
//! One command goes over one connection. Nothing here opens a socket.

use vstd::prelude::*;
use vstd::utf8::*;
use crate::configuration::Configuration;
use crate::constant::{Command, Compression, Encryption, Format, CLIENT_VERSION};
use crate::error::{ConfigFault, ProtocolFault, SessionError, TextFault};
use crate::security::{opened_secret, scrub_vec, SecurityUtil};
use crate::text::string_from_utf8;
use crate::wire::{
    be32, be32_value, copy_range, lemma_be32_round_trip, push_all, push_be32, read_be32,
};

verus! {

pub struct PgmonetaClient;

/// The most that is read of the body of one reply. A longer body is cut
/// short; `ResponseEnvelope::is_complete` tells.
pub const RESPONSE_BUFFER_SIZE: usize = 1024;

/// The length of the header of an envelope: two flags and a size.
pub const ENVELOPE_HEADER_LEN: usize = 6;

/// The head of a request, as the daemon reads it.
#[derive(Debug, PartialEq, Eq)]
pub struct RequestHeader {
    pub command: u32,
    pub client_version: String,
    pub output_format: u8,
    pub timestamp: String,
    pub compression: u8,
    pub encryption: u8,
}

/// A request: the head and what the command asks for.
#[derive(Debug, PartialEq, Eq)]
pub struct PgmonetaRequest<R> {
    pub header: RequestHeader,
    pub request: R,
}

/// What the command `info` asks for: a server and one of its backups, by
/// identifier or as `newest`, `latest` or `oldest`, which the daemon resolves.
#[derive(Debug, PartialEq, Eq)]
pub struct BackupInfo {
    pub server: String,
    pub backup: String,
}

/// What is to be done for one request: the stored secret of the admin, from
/// which the password is recovered, and what is asked once the connection
/// is authenticated.
#[derive(Debug, PartialEq, Eq)]
pub struct InfoExchange<'a> {
    pub secret: &'a String,
    pub info: BackupInfo,
}

/// A reply as it came off the wire.
#[derive(Debug, PartialEq, Eq)]
pub struct ResponseEnvelope {
    pub compression: u8,
    pub encryption: u8,
    /// The size of the body that the daemon announced.
    pub length: u32,
    /// The body that was received, as text.
    pub body: String,
}

/// The bytes of a request on the wire: the compression flag and the
/// encryption flag, both `none`, the size of the body, the body.
pub open spec fn request_envelope(body: Seq<u8>) -> Seq<u8> {
    seq![0u8, 0u8] + be32(body.len()) + body
}

/// The password that a stored secret holds under a master key.
pub open spec fn recovered_password(secret: Seq<char>, master_key: Seq<u8>) -> Result<
    Seq<char>,
    SessionError,
> {
    match opened_secret(secret, master_key) {
        Err(e) => Err(e),
        Ok(bytes) => if valid_utf8(bytes) {
            Ok(decode_utf8(bytes))
        } else {
            Err(SessionError::Decode(TextFault::InvalidUtf8))
        },
    }
}

/// What was wrapped is what is unwrapped: the envelope of a text opens with
/// the two flags for `none` and the size of the text, and what follows its
/// header is the text.
pub proof fn lemma_envelope_round_trip(text: Seq<char>)
    requires
        encode_utf8(text).len() <= i32::MAX,
    ensures
        request_envelope(encode_utf8(text)).len() == ENVELOPE_HEADER_LEN + encode_utf8(text).len(),
        request_envelope(encode_utf8(text))[0] == Compression::NONE,
        request_envelope(encode_utf8(text))[1] == Encryption::NONE,
        be32_value(request_envelope(encode_utf8(text)).subrange(2, 6)) == encode_utf8(text).len(),
        valid_utf8(request_envelope(encode_utf8(text)).skip(6)),
        decode_utf8(request_envelope(encode_utf8(text)).skip(6)) == text,
{
    let body = encode_utf8(text);
    let frame = request_envelope(body);
    lemma_be32_round_trip(body.len() as u32);
    assert(frame.subrange(2, 6) =~= be32(body.len()));
    assert(frame.skip(6) =~= body);
    encode_utf8_valid_utf8(text);
    encode_utf8_decode_utf8(text);
}

/// Calls `Local::now` of `chrono` and formats the time as fourteen digits
/// from the year to the second would be for a year of four digits. The result
/// depends on the clock and the time zone: nothing is claimed of it.
#[verifier::external_body]
fn local_timestamp() -> String {
    chrono::Local::now().format("%Y%m%d%H%M%S").to_string()
}

impl<'a> InfoExchange<'a> {
    /// The request to send, stamped with the local time of this call.
    pub fn request(self) -> (request: PgmonetaRequest<BackupInfo>)
        ensures
            request.header.command == Command::INFO,
            request.header.client_version@ == CLIENT_VERSION@,
            request.header.output_format == Format::JSON,
            request.header.compression == Compression::NONE,
            request.header.encryption == Encryption::NONE,
            request.request == self.info,
    {
        PgmonetaRequest {
            header: PgmonetaClient::current_request_header(Command::INFO),
            request: self.info,
        }
    }
}

impl ResponseEnvelope {
    /// Whether the whole body that the daemon announced was received.
    pub fn is_complete(&self) -> (complete: bool)
        ensures
            complete == (encode_utf8(self.body@).len() == self.length),
    {
        self.body.as_str().as_bytes().len() == self.length as usize
    }
}

impl PgmonetaClient {
    /// The head of a request for a command, stamped with the time given.
    pub fn build_request_header(command: u32, timestamp: String) -> (header: RequestHeader)
        ensures
            header.command == command,
            header.client_version@ == CLIENT_VERSION@,
            header.output_format == Format::JSON,
            header.timestamp == timestamp,
            header.compression == Compression::NONE,
            header.encryption == Encryption::NONE,
    {
        RequestHeader {
            command,
            client_version: CLIENT_VERSION.to_owned(),
            output_format: Format::JSON,
            timestamp,
            compression: Compression::NONE,
            encryption: Encryption::NONE,
        }
    }

    /// The head of a request for a command, stamped with the local time.
    pub fn current_request_header(command: u32) -> (header: RequestHeader)
        ensures
            header.command == command,
            header.client_version@ == CLIENT_VERSION@,
            header.output_format == Format::JSON,
            header.compression == Compression::NONE,
            header.encryption == Encryption::NONE,
    {
        Self::build_request_header(command, local_timestamp())
    }

    /// The request for information on a backup.
    pub fn build_info_request(header: RequestHeader, server: &str, backup: &str) -> (request:
        PgmonetaRequest<BackupInfo>)
        ensures
            request.header == header,
            request.request.server@ == server@,
            request.request.backup@ == backup@,
    {
        PgmonetaRequest {
            header,
            request: BackupInfo { server: server.to_owned(), backup: backup.to_owned() },
        }
    }

    /// Wraps the JSON text of a request for the wire.
    pub fn frame_request(request_str: &str) -> (r: Result<Vec<u8>, SessionError>)
        ensures
            match r {
                Ok(frame) => frame@ == request_envelope(encode_utf8(request_str@)) && encode_utf8(
                    request_str@,
                ).len() <= i32::MAX,
                Err(e) => e == SessionError::Protocol(ProtocolFault::RequestTooLong)
                    && encode_utf8(request_str@).len() > i32::MAX,
            },
    {
        let body = request_str.as_bytes();
        if body.len() > 0x7fff_ffff {
            return Err(SessionError::Protocol(ProtocolFault::RequestTooLong));
        }
        let mut frame: Vec<u8> = Vec::new();
        frame.push(Compression::NONE);
        frame.push(Encryption::NONE);
        push_be32(&mut frame, body.len() as u32);
        push_all(&mut frame, body);
        assert(frame@ =~= request_envelope(encode_utf8(request_str@)));
        Ok(frame)
    }

    /// Unwraps a reply: `header` holds the six bytes that open it, `body`
    /// what was received after them. The announced size is kept and not used
    /// to bound the body.
    pub fn decode_response(header: &[u8], body: &[u8]) -> (r: Result<
        ResponseEnvelope,
        SessionError,
    >)
        ensures
            match r {
                Ok(envelope) => {
                    &&& header@.len() >= ENVELOPE_HEADER_LEN
                    &&& valid_utf8(body@)
                    &&& envelope.compression == header@[0]
                    &&& envelope.encryption == header@[1]
                    &&& envelope.length == be32_value(header@.subrange(2, 6))
                    &&& envelope.body@ == decode_utf8(body@)
                },
                Err(e) => if header@.len() < ENVELOPE_HEADER_LEN {
                    e == SessionError::Protocol(ProtocolFault::ShortEnvelope)
                } else {
                    e == SessionError::Decode(TextFault::InvalidUtf8) && !valid_utf8(body@)
                },
            },
    {
        if header.len() < ENVELOPE_HEADER_LEN {
            return Err(SessionError::Protocol(ProtocolFault::ShortEnvelope));
        }
        let compression = header[0];
        let encryption = header[1];
        let length = read_be32(header, 2);
        let bytes = copy_range(body, 0, body.len());
        assert(bytes@ =~= body@);
        match string_from_utf8(bytes) {
            None => Err(SessionError::Decode(TextFault::InvalidUtf8)),
            Some(text) => Ok(ResponseEnvelope { compression, encryption, length, body: text }),
        }
    }

    /// Plans the request for information on a backup. An unknown admin is
    /// refused here, before a key is loaded or a connection is opened; for a
    /// known one the plan holds the stored secret and what is asked.
    pub fn request_backup_info<'a>(
        config: &'a Configuration,
        username: &str,
        server: &str,
        backup: &str,
    ) -> (r: Result<InfoExchange<'a>, SessionError>)
        ensures
            match r {
                Ok(plan) => {
                    &&& config.admins@.contains_key(username@)
                    &&& plan.secret@ == config.admins@[username@]
                    &&& plan.info.server@ == server@
                    &&& plan.info.backup@ == backup@
                },
                Err(e) => e == SessionError::Config(ConfigFault::UnknownUser)
                    && !config.admins@.contains_key(username@),
            },
    {
        let secret = match Self::lookup_secret(config, username) {
            Ok(secret) => secret,
            Err(e) => { return Err(e); },
        };
        Ok(
            InfoExchange {
                secret,
                info: BackupInfo { server: server.to_owned(), backup: backup.to_owned() },
            },
        )
    }

    /// Looks the stored secret of an admin up.
    pub fn lookup_secret<'a>(config: &'a Configuration, username: &str) -> (r: Result<
        &'a String,
        SessionError,
    >)
        ensures
            match r {
                Ok(secret) => config.admins@.contains_key(username@) && config.admins@[username@]
                    == secret@,
                Err(e) => e == SessionError::Config(ConfigFault::UnknownUser)
                    && !config.admins@.contains_key(username@),
            },
    {
        match config.admins.get(username) {
            Some(secret) => Ok(secret),
            None => Err(SessionError::Config(ConfigFault::UnknownUser)),
        }
    }

    /// Recovers the password of an admin from the stored secret. The master
    /// key has served when the call returns: it is scrubbed and left empty,
    /// whether the password was recovered or not.
    pub fn recover_password(secret: &str, master_key: &mut Vec<u8>) -> (r: Result<
        String,
        SessionError,
    >)
        ensures
            final(master_key)@.len() == 0,
            match recovered_password(secret@, old(master_key)@) {
                Ok(password) => r matches Ok(text) && text@ == password,
                Err(e) => r matches Err(x) && x == e,
            },
    {
        let opened = SecurityUtil::new().decrypt_from_base64_string(secret, master_key.as_slice());
        scrub_vec(master_key);
        match opened {
            Err(e) => Err(e),
            Ok(bytes) => match string_from_utf8(bytes) {
                Some(password) => Ok(password),
                None => Err(SessionError::Decode(TextFault::InvalidUtf8)),
            },
        }
    }
}

} // verus!
