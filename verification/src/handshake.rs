//! The SCRAM-SHA-256 handshake with the daemon.
//!
//! The engine decides; it never touches a socket. It hands out the frame to
//! send, takes the reply that was read, and says what comes next. The SCRAM
//! computations are those of the `scram` crate.

use vstd::prelude::*;
use vstd::utf8::*;
use crate::error::{AuthFault, ConfigFault, ScramFault, SessionError, TextFault};
use crate::security::SecurityUtil;
use crate::text::string_from_utf8;
use crate::wire::{be32, copy_range, push_all, push_be32};

verus! {

/// The protocol version that opens the startup frame.
pub const MAGIC: u32 = 196608;

/// The number of bytes that precede the SCRAM text in a reply.
pub const HEADER_OFFSET: usize = 9;

/// The most that is read of one reply during the handshake.
pub const REPLY_BUFFER_SIZE: usize = 256;

/// The tag that every reply of the server begins with.
pub const REPLY_TAG: u8 = 82;

/// The tag of the frames that carry SCRAM messages of the client.
pub const SCRAM_TAG: u8 = 112;

/// The largest size that a frame can announce.
pub const MAX_FRAME_SIZE: usize = 0x7fff_ffff;

/// The startup frame for a user: its own size, the protocol version, and the
/// pairs `user`, `database` and `application_name`, every string closed by a
/// zero byte and the list closed by one more.
pub open spec fn startup_frame(username: Seq<char>) -> Seq<u8> {
    let body = be32(MAGIC as nat) + encode_utf8("user"@) + seq![0u8] + encode_utf8(username)
        + seq![0u8] + encode_utf8("database"@) + seq![0u8] + encode_utf8("admin"@) + seq![0u8]
        + encode_utf8("application_name"@) + seq![0u8] + encode_utf8("pgmoneta"@) + seq![0u8]
        + seq![0u8];
    be32(4 + body.len()) + body
}

/// The frame of the first SCRAM message: the tag, the size of the whole
/// frame, the name of the mechanism, four zero bytes and a space, the text.
pub open spec fn client_first_frame(text: Seq<char>) -> Seq<u8> {
    let body = encode_utf8("SCRAM-SHA-256"@) + seq![0u8, 0u8, 0u8, 0u8, 32u8] + encode_utf8(text);
    seq![SCRAM_TAG] + be32(5 + body.len()) + body
}

/// The frame of the last SCRAM message: the tag, the size of the whole
/// frame, the text.
pub open spec fn client_final_frame(text: Seq<char>) -> Seq<u8> {
    seq![SCRAM_TAG] + be32(5 + encode_utf8(text).len()) + encode_utf8(text)
}

/// The first byte of a reply, if it has one.
pub open spec fn reply_tag(reply: Seq<u8>) -> Option<u8> {
    if reply.len() == 0 {
        None
    } else {
        Some(reply[0])
    }
}

/// Whether a reply begins as every reply of the server must.
pub open spec fn reply_accepted(reply: Seq<u8>) -> bool {
    reply_tag(reply) == Some(REPLY_TAG)
}

/// What follows the header of a reply, if the reply is that long.
pub open spec fn reply_payload(reply: Seq<u8>) -> Option<Seq<u8>> {
    if reply.len() >= HEADER_OFFSET {
        Some(reply.skip(HEADER_OFFSET as int))
    } else {
        None
    }
}

/// Where the field that begins at `from` ends: at the next comma, or at the
/// end of the text.
pub open spec fn field_end(text: Seq<u8>, from: int) -> int
    decreases text.len() - from,
{
    if from < 0 || from >= text.len() {
        text.len() as int
    } else if text[from] == 44 {
        from
    } else {
        field_end(text, from + 1)
    }
}

/// Whether a server-first text can be handed to the mechanism: a text of
/// two bytes or more must not have a field of less than two bytes among its
/// first three.
pub open spec fn server_first_fit(text: Seq<u8>) -> bool {
    text.len() < 2 || {
        let first = field_end(text, 0);
        first >= 2 && (first == text.len() || {
            let second = field_end(text, first + 1);
            second - (first + 1) >= 2 && (second == text.len() || field_end(text, second + 1) - (
            second + 1) >= 2)
        })
    }
}

/// Whether a server-final text can be handed to the mechanism: a text of
/// two bytes or more must begin with two ASCII bytes.
pub open spec fn server_final_fit(text: Seq<u8>) -> bool {
    text.len() < 2 || (text[0] < 128 && text[1] < 128)
}

#[verifier::external_type_specification]
#[verifier::external_body]
pub struct ExScramClient<'a>(scram::ScramClient<'a>);

#[verifier::external_type_specification]
#[verifier::external_body]
pub struct ExScramServerFirst<'a>(scram::client::ServerFirst<'a>);

#[verifier::external_type_specification]
#[verifier::external_body]
pub struct ExScramClientFinal(scram::client::ClientFinal);

#[verifier::external_type_specification]
#[verifier::external_body]
pub struct ExScramServerFinal(scram::client::ServerFinal);

#[verifier::external_type_specification]
#[verifier::external_body]
pub struct ExScramError(scram::Error);

/// Calls `ScramClient::new` without an authorization identity. The client
/// draws its nonce from the system, so nothing is claimed of it.
#[verifier::external_body]
fn scram_new<'a>(username: &'a str, password: &'a str) -> scram::ScramClient<'a> {
    scram::ScramClient::new(username, password, None)
}

/// Calls `ScramClient::client_first`, which gives the next state and the
/// client-first text. The text holds the nonce: nothing is claimed of it.
#[verifier::external_body]
fn scram_client_first<'a>(client: scram::ScramClient<'a>) -> (
    scram::client::ServerFirst<'a>,
    String,
) {
    client.client_first()
}

/// Calls `ServerFirst::handle_server_first`. The mechanism indexes the first
/// two bytes of each of the first three fields of a text of two bytes or
/// more, which `server_first_fit` makes safe; nothing is claimed of the result.
#[verifier::external_body]
fn scram_handle_server_first<'a>(state: scram::client::ServerFirst<'a>, text: &str) -> Result<
    scram::client::ClientFinal,
    scram::Error,
>
    requires
        server_first_fit(encode_utf8(text@)),
{
    state.handle_server_first(text)
}

/// Calls `ClientFinal::client_final`, which gives the next state and the
/// client-final text; nothing is claimed of the text.
#[verifier::external_body]
fn scram_client_final(state: scram::client::ClientFinal) -> (scram::client::ServerFinal, String) {
    state.client_final()
}

/// Calls `ServerFinal::handle_server_final`. The mechanism slices the first
/// two bytes off a text of two bytes or more, which `server_final_fit` makes
/// safe; nothing is claimed of the result.
#[verifier::external_body]
fn scram_handle_server_final(state: scram::client::ServerFinal, text: &str) -> Result<
    (),
    scram::Error,
>
    requires
        server_final_fit(encode_utf8(text@)),
{
    state.handle_server_final(text)
}

/// Tells the variants of `scram::Error` apart and drops what they carry.
#[verifier::external_body]
fn scram_fault(error: scram::Error) -> ScramFault {
    match error {
        scram::Error::Protocol(_) => ScramFault::Protocol,
        scram::Error::UnsupportedExtension => ScramFault::UnsupportedExtension,
        scram::Error::InvalidServer => ScramFault::InvalidServer,
        scram::Error::Authentication(_) => ScramFault::Authentication,
        scram::Error::InvalidUser(_) => ScramFault::InvalidUser,
    }
}

/// The UTF-8 encoding of ASCII text has one byte for each character.
proof fn lemma_ascii_literal_len(text: Seq<char>)
    requires
        is_ascii_chars(text),
    ensures
        encode_utf8(text).len() == text.len(),
{
    is_ascii_chars_encode_utf8(text);
}

/// The startup frame is 56 bytes longer than the user name, and the size
/// that it announces is its own length.
pub proof fn lemma_startup_frame_len(username: Seq<char>)
    ensures
        startup_frame(username).len() == encode_utf8(username).len() + 56,
        startup_frame(username).subrange(0, 4) == be32(startup_frame(username).len()),
{
    reveal_strlit("user");
    reveal_strlit("database");
    reveal_strlit("admin");
    reveal_strlit("application_name");
    reveal_strlit("pgmoneta");
    lemma_ascii_literal_len("user"@);
    lemma_ascii_literal_len("database"@);
    lemma_ascii_literal_len("admin"@);
    lemma_ascii_literal_len("application_name"@);
    lemma_ascii_literal_len("pgmoneta"@);
    let body = be32(196608) + encode_utf8("user"@) + seq![0u8] + encode_utf8(username) + seq![0u8]
        + encode_utf8("database"@) + seq![0u8] + encode_utf8("admin"@) + seq![0u8] + encode_utf8(
        "application_name"@,
    ) + seq![0u8] + encode_utf8("pgmoneta"@) + seq![0u8] + seq![0u8];
    assert(body.len() == encode_utf8(username).len() + 52);
    assert(startup_frame(username) == be32(4 + body.len()) + body);
    assert(startup_frame(username).subrange(0, 4) =~= be32(4 + body.len()));
}

/// The frames that carry SCRAM messages begin with their tag and announce
/// their own length.
pub proof fn lemma_scram_frames_announce_their_size(text: Seq<char>)
    ensures
        client_first_frame(text)[0] == SCRAM_TAG,
        client_first_frame(text).subrange(1, 5) == be32(client_first_frame(text).len()),
        client_first_frame(text).len() == encode_utf8(text).len() + 23,
        client_final_frame(text)[0] == SCRAM_TAG,
        client_final_frame(text).subrange(1, 5) == be32(client_final_frame(text).len()),
        client_final_frame(text).len() == encode_utf8(text).len() + 5,
{
    reveal_strlit("SCRAM-SHA-256");
    lemma_ascii_literal_len("SCRAM-SHA-256"@);
    let body = encode_utf8("SCRAM-SHA-256"@) + seq![0u8, 0u8, 0u8, 0u8, 32u8] + encode_utf8(text);
    assert(client_first_frame(text) == seq![SCRAM_TAG] + be32(5 + body.len()) + body);
    assert(client_first_frame(text).subrange(1, 5) =~= be32(5 + body.len()));
    assert(client_final_frame(text).subrange(1, 5) =~= be32(5 + encode_utf8(text).len()));
}

/// A step that failed asks for no frame and leaves no session to go on
/// with: after a refused reply nothing more is sent.
pub proof fn lemma_failed_step_sends_nothing(step: HandshakeStep<'_>)
    requires
        step is Failed,
    ensures
        step.state() == HandshakeState::Failed,
        step.frame() is None,
        !(step is Continue),
{
}

/// Builds the startup frame for a user. It fails only for a name so long
/// that the size of the frame does not fit the 32-bit field.
pub fn create_startup_message(username: &str) -> (r: Result<Vec<u8>, SessionError>)
    ensures
        match r {
            Ok(frame) => frame@ == startup_frame(username@) && frame@.len() <= MAX_FRAME_SIZE,
            Err(e) => e == SessionError::Config(ConfigFault::UsernameTooLong) && startup_frame(
                username@,
            ).len() > MAX_FRAME_SIZE,
        },
{
    let mut body: Vec<u8> = Vec::new();
    push_be32(&mut body, MAGIC);
    push_all(&mut body, "user".as_bytes());
    body.push(0);
    push_all(&mut body, username.as_bytes());
    body.push(0);
    push_all(&mut body, "database".as_bytes());
    body.push(0);
    push_all(&mut body, "admin".as_bytes());
    body.push(0);
    push_all(&mut body, "application_name".as_bytes());
    body.push(0);
    push_all(&mut body, "pgmoneta".as_bytes());
    body.push(0);
    body.push(0);
    let ghost wanted = be32(196608) + encode_utf8("user"@) + seq![0u8] + encode_utf8(username@)
        + seq![0u8] + encode_utf8("database"@) + seq![0u8] + encode_utf8("admin"@) + seq![0u8]
        + encode_utf8("application_name"@) + seq![0u8] + encode_utf8("pgmoneta"@) + seq![0u8]
        + seq![0u8];
    assert(body@ =~= wanted);
    if body.len() > MAX_FRAME_SIZE - 4 {
        return Err(SessionError::Config(ConfigFault::UsernameTooLong));
    }
    let mut frame: Vec<u8> = Vec::new();
    push_be32(&mut frame, (body.len() + 4) as u32);
    push_all(&mut frame, body.as_slice());
    assert(frame@ =~= startup_frame(username@));
    Ok(frame)
}

/// Frames the first SCRAM message of the client.
pub fn frame_client_first(text: &str) -> (r: Result<Vec<u8>, SessionError>)
    ensures
        match r {
            Ok(frame) => frame@ == client_first_frame(text@) && frame@.len() <= MAX_FRAME_SIZE,
            Err(e) => e == SessionError::Auth(AuthFault::MessageTooLong) && client_first_frame(
                text@,
            ).len() > MAX_FRAME_SIZE,
        },
{
    let mut body: Vec<u8> = Vec::new();
    push_all(&mut body, "SCRAM-SHA-256".as_bytes());
    body.push(0);
    body.push(0);
    body.push(0);
    body.push(0);
    body.push(32);
    push_all(&mut body, text.as_bytes());
    let ghost wanted = encode_utf8("SCRAM-SHA-256"@) + seq![0u8, 0u8, 0u8, 0u8, 32u8]
        + encode_utf8(text@);
    assert(body@ =~= wanted);
    if body.len() > MAX_FRAME_SIZE - 5 {
        return Err(SessionError::Auth(AuthFault::MessageTooLong));
    }
    let mut frame: Vec<u8> = Vec::new();
    frame.push(SCRAM_TAG);
    push_be32(&mut frame, (body.len() + 5) as u32);
    push_all(&mut frame, body.as_slice());
    assert(frame@ =~= client_first_frame(text@));
    Ok(frame)
}

/// Frames the last SCRAM message of the client.
pub fn frame_client_final(text: &str) -> (r: Result<Vec<u8>, SessionError>)
    ensures
        match r {
            Ok(frame) => frame@ == client_final_frame(text@) && frame@.len() <= MAX_FRAME_SIZE,
            Err(e) => e == SessionError::Auth(AuthFault::MessageTooLong) && client_final_frame(
                text@,
            ).len() > MAX_FRAME_SIZE,
        },
{
    let body = text.as_bytes();
    if body.len() > MAX_FRAME_SIZE - 5 {
        return Err(SessionError::Auth(AuthFault::MessageTooLong));
    }
    let mut frame: Vec<u8> = Vec::new();
    frame.push(SCRAM_TAG);
    push_be32(&mut frame, (body.len() + 5) as u32);
    push_all(&mut frame, body);
    assert(frame@ =~= client_final_frame(text@));
    Ok(frame)
}

/// Finds where the field that begins at `from` ends.
pub fn find_field_end(text: &[u8], from: usize) -> (end: usize)
    requires
        from <= text@.len(),
    ensures
        end == field_end(text@, from as int),
        from <= end <= text@.len(),
{
    let mut i: usize = from;
    while i < text.len() && text[i] != 44
        invariant
            from <= i <= text@.len(),
            field_end(text@, from as int) == field_end(text@, i as int),
        decreases text@.len() - i,
    {
        i += 1;
    }
    i
}

/// Decides whether a server-first text can be handed to the mechanism.
pub fn server_first_is_fit(text: &[u8]) -> (fit: bool)
    ensures
        fit == server_first_fit(text@),
{
    if text.len() < 2 {
        return true;
    }
    let first = find_field_end(text, 0);
    if first < 2 {
        return false;
    }
    if first == text.len() {
        return true;
    }
    let second = find_field_end(text, first + 1);
    if second - (first + 1) < 2 {
        return false;
    }
    if second == text.len() {
        return true;
    }
    let third = find_field_end(text, second + 1);
    third - (second + 1) >= 2
}

/// Decides whether a server-final text can be handed to the mechanism.
pub fn server_final_is_fit(text: &[u8]) -> (fit: bool)
    ensures
        fit == server_final_fit(text@),
{
    text.len() < 2 || (text[0] < 128 && text[1] < 128)
}

/// The states of the handshake. A session is in one of the first four; the
/// last two are where it ends.
#[derive(Clone, Copy, Debug, PartialEq, Eq)]
pub enum HandshakeState {
    /// Nothing has been answered yet.
    Start,
    /// The reply to the startup frame was accepted.
    SentStartup,
    /// The server-first message was accepted.
    SentClientFirst,
    /// The server's signature was verified.
    SentClientFinal,
    /// The server confirmed the authentication.
    Authenticated,
    /// A reply was refused.
    Failed,
}

/// The state that follows when a reply is accepted.
pub open spec fn next_state(state: HandshakeState) -> HandshakeState {
    match state {
        HandshakeState::Start => HandshakeState::SentStartup,
        HandshakeState::SentStartup => HandshakeState::SentClientFirst,
        HandshakeState::SentClientFirst => HandshakeState::SentClientFinal,
        HandshakeState::SentClientFinal => HandshakeState::Authenticated,
        HandshakeState::Authenticated => HandshakeState::Authenticated,
        HandshakeState::Failed => HandshakeState::Failed,
    }
}

/// The fault reported for a reply that is empty or begins with another
/// byte than `R`, by the state in which it came.
pub open spec fn tag_fault(state: HandshakeState, tag: Option<u8>) -> AuthFault {
    match state {
        HandshakeState::Start => AuthFault::InvalidStartupResponse(tag),
        HandshakeState::SentStartup => AuthFault::InvalidServerFirst(tag),
        HandshakeState::SentClientFirst => AuthFault::InvalidServerFinal(tag),
        _ => AuthFault::NotConfirmed(tag),
    }
}

/// Whether a reply carries a SCRAM text in the state given.
pub open spec fn carries_scram_text(state: HandshakeState) -> bool {
    state == HandshakeState::SentStartup || state == HandshakeState::SentClientFirst
}

/// The error for which an accepted reply is refused before the mechanism
/// sees its text: a reply shorter than the header, a text that is not UTF-8,
/// a text that the mechanism could not take.
pub open spec fn scram_text_fault(state: HandshakeState, reply: Seq<u8>) -> Option<SessionError> {
    match reply_payload(reply) {
        None => Some(SessionError::Auth(AuthFault::MalformedMessage)),
        Some(payload) => if !valid_utf8(payload) {
            Some(SessionError::Decode(TextFault::InvalidUtf8))
        } else if state == HandshakeState::SentStartup && !server_first_fit(payload) {
            Some(SessionError::Auth(AuthFault::MalformedMessage))
        } else if state == HandshakeState::SentClientFirst && !server_final_fit(payload) {
            Some(SessionError::Auth(AuthFault::MalformedMessage))
        } else {
            None
        },
    }
}

/// What the engine does with the mechanism's verdict on a server-first
/// message: the client-final text is framed, a rejection ends the handshake.
pub open spec fn server_first_outcome(verdict: Result<Seq<char>, ScramFault>) -> Result<
    Seq<u8>,
    SessionError,
> {
    match verdict {
        Err(fault) => Err(SessionError::Auth(AuthFault::Rejected(fault))),
        Ok(text) => if client_final_frame(text).len() <= MAX_FRAME_SIZE {
            Ok(client_final_frame(text))
        } else {
            Err(SessionError::Auth(AuthFault::MessageTooLong))
        },
    }
}

/// What the engine does with the mechanism's verdict on a server-final
/// message: a server that fails validation is a signature mismatch.
pub open spec fn server_final_outcome(verdict: Result<(), ScramFault>) -> Result<
    (),
    SessionError,
> {
    match verdict {
        Ok(_) => Ok(()),
        Err(ScramFault::InvalidServer) => Err(
            SessionError::Auth(AuthFault::ServerSignatureMismatch),
        ),
        Err(fault) => Err(SessionError::Auth(AuthFault::RejectedFinal(fault))),
    }
}

/// Checks the tag of a reply that came in the state given.
pub fn check_reply_tag(state: HandshakeState, reply: &[u8]) -> (r: Result<(), SessionError>)
    ensures
        r is Ok <==> reply_accepted(reply@),
        r matches Err(e) ==> e == SessionError::Auth(tag_fault(state, reply_tag(reply@))),
{
    if reply.len() > 0 && reply[0] == REPLY_TAG {
        return Ok(());
    }
    let tag: Option<u8> = if reply.len() == 0 {
        None
    } else {
        Some(reply[0])
    };
    let fault = match state {
        HandshakeState::Start => AuthFault::InvalidStartupResponse(tag),
        HandshakeState::SentStartup => AuthFault::InvalidServerFirst(tag),
        HandshakeState::SentClientFirst => AuthFault::InvalidServerFinal(tag),
        _ => AuthFault::NotConfirmed(tag),
    };
    Err(SessionError::Auth(fault))
}

/// Takes the SCRAM text out of an accepted reply.
pub fn scram_text(state: HandshakeState, reply: &[u8]) -> (r: Result<String, SessionError>)
    ensures
        match scram_text_fault(state, reply@) {
            Some(e) => r matches Err(x) && x == e,
            None => r matches Ok(text) && Some(encode_utf8(text@)) == reply_payload(reply@),
        },
{
    if reply.len() < HEADER_OFFSET {
        return Err(SessionError::Auth(AuthFault::MalformedMessage));
    }
    let payload = copy_range(reply, HEADER_OFFSET, reply.len());
    assert(payload@ =~= reply@.skip(9));
    let fit = match state {
        HandshakeState::SentStartup => server_first_is_fit(payload.as_slice()),
        HandshakeState::SentClientFirst => server_final_is_fit(payload.as_slice()),
        _ => true,
    };
    proof {
        if valid_utf8(payload@) {
            decode_utf8_encode_utf8(payload@);
        }
    }
    match string_from_utf8(payload) {
        None => Err(SessionError::Decode(TextFault::InvalidUtf8)),
        Some(text) => if fit {
            Ok(text)
        } else {
            Err(SessionError::Auth(AuthFault::MalformedMessage))
        },
    }
}

/// Decides what follows the mechanism's verdict on a server-first message.
pub fn server_first_step(verdict: Result<&str, ScramFault>) -> (r: Result<Vec<u8>, SessionError>)
    ensures
        match server_first_outcome(
            match verdict {
                Ok(text) => Ok(text@),
                Err(fault) => Err(fault),
            },
        ) {
            Ok(frame) => r matches Ok(f) && f@ == frame,
            Err(e) => r matches Err(x) && x == e,
        },
{
    match verdict {
        Err(fault) => Err(SessionError::Auth(AuthFault::Rejected(fault))),
        Ok(text) => frame_client_final(text),
    }
}

/// Decides what follows the mechanism's verdict on a server-final message.
pub fn server_final_step(verdict: Result<(), ScramFault>) -> (r: Result<(), SessionError>)
    ensures
        r == server_final_outcome(verdict),
{
    match verdict {
        Ok(_) => Ok(()),
        Err(ScramFault::InvalidServer) => Err(
            SessionError::Auth(AuthFault::ServerSignatureMismatch),
        ),
        Err(fault) => Err(SessionError::Auth(AuthFault::RejectedFinal(fault))),
    }
}

/// Whether a frame is the client-first frame of some text.
pub open spec fn is_client_first_frame(frame: Seq<u8>) -> bool {
    exists|text: Seq<char>| frame == #[trigger] client_first_frame(text)
}

/// Whether a frame is the client-final frame of some text.
pub open spec fn is_client_final_frame(frame: Seq<u8>) -> bool {
    exists|text: Seq<char>| frame == #[trigger] client_final_frame(text)
}

/// Whether an error is one with which a server-first message is turned
/// down once the mechanism has seen it.
pub open spec fn server_first_refusal(e: SessionError) -> bool {
    ||| e matches SessionError::Auth(AuthFault::Rejected(_))
    ||| e == SessionError::Auth(AuthFault::MessageTooLong)
}

/// Whether an error is one with which a server-final message is turned
/// down once the mechanism has seen it.
pub open spec fn server_final_refusal(e: SessionError) -> bool {
    ||| e == SessionError::Auth(AuthFault::ServerSignatureMismatch)
    ||| e matches SessionError::Auth(AuthFault::RejectedFinal(fault)) && fault
        != ScramFault::InvalidServer
}

enum Stage<'a> {
    Start(scram::ScramClient<'a>),
    SentStartup(scram::client::ServerFirst<'a>),
    SentClientFirst(scram::client::ServerFinal),
    SentClientFinal,
}

/// A handshake under way on one stream.
pub struct HandshakeSession<'a> {
    stage: Stage<'a>,
}

/// What the engine asks for after a reply.
pub enum HandshakeStep<'a> {
    /// Send the frame, if there is one; then read one reply and advance the
    /// session with it.
    Continue(HandshakeSession<'a>, Option<Vec<u8>>),
    /// The stream is authenticated.
    Authenticated,
    /// Close the stream and report the error. Nothing more is sent.
    Failed(SessionError),
}

impl<'a> HandshakeStep<'a> {
    /// The state that the handshake is in after the step.
    pub open spec fn state(self) -> HandshakeState {
        match self {
            HandshakeStep::Continue(session, _) => session.state(),
            HandshakeStep::Authenticated => HandshakeState::Authenticated,
            HandshakeStep::Failed(_) => HandshakeState::Failed,
        }
    }

    /// The frame that the step asks to send, if any.
    pub open spec fn frame(self) -> Option<Seq<u8>> {
        match self {
            HandshakeStep::Continue(_, Some(frame)) => Some(frame@),
            _ => None,
        }
    }
}

/// What holds of the step that follows an accepted reply to the startup
/// frame: the client-first frame is sent, unless its text is too long.
pub open spec fn step_after_startup(step: HandshakeStep<'_>) -> bool {
    match step {
        HandshakeStep::Continue(session, frame) => {
            &&& session.state() == HandshakeState::SentStartup
            &&& frame matches Some(f)
            &&& is_client_first_frame(f@)
        },
        HandshakeStep::Failed(e) => e == SessionError::Auth(AuthFault::MessageTooLong),
        HandshakeStep::Authenticated => false,
    }
}

/// What holds of the step that follows an accepted reply to the
/// client-first frame: a text that the engine refuses gives its error;
/// otherwise the mechanism decides, and the client-final frame is sent or the
/// handshake ends with what `server_first_outcome` gives for a rejection.
pub open spec fn step_after_client_first(reply: Seq<u8>, step: HandshakeStep<'_>) -> bool {
    match scram_text_fault(HandshakeState::SentStartup, reply) {
        Some(fault) => step matches HandshakeStep::Failed(e) && e == fault,
        None => match step {
            HandshakeStep::Continue(session, frame) => {
                &&& session.state() == HandshakeState::SentClientFirst
                &&& frame matches Some(f)
                &&& is_client_final_frame(f@)
            },
            HandshakeStep::Failed(e) => server_first_refusal(e),
            HandshakeStep::Authenticated => false,
        },
    }
}

/// What holds of the step that follows an accepted reply to the
/// client-final frame: a text that the engine refuses gives its error;
/// otherwise the mechanism decides, and one more reply is awaited or the
/// handshake ends with what `server_final_outcome` gives for a rejection.
pub open spec fn step_after_client_final(reply: Seq<u8>, step: HandshakeStep<'_>) -> bool {
    match scram_text_fault(HandshakeState::SentClientFirst, reply) {
        Some(fault) => step matches HandshakeStep::Failed(e) && e == fault,
        None => match step {
            HandshakeStep::Continue(session, frame) => session.state()
                == HandshakeState::SentClientFinal && frame is None,
            HandshakeStep::Failed(e) => server_final_refusal(e),
            HandshakeStep::Authenticated => false,
        },
    }
}

/// What holds of the step that follows an accepted reply, by the state in
/// which the reply came.
pub open spec fn accepted_step(
    state: HandshakeState,
    reply: Seq<u8>,
    step: HandshakeStep<'_>,
) -> bool {
    match state {
        HandshakeState::Start => step_after_startup(step),
        HandshakeState::SentStartup => step_after_client_first(reply, step),
        HandshakeState::SentClientFirst => step_after_client_final(reply, step),
        _ => step is Authenticated,
    }
}

impl<'a> HandshakeSession<'a> {
    /// The state of the session.
    pub closed spec fn state(&self) -> HandshakeState {
        match self.stage {
            Stage::Start(_) => HandshakeState::Start,
            Stage::SentStartup(_) => HandshakeState::SentStartup,
            Stage::SentClientFirst(_) => HandshakeState::SentClientFirst,
            Stage::SentClientFinal => HandshakeState::SentClientFinal,
        }
    }

    /// A session is never in a state in which the handshake has ended.
    pub proof fn lemma_live(&self)
        ensures
            self.state() != HandshakeState::Authenticated,
            self.state() != HandshakeState::Failed,
    {
    }

    pub fn current_state(&self) -> (state: HandshakeState)
        ensures
            state == self.state(),
    {
        match &self.stage {
            Stage::Start(_) => HandshakeState::Start,
            Stage::SentStartup(_) => HandshakeState::SentStartup,
            Stage::SentClientFirst(_) => HandshakeState::SentClientFirst,
            Stage::SentClientFinal => HandshakeState::SentClientFinal,
        }
    }

    /// Takes the reply that was read and decides what comes next.
    ///
    /// A reply that is empty or does not begin with `R` ends the handshake
    /// in every state. An accepted reply moves the session to the next state,
    /// unless its SCRAM text is refused: by the engine, where
    /// `scram_text_fault` names an error, or by the mechanism.
    pub fn advance(self, reply: &[u8]) -> (step: HandshakeStep<'a>)
        ensures
            !reply_accepted(reply@) ==> step == HandshakeStep::<'a>::Failed(
                SessionError::Auth(tag_fault(self.state(), reply_tag(reply@))),
            ),
            reply_accepted(reply@) ==> accepted_step(self.state(), reply@, step),
    {
        let state = self.current_state();
        match check_reply_tag(state, reply) {
            Err(e) => { return HandshakeStep::Failed(e); },
            Ok(_) => {},
        }
        match self.stage {
            Stage::Start(client) => Self::after_startup(client),
            Stage::SentStartup(scram_state) => Self::after_client_first(scram_state, reply),
            Stage::SentClientFirst(scram_state) => Self::after_client_final(scram_state, reply),
            Stage::SentClientFinal => HandshakeStep::Authenticated,
        }
    }

    fn after_startup(client: scram::ScramClient<'a>) -> (step: HandshakeStep<'a>)
        ensures
            step_after_startup(step),
    {
        let (next, text) = scram_client_first(client);
        match frame_client_first(text.as_str()) {
            Err(e) => HandshakeStep::Failed(e),
            Ok(frame) => {
                assert(is_client_first_frame(frame@)) by {
                    assert(frame@ == client_first_frame(text@));
                }
                HandshakeStep::Continue(
                    HandshakeSession { stage: Stage::SentStartup(next) },
                    Some(frame),
                )
            },
        }
    }

    fn after_client_first(scram_state: scram::client::ServerFirst<'a>, reply: &[u8]) -> (step:
        HandshakeStep<'a>)
        ensures
            step_after_client_first(reply@, step),
    {
        let text = match scram_text(HandshakeState::SentStartup, reply) {
            Err(e) => { return HandshakeStep::Failed(e); },
            Ok(text) => text,
        };
        match scram_handle_server_first(scram_state, text.as_str()) {
            Err(error) => {
                let fault = scram_fault(error);
                match server_first_step(Err(fault)) {
                    Err(e) => HandshakeStep::Failed(e),
                    Ok(_) => HandshakeStep::Failed(SessionError::Auth(AuthFault::Rejected(fault))),
                }
            },
            Ok(client_final) => {
                let (next, final_text) = scram_client_final(client_final);
                match server_first_step(Ok(final_text.as_str())) {
                    Err(e) => HandshakeStep::Failed(e),
                    Ok(frame) => {
                        assert(is_client_final_frame(frame@)) by {
                            assert(frame@ == client_final_frame(final_text@));
                        }
                        HandshakeStep::Continue(
                            HandshakeSession { stage: Stage::SentClientFirst(next) },
                            Some(frame),
                        )
                    },
                }
            },
        }
    }

    fn after_client_final(scram_state: scram::client::ServerFinal, reply: &[u8]) -> (step:
        HandshakeStep<'a>)
        ensures
            step_after_client_final(reply@, step),
    {
        let text = match scram_text(HandshakeState::SentClientFirst, reply) {
            Err(e) => { return HandshakeStep::Failed(e); },
            Ok(text) => text,
        };
        let verdict: Result<(), ScramFault> = match scram_handle_server_final(
            scram_state,
            text.as_str(),
        ) {
            Ok(_) => Ok(()),
            Err(error) => Err(scram_fault(error)),
        };
        match server_final_step(verdict) {
            Ok(_) => HandshakeStep::Continue(
                HandshakeSession { stage: Stage::SentClientFinal },
                None,
            ),
            Err(e) => HandshakeStep::Failed(e),
        }
    }
}

impl SecurityUtil {
    /// Opens the handshake for a connection to the daemon: the session
    /// starts, and the startup frame is the first thing to send. The caller
    /// owns the socket; it sends what a step asks for, reads one reply, and
    /// advances the session with it until the handshake ends.
    pub fn connect_to_server<'a>(username: &'a str, password: &'a str) -> (step: HandshakeStep<
        'a,
    >)
        ensures
            startup_frame(username@).len() <= MAX_FRAME_SIZE ==> step.state()
                == HandshakeState::Start && step.frame() == Some(startup_frame(username@)),
            startup_frame(username@).len() > MAX_FRAME_SIZE ==> step == HandshakeStep::<
                'a,
            >::Failed(SessionError::Config(ConfigFault::UsernameTooLong)),
    {
        match create_startup_message(username) {
            Err(e) => HandshakeStep::Failed(e),
            Ok(frame) => HandshakeStep::Continue(
                HandshakeSession { stage: Stage::Start(scram_new(username, password)) },
                Some(frame),
            ),
        }
    }
}

} // verus!
