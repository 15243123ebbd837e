use pgmoneta_mcp::error::{AuthFault, ScramFault, SessionError, TextFault};
use pgmoneta_mcp::handshake::{
    check_reply_tag, create_startup_message, find_field_end, frame_client_final,
    frame_client_first, scram_text, server_final_is_fit, server_final_step, server_first_is_fit,
    server_first_step, HandshakeSession, HandshakeState, HandshakeStep, HEADER_OFFSET, MAGIC,
    REPLY_BUFFER_SIZE,
};
use pgmoneta_mcp::security::SecurityUtil;
use scram::{AuthenticationProvider, AuthenticationStatus, PasswordInfo, ScramServer};
use std::num::NonZeroU32;

struct Daemon {
    hashed: Vec<u8>,
}

impl Daemon {
    fn knowing(password: &str) -> Self {
        let iterations = NonZeroU32::new(4096).unwrap();
        Daemon { hashed: scram::hash_password(password, iterations, b"pepper").to_vec() }
    }
}

impl AuthenticationProvider for Daemon {
    fn get_password_for(&self, username: &str) -> Option<PasswordInfo> {
        if username == "alice" {
            Some(PasswordInfo::new(self.hashed.clone(), 4096, b"pepper".to_vec()))
        } else {
            None
        }
    }
}

fn reply(payload: &[u8]) -> Vec<u8> {
    let mut bytes = vec![b'R', 0, 0, 0, 0, 0, 0, 0, 11];
    bytes.extend_from_slice(payload);
    bytes
}

fn going_on(step: HandshakeStep<'_>) -> (HandshakeSession<'_>, Option<Vec<u8>>) {
    match step {
        HandshakeStep::Continue(session, frame) => (session, frame),
        HandshakeStep::Authenticated => panic!("the handshake ended in success"),
        HandshakeStep::Failed(e) => panic!("the handshake failed: {:?}", e),
    }
}

fn failure(step: HandshakeStep<'_>) -> SessionError {
    match step {
        HandshakeStep::Failed(e) => e,
        HandshakeStep::Authenticated => panic!("the handshake ended in success"),
        HandshakeStep::Continue(_, _) => panic!("the handshake goes on"),
    }
}

fn alice_startup_frame() -> Vec<u8> {
    let mut frame = vec![0u8, 0, 0, 61, 0, 3, 0, 0];
    frame.extend_from_slice(b"user\0alice\0");
    frame.extend_from_slice(b"database\0admin\0");
    frame.extend_from_slice(b"application_name\0pgmoneta\0");
    frame.push(0);
    frame
}

#[test]
fn startup_frame_for_alice_byte_for_byte() {
    let frame = create_startup_message("alice").unwrap();
    assert_eq!(frame.len(), 61);
    assert_eq!(frame, alice_startup_frame());
    assert_eq!(MAGIC, 196608);
    assert_eq!(&frame[4..8], &196608u32.to_be_bytes());
}

#[test]
fn startup_frame_announces_its_own_size() {
    let mut names = vec!["", "a", "backup_admin", "zoë", "用户", "a,b=c"];
    while let Some(name) = names.pop() {
        let frame = create_startup_message(name).unwrap();
        assert_eq!(frame.len(), name.len() + 56);
        assert_eq!(&frame[..4], &(frame.len() as u32).to_be_bytes());
        assert_eq!(&frame[8..13], b"user\0");
        assert_eq!(&frame[13..13 + name.len()], name.as_bytes());
        assert_eq!(frame[13 + name.len()], 0);
        assert_eq!(&frame[frame.len() - 2..], &[0, 0]);
    }
}

#[test]
fn client_first_frame_byte_for_byte() {
    let frame = frame_client_first("n,,n=alice,r=abc").unwrap();
    let mut expected = vec![b'p', 0, 0, 0, 39];
    expected.extend_from_slice(b"SCRAM-SHA-256");
    expected.extend_from_slice(&[0, 0, 0, 0, b' ']);
    expected.extend_from_slice(b"n,,n=alice,r=abc");
    assert_eq!(frame, expected);
    assert_eq!(frame.len(), 39);
    assert_eq!(frame_client_first("").unwrap().len(), 23);
}

#[test]
fn client_final_frame_byte_for_byte() {
    let frame = frame_client_final("c=biws,r=abcdef,p=cHJvb2Y=").unwrap();
    let mut expected = vec![b'p', 0, 0, 0, 31];
    expected.extend_from_slice(b"c=biws,r=abcdef,p=cHJvb2Y=");
    assert_eq!(frame, expected);
    assert_eq!(frame_client_final("").unwrap(), vec![b'p', 0, 0, 0, 5]);
    let long = "x".repeat(300);
    let frame = frame_client_final(&long).unwrap();
    assert_eq!(&frame[..5], &[b'p', 0, 0, 1, 49]);
}

#[test]
fn reply_tag_is_checked_by_state() {
    assert_eq!(check_reply_tag(HandshakeState::Start, b"R"), Ok(()));
    assert_eq!(check_reply_tag(HandshakeState::SentClientFinal, b"R\0\0\0\x08"), Ok(()));
    assert_eq!(
        check_reply_tag(HandshakeState::Start, b"E"),
        Err(SessionError::Auth(AuthFault::InvalidStartupResponse(Some(b'E'))))
    );
    assert_eq!(
        check_reply_tag(HandshakeState::Start, b""),
        Err(SessionError::Auth(AuthFault::InvalidStartupResponse(None)))
    );
    assert_eq!(
        check_reply_tag(HandshakeState::SentStartup, b"r"),
        Err(SessionError::Auth(AuthFault::InvalidServerFirst(Some(b'r'))))
    );
    assert_eq!(
        check_reply_tag(HandshakeState::SentClientFirst, b"\0R"),
        Err(SessionError::Auth(AuthFault::InvalidServerFinal(Some(0))))
    );
    assert_eq!(
        check_reply_tag(HandshakeState::SentClientFinal, b"S"),
        Err(SessionError::Auth(AuthFault::NotConfirmed(Some(b'S'))))
    );
}

#[test]
fn auth_faults_are_reported_in_their_words() {
    assert_eq!(AuthFault::InvalidStartupResponse(None).message(), "invalid startup response");
    assert_eq!(
        AuthFault::InvalidServerFirst(Some(b'E')).message(),
        "invalid server-first message"
    );
    assert_eq!(AuthFault::InvalidServerFinal(None).message(), "invalid server-final message");
    assert_eq!(AuthFault::ServerSignatureMismatch.message(), "server signature mismatch");
    assert_eq!(AuthFault::NotConfirmed(None).message(), "authentication not confirmed");
    assert_eq!(SessionError::Auth(AuthFault::NotConfirmed(None)).kind(), "AuthError");
}

#[test]
fn fields_end_at_the_next_comma() {
    assert_eq!(find_field_end(b"r=abc,s=def", 0), 5);
    assert_eq!(find_field_end(b"r=abc,s=def", 5), 5);
    assert_eq!(find_field_end(b"r=abc,s=def", 6), 11);
    assert_eq!(find_field_end(b"r=abc,s=def", 11), 11);
    assert_eq!(find_field_end(b"", 0), 0);
    assert_eq!(find_field_end(b",,", 0), 0);
    assert_eq!(find_field_end(b",,", 1), 1);
}

#[test]
fn server_first_texts_with_a_short_field_are_unfit() {
    assert!(server_first_is_fit(b""));
    assert!(server_first_is_fit(b"r"));
    assert!(server_first_is_fit(b"r=abc,s=c2FsdA==,i=4096"));
    assert!(server_first_is_fit(b"r=abc"));
    assert!(server_first_is_fit(b"r=abc,s="));
    assert!(server_first_is_fit(b"m=x,r=abc,s=QQ==,i=1"));
    assert!(server_first_is_fit(b"r=abc,s=QQ==,i=1,"));
    assert!(server_first_is_fit(b"r=abc,s=QQ==,i=1,x"));
    assert!(!server_first_is_fit(b"r,"));
    assert!(!server_first_is_fit(b",r=abc"));
    assert!(!server_first_is_fit(b"r=abc,"));
    assert!(!server_first_is_fit(b"r=abc,s,i=4096"));
    assert!(!server_first_is_fit(b"r=abc,s=QQ==,"));
    assert!(!server_first_is_fit(b"r=abc,s=QQ==,i"));
    assert!(!server_first_is_fit(b"r=abc,,i=4096"));
}

#[test]
fn server_final_texts_must_begin_with_two_ascii_bytes() {
    assert!(server_final_is_fit(b""));
    assert!(server_final_is_fit(b"v"));
    assert!(server_final_is_fit(b"v=abc"));
    assert!(server_final_is_fit(b"e=no"));
    assert!(server_final_is_fit("\u{e9}".as_bytes().get(..1).unwrap()));
    assert!(!server_final_is_fit("\u{e9}=".as_bytes()));
    assert!(!server_final_is_fit("v\u{e9}".as_bytes()));
    assert!(!server_final_is_fit("\u{20ac}".as_bytes()));
}

#[test]
fn scram_text_is_what_follows_the_header() {
    assert_eq!(HEADER_OFFSET, 9);
    assert_eq!(REPLY_BUFFER_SIZE, 256);
    assert_eq!(
        scram_text(HandshakeState::SentStartup, &reply(b"r=abc,s=QQ==,i=4096")),
        Ok("r=abc,s=QQ==,i=4096".to_string())
    );
    assert_eq!(
        scram_text(HandshakeState::SentClientFirst, &reply(b"v=c2ln")),
        Ok("v=c2ln".to_string())
    );
    assert_eq!(scram_text(HandshakeState::SentStartup, &reply(b"")), Ok(String::new()));
}

#[test]
fn scram_text_refuses_short_replies_bad_utf8_and_unfit_texts() {
    let malformed = Err(SessionError::Auth(AuthFault::MalformedMessage));
    let not_text = Err(SessionError::Decode(TextFault::InvalidUtf8));
    assert_eq!(scram_text(HandshakeState::SentStartup, b"R"), malformed);
    assert_eq!(scram_text(HandshakeState::SentStartup, b"R\0\0\0\0\0\0\0"), malformed);
    assert_eq!(scram_text(HandshakeState::SentClientFirst, b""), malformed);
    assert_eq!(scram_text(HandshakeState::SentStartup, &reply(&[b'r', b'=', 0xff])), not_text);
    assert_eq!(scram_text(HandshakeState::SentClientFirst, &reply(&[0xc3])), not_text);
    assert_eq!(scram_text(HandshakeState::SentStartup, &reply(b"r,s=QQ==")), malformed);
    assert_eq!(scram_text(HandshakeState::SentStartup, &reply(b"r=abc,")), malformed);
    assert_eq!(
        scram_text(HandshakeState::SentClientFirst, &reply("\u{e9}=abc".as_bytes())),
        malformed
    );
    assert_eq!(
        scram_text(HandshakeState::SentClientFirst, &reply(b"r=abc,")),
        Ok("r=abc,".to_string())
    );
    assert_eq!(
        scram_text(HandshakeState::SentStartup, &reply(&[0xff, b','])),
        not_text
    );
}

#[test]
fn the_verdict_on_server_first_frames_the_client_final_or_ends() {
    assert_eq!(
        server_first_step(Ok("c=biws,r=abc,p=cA==")),
        frame_client_final("c=biws,r=abc,p=cA==")
    );
    assert_eq!(server_first_step(Ok("x")), Ok(vec![b'p', 0, 0, 0, 6, b'x']));
    assert_eq!(
        server_first_step(Err(ScramFault::Protocol)),
        Err(SessionError::Auth(AuthFault::Rejected(ScramFault::Protocol)))
    );
    assert_eq!(
        server_first_step(Err(ScramFault::UnsupportedExtension)),
        Err(SessionError::Auth(AuthFault::Rejected(ScramFault::UnsupportedExtension)))
    );
}

#[test]
fn the_verdict_on_server_final_names_a_signature_mismatch() {
    assert_eq!(server_final_step(Ok(())), Ok(()));
    assert_eq!(
        server_final_step(Err(ScramFault::InvalidServer)),
        Err(SessionError::Auth(AuthFault::ServerSignatureMismatch))
    );
    assert_eq!(
        server_final_step(Err(ScramFault::Authentication)),
        Err(SessionError::Auth(AuthFault::RejectedFinal(ScramFault::Authentication)))
    );
    assert_eq!(
        server_final_step(Err(ScramFault::Protocol)),
        Err(SessionError::Auth(AuthFault::RejectedFinal(ScramFault::Protocol)))
    );
}

#[test]
fn a_handshake_begins_with_the_startup_frame() {
    let (session, frame) = going_on(SecurityUtil::connect_to_server("alice", "wonderland"));
    assert_eq!(session.current_state(), HandshakeState::Start);
    assert_eq!(frame, Some(alice_startup_frame()));
}

#[test]
fn the_handshake_authenticates_against_a_scram_server() {
    let server = ScramServer::new(Daemon::knowing("wonderland"));
    let (session, frame) = going_on(SecurityUtil::connect_to_server("alice", "wonderland"));
    assert_eq!(frame, Some(alice_startup_frame()));

    let (session, frame) = going_on(session.advance(&[b'R', 0, 0, 0, 8, 0, 0, 0, 10]));
    assert_eq!(session.current_state(), HandshakeState::SentStartup);
    let frame = frame.expect("the client-first frame");
    assert_eq!(frame[0], b'p');
    assert_eq!(&frame[1..5], &(frame.len() as u32).to_be_bytes());
    assert_eq!(&frame[5..18], b"SCRAM-SHA-256");
    assert_eq!(&frame[18..23], &[0, 0, 0, 0, b' ']);
    let client_first = String::from_utf8(frame[23..].to_vec()).unwrap();
    assert!(client_first.starts_with("n,,n=alice,r="));
    assert_eq!(frame_client_first(&client_first).unwrap(), frame);

    let server = server.handle_client_first(&client_first).unwrap();
    let (server, server_first) = server.server_first();
    let (session, frame) = going_on(session.advance(&reply(server_first.as_bytes())));
    assert_eq!(session.current_state(), HandshakeState::SentClientFirst);
    let frame = frame.expect("the client-final frame");
    assert_eq!(frame[0], b'p');
    assert_eq!(&frame[1..5], &(frame.len() as u32).to_be_bytes());
    let client_final = String::from_utf8(frame[5..].to_vec()).unwrap();
    assert!(client_final.starts_with("c=biws,r="));
    assert_eq!(frame_client_final(&client_final).unwrap(), frame);

    let server = server.handle_client_final(&client_final).unwrap();
    let (status, server_final) = server.server_final();
    assert_eq!(status, AuthenticationStatus::Authenticated);
    let (session, frame) = going_on(session.advance(&reply(server_final.as_bytes())));
    assert_eq!(session.current_state(), HandshakeState::SentClientFinal);
    assert_eq!(frame, None);

    let step = session.advance(&[b'R', 0, 0, 0, 8, 0, 0, 0, 0]);
    assert!(matches!(step, HandshakeStep::Authenticated));
}

#[test]
fn a_wrong_password_is_turned_down_by_the_server() {
    let server = ScramServer::new(Daemon::knowing("wonderland"));
    let (session, _) = going_on(SecurityUtil::connect_to_server("alice", "looking glass"));
    let (session, frame) = going_on(session.advance(b"R"));
    let client_first = String::from_utf8(frame.unwrap()[23..].to_vec()).unwrap();
    let server = server.handle_client_first(&client_first).unwrap();
    let (server, server_first) = server.server_first();
    let (session, frame) = going_on(session.advance(&reply(server_first.as_bytes())));
    let client_final = String::from_utf8(frame.unwrap()[5..].to_vec()).unwrap();
    let server = server.handle_client_final(&client_final).unwrap();
    let (status, server_final) = server.server_final();
    assert_eq!(status, AuthenticationStatus::NotAuthenticated);
    assert_eq!(
        failure(session.advance(&reply(server_final.as_bytes()))),
        SessionError::Auth(AuthFault::RejectedFinal(ScramFault::Authentication))
    );
}

#[test]
fn a_server_without_the_credentials_fails_the_signature_check() {
    let server = ScramServer::new(Daemon::knowing("wonderland"));
    let (session, _) = going_on(SecurityUtil::connect_to_server("alice", "wonderland"));
    let (session, frame) = going_on(session.advance(b"R"));
    let client_first = String::from_utf8(frame.unwrap()[23..].to_vec()).unwrap();
    let server = server.handle_client_first(&client_first).unwrap();
    let (_, server_first) = server.server_first();
    let (session, _) = going_on(session.advance(&reply(server_first.as_bytes())));
    let forged = "v=AAAAAAAAAAAAAAAAAAAAAAAAAAAAAAAAAAAAAAAAAAA=";
    let error = failure(session.advance(&reply(forged.as_bytes())));
    assert_eq!(error, SessionError::Auth(AuthFault::ServerSignatureMismatch));
    match error {
        SessionError::Auth(fault) => assert_eq!(fault.message(), "server signature mismatch"),
        _ => unreachable!(),
    }
}

#[test]
fn a_reply_with_another_tag_ends_the_handshake_in_every_state() {
    let (session, _) = going_on(SecurityUtil::connect_to_server("alice", "wonderland"));
    assert_eq!(
        failure(session.advance(b"E\0\0\0\x08")),
        SessionError::Auth(AuthFault::InvalidStartupResponse(Some(b'E')))
    );

    let (session, _) = going_on(SecurityUtil::connect_to_server("alice", "wonderland"));
    assert_eq!(
        failure(session.advance(b"")),
        SessionError::Auth(AuthFault::InvalidStartupResponse(None))
    );

    let (session, _) = going_on(SecurityUtil::connect_to_server("alice", "wonderland"));
    let (session, _) = going_on(session.advance(b"R"));
    assert_eq!(
        failure(session.advance(b"Xr=abc,s=QQ==,i=4096")),
        SessionError::Auth(AuthFault::InvalidServerFirst(Some(b'X')))
    );

    let server = ScramServer::new(Daemon::knowing("wonderland"));
    let (session, _) = going_on(SecurityUtil::connect_to_server("alice", "wonderland"));
    let (session, frame) = going_on(session.advance(b"R"));
    let client_first = String::from_utf8(frame.unwrap()[23..].to_vec()).unwrap();
    let server = server.handle_client_first(&client_first).unwrap();
    let (server, server_first) = server.server_first();
    let (session, frame) = going_on(session.advance(&reply(server_first.as_bytes())));
    let client_final = String::from_utf8(frame.unwrap()[5..].to_vec()).unwrap();
    let mut tagged_wrong = reply(b"v=abcd");
    tagged_wrong[0] = b'r';
    assert_eq!(
        failure(session.advance(&tagged_wrong)),
        SessionError::Auth(AuthFault::InvalidServerFinal(Some(b'r')))
    );

    let (_, server_final) = server.handle_client_final(&client_final).unwrap().server_final();
    let server = ScramServer::new(Daemon::knowing("wonderland"));
    let (session, _) = going_on(SecurityUtil::connect_to_server("alice", "wonderland"));
    let (session, frame) = going_on(session.advance(b"R"));
    let client_first = String::from_utf8(frame.unwrap()[23..].to_vec()).unwrap();
    let server = server.handle_client_first(&client_first).unwrap();
    let (server, server_first) = server.server_first();
    let (session, frame) = going_on(session.advance(&reply(server_first.as_bytes())));
    let client_final = String::from_utf8(frame.unwrap()[5..].to_vec()).unwrap();
    let (_, fresh_final) = server.handle_client_final(&client_final).unwrap().server_final();
    assert_ne!(fresh_final, server_final);
    let (session, _) = going_on(session.advance(&reply(fresh_final.as_bytes())));
    assert_eq!(
        failure(session.advance(b"\0")),
        SessionError::Auth(AuthFault::NotConfirmed(Some(0)))
    );
}

#[test]
fn a_malformed_server_first_message_ends_the_handshake() {
    let (session, _) = going_on(SecurityUtil::connect_to_server("alice", "wonderland"));
    let (session, _) = going_on(session.advance(b"R"));
    assert_eq!(
        failure(session.advance(&reply(b"this is no scram message"))),
        SessionError::Auth(AuthFault::Rejected(ScramFault::Protocol))
    );

    let (session, _) = going_on(SecurityUtil::connect_to_server("alice", "wonderland"));
    let (session, _) = going_on(session.advance(b"R"));
    assert_eq!(
        failure(session.advance(&reply(b"r=someone-elses-nonce,s=QQ==,i=4096"))),
        SessionError::Auth(AuthFault::Rejected(ScramFault::Protocol))
    );

    let (session, _) = going_on(SecurityUtil::connect_to_server("alice", "wonderland"));
    let (session, _) = going_on(session.advance(b"R"));
    assert_eq!(
        failure(session.advance(&reply(b"m=ext,r=abc,s=QQ==,i=4096"))),
        SessionError::Auth(AuthFault::Rejected(ScramFault::UnsupportedExtension))
    );

    let (session, _) = going_on(SecurityUtil::connect_to_server("alice", "wonderland"));
    let (session, _) = going_on(session.advance(b"R"));
    assert_eq!(
        failure(session.advance(&reply(b"r,s=QQ==,i=4096"))),
        SessionError::Auth(AuthFault::MalformedMessage)
    );

    let (session, _) = going_on(SecurityUtil::connect_to_server("alice", "wonderland"));
    let (session, _) = going_on(session.advance(b"R"));
    assert_eq!(
        failure(session.advance(b"R\0\0")),
        SessionError::Auth(AuthFault::MalformedMessage)
    );

    let (session, _) = going_on(SecurityUtil::connect_to_server("alice", "wonderland"));
    let (session, _) = going_on(session.advance(b"R"));
    assert_eq!(
        failure(session.advance(&reply(&[b'r', b'=', 0x80]))),
        SessionError::Decode(TextFault::InvalidUtf8)
    );
}

struct Quick;

impl AuthenticationProvider for Quick {
    fn get_password_for(&self, username: &str) -> Option<PasswordInfo> {
        if username != "alice" {
            return None;
        }
        let iterations = NonZeroU32::new(8).unwrap();
        let hashed = scram::hash_password("wonderland", iterations, b"pepper").to_vec();
        Some(PasswordInfo::new(hashed, 8, b"pepper".to_vec()))
    }
}

fn next_text(state: &mut u64) -> Vec<u8> {
    let pieces: [&[u8]; 14] = [
        b",", b"=", b"r", b"s", b"i", b"m", b"v", b"e", b"A", b"1", b"r=", b"s=QQ==", b"i=1",
        "\u{e9}".as_bytes(),
    ];
    let mut text = Vec::new();
    *state = state.wrapping_mul(6364136223846793005).wrapping_add(1442695040888963407);
    let count = (*state >> 33) % 7;
    let mut n = 0;
    while n < count {
        *state = state.wrapping_mul(6364136223846793005).wrapping_add(1442695040888963407);
        text.extend_from_slice(pieces[((*state >> 33) % 14) as usize]);
        n += 1;
    }
    text
}

#[test]
fn no_server_first_text_makes_the_engine_panic() {
    let mut state: u64 = 7;
    let mut round = 0;
    let mut refused_early = 0;
    let mut refused_by_scram = 0;
    while round < 3000 {
        let text = next_text(&mut state);
        let (session, _) = going_on(SecurityUtil::connect_to_server("alice", "wonderland"));
        let (session, _) = going_on(session.advance(b"R"));
        match failure(session.advance(&reply(&text))) {
            SessionError::Auth(AuthFault::MalformedMessage) => {
                assert!(!server_first_is_fit(&text));
                refused_early += 1;
            }
            SessionError::Auth(AuthFault::Rejected(_)) => {
                assert!(server_first_is_fit(&text));
                refused_by_scram += 1;
            }
            other => panic!("an unexpected error: {:?}", other),
        }
        round += 1;
    }
    assert!(refused_early > 100);
    assert!(refused_by_scram > 100);
}

#[test]
fn no_server_final_text_makes_the_engine_panic() {
    let mut state: u64 = 11;
    let mut round = 0;
    let mut refused_early = 0;
    let mut refused_by_scram = 0;
    while round < 300 {
        let text = next_text(&mut state);
        let server = ScramServer::new(Quick);
        let (session, _) = going_on(SecurityUtil::connect_to_server("alice", "wonderland"));
        let (session, frame) = going_on(session.advance(b"R"));
        let client_first = String::from_utf8(frame.unwrap()[23..].to_vec()).unwrap();
        let server = server.handle_client_first(&client_first).unwrap();
        let (_, server_first) = server.server_first();
        let (session, _) = going_on(session.advance(&reply(server_first.as_bytes())));
        match failure(session.advance(&reply(&text))) {
            SessionError::Auth(AuthFault::MalformedMessage) => {
                assert!(!server_final_is_fit(&text));
                refused_early += 1;
            }
            SessionError::Auth(AuthFault::RejectedFinal(_))
            | SessionError::Auth(AuthFault::ServerSignatureMismatch) => {
                assert!(server_final_is_fit(&text));
                refused_by_scram += 1;
            }
            other => panic!("an unexpected error: {:?}", other),
        }
        round += 1;
    }
    assert!(refused_early > 5);
    assert!(refused_by_scram > 100);
}
