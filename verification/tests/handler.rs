use pgmoneta_mcp::error::{EnumField, FieldKind, ProtocolFault, SessionError};
use pgmoneta_mcp::handler::{classify_field, translate_number, InfoRequest, PgmonetaHandler};
use pgmoneta_mcp::json::{get_member, JsonMember, JsonNumber, JsonValue};

fn member(key: &str, value: JsonValue) -> JsonMember {
    JsonMember { key: key.to_string(), value }
}

fn number(n: u64) -> JsonValue {
    JsonValue::Number(JsonNumber::Unsigned(n))
}

fn text(t: &str) -> JsonValue {
    JsonValue::Text(t.to_string())
}

#[test]
fn the_tool_is_called_with_user_server_and_backup() {
    let request = InfoRequest {
        username: "alice".to_string(),
        server: "pg1".to_string(),
        backup_id: "newest".to_string(),
    };
    assert_eq!(request.backup_id, "newest");
    let _handler = PgmonetaHandler::new();
}

#[test]
fn a_reply_with_a_true_status_is_accepted() {
    let reply = "{\"Outcome\":{\"Status\":true,\"Time\":\"00:00:01\"},\"Response\":{\"Server\":\"pg1\",\"BackupSize\":2048}}";
    let members = PgmonetaHandler::parse_and_check_result(reply).unwrap();
    assert_eq!(members.len(), 2);
    assert_eq!(members[0].key, "Outcome");
    assert_eq!(members[1].key, "Response");
    assert_eq!(
        get_member(&members, "Response"),
        Some(&JsonValue::Object(vec![member("BackupSize", number(2048)), member("Server", text("pg1"))]))
    );
    assert_eq!(get_member(&members, "Request"), None);
}

#[test]
fn a_reply_with_a_false_status_is_an_application_error() {
    let reply = "{\"Outcome\":{\"Status\":false,\"Error\":3},\"Response\":{}}";
    let refused = PgmonetaHandler::parse_and_check_result(reply);
    assert_eq!(refused, Err(SessionError::Application));
    assert_eq!(refused.unwrap_err().kind(), "ApplicationError");
    assert_eq!(PgmonetaHandler::render_backup_info(reply), Err(SessionError::Application));
}

#[test]
fn a_reply_that_is_not_what_the_protocol_promises_is_refused() {
    let fault = |f| Err(SessionError::Protocol(f));
    assert_eq!(
        PgmonetaHandler::parse_and_check_result("{\"Outcome\":"),
        fault(ProtocolFault::MalformedJson)
    );
    assert_eq!(PgmonetaHandler::parse_and_check_result(""), fault(ProtocolFault::MalformedJson));
    assert_eq!(
        PgmonetaHandler::parse_and_check_result("[1,2]"),
        fault(ProtocolFault::NotAnObject)
    );
    assert_eq!(PgmonetaHandler::parse_and_check_result("true"), fault(ProtocolFault::NotAnObject));
    assert_eq!(
        PgmonetaHandler::parse_and_check_result("{\"Response\":{}}"),
        fault(ProtocolFault::MissingOutcome)
    );
    assert_eq!(
        PgmonetaHandler::parse_and_check_result("{\"outcome\":{\"Status\":true}}"),
        fault(ProtocolFault::MissingOutcome)
    );
    assert_eq!(
        PgmonetaHandler::parse_and_check_result("{\"Outcome\":true}"),
        fault(ProtocolFault::OutcomeNotObject)
    );
    assert_eq!(
        PgmonetaHandler::parse_and_check_result("{\"Outcome\":{\"Time\":1}}"),
        fault(ProtocolFault::MissingStatus)
    );
    assert_eq!(
        PgmonetaHandler::parse_and_check_result("{\"Outcome\":{\"Status\":\"true\"}}"),
        fault(ProtocolFault::StatusNotBool)
    );
    assert_eq!(
        PgmonetaHandler::parse_and_check_result("{\"Outcome\":{\"Status\":1}}"),
        fault(ProtocolFault::StatusNotBool)
    );
    assert_eq!(
        PgmonetaHandler::parse_and_check_result("{\"Outcome\":{\"Status\":null}}")
            .unwrap_err()
            .kind(),
        "ProtocolError"
    );
}

#[test]
fn the_outcome_is_checked_on_a_value_built_by_hand() {
    let accepted = JsonValue::Object(vec![
        member("Header", JsonValue::Null),
        member("Outcome", JsonValue::Object(vec![member("Status", JsonValue::Bool(true))])),
    ]);
    let members = PgmonetaHandler::check_outcome(accepted).unwrap();
    assert_eq!(members.len(), 2);
    let turned_down = JsonValue::Object(vec![member(
        "Outcome",
        JsonValue::Object(vec![member("Status", JsonValue::Bool(false))]),
    )]);
    assert_eq!(PgmonetaHandler::check_outcome(turned_down), Err(SessionError::Application));
    assert_eq!(
        PgmonetaHandler::check_outcome(JsonValue::Array(vec![])),
        Err(SessionError::Protocol(ProtocolFault::NotAnObject))
    );
    let first_wins = JsonValue::Object(vec![
        member("Outcome", JsonValue::Object(vec![member("Status", JsonValue::Bool(false))])),
        member("Outcome", JsonValue::Object(vec![member("Status", JsonValue::Bool(true))])),
    ]);
    assert_eq!(PgmonetaHandler::check_outcome(first_wins), Err(SessionError::Application));
}

#[test]
fn fields_are_classified_by_name() {
    let sizes = [
        "BackupSize",
        "RestoreSize",
        "BiggestFileSize",
        "Delta",
        "TotalSpace",
        "FreeSpace",
        "UsedSpace",
        "WorkspaceFreeSpace",
        "HotStandbySize",
    ];
    let mut i = 0;
    while i < sizes.len() {
        assert_eq!(classify_field(sizes[i]), FieldKind::FileSize);
        i += 1;
    }
    let hexes =
        ["CheckpointHiLSN", "CheckpointLoLSN", "StartHiLSN", "StartLoLSN", "EndHiLSN", "EndLoLSN"];
    let mut i = 0;
    while i < hexes.len() {
        assert_eq!(classify_field(hexes[i]), FieldKind::HexString);
        i += 1;
    }
    assert_eq!(classify_field("Compression"), FieldKind::Compression);
    assert_eq!(classify_field("Encryption"), FieldKind::Encryption);
    assert_eq!(classify_field("Command"), FieldKind::Command);
    assert_eq!(classify_field("Backups"), FieldKind::ObjectArray);
    assert_eq!(classify_field("Server"), FieldKind::Plain);
    assert_eq!(classify_field("backupsize"), FieldKind::Plain);
    assert_eq!(classify_field(""), FieldKind::Plain);
}

#[test]
fn numbers_are_rewritten_by_kind() {
    assert_eq!(translate_number(FieldKind::FileSize, 1536), Ok(text("1.50 KB")));
    assert_eq!(translate_number(FieldKind::FileSize, 0), Ok(text("0 B")));
    assert_eq!(translate_number(FieldKind::HexString, 0), Ok(text("0x0")));
    assert_eq!(translate_number(FieldKind::HexString, 255), Ok(text("0xFF")));
    assert_eq!(translate_number(FieldKind::HexString, 0x1A2B3C4D), Ok(text("0x1A2B3C4D")));
    assert_eq!(
        translate_number(FieldKind::HexString, u64::MAX),
        Ok(text("0xFFFFFFFFFFFFFFFF"))
    );
    assert_eq!(translate_number(FieldKind::Compression, 2), Ok(text("zstd")));
    assert_eq!(translate_number(FieldKind::Encryption, 1), Ok(text("aes_256_cbc")));
    assert_eq!(translate_number(FieldKind::Command, 18), Ok(text("info")));
    assert_eq!(translate_number(FieldKind::Plain, 7), Ok(number(7)));
}

#[test]
fn a_code_outside_the_known_set_is_refused_by_its_field() {
    assert_eq!(
        translate_number(FieldKind::Compression, 8),
        Err(SessionError::UnrecognizedEnum(EnumField::Compression, 8))
    );
    assert_eq!(
        translate_number(FieldKind::Compression, 256),
        Err(SessionError::UnrecognizedEnum(EnumField::Compression, 256))
    );
    assert_eq!(
        translate_number(FieldKind::Encryption, 7),
        Err(SessionError::UnrecognizedEnum(EnumField::Encryption, 7))
    );
    assert_eq!(
        translate_number(FieldKind::Encryption, 1 << 40),
        Err(SessionError::UnrecognizedEnum(EnumField::Encryption, 1 << 40))
    );
    assert_eq!(
        translate_number(FieldKind::Command, 3),
        Err(SessionError::UnrecognizedEnum(EnumField::Command, 3))
    );
    assert_eq!(
        translate_number(FieldKind::Command, (1 << 32) + 18),
        Err(SessionError::UnrecognizedEnum(EnumField::Command, (1 << 32) + 18))
    );
}

#[test]
fn the_members_of_a_reply_are_rewritten_in_their_order() {
    let members = vec![
        member("Server", text("pg1")),
        member("BackupSize", number(3 * 1024 * 1024)),
        member("StartHiLSN", number(26)),
        member("Compression", number(1)),
        member("Encryption", number(0)),
        member("Command", number(2)),
        member("Valid", JsonValue::Bool(true)),
        member("Elapsed", JsonValue::Number(JsonNumber::Other("1.5".to_string()))),
        member("Comments", JsonValue::Null),
        member("Tablespaces", JsonValue::Array(vec![number(1), text("two")])),
    ];
    let shown = PgmonetaHandler::translate_result(&members).unwrap();
    assert_eq!(
        shown,
        vec![
            member("Server", text("pg1")),
            member("BackupSize", text("3.00 MB")),
            member("StartHiLSN", text("0x1A")),
            member("Compression", text("gzip")),
            member("Encryption", text("none")),
            member("Command", text("list-backup")),
            member("Valid", JsonValue::Bool(true)),
            member("Elapsed", JsonValue::Number(JsonNumber::Other("1.5".to_string()))),
            member("Comments", JsonValue::Null),
            member("Tablespaces", JsonValue::Array(vec![number(1), text("two")])),
        ]
    );
    assert_eq!(PgmonetaHandler::translate_result(&vec![]), Ok(vec![]));
}

#[test]
fn objects_are_rewritten_inside_out_and_listed_backups_are_left_out() {
    let members = vec![
        member(
            "Response",
            JsonValue::Object(vec![
                member("FreeSpace", number(1024)),
                member(
                    "Inner",
                    JsonValue::Object(vec![member("EndLoLSN", number(4096))]),
                ),
            ]),
        ),
        member(
            "Backups",
            JsonValue::Array(vec![
                JsonValue::Object(vec![member("BackupSize", number(1))]),
                number(5),
            ]),
        ),
        member("Last", text("kept")),
    ];
    let shown = PgmonetaHandler::translate_result(&members).unwrap();
    assert_eq!(
        shown,
        vec![
            member(
                "Response",
                JsonValue::Object(vec![
                    member("FreeSpace", text("1.00 KB")),
                    member("Inner", JsonValue::Object(vec![member("EndLoLSN", text("0x1000"))])),
                ]),
            ),
            member("Last", text("kept")),
        ]
    );
}

#[test]
fn the_first_member_that_cannot_be_rewritten_gives_the_error() {
    let not_a_number = vec![
        member("Compression", number(99)),
        member("BackupSize", text("big")),
    ];
    assert_eq!(
        PgmonetaHandler::translate_result(&not_a_number),
        Err(SessionError::UnrecognizedEnum(EnumField::Compression, 99))
    );
    let size_first = vec![
        member("BackupSize", text("big")),
        member("Compression", number(99)),
    ];
    assert_eq!(
        PgmonetaHandler::translate_result(&size_first),
        Err(SessionError::Protocol(ProtocolFault::NotUnsigned(FieldKind::FileSize)))
    );
    let negative = vec![member(
        "StartLoLSN",
        JsonValue::Number(JsonNumber::Other("-1".to_string())),
    )];
    assert_eq!(
        PgmonetaHandler::translate_result(&negative),
        Err(SessionError::Protocol(ProtocolFault::NotUnsigned(FieldKind::HexString)))
    );
    let no_list = vec![member("Backups", JsonValue::Object(vec![]))];
    assert_eq!(
        PgmonetaHandler::translate_result(&no_list),
        Err(SessionError::Protocol(ProtocolFault::NotArray))
    );
    let deep = vec![member(
        "Backups",
        JsonValue::Array(vec![
            JsonValue::Object(vec![member("Encryption", number(0))]),
            JsonValue::Object(vec![member(
                "Nested",
                JsonValue::Object(vec![member("Command", number(1))]),
            )]),
        ]),
    )];
    assert_eq!(
        PgmonetaHandler::translate_result(&deep),
        Err(SessionError::UnrecognizedEnum(EnumField::Command, 1))
    );
}

#[test]
fn one_member_is_rewritten_or_left_out() {
    assert_eq!(
        PgmonetaHandler::translate_value("Delta", &number(10)),
        Ok(Some(text("10 B")))
    );
    assert_eq!(
        PgmonetaHandler::translate_value("Backups", &JsonValue::Array(vec![])),
        Ok(None)
    );
    assert_eq!(
        PgmonetaHandler::translate_value("Other", &text("as it is")),
        Ok(Some(text("as it is")))
    );
}

#[test]
fn a_value_is_duplicated_in_depth() {
    let value = JsonValue::Object(vec![
        member("a", JsonValue::Array(vec![number(1), JsonValue::Null, text("x")])),
        member("b", JsonValue::Object(vec![member("c", JsonValue::Bool(false))])),
        member("d", JsonValue::Number(JsonNumber::Other("-2.5e3".to_string()))),
    ]);
    assert_eq!(value.duplicate(), value);
}

#[test]
fn a_reply_is_shown_with_sizes_names_and_hexadecimal_positions() {
    let reply = "{\"Header\":{\"Command\":18,\"Compression\":0,\"Encryption\":0,\"ClientVersion\":\"0.20.0\"},\
                 \"Outcome\":{\"Status\":true},\
                 \"Response\":{\"Server\":\"pg1\",\"Backup\":\"20260101000000\",\"BackupSize\":5368709120,\
                 \"Compression\":2,\"Encryption\":1,\"EndHiLSN\":0,\"EndLoLSN\":4026531840,\"Ratio\":0.25,\"Keep\":false}}";
    let shown = PgmonetaHandler::render_backup_info(reply).unwrap();
    assert_eq!(
        shown,
        "{\"Header\":{\"ClientVersion\":\"0.20.0\",\"Command\":\"info\",\"Compression\":\"none\",\"Encryption\":\"none\"},\
         \"Outcome\":{\"Status\":true},\
         \"Response\":{\"Backup\":\"20260101000000\",\"BackupSize\":\"5.00 GB\",\"Compression\":\"zstd\",\
         \"Encryption\":\"aes_256_cbc\",\"EndHiLSN\":\"0x0\",\"EndLoLSN\":\"0xF0000000\",\"Keep\":false,\
         \"Ratio\":0.25,\"Server\":\"pg1\"}}"
    );
}

#[test]
fn a_reply_with_an_unknown_code_is_not_shown() {
    let reply = "{\"Outcome\":{\"Status\":true},\"Response\":{\"Compression\":42}}";
    assert_eq!(
        PgmonetaHandler::render_backup_info(reply),
        Err(SessionError::UnrecognizedEnum(EnumField::Compression, 42))
    );
    assert_eq!(
        PgmonetaHandler::render_backup_info("{\"Outcome\":{\"Status\":true},\"Backups\":7}"),
        Err(SessionError::Protocol(ProtocolFault::NotArray))
    );
    assert_eq!(
        PgmonetaHandler::render_backup_info("nonsense"),
        Err(SessionError::Protocol(ProtocolFault::MalformedJson))
    );
}

#[test]
fn numbers_of_every_shape_pass_through_as_they_are() {
    let reply = "{\"Outcome\":{\"Status\":true},\"Numbers\":[0,18446744073709551615,-5,-9223372036854775808,1.5,1e3,0.1,2.5e-7]}";
    let members = PgmonetaHandler::parse_and_check_result(reply).unwrap();
    assert_eq!(
        get_member(&members, "Numbers"),
        Some(&JsonValue::Array(vec![
            number(0),
            number(u64::MAX),
            JsonValue::Number(JsonNumber::Other("-5".to_string())),
            JsonValue::Number(JsonNumber::Other("-9223372036854775808".to_string())),
            JsonValue::Number(JsonNumber::Other("1.5".to_string())),
            JsonValue::Number(JsonNumber::Other("1000.0".to_string())),
            JsonValue::Number(JsonNumber::Other("0.1".to_string())),
            JsonValue::Number(JsonNumber::Other("2.5e-7".to_string())),
        ]))
    );
    assert_eq!(
        PgmonetaHandler::render_backup_info(reply).unwrap(),
        "{\"Numbers\":[0,18446744073709551615,-5,-9223372036854775808,1.5,1000.0,0.1,2.5e-7],\"Outcome\":{\"Status\":true}}"
    );
}

#[test]
fn text_is_escaped_and_read_back() {
    let reply = "{\"Outcome\":{\"Status\":true},\"Comment\":\"a \\\"quoted\\\" line\\nand \\u00e9\"}";
    let members = PgmonetaHandler::parse_and_check_result(reply).unwrap();
    assert_eq!(get_member(&members, "Comment"), Some(&text("a \"quoted\" line\nand \u{e9}")));
    assert_eq!(
        PgmonetaHandler::render_backup_info(reply).unwrap(),
        "{\"Comment\":\"a \\\"quoted\\\" line\\nand \u{e9}\",\"Outcome\":{\"Status\":true}}"
    );
}

#[test]
fn a_number_held_as_text_that_is_no_number_cannot_be_shown() {
    let members = vec![member("Odd", JsonValue::Number(JsonNumber::Other("12abc".to_string())))];
    let shown = PgmonetaHandler::translate_result(&members).unwrap();
    assert_eq!(shown, members);
    assert_eq!(
        PgmonetaHandler::render_result(shown),
        Err(SessionError::Protocol(ProtocolFault::BadNumber))
    );
    let nested = vec![member(
        "List",
        JsonValue::Array(vec![JsonValue::Object(vec![member(
            "Odd",
            JsonValue::Number(JsonNumber::Other("".to_string())),
        )])]),
    )];
    assert_eq!(
        PgmonetaHandler::render_result(nested),
        Err(SessionError::Protocol(ProtocolFault::BadNumber))
    );
}

#[test]
fn members_are_written_as_compact_json_with_sorted_keys() {
    let members = vec![
        member("b", JsonValue::Array(vec![number(1), JsonValue::Null, JsonValue::Bool(false)])),
        member("a", JsonValue::Object(vec![member("z", text("last")), member("y", number(2))])),
        member("c", JsonValue::Number(JsonNumber::Other("-0.5".to_string()))),
    ];
    assert_eq!(
        PgmonetaHandler::render_result(members).unwrap(),
        "{\"a\":{\"y\":2,\"z\":\"last\"},\"b\":[1,null,false],\"c\":-0.5}"
    );
    assert_eq!(PgmonetaHandler::render_result(vec![]).unwrap(), "{}");
}
