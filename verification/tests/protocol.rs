use hydracore::protocol::{has_protocol_prefix, ActivityParser, ActivityType, ProtocolError};

#[test]
fn sentinel_is_recognized() {
    assert!(has_protocol_prefix("@nix {\"action\":\"msg\"}"));
    assert!(!has_protocol_prefix("building '/nix/store/abc.drv'..."));
    assert!(!has_protocol_prefix("@nix"));
    assert!(!has_protocol_prefix(""));
}

#[test]
fn activity_type_codes() {
    assert_eq!(ActivityType::parse(0), ActivityType::Unknown);
    assert_eq!(ActivityType::parse(100), ActivityType::CopyPath);
    assert_eq!(ActivityType::parse(102), ActivityType::Realise);
    assert_eq!(ActivityType::parse(105), ActivityType::Build);
    assert_eq!(ActivityType::parse(112), ActivityType::FetchTree);
    assert_eq!(ActivityType::try_parse(112), Some(ActivityType::FetchTree));
    assert_eq!(ActivityType::try_parse(1), None);
    assert_eq!(ActivityType::try_parse(113), None);
    assert_eq!(ActivityType::try_parse(99), None);
}

/// A balanced run of starts, results and stops drains the active set back
/// to exactly zero.
#[test]
fn balanced_stream_returns_to_zero() {
    let mut p = ActivityParser::new();
    assert_eq!(p.active_count(), 0);

    let lines = [
        "@nix {\"action\":\"start\",\"id\":1,\"level\":3,\"type\":105,\"text\":\"building foo\",\"fields\":[\"/nix/store/abc-foo.drv\"]}",
        "@nix {\"action\":\"start\",\"id\":2,\"level\":3,\"type\":101,\"text\":\"fetching\"}",
        "@nix {\"action\":\"result\",\"id\":1,\"type\":101,\"fields\":[100]}",
        "@nix {\"action\":\"msg\",\"level\":1,\"msg\":\"hello\"}",
    ];
    for line in lines.iter() {
        assert!(p.parse_next(line).is_ok());
    }
    assert_eq!(p.active_count(), 2);

    assert!(p.parse_next("@nix {\"action\":\"stop\",\"id\":2}").is_ok());
    assert_eq!(p.active_count(), 1);
    assert!(p.parse_next("@nix {\"action\":\"stop\",\"id\":1}").is_ok());
    assert_eq!(p.active_count(), 0);
}

/// Id reuse within one session: the stop removes the latest activity with
/// the stopped id.
#[test]
fn stop_removes_latest_with_reused_id() {
    let mut p = ActivityParser::new();
    let start = "@nix {\"action\":\"start\",\"id\":7,\"type\":105,\"text\":\"a\"}";
    assert!(p.parse_next(start).is_ok());
    assert!(p.parse_next(start).is_ok());
    assert_eq!(p.active_count(), 2);
    assert!(p.parse_next("@nix {\"action\":\"stop\",\"id\":7}").is_ok());
    assert_eq!(p.active_count(), 1);
    assert!(p.parse_next("@nix {\"action\":\"stop\",\"id\":7}").is_ok());
    assert_eq!(p.active_count(), 0);
}

#[test]
fn duplicate_stop_is_tolerated() {
    let mut p = ActivityParser::new();
    assert!(p.parse_next("@nix {\"action\":\"stop\",\"id\":9}").is_ok());
    assert_eq!(p.active_count(), 0);
}

#[test]
fn unknown_action_is_fatal() {
    let mut p = ActivityParser::new();
    let r = p.parse_next("@nix {\"action\":\"frobnicate\",\"id\":1}");
    assert_eq!(r, Err(ProtocolError::UnknownAction));
    assert_eq!(p.active_count(), 0);
}

#[test]
fn unknown_activity_type_is_fatal() {
    let mut p = ActivityParser::new();
    let r = p.parse_next("@nix {\"action\":\"start\",\"id\":1,\"type\":999,\"text\":\"x\"}");
    assert_eq!(r, Err(ProtocolError::UnknownActivityType));
}

#[test]
fn unknown_result_type_is_fatal() {
    let mut p = ActivityParser::new();
    assert!(p
        .parse_next("@nix {\"action\":\"start\",\"id\":1,\"type\":105,\"text\":\"x\"}")
        .is_ok());
    let r = p.parse_next("@nix {\"action\":\"result\",\"id\":1,\"type\":99,\"fields\":[]}");
    assert_eq!(r, Err(ProtocolError::UnknownResultType));
}

#[test]
fn unmatched_result_is_reported() {
    let mut p = ActivityParser::new();
    let r = p.parse_next("@nix {\"action\":\"result\",\"id\":5,\"type\":101,\"fields\":[]}");
    assert_eq!(r, Err(ProtocolError::UnmatchedResult));
}

#[test]
fn malformed_payload_is_fatal() {
    let mut p = ActivityParser::new();
    assert_eq!(p.parse_next("@nix not json at all"), Err(ProtocolError::MalformedLine));
    assert_eq!(p.parse_next("@nix [1,2,3]"), Err(ProtocolError::MalformedLine));
    assert_eq!(p.parse_next("@nix {\"no_action\":1}"), Err(ProtocolError::MalformedLine));
}

#[test]
fn missing_fields_are_fatal() {
    let mut p = ActivityParser::new();
    assert_eq!(
        p.parse_next("@nix {\"action\":\"start\",\"id\":1}"),
        Err(ProtocolError::MissingField)
    );
    assert_eq!(p.parse_next("@nix {\"action\":\"stop\"}"), Err(ProtocolError::MissingField));
    assert_eq!(p.parse_next("@nix {\"action\":\"msg\"}"), Err(ProtocolError::MissingField));
}
