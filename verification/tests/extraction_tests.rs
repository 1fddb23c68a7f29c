use rust_calendar_parser::{
    assemble_blocks, parse_event, parse_event_blocks, EventParser, ParseError, Rule,
};

const VALID_BLOCK: &str = "BEGIN:VEVENT\nDTSTART:20241028T091500Z\nDTEND:20241028T094000Z\nDTSTAMP:20241107T061409Z\nUID:abc@x.com\nCREATED:20241028T091121Z\nLAST-MODIFIED:20241028T091121Z\nSEQUENCE:0\nSTATUS:CONFIRMED\nSUMMARY:English\nTRANSP:OPAQUE\nEND:VEVENT";

#[test]
fn test_extracts_all_ten_fields_verbatim() {
    let mapping = parse_event(VALID_BLOCK).expect("valid block");
    assert_eq!(mapping.entries.len(), 10);
    let expected = [
        ("DTSTART", "20241028T091500Z"),
        ("DTEND", "20241028T094000Z"),
        ("DTSTAMP", "20241107T061409Z"),
        ("UID", "abc@x.com"),
        ("CREATED", "20241028T091121Z"),
        ("LAST_MODIFIED", "20241028T091121Z"),
        ("SEQUENCE", "0"),
        ("STATUS", "CONFIRMED"),
        ("SUMMARY", "English"),
        ("TRANSP", "OPAQUE"),
    ];
    for (key, value) in expected {
        assert_eq!(mapping.get(key).expect(key).as_str(), value);
    }
}

#[test]
fn test_entries_in_grammar_order() {
    let mapping = parse_event(VALID_BLOCK).expect("valid block");
    let keys: Vec<&str> = mapping.entries.iter().map(|e| e.0.as_str()).collect();
    assert_eq!(
        keys,
        vec![
            "DTSTART",
            "DTEND",
            "DTSTAMP",
            "UID",
            "CREATED",
            "LAST_MODIFIED",
            "SEQUENCE",
            "STATUS",
            "SUMMARY",
            "TRANSP"
        ]
    );
}

#[test]
fn test_permuted_fields_fail() {
    let permuted = "BEGIN:VEVENT\nDTEND:20241028T094000Z\nDTSTART:20241028T091500Z\nDTSTAMP:20241107T061409Z\nUID:abc@x.com\nCREATED:20241028T091121Z\nLAST-MODIFIED:20241028T091121Z\nSEQUENCE:0\nSTATUS:CONFIRMED\nSUMMARY:English\nTRANSP:OPAQUE\nEND:VEVENT";
    let result = parse_event(permuted);
    assert!(matches!(result, Err(ParseError::ParsingError(_))));
}

#[test]
fn test_missing_field_fails() {
    let missing = "BEGIN:VEVENT\nDTSTART:20241028T091500Z\nDTEND:20241028T094000Z\nDTSTAMP:20241107T061409Z\nUID:abc@x.com\nCREATED:20241028T091121Z\nLAST-MODIFIED:20241028T091121Z\nSEQUENCE:0\nSTATUS:CONFIRMED\nTRANSP:OPAQUE\nEND:VEVENT";
    let result = parse_event(missing);
    assert!(matches!(result, Err(ParseError::ParsingError(_))));
}

#[test]
fn test_trailing_text_fails() {
    let mut block = String::from(VALID_BLOCK);
    block.push_str("\nextra");
    let result = parse_event(&block);
    assert!(matches!(result, Err(ParseError::ParsingError(_))));
}

#[test]
fn test_empty_input_fails() {
    let result = parse_event("");
    assert!(matches!(result, Err(ParseError::ParsingError(_))));
}

#[test]
fn test_datetime_rejects_malformed() {
    let bad = [
        "2024102T091500Z",
        "20241028T09150Z",
        "20241028091500Z",
        "20241028T091500",
        "20241028T091500Zx",
        "x20241028T091500Z",
        "",
    ];
    for input in bad {
        assert!(EventParser::parse(Rule::datetime, input).is_err(), "{}", input);
    }
}

#[test]
fn test_status_value_rejects_other_tokens() {
    let bad = ["DONE", "confirmed", "CONFIRMED2", "CANCEL", ""];
    for input in bad {
        assert!(EventParser::parse(Rule::status_value, input).is_err(), "{}", input);
    }
}

#[test]
fn test_transp_value_accepts_transparent() {
    let parsed = EventParser::parse(Rule::transp_value, "TRANSPARENT")
        .expect("TRANSPARENT is a transparency token");
    assert_eq!(parsed.as_str(), "TRANSPARENT");
}

#[test]
fn test_string_in_quotes() {
    let parsed = EventParser::parse(Rule::string_in_quotes, "\"Linear Algebra\"")
        .expect("quoted string");
    assert_eq!(parsed.as_str(), "\"Linear Algebra\"");
    assert!(EventParser::parse(Rule::string_in_quotes, "\"unclosed").is_err());
    assert!(EventParser::parse(Rule::string_in_quotes, "\"\"").is_err());
}

#[test]
fn test_email_address_rejects_double_at() {
    assert!(EventParser::parse(Rule::email_address, "a@b@c").is_err());
    assert!(EventParser::parse(Rule::email_address, "@domain.com").is_err());
    assert!(EventParser::parse(Rule::email_address, "user@").is_err());
}

#[test]
fn test_sequence_multi_digit() {
    let parsed = EventParser::parse(Rule::sequence, "SEQUENCE:123").expect("digits");
    assert_eq!(parsed.as_str(), "SEQUENCE:123");
    assert!(EventParser::parse(Rule::sequence, "SEQUENCE:").is_err());
    assert!(EventParser::parse(Rule::sequence, "SEQUENCE:12a").is_err());
}

#[test]
fn test_event_children_carry_value_tokens() {
    let pair = EventParser::parse(Rule::event, VALID_BLOCK).expect("valid block");
    assert_eq!(pair.children.len(), 12);
    assert_eq!(pair.children[1].value.as_str(), "20241028T091500Z");
    assert_eq!(pair.children[6].value.as_str(), "20241028T091121Z");
    assert_eq!(pair.children[9].value.as_str(), "English");
    assert_eq!(pair.children[10].value.as_str(), "OPAQUE");
}

#[test]
fn test_batch_keeps_valid_blocks_in_order() {
    let second = "BEGIN:VEVENT\nDTSTART:20250101T100000Z\nDTEND:20250101T110000Z\nDTSTAMP:20250101T090000Z\nUID:second@x.com\nCREATED:20250101T080000Z\nLAST-MODIFIED:20250101T080000Z\nSEQUENCE:2\nSTATUS:TENTATIVE\nSUMMARY:Pilates\nTRANSP:TRANSPARENT\nEND:VEVENT";
    let malformed = "BEGIN:VEVENT\nDTEND:20241028T094000Z\nDTSTART:20241028T091500Z\nEND:VEVENT";
    let blocks = vec![
        String::from(VALID_BLOCK),
        String::from(malformed),
        String::from(second),
    ];
    let (events, diagnostics) = parse_event_blocks(&blocks);
    assert_eq!(events.len(), 2);
    assert_eq!(diagnostics.len(), 1);
    assert_eq!(events[0].get("SUMMARY").unwrap().as_str(), "English");
    assert_eq!(events[1].get("SUMMARY").unwrap().as_str(), "Pilates");
}

#[test]
fn test_batch_of_no_blocks_is_empty() {
    let blocks: Vec<String> = Vec::new();
    let (events, diagnostics) = parse_event_blocks(&blocks);
    assert!(events.is_empty());
    assert!(diagnostics.is_empty());
}

#[test]
fn test_assemble_blocks_from_lines() {
    let mut lines: Vec<String> = Vec::new();
    lines.push(String::from("calendar header, ignored"));
    for line in VALID_BLOCK.split('\n') {
        lines.push(String::from(line));
    }
    lines.push(String::from("trailing noise, ignored"));
    let blocks = assemble_blocks(&lines);
    assert_eq!(blocks.len(), 1);
    assert_eq!(blocks[0].as_str(), VALID_BLOCK);
}

#[test]
fn test_assemble_blocks_trims_marker_lines() {
    let lines = vec![
        String::from("  BEGIN:VEVENT  "),
        String::from("SUMMARY:Lecture"),
        String::from("END:VEVENT\t"),
    ];
    let blocks = assemble_blocks(&lines);
    assert_eq!(blocks.len(), 1);
    assert_eq!(
        blocks[0].as_str(),
        "  BEGIN:VEVENT  \nSUMMARY:Lecture\nEND:VEVENT\t"
    );
}

#[test]
fn test_assemble_blocks_none() {
    let lines = vec![String::from("no events here"), String::from("")];
    let blocks = assemble_blocks(&lines);
    assert!(blocks.is_empty());
}

#[test]
fn test_file_to_events_end_to_end() {
    let second = "BEGIN:VEVENT\nDTSTART:20250101T100000Z\nDTEND:20250101T110000Z\nDTSTAMP:20250101T090000Z\nUID:second@x.com\nCREATED:20250101T080000Z\nLAST-MODIFIED:20250101T080000Z\nSEQUENCE:2\nSTATUS:TENTATIVE\nSUMMARY:Pilates\nTRANSP:TRANSPARENT\nEND:VEVENT";
    let malformed = "BEGIN:VEVENT\nSUMMARY:out of place\nEND:VEVENT";
    let text = format!("{}\n{}\n{}\n", VALID_BLOCK, malformed, second);
    let lines: Vec<String> = text.lines().map(String::from).collect();
    let blocks = assemble_blocks(&lines);
    assert_eq!(blocks.len(), 3);
    let (events, diagnostics) = parse_event_blocks(&blocks);
    assert_eq!(events.len(), 2);
    assert_eq!(diagnostics.len(), 1);
    assert_eq!(events[0].get("UID").unwrap().as_str(), "abc@x.com");
    assert_eq!(events[1].get("UID").unwrap().as_str(), "second@x.com");
}

#[test]
fn test_round_trip_through_json() {
    let mapping = parse_event(VALID_BLOCK).expect("valid block");
    let mut object = serde_json::Map::new();
    for (key, value) in &mapping.entries {
        object.insert(key.clone(), serde_json::Value::String(value.clone()));
    }
    let text = serde_json::to_string_pretty(&serde_json::Value::Object(object))
        .expect("serialization");
    let back: serde_json::Value = serde_json::from_str(&text).expect("deserialization");
    for (key, value) in &mapping.entries {
        assert_eq!(
            back.get(key).and_then(|v| v.as_str()),
            Some(value.as_str()),
            "{}",
            key
        );
    }
}

#[test]
fn test_error_message_names_rule() {
    let err = parse_event("not an event").expect_err("must fail");
    match err {
        ParseError::ParsingError(message) => assert!(message.contains("event")),
        other => panic!("unexpected error: {:?}", other),
    }
}
