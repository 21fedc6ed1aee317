use ami_client::codec::{decode, audio_frame, parse_command_error, convert_suffix_to_u64, PacketData, ParseError, SCommandOption};

fn opts() -> SCommandOption {
    SCommandOption {
        audio_format: "16k".to_string(),
        grammar_file_names: "-a-general".to_string(),
        authorization: "SECRET-REDACTED".to_string(),
    }
}

#[test]
fn start_command_text() {
    assert_eq!(
        opts().create_message(),
        "s 16k -a-general authorization=SECRET-REDACTED"
    );
}

#[test]
fn start_ack_with_error_text() {
    match decode("sERR123") {
        Ok(PacketData::StartAck(Some(e))) => assert_eq!(e, "ERR123"),
        other => panic!("unexpected: {:?}", other),
    }
}

#[test]
fn start_ack_clean() {
    match decode("s") {
        Ok(PacketData::StartAck(None)) => (),
        other => panic!("unexpected: {:?}", other),
    }
}

#[test]
fn cancel_event() {
    match decode("C") {
        Ok(PacketData::CancelEvent) => (),
        other => panic!("unexpected: {:?}", other),
    }
}

#[test]
fn start_event_timestamp() {
    match decode("S1620000000123456") {
        Ok(PacketData::StartEvent(t)) => assert_eq!(t, 1620000000123456),
        other => panic!("unexpected: {:?}", other),
    }
}

#[test]
fn end_event_timestamp() {
    match decode("E42") {
        Ok(PacketData::EndEvent(t)) => assert_eq!(t, 42),
        other => panic!("unexpected: {:?}", other),
    }
}

#[test]
fn utterance_event_empty_payload() {
    match decode("U{\"results\":[],\"text\":\"\"}") {
        Ok(PacketData::UtteranceEvent(p)) => {
            assert!(p.results.is_empty());
            assert_eq!(p.text, "");
        },
        other => panic!("unexpected: {:?}", other),
    }
}

#[test]
fn progress_ack_without_suffix_fails() {
    assert_eq!(decode("p"), Err(ParseError::MissingErrorText));
}

#[test]
fn progress_ack_with_error() {
    match decode("pserver overloaded") {
        Ok(PacketData::ProgressAck(e)) => assert_eq!(e, "server overloaded"),
        other => panic!("unexpected: {:?}", other),
    }
}

#[test]
fn end_ack_variants() {
    match decode("e") {
        Ok(PacketData::EndAck(None)) => (),
        other => panic!("unexpected: {:?}", other),
    }
    match decode("etoo late") {
        Ok(PacketData::EndAck(Some(e))) => assert_eq!(e, "too late"),
        other => panic!("unexpected: {:?}", other),
    }
}

#[test]
fn grammar_event_variants() {
    match decode("G") {
        Ok(PacketData::GrammarEvent(None)) => (),
        other => panic!("unexpected: {:?}", other),
    }
    match decode("Gloaded") {
        Ok(PacketData::GrammarEvent(Some(g))) => assert_eq!(g, "loaded"),
        other => panic!("unexpected: {:?}", other),
    }
}

#[test]
fn unknown_first_char_is_unrecognized() {
    assert_eq!(decode("x whatever"), Ok(PacketData::Unrecognized));
    assert_eq!(decode("?"), Ok(PacketData::Unrecognized));
}

#[test]
fn empty_frame_fails() {
    assert_eq!(decode(""), Err(ParseError::EmptyFrame));
}

#[test]
fn timing_event_bad_suffix_fails() {
    assert_eq!(decode("S"), Err(ParseError::BadTimestamp));
    assert_eq!(decode("Sabc"), Err(ParseError::BadTimestamp));
    assert_eq!(decode("S12x"), Err(ParseError::BadTimestamp));
    // one past u64::MAX overflows
    assert_eq!(decode("S18446744073709551616"), Err(ParseError::BadTimestamp));
    // u64::MAX itself fits
    match decode("S18446744073709551615") {
        Ok(PacketData::StartEvent(t)) => assert_eq!(t, u64::MAX),
        other => panic!("unexpected: {:?}", other),
    }
}

#[test]
fn malformed_payload_fails() {
    assert_eq!(decode("U"), Err(ParseError::BadUtterancePayload));
    assert_eq!(decode("U{"), Err(ParseError::BadUtterancePayload));
    assert_eq!(
        decode("U{\"results\":[],\"text\":\"\"}x"),
        Err(ParseError::BadUtterancePayload)
    );
    assert_eq!(decode("A"), Err(ParseError::BadResultPayload));
    assert_eq!(decode("Anot json"), Err(ParseError::BadResultPayload));
}

#[test]
fn suffix_extraction() {
    assert_eq!(parse_command_error("sERR"), Some("ERR".to_string()));
    assert_eq!(parse_command_error("s"), None);
    assert_eq!(parse_command_error(""), None);
}

#[test]
fn suffix_to_u64() {
    assert_eq!(convert_suffix_to_u64(&Some("123".to_string())), Ok(123));
    assert_eq!(
        convert_suffix_to_u64(&Some("12.5".to_string())),
        Err(ParseError::BadTimestamp)
    );
    assert_eq!(convert_suffix_to_u64(&None), Err(ParseError::BadTimestamp));
}

#[test]
fn audio_frame_marker() {
    let frame = audio_frame(&[1, 2, 3]);
    assert_eq!(frame, vec![112, 1, 2, 3]);
    let empty = audio_frame(&[]);
    assert_eq!(empty, vec![112]);
}

#[test]
fn packet_descriptions() {
    assert_eq!(decode("s").unwrap().description(), "Recieve s Command Response");
    assert_eq!(decode("C").unwrap().description(), "Recieve C Event");
    assert_eq!(decode("zzz").unwrap().description(), "Other Data");
    assert_eq!(PacketData::EndCommand.description(), "Send e Command");
    assert_eq!(PacketData::AudioChunk.description(), "Send p Command");
}

#[test]
fn parse_error_messages() {
    assert_eq!(ParseError::EmptyFrame.message(), "received an empty text frame");
    assert_eq!(ParseError::MissingErrorText.message(), "failed to get error message");
    assert_eq!(ParseError::BadTimestamp.message(), "failed to convert string to u64");
    assert_eq!(
        ParseError::BadUtterancePayload.message(),
        "failed to deserialize U Event Payload"
    );
    assert_eq!(
        ParseError::BadResultPayload.message(),
        "failed to deserialize A Event Payload"
    );
}
