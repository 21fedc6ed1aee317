use ami_client::codec::{decode, PacketData, ParseError};

#[test]
fn utterance_payload_with_tokens() {
    let frame = "U{\"results\":[{\"tokens\":[{\"written\":\"hello\"},{\"written\":\"world\"}],\"text\":\"hello world\"}],\"text\":\"hello world\"}";
    match decode(frame) {
        Ok(PacketData::UtteranceEvent(p)) => {
            assert_eq!(p.text, "hello world");
            assert_eq!(p.results.len(), 1);
            assert_eq!(p.results[0].text, "hello world");
            assert_eq!(p.results[0].tokens.len(), 2);
            assert_eq!(p.results[0].tokens[0].written, "hello");
            assert_eq!(p.results[0].tokens[1].written, "world");
        },
        other => panic!("unexpected: {:?}", other),
    }
}

#[test]
fn result_payload_full() {
    let frame = "A{\"results\":[{\"tokens\":[{\"written\":\"hi\",\"confidence\":0.98,\"starttime\":120,\"endtime\":480,\"spoken\":\"hi\"}],\"confidence\":0.97,\"starttime\":120,\"endtime\":480,\"text\":\"hi\"}],\"utteranceid\":\"u-1\",\"text\":\"hi\",\"code\":\"\",\"message\":\"\"}";
    match decode(frame) {
        Ok(PacketData::ResultEvent(p)) => {
            assert_eq!(p.utteranceid, "u-1");
            assert_eq!(p.text, "hi");
            assert_eq!(p.code, "");
            assert_eq!(p.message, "");
            assert_eq!(p.results.len(), 1);
            let r = &p.results[0];
            assert_eq!(r.confidence, "0.97");
            assert_eq!(r.starttime, 120);
            assert_eq!(r.endtime, 480);
            assert_eq!(r.text, "hi");
            assert_eq!(r.tokens.len(), 1);
            let t = &r.tokens[0];
            assert_eq!(t.written, "hi");
            assert_eq!(t.confidence, "0.98");
            assert_eq!(t.starttime, 120);
            assert_eq!(t.endtime, 480);
            assert_eq!(t.spoken, "hi");
        },
        other => panic!("unexpected: {:?}", other),
    }
}

#[test]
fn result_payload_empty_results() {
    let frame = "A{\"results\":[],\"utteranceid\":\"u-2\",\"text\":\"t\",\"code\":\"o\",\"message\":\"m\"}";
    match decode(frame) {
        Ok(PacketData::ResultEvent(p)) => {
            assert!(p.results.is_empty());
            assert_eq!(p.code, "o");
            assert_eq!(p.message, "m");
        },
        other => panic!("unexpected: {:?}", other),
    }
}

#[test]
fn string_escapes_decode() {
    let frame = "U{\"results\":[],\"text\":\"a\\\"b\\\\c\\nd\\te\"}";
    match decode(frame) {
        Ok(PacketData::UtteranceEvent(p)) => {
            assert_eq!(p.text, "a\"b\\c\nd\te");
        },
        other => panic!("unexpected: {:?}", other),
    }
}

#[test]
fn whitespace_between_tokens_is_accepted() {
    let frame = "U{ \"results\" : [ { \"tokens\" : [ { \"written\" : \"hi\" } , { \"written\" : \"yo\" } ] , \"text\" : \"hi yo\" } ] ,\n\t\"text\" : \"hi yo\" }  ";
    match decode(frame) {
        Ok(PacketData::UtteranceEvent(p)) => {
            assert_eq!(p.text, "hi yo");
            assert_eq!(p.results[0].tokens.len(), 2);
            assert_eq!(p.results[0].tokens[1].written, "yo");
        },
        other => panic!("unexpected: {:?}", other),
    }
    let a = "A{ \"results\" : [] , \"utteranceid\" : \"u\" , \"text\" : \"t\" , \"code\" : \"\" , \"message\" : \"\" }";
    match decode(a) {
        Ok(PacketData::ResultEvent(p)) => assert_eq!(p.text, "t"),
        other => panic!("unexpected: {:?}", other),
    }
    let num = "A{\"results\":[{\"tokens\":[],\"confidence\": 0.5,\"starttime\": 1,\"endtime\": 2,\"text\":\"x\"}],\"utteranceid\":\"\",\"text\":\"\",\"code\":\"\",\"message\":\"\"}";
    match decode(num) {
        Ok(PacketData::ResultEvent(p)) => {
            assert_eq!(p.results[0].confidence, "0.5");
            assert_eq!(p.results[0].starttime, 1);
        },
        other => panic!("unexpected: {:?}", other),
    }
}

#[test]
fn unicode_escapes_decode() {
    // a basic-plane escape, hex case free
    let frame = "U{\"results\":[],\"text\":\"a\\u00e9b\\u00C9\"}";
    match decode(frame) {
        Ok(PacketData::UtteranceEvent(p)) => assert_eq!(p.text, "a\u{e9}b\u{c9}"),
        other => panic!("unexpected: {:?}", other),
    }
    // an astral character written as a surrogate pair
    let pair = "U{\"results\":[],\"text\":\"\\uD83D\\uDE00\"}";
    match decode(pair) {
        Ok(PacketData::UtteranceEvent(p)) => assert_eq!(p.text, "\u{1F600}"),
        other => panic!("unexpected: {:?}", other),
    }
}

#[test]
fn lone_surrogate_fails() {
    let lone_high = "U{\"results\":[],\"text\":\"\\uD83Dx\"}";
    assert_eq!(decode(lone_high), Err(ParseError::BadUtterancePayload));
    let lone_low = "U{\"results\":[],\"text\":\"\\uDE00\"}";
    assert_eq!(decode(lone_low), Err(ParseError::BadUtterancePayload));
}

#[test]
fn unescaped_control_character_fails() {
    let frame = "U{\"results\":[],\"text\":\"a\tb\"}";
    assert_eq!(decode(frame), Err(ParseError::BadUtterancePayload));
    let nul = "U{\"results\":[],\"text\":\"a\u{0}b\"}";
    assert_eq!(decode(nul), Err(ParseError::BadUtterancePayload));
}

#[test]
fn reordered_members_accepted() {
    // object members may come in any order
    let frame = "U{\"text\":\"tail first\",\"results\":[]}";
    match decode(frame) {
        Ok(PacketData::UtteranceEvent(p)) => {
            assert_eq!(p.text, "tail first");
            assert!(p.results.is_empty());
        },
        other => panic!("unexpected: {:?}", other),
    }
    let a = "A{\"message\":\"\",\"code\":\"\",\"text\":\"t\",\"results\":[],\"utteranceid\":\"u\"}";
    match decode(a) {
        Ok(PacketData::ResultEvent(p)) => {
            assert_eq!(p.text, "t");
            assert_eq!(p.utteranceid, "u");
        },
        other => panic!("unexpected: {:?}", other),
    }
}

#[test]
fn unknown_members_are_skipped() {
    let frame = "U{\"results\":[],\"vendor\":{\"nested\":[1,true,null,\"x\"],\"flag\":false},\"text\":\"kept\",\"extra\":-2.5e3}";
    match decode(frame) {
        Ok(PacketData::UtteranceEvent(p)) => assert_eq!(p.text, "kept"),
        other => panic!("unexpected: {:?}", other),
    }
}

#[test]
fn duplicate_member_fails() {
    let frame = "U{\"results\":[],\"text\":\"a\",\"text\":\"b\"}";
    assert_eq!(decode(frame), Err(ParseError::BadUtterancePayload));
}

#[test]
fn missing_member_still_fails() {
    let frame = "U{\"results\":[]}";
    assert_eq!(decode(frame), Err(ParseError::BadUtterancePayload));
}

#[test]
fn leading_zero_numbers_fail() {
    // leading zeros are not part of the wire number grammar
    let st = "A{\"results\":[{\"tokens\":[],\"confidence\":1,\"starttime\":01,\"endtime\":0,\"text\":\"\"}],\"utteranceid\":\"\",\"text\":\"\",\"code\":\"\",\"message\":\"\"}";
    assert_eq!(decode(st), Err(ParseError::BadResultPayload));
    let cf = "A{\"results\":[{\"tokens\":[],\"confidence\":01,\"starttime\":0,\"endtime\":0,\"text\":\"\"}],\"utteranceid\":\"\",\"text\":\"\",\"code\":\"\",\"message\":\"\"}";
    assert_eq!(decode(cf), Err(ParseError::BadResultPayload));
    // a lone zero is fine
    let ok = "A{\"results\":[{\"tokens\":[],\"confidence\":0,\"starttime\":0,\"endtime\":0,\"text\":\"\"}],\"utteranceid\":\"\",\"text\":\"\",\"code\":\"\",\"message\":\"\"}";
    assert!(decode(ok).is_ok());
}

#[test]
fn exponent_confidence_accepted() {
    let frame = "A{\"results\":[{\"tokens\":[],\"confidence\":5e-1,\"starttime\":0,\"endtime\":0,\"text\":\"\"}],\"utteranceid\":\"\",\"text\":\"\",\"code\":\"\",\"message\":\"\"}";
    match decode(frame) {
        Ok(PacketData::ResultEvent(p)) => assert_eq!(p.results[0].confidence, "5e-1"),
        other => panic!("unexpected: {:?}", other),
    }
    let upper = "A{\"results\":[{\"tokens\":[],\"confidence\":1.25E+2,\"starttime\":0,\"endtime\":0,\"text\":\"\"}],\"utteranceid\":\"\",\"text\":\"\",\"code\":\"\",\"message\":\"\"}";
    match decode(upper) {
        Ok(PacketData::ResultEvent(p)) => assert_eq!(p.results[0].confidence, "1.25E+2"),
        other => panic!("unexpected: {:?}", other),
    }
}

#[test]
fn unknown_escape_fails() {
    let frame = "U{\"results\":[],\"text\":\"a\\qb\"}";
    assert_eq!(decode(frame), Err(ParseError::BadUtterancePayload));
}

#[test]
fn unterminated_string_fails() {
    let frame = "U{\"results\":[],\"text\":\"abc";
    assert_eq!(decode(frame), Err(ParseError::BadUtterancePayload));
}

#[test]
fn negative_confidence_and_integer_confidence() {
    let frame = "A{\"results\":[{\"tokens\":[],\"confidence\":-1,\"starttime\":0,\"endtime\":0,\"text\":\"\"}],\"utteranceid\":\"\",\"text\":\"\",\"code\":\"\",\"message\":\"\"}";
    match decode(frame) {
        Ok(PacketData::ResultEvent(p)) => {
            assert_eq!(p.results[0].confidence, "-1");
        },
        other => panic!("unexpected: {:?}", other),
    }
}

#[test]
fn missing_field_fails() {
    let frame = "A{\"results\":[],\"text\":\"t\",\"code\":\"\",\"message\":\"\"}";
    assert_eq!(decode(frame), Err(ParseError::BadResultPayload));
}

#[test]
fn negative_starttime_fails() {
    let frame = "A{\"results\":[{\"tokens\":[],\"confidence\":1,\"starttime\":-5,\"endtime\":0,\"text\":\"\"}],\"utteranceid\":\"\",\"text\":\"\",\"code\":\"\",\"message\":\"\"}";
    assert_eq!(decode(frame), Err(ParseError::BadResultPayload));
}

#[test]
fn fractional_number_token_requires_digits() {
    let frame = "A{\"results\":[{\"tokens\":[],\"confidence\":1.,\"starttime\":0,\"endtime\":0,\"text\":\"\"}],\"utteranceid\":\"\",\"text\":\"\",\"code\":\"\",\"message\":\"\"}";
    assert_eq!(decode(frame), Err(ParseError::BadResultPayload));
}
