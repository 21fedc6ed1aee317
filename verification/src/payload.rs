//! Structured recognition-event payloads and their parsers.
//!
//! An utterance event (`U`) carries intermediate results; a result
//! event (`A`) carries recognised text with an error code.  Both come
//! as object text whose exact accepted shape is written down by the
//! `sp_*` functions: each object carries its known fields once each,
//! in any order, unknown members are skipped, whitespace may stand
//! between tokens, and strings use the standard escapes.  Confidences
//! are kept as their raw number tokens so the payloads hold plain
//! values only.

use vstd::prelude::*;
use crate::json::{
    parse_char_tok, parse_number, parse_string, parse_u64_tok, skip_value, sp_char_tok, sp_number,
    sp_skip_value, sp_string, sp_u64_tok, str_eq,
};

verus! {

#[derive(Clone, Debug, PartialEq)]
pub struct UEventToken {
    pub written: String,
}

#[derive(Clone, Debug, PartialEq)]
pub struct UEventResult {
    pub tokens: Vec<UEventToken>,
    pub text: String,
}

#[derive(Clone, Debug, PartialEq)]
pub struct UEventPayload {
    pub results: Vec<UEventResult>,
    pub text: String,
}

#[derive(Clone, Debug, PartialEq)]
pub struct AEventToken {
    pub written: String,
    pub confidence: String,
    pub starttime: u64,
    pub endtime: u64,
    pub spoken: String,
}

#[derive(Clone, Debug, PartialEq)]
pub struct AEventResult {
    pub tokens: Vec<AEventToken>,
    pub confidence: String,
    pub starttime: u64,
    pub endtime: u64,
    pub text: String,
}

#[derive(Clone, Debug, PartialEq)]
pub struct AEventPayload {
    pub results: Vec<AEventResult>,
    pub utteranceid: String,
    pub text: String,
    pub code: String,
    pub message: String,
}

pub ghost struct UEventTokenV {
    pub written: Seq<char>,
}

pub ghost struct UEventResultV {
    pub tokens: Seq<UEventTokenV>,
    pub text: Seq<char>,
}

pub ghost struct UEventPayloadV {
    pub results: Seq<UEventResultV>,
    pub text: Seq<char>,
}

pub ghost struct AEventTokenV {
    pub written: Seq<char>,
    pub confidence: Seq<char>,
    pub starttime: u64,
    pub endtime: u64,
    pub spoken: Seq<char>,
}

pub ghost struct AEventResultV {
    pub tokens: Seq<AEventTokenV>,
    pub confidence: Seq<char>,
    pub starttime: u64,
    pub endtime: u64,
    pub text: Seq<char>,
}

pub ghost struct AEventPayloadV {
    pub results: Seq<AEventResultV>,
    pub utteranceid: Seq<char>,
    pub text: Seq<char>,
    pub code: Seq<char>,
    pub message: Seq<char>,
}

impl View for UEventToken {
    type V = UEventTokenV;

    open spec fn view(&self) -> UEventTokenV {
        UEventTokenV { written: self.written@ }
    }
}

impl View for UEventResult {
    type V = UEventResultV;

    open spec fn view(&self) -> UEventResultV {
        UEventResultV {
            tokens: self.tokens@.map_values(|t: UEventToken| t@),
            text: self.text@,
        }
    }
}

impl View for UEventPayload {
    type V = UEventPayloadV;

    open spec fn view(&self) -> UEventPayloadV {
        UEventPayloadV {
            results: self.results@.map_values(|t: UEventResult| t@),
            text: self.text@,
        }
    }
}

impl View for AEventToken {
    type V = AEventTokenV;

    open spec fn view(&self) -> AEventTokenV {
        AEventTokenV {
            written: self.written@,
            confidence: self.confidence@,
            starttime: self.starttime,
            endtime: self.endtime,
            spoken: self.spoken@,
        }
    }
}

impl View for AEventResult {
    type V = AEventResultV;

    open spec fn view(&self) -> AEventResultV {
        AEventResultV {
            tokens: self.tokens@.map_values(|t: AEventToken| t@),
            confidence: self.confidence@,
            starttime: self.starttime,
            endtime: self.endtime,
            text: self.text@,
        }
    }
}

impl View for AEventPayload {
    type V = AEventPayloadV;

    open spec fn view(&self) -> AEventPayloadV {
        AEventPayloadV {
            results: self.results@.map_values(|t: AEventResult| t@),
            utteranceid: self.utteranceid@,
            text: self.text@,
            code: self.code@,
            message: self.message@,
        }
    }
}

// ---------------------------------------------------------------
// Grammar of the utterance-event payload
// ---------------------------------------------------------------

/// The fields of one `UEventToken` object gathered so far.
pub ghost struct UTokenFieldsV {
    pub written: Option<Seq<char>>,
}

pub struct UTokenFields {
    pub written: Option<String>,
}

impl View for UTokenFields {
    type V = UTokenFieldsV;

    open spec fn view(&self) -> UTokenFieldsV {
        UTokenFieldsV {
            written: match self.written {
                Some(v) => Some(v@),
                None => None,
            },
        }
    }
}

/// One member's effect: a known key fills its slot exactly once,
/// any other key's value is skipped.
pub open spec fn sp_u_token_member_value(
    s: Seq<char>,
    i: int,
    acc: UTokenFieldsV,
    key: Seq<char>,
) -> Option<(UTokenFieldsV, int)>
    recommends
        0 <= i <= s.len(),
{
    if key == "written"@ {
        if acc.written is Some {
            None
        } else {
            match sp_string(s, i) {
                Some(v) => Some((UTokenFieldsV { written: Some(v.0), ..acc }, v.1)),
                None => None,
            }
        }
    } else {
        match sp_skip_value(s, i) {
            Some(e) => Some((acc, e)),
            None => None,
        }
    }
}

/// The members of one object, in any order: key, colon, value, then
/// a comma and more members or the position before the closing brace.
pub open spec fn sp_u_token_members(s: Seq<char>, i: int, acc: UTokenFieldsV) -> Option<(UTokenFieldsV, int)>
    decreases s.len() - i when 0 <= i <= s.len()
{
    match sp_string(s, i) {
        Some(key) => if i < key.1 <= s.len() {
            match sp_char_tok(s, key.1, ':') {
                Some(c) => if key.1 < c <= s.len() {
                    match sp_u_token_member_value(s, c, acc, key.0) {
                        Some(st) => if c <= st.1 <= s.len() {
                            match sp_char_tok(s, st.1, ',') {
                                Some(j) => if st.1 < j <= s.len() {
                                    sp_u_token_members(s, j, st.0)
                                } else {
                                    None
                                },
                                None => Some((st.0, st.1)),
                            }
                        } else {
                            None
                        },
                        None => None,
                    }
                } else {
                    None
                },
                None => None,
            }
        } else {
            None
        },
        None => None,
    }
}

pub open spec fn sp_u_token(s: Seq<char>, i: int) -> Option<(UEventTokenV, int)>
    recommends
        0 <= i <= s.len(),
{
    match sp_char_tok(s, i, '{') {
        Some(j) => match sp_u_token_members(s, j, UTokenFieldsV { written: None }) {
            Some(fin) => match sp_char_tok(s, fin.1, '}') {
                Some(m) => match (fin.0.written) {
                    (Some(v0)) => Some((UEventTokenV { written: v0 }, m)),
                    _ => None,
                },
                None => None,
            },
            None => None,
        },
        None => None,
    }
}

pub open spec fn sp_u_tokens(s: Seq<char>, i: int) -> Option<(Seq<UEventTokenV>, int)>
    decreases s.len() - i when 0 <= i <= s.len()
{
    match sp_u_token(s, i) {
        Some(t) => {
            if i < t.1 <= s.len() {
                match sp_char_tok(s, t.1, ',') {
                    Some(j) => {
                        if t.1 < j <= s.len() {
                            match sp_u_tokens(s, j) {
                                Some(rest) => Some((seq![t.0] + rest.0, rest.1)),
                                None => None,
                            }
                        } else {
                            None
                        }
                    },
                    None => Some((seq![t.0], t.1)),
                }
            } else {
                None
            }
        },
        None => None,
    }
}

pub open spec fn sp_u_token_array(s: Seq<char>, i: int) -> Option<(Seq<UEventTokenV>, int)>
    recommends
        0 <= i <= s.len(),
{
    match sp_char_tok(s, i, '[') {
        Some(j) => match sp_char_tok(s, j, ']') {
            Some(e) => Some((Seq::empty(), e)),
            None => match sp_u_tokens(s, j) {
                Some(ts) => match sp_char_tok(s, ts.1, ']') {
                    Some(e) => Some((ts.0, e)),
                    None => None,
                },
                None => None,
            },
        },
        None => None,
    }
}

/// The fields of one `UEventResult` object gathered so far.
pub ghost struct UResultFieldsV {
    pub tokens: Option<Seq<UEventTokenV>>,
    pub text: Option<Seq<char>>,
}

pub struct UResultFields {
    pub tokens: Option<Vec<UEventToken>>,
    pub text: Option<String>,
}

impl View for UResultFields {
    type V = UResultFieldsV;

    open spec fn view(&self) -> UResultFieldsV {
        UResultFieldsV {
            tokens: match self.tokens {
                Some(v) => Some(v@.map_values(|t: UEventToken| t@)),
                None => None,
            },
            text: match self.text {
                Some(v) => Some(v@),
                None => None,
            },
        }
    }
}

/// One member's effect: a known key fills its slot exactly once,
/// any other key's value is skipped.
pub open spec fn sp_u_result_member_value(
    s: Seq<char>,
    i: int,
    acc: UResultFieldsV,
    key: Seq<char>,
) -> Option<(UResultFieldsV, int)>
    recommends
        0 <= i <= s.len(),
{
    if key == "tokens"@ {
        if acc.tokens is Some {
            None
        } else {
            match sp_u_token_array(s, i) {
                Some(v) => Some((UResultFieldsV { tokens: Some(v.0), ..acc }, v.1)),
                None => None,
            }
        }
    } else if key == "text"@ {
        if acc.text is Some {
            None
        } else {
            match sp_string(s, i) {
                Some(v) => Some((UResultFieldsV { text: Some(v.0), ..acc }, v.1)),
                None => None,
            }
        }
    } else {
        match sp_skip_value(s, i) {
            Some(e) => Some((acc, e)),
            None => None,
        }
    }
}

/// The members of one object, in any order: key, colon, value, then
/// a comma and more members or the position before the closing brace.
pub open spec fn sp_u_result_members(s: Seq<char>, i: int, acc: UResultFieldsV) -> Option<(UResultFieldsV, int)>
    decreases s.len() - i when 0 <= i <= s.len()
{
    match sp_string(s, i) {
        Some(key) => if i < key.1 <= s.len() {
            match sp_char_tok(s, key.1, ':') {
                Some(c) => if key.1 < c <= s.len() {
                    match sp_u_result_member_value(s, c, acc, key.0) {
                        Some(st) => if c <= st.1 <= s.len() {
                            match sp_char_tok(s, st.1, ',') {
                                Some(j) => if st.1 < j <= s.len() {
                                    sp_u_result_members(s, j, st.0)
                                } else {
                                    None
                                },
                                None => Some((st.0, st.1)),
                            }
                        } else {
                            None
                        },
                        None => None,
                    }
                } else {
                    None
                },
                None => None,
            }
        } else {
            None
        },
        None => None,
    }
}

pub open spec fn sp_u_result(s: Seq<char>, i: int) -> Option<(UEventResultV, int)>
    recommends
        0 <= i <= s.len(),
{
    match sp_char_tok(s, i, '{') {
        Some(j) => match sp_u_result_members(s, j, UResultFieldsV { tokens: None, text: None }) {
            Some(fin) => match sp_char_tok(s, fin.1, '}') {
                Some(m) => match (fin.0.tokens, fin.0.text) {
                    (Some(v0), Some(v1)) => Some((UEventResultV { tokens: v0, text: v1 }, m)),
                    _ => None,
                },
                None => None,
            },
            None => None,
        },
        None => None,
    }
}

pub open spec fn sp_u_results(s: Seq<char>, i: int) -> Option<(Seq<UEventResultV>, int)>
    decreases s.len() - i when 0 <= i <= s.len()
{
    match sp_u_result(s, i) {
        Some(t) => {
            if i < t.1 <= s.len() {
                match sp_char_tok(s, t.1, ',') {
                    Some(j) => {
                        if t.1 < j <= s.len() {
                            match sp_u_results(s, j) {
                                Some(rest) => Some((seq![t.0] + rest.0, rest.1)),
                                None => None,
                            }
                        } else {
                            None
                        }
                    },
                    None => Some((seq![t.0], t.1)),
                }
            } else {
                None
            }
        },
        None => None,
    }
}

pub open spec fn sp_u_result_array(s: Seq<char>, i: int) -> Option<(Seq<UEventResultV>, int)>
    recommends
        0 <= i <= s.len(),
{
    match sp_char_tok(s, i, '[') {
        Some(j) => match sp_char_tok(s, j, ']') {
            Some(e) => Some((Seq::empty(), e)),
            None => match sp_u_results(s, j) {
                Some(ts) => match sp_char_tok(s, ts.1, ']') {
                    Some(e) => Some((ts.0, e)),
                    None => None,
                },
                None => None,
            },
        },
        None => None,
    }
}

/// The fields of one `UEventPayload` object gathered so far.
pub ghost struct UPayloadFieldsV {
    pub results: Option<Seq<UEventResultV>>,
    pub text: Option<Seq<char>>,
}

pub struct UPayloadFields {
    pub results: Option<Vec<UEventResult>>,
    pub text: Option<String>,
}

impl View for UPayloadFields {
    type V = UPayloadFieldsV;

    open spec fn view(&self) -> UPayloadFieldsV {
        UPayloadFieldsV {
            results: match self.results {
                Some(v) => Some(v@.map_values(|t: UEventResult| t@)),
                None => None,
            },
            text: match self.text {
                Some(v) => Some(v@),
                None => None,
            },
        }
    }
}

/// One member's effect: a known key fills its slot exactly once,
/// any other key's value is skipped.
pub open spec fn sp_u_payload_member_value(
    s: Seq<char>,
    i: int,
    acc: UPayloadFieldsV,
    key: Seq<char>,
) -> Option<(UPayloadFieldsV, int)>
    recommends
        0 <= i <= s.len(),
{
    if key == "results"@ {
        if acc.results is Some {
            None
        } else {
            match sp_u_result_array(s, i) {
                Some(v) => Some((UPayloadFieldsV { results: Some(v.0), ..acc }, v.1)),
                None => None,
            }
        }
    } else if key == "text"@ {
        if acc.text is Some {
            None
        } else {
            match sp_string(s, i) {
                Some(v) => Some((UPayloadFieldsV { text: Some(v.0), ..acc }, v.1)),
                None => None,
            }
        }
    } else {
        match sp_skip_value(s, i) {
            Some(e) => Some((acc, e)),
            None => None,
        }
    }
}

/// The members of one object, in any order: key, colon, value, then
/// a comma and more members or the position before the closing brace.
pub open spec fn sp_u_payload_members(s: Seq<char>, i: int, acc: UPayloadFieldsV) -> Option<(UPayloadFieldsV, int)>
    decreases s.len() - i when 0 <= i <= s.len()
{
    match sp_string(s, i) {
        Some(key) => if i < key.1 <= s.len() {
            match sp_char_tok(s, key.1, ':') {
                Some(c) => if key.1 < c <= s.len() {
                    match sp_u_payload_member_value(s, c, acc, key.0) {
                        Some(st) => if c <= st.1 <= s.len() {
                            match sp_char_tok(s, st.1, ',') {
                                Some(j) => if st.1 < j <= s.len() {
                                    sp_u_payload_members(s, j, st.0)
                                } else {
                                    None
                                },
                                None => Some((st.0, st.1)),
                            }
                        } else {
                            None
                        },
                        None => None,
                    }
                } else {
                    None
                },
                None => None,
            }
        } else {
            None
        },
        None => None,
    }
}

/// The whole utterance payload object.
pub open spec fn sp_u_payload(s: Seq<char>, i: int) -> Option<(UEventPayloadV, int)>
    recommends
        0 <= i <= s.len(),
{
    match sp_char_tok(s, i, '{') {
        Some(j) => match sp_u_payload_members(s, j, UPayloadFieldsV { results: None, text: None }) {
            Some(fin) => match sp_char_tok(s, fin.1, '}') {
                Some(m) => match (fin.0.results, fin.0.text) {
                    (Some(v0), Some(v1)) => Some((UEventPayloadV { results: v0, text: v1 }, m)),
                    _ => None,
                },
                None => None,
            },
            None => None,
        },
        None => None,
    }
}

// ---------------------------------------------------------------
// Grammar of the result-event payload
// ---------------------------------------------------------------

/// The fields of one `AEventToken` object gathered so far.
pub ghost struct ATokenFieldsV {
    pub written: Option<Seq<char>>,
    pub confidence: Option<Seq<char>>,
    pub starttime: Option<u64>,
    pub endtime: Option<u64>,
    pub spoken: Option<Seq<char>>,
}

pub struct ATokenFields {
    pub written: Option<String>,
    pub confidence: Option<String>,
    pub starttime: Option<u64>,
    pub endtime: Option<u64>,
    pub spoken: Option<String>,
}

impl View for ATokenFields {
    type V = ATokenFieldsV;

    open spec fn view(&self) -> ATokenFieldsV {
        ATokenFieldsV {
            written: match self.written {
                Some(v) => Some(v@),
                None => None,
            },
            confidence: match self.confidence {
                Some(v) => Some(v@),
                None => None,
            },
            starttime: self.starttime,
            endtime: self.endtime,
            spoken: match self.spoken {
                Some(v) => Some(v@),
                None => None,
            },
        }
    }
}

/// One member's effect: a known key fills its slot exactly once,
/// any other key's value is skipped.
pub open spec fn sp_a_token_member_value(
    s: Seq<char>,
    i: int,
    acc: ATokenFieldsV,
    key: Seq<char>,
) -> Option<(ATokenFieldsV, int)>
    recommends
        0 <= i <= s.len(),
{
    if key == "written"@ {
        if acc.written is Some {
            None
        } else {
            match sp_string(s, i) {
                Some(v) => Some((ATokenFieldsV { written: Some(v.0), ..acc }, v.1)),
                None => None,
            }
        }
    } else if key == "confidence"@ {
        if acc.confidence is Some {
            None
        } else {
            match sp_number(s, i) {
                Some(v) => Some((ATokenFieldsV { confidence: Some(v.0), ..acc }, v.1)),
                None => None,
            }
        }
    } else if key == "starttime"@ {
        if acc.starttime is Some {
            None
        } else {
            match sp_u64_tok(s, i) {
                Some(v) => Some((ATokenFieldsV { starttime: Some(v.0), ..acc }, v.1)),
                None => None,
            }
        }
    } else if key == "endtime"@ {
        if acc.endtime is Some {
            None
        } else {
            match sp_u64_tok(s, i) {
                Some(v) => Some((ATokenFieldsV { endtime: Some(v.0), ..acc }, v.1)),
                None => None,
            }
        }
    } else if key == "spoken"@ {
        if acc.spoken is Some {
            None
        } else {
            match sp_string(s, i) {
                Some(v) => Some((ATokenFieldsV { spoken: Some(v.0), ..acc }, v.1)),
                None => None,
            }
        }
    } else {
        match sp_skip_value(s, i) {
            Some(e) => Some((acc, e)),
            None => None,
        }
    }
}

/// The members of one object, in any order: key, colon, value, then
/// a comma and more members or the position before the closing brace.
pub open spec fn sp_a_token_members(s: Seq<char>, i: int, acc: ATokenFieldsV) -> Option<(ATokenFieldsV, int)>
    decreases s.len() - i when 0 <= i <= s.len()
{
    match sp_string(s, i) {
        Some(key) => if i < key.1 <= s.len() {
            match sp_char_tok(s, key.1, ':') {
                Some(c) => if key.1 < c <= s.len() {
                    match sp_a_token_member_value(s, c, acc, key.0) {
                        Some(st) => if c <= st.1 <= s.len() {
                            match sp_char_tok(s, st.1, ',') {
                                Some(j) => if st.1 < j <= s.len() {
                                    sp_a_token_members(s, j, st.0)
                                } else {
                                    None
                                },
                                None => Some((st.0, st.1)),
                            }
                        } else {
                            None
                        },
                        None => None,
                    }
                } else {
                    None
                },
                None => None,
            }
        } else {
            None
        },
        None => None,
    }
}

pub open spec fn sp_a_token(s: Seq<char>, i: int) -> Option<(AEventTokenV, int)>
    recommends
        0 <= i <= s.len(),
{
    match sp_char_tok(s, i, '{') {
        Some(j) => match sp_a_token_members(s, j, ATokenFieldsV { written: None, confidence: None, starttime: None, endtime: None, spoken: None }) {
            Some(fin) => match sp_char_tok(s, fin.1, '}') {
                Some(m) => match (fin.0.written, fin.0.confidence, fin.0.starttime, fin.0.endtime, fin.0.spoken) {
                    (Some(v0), Some(v1), Some(v2), Some(v3), Some(v4)) => Some((AEventTokenV { written: v0, confidence: v1, starttime: v2, endtime: v3, spoken: v4 }, m)),
                    _ => None,
                },
                None => None,
            },
            None => None,
        },
        None => None,
    }
}

pub open spec fn sp_a_tokens(s: Seq<char>, i: int) -> Option<(Seq<AEventTokenV>, int)>
    decreases s.len() - i when 0 <= i <= s.len()
{
    match sp_a_token(s, i) {
        Some(t) => {
            if i < t.1 <= s.len() {
                match sp_char_tok(s, t.1, ',') {
                    Some(j) => {
                        if t.1 < j <= s.len() {
                            match sp_a_tokens(s, j) {
                                Some(rest) => Some((seq![t.0] + rest.0, rest.1)),
                                None => None,
                            }
                        } else {
                            None
                        }
                    },
                    None => Some((seq![t.0], t.1)),
                }
            } else {
                None
            }
        },
        None => None,
    }
}

pub open spec fn sp_a_token_array(s: Seq<char>, i: int) -> Option<(Seq<AEventTokenV>, int)>
    recommends
        0 <= i <= s.len(),
{
    match sp_char_tok(s, i, '[') {
        Some(j) => match sp_char_tok(s, j, ']') {
            Some(e) => Some((Seq::empty(), e)),
            None => match sp_a_tokens(s, j) {
                Some(ts) => match sp_char_tok(s, ts.1, ']') {
                    Some(e) => Some((ts.0, e)),
                    None => None,
                },
                None => None,
            },
        },
        None => None,
    }
}

/// The fields of one `AEventResult` object gathered so far.
pub ghost struct AResultFieldsV {
    pub tokens: Option<Seq<AEventTokenV>>,
    pub confidence: Option<Seq<char>>,
    pub starttime: Option<u64>,
    pub endtime: Option<u64>,
    pub text: Option<Seq<char>>,
}

pub struct AResultFields {
    pub tokens: Option<Vec<AEventToken>>,
    pub confidence: Option<String>,
    pub starttime: Option<u64>,
    pub endtime: Option<u64>,
    pub text: Option<String>,
}

impl View for AResultFields {
    type V = AResultFieldsV;

    open spec fn view(&self) -> AResultFieldsV {
        AResultFieldsV {
            tokens: match self.tokens {
                Some(v) => Some(v@.map_values(|t: AEventToken| t@)),
                None => None,
            },
            confidence: match self.confidence {
                Some(v) => Some(v@),
                None => None,
            },
            starttime: self.starttime,
            endtime: self.endtime,
            text: match self.text {
                Some(v) => Some(v@),
                None => None,
            },
        }
    }
}

/// One member's effect: a known key fills its slot exactly once,
/// any other key's value is skipped.
pub open spec fn sp_a_result_member_value(
    s: Seq<char>,
    i: int,
    acc: AResultFieldsV,
    key: Seq<char>,
) -> Option<(AResultFieldsV, int)>
    recommends
        0 <= i <= s.len(),
{
    if key == "tokens"@ {
        if acc.tokens is Some {
            None
        } else {
            match sp_a_token_array(s, i) {
                Some(v) => Some((AResultFieldsV { tokens: Some(v.0), ..acc }, v.1)),
                None => None,
            }
        }
    } else if key == "confidence"@ {
        if acc.confidence is Some {
            None
        } else {
            match sp_number(s, i) {
                Some(v) => Some((AResultFieldsV { confidence: Some(v.0), ..acc }, v.1)),
                None => None,
            }
        }
    } else if key == "starttime"@ {
        if acc.starttime is Some {
            None
        } else {
            match sp_u64_tok(s, i) {
                Some(v) => Some((AResultFieldsV { starttime: Some(v.0), ..acc }, v.1)),
                None => None,
            }
        }
    } else if key == "endtime"@ {
        if acc.endtime is Some {
            None
        } else {
            match sp_u64_tok(s, i) {
                Some(v) => Some((AResultFieldsV { endtime: Some(v.0), ..acc }, v.1)),
                None => None,
            }
        }
    } else if key == "text"@ {
        if acc.text is Some {
            None
        } else {
            match sp_string(s, i) {
                Some(v) => Some((AResultFieldsV { text: Some(v.0), ..acc }, v.1)),
                None => None,
            }
        }
    } else {
        match sp_skip_value(s, i) {
            Some(e) => Some((acc, e)),
            None => None,
        }
    }
}

/// The members of one object, in any order: key, colon, value, then
/// a comma and more members or the position before the closing brace.
pub open spec fn sp_a_result_members(s: Seq<char>, i: int, acc: AResultFieldsV) -> Option<(AResultFieldsV, int)>
    decreases s.len() - i when 0 <= i <= s.len()
{
    match sp_string(s, i) {
        Some(key) => if i < key.1 <= s.len() {
            match sp_char_tok(s, key.1, ':') {
                Some(c) => if key.1 < c <= s.len() {
                    match sp_a_result_member_value(s, c, acc, key.0) {
                        Some(st) => if c <= st.1 <= s.len() {
                            match sp_char_tok(s, st.1, ',') {
                                Some(j) => if st.1 < j <= s.len() {
                                    sp_a_result_members(s, j, st.0)
                                } else {
                                    None
                                },
                                None => Some((st.0, st.1)),
                            }
                        } else {
                            None
                        },
                        None => None,
                    }
                } else {
                    None
                },
                None => None,
            }
        } else {
            None
        },
        None => None,
    }
}

pub open spec fn sp_a_result(s: Seq<char>, i: int) -> Option<(AEventResultV, int)>
    recommends
        0 <= i <= s.len(),
{
    match sp_char_tok(s, i, '{') {
        Some(j) => match sp_a_result_members(s, j, AResultFieldsV { tokens: None, confidence: None, starttime: None, endtime: None, text: None }) {
            Some(fin) => match sp_char_tok(s, fin.1, '}') {
                Some(m) => match (fin.0.tokens, fin.0.confidence, fin.0.starttime, fin.0.endtime, fin.0.text) {
                    (Some(v0), Some(v1), Some(v2), Some(v3), Some(v4)) => Some((AEventResultV { tokens: v0, confidence: v1, starttime: v2, endtime: v3, text: v4 }, m)),
                    _ => None,
                },
                None => None,
            },
            None => None,
        },
        None => None,
    }
}

pub open spec fn sp_a_results(s: Seq<char>, i: int) -> Option<(Seq<AEventResultV>, int)>
    decreases s.len() - i when 0 <= i <= s.len()
{
    match sp_a_result(s, i) {
        Some(t) => {
            if i < t.1 <= s.len() {
                match sp_char_tok(s, t.1, ',') {
                    Some(j) => {
                        if t.1 < j <= s.len() {
                            match sp_a_results(s, j) {
                                Some(rest) => Some((seq![t.0] + rest.0, rest.1)),
                                None => None,
                            }
                        } else {
                            None
                        }
                    },
                    None => Some((seq![t.0], t.1)),
                }
            } else {
                None
            }
        },
        None => None,
    }
}

pub open spec fn sp_a_result_array(s: Seq<char>, i: int) -> Option<(Seq<AEventResultV>, int)>
    recommends
        0 <= i <= s.len(),
{
    match sp_char_tok(s, i, '[') {
        Some(j) => match sp_char_tok(s, j, ']') {
            Some(e) => Some((Seq::empty(), e)),
            None => match sp_a_results(s, j) {
                Some(ts) => match sp_char_tok(s, ts.1, ']') {
                    Some(e) => Some((ts.0, e)),
                    None => None,
                },
                None => None,
            },
        },
        None => None,
    }
}

/// The fields of one `AEventPayload` object gathered so far.
pub ghost struct APayloadFieldsV {
    pub results: Option<Seq<AEventResultV>>,
    pub utteranceid: Option<Seq<char>>,
    pub text: Option<Seq<char>>,
    pub code: Option<Seq<char>>,
    pub message: Option<Seq<char>>,
}

pub struct APayloadFields {
    pub results: Option<Vec<AEventResult>>,
    pub utteranceid: Option<String>,
    pub text: Option<String>,
    pub code: Option<String>,
    pub message: Option<String>,
}

impl View for APayloadFields {
    type V = APayloadFieldsV;

    open spec fn view(&self) -> APayloadFieldsV {
        APayloadFieldsV {
            results: match self.results {
                Some(v) => Some(v@.map_values(|t: AEventResult| t@)),
                None => None,
            },
            utteranceid: match self.utteranceid {
                Some(v) => Some(v@),
                None => None,
            },
            text: match self.text {
                Some(v) => Some(v@),
                None => None,
            },
            code: match self.code {
                Some(v) => Some(v@),
                None => None,
            },
            message: match self.message {
                Some(v) => Some(v@),
                None => None,
            },
        }
    }
}

/// One member's effect: a known key fills its slot exactly once,
/// any other key's value is skipped.
pub open spec fn sp_a_payload_member_value(
    s: Seq<char>,
    i: int,
    acc: APayloadFieldsV,
    key: Seq<char>,
) -> Option<(APayloadFieldsV, int)>
    recommends
        0 <= i <= s.len(),
{
    if key == "results"@ {
        if acc.results is Some {
            None
        } else {
            match sp_a_result_array(s, i) {
                Some(v) => Some((APayloadFieldsV { results: Some(v.0), ..acc }, v.1)),
                None => None,
            }
        }
    } else if key == "utteranceid"@ {
        if acc.utteranceid is Some {
            None
        } else {
            match sp_string(s, i) {
                Some(v) => Some((APayloadFieldsV { utteranceid: Some(v.0), ..acc }, v.1)),
                None => None,
            }
        }
    } else if key == "text"@ {
        if acc.text is Some {
            None
        } else {
            match sp_string(s, i) {
                Some(v) => Some((APayloadFieldsV { text: Some(v.0), ..acc }, v.1)),
                None => None,
            }
        }
    } else if key == "code"@ {
        if acc.code is Some {
            None
        } else {
            match sp_string(s, i) {
                Some(v) => Some((APayloadFieldsV { code: Some(v.0), ..acc }, v.1)),
                None => None,
            }
        }
    } else if key == "message"@ {
        if acc.message is Some {
            None
        } else {
            match sp_string(s, i) {
                Some(v) => Some((APayloadFieldsV { message: Some(v.0), ..acc }, v.1)),
                None => None,
            }
        }
    } else {
        match sp_skip_value(s, i) {
            Some(e) => Some((acc, e)),
            None => None,
        }
    }
}

/// The members of one object, in any order: key, colon, value, then
/// a comma and more members or the position before the closing brace.
pub open spec fn sp_a_payload_members(s: Seq<char>, i: int, acc: APayloadFieldsV) -> Option<(APayloadFieldsV, int)>
    decreases s.len() - i when 0 <= i <= s.len()
{
    match sp_string(s, i) {
        Some(key) => if i < key.1 <= s.len() {
            match sp_char_tok(s, key.1, ':') {
                Some(c) => if key.1 < c <= s.len() {
                    match sp_a_payload_member_value(s, c, acc, key.0) {
                        Some(st) => if c <= st.1 <= s.len() {
                            match sp_char_tok(s, st.1, ',') {
                                Some(j) => if st.1 < j <= s.len() {
                                    sp_a_payload_members(s, j, st.0)
                                } else {
                                    None
                                },
                                None => Some((st.0, st.1)),
                            }
                        } else {
                            None
                        },
                        None => None,
                    }
                } else {
                    None
                },
                None => None,
            }
        } else {
            None
        },
        None => None,
    }
}

/// The whole result payload object.
pub open spec fn sp_a_payload(s: Seq<char>, i: int) -> Option<(AEventPayloadV, int)>
    recommends
        0 <= i <= s.len(),
{
    match sp_char_tok(s, i, '{') {
        Some(j) => match sp_a_payload_members(s, j, APayloadFieldsV { results: None, utteranceid: None, text: None, code: None, message: None }) {
            Some(fin) => match sp_char_tok(s, fin.1, '}') {
                Some(m) => match (fin.0.results, fin.0.utteranceid, fin.0.text, fin.0.code, fin.0.message) {
                    (Some(v0), Some(v1), Some(v2), Some(v3), Some(v4)) => Some((AEventPayloadV { results: v0, utteranceid: v1, text: v2, code: v3, message: v4 }, m)),
                    _ => None,
                },
                None => None,
            },
            None => None,
        },
        None => None,
    }
}

// ---------------------------------------------------------------
// Executable parsers
// ---------------------------------------------------------------

fn parse_u_token_member_value(
    s: &str,
    n: usize,
    i: usize,
    acc: UTokenFields,
    key: &str,
) -> (r: Option<(UTokenFields, usize)>)
    requires
        n == s@.len(),
        i <= n,
    ensures
        match r {
            Some(p) => sp_u_token_member_value(s@, i as int, acc@, key@) == Some((
                p.0@,
                p.1 as int,
            )) && i <= p.1 <= n,
            None => sp_u_token_member_value(s@, i as int, acc@, key@) is None,
        },
{
    if str_eq(key, "written") {
        if acc.written.is_some() {
            None
        } else {
            match parse_string(s, n, i) {
                Some((v, e)) => Some((UTokenFields { written: Some(v), ..acc }, e)),
                None => None,
            }
        }
    } else {
        match skip_value(s, n, i) {
            Some(e) => Some((acc, e)),
            None => None,
        }
    }
}

fn parse_u_token_members(s: &str, n: usize, i: usize, acc: UTokenFields) -> (r: Option<(UTokenFields, usize)>)
    requires
        n == s@.len(),
        i <= n,
    ensures
        match r {
            Some(p) => sp_u_token_members(s@, i as int, acc@) == Some((p.0@, p.1 as int)) && i
                < p.1 <= n,
            None => sp_u_token_members(s@, i as int, acc@) is None,
        },
    decreases n - i,
{
    match parse_string(s, n, i) {
        Some((key, kpos)) => match parse_char_tok(s, n, kpos, ':') {
            Some(c) => match parse_u_token_member_value(s, n, c, acc, key.as_str()) {
                Some((acc2, e)) => match parse_char_tok(s, n, e, ',') {
                    Some(j) => parse_u_token_members(s, n, j, acc2),
                    None => Some((acc2, e)),
                },
                None => None,
            },
            None => None,
        },
        None => None,
    }
}

pub fn parse_u_token(s: &str, n: usize, i: usize) -> (r: Option<(UEventToken, usize)>)
    requires
        n == s@.len(),
        i <= n,
    ensures
        match r {
            Some(p) => sp_u_token(s@, i as int) == Some((p.0@, p.1 as int)) && i < p.1 <= n,
            None => sp_u_token(s@, i as int) is None,
        },
{
    match parse_char_tok(s, n, i, '{') {
        Some(j) => match parse_u_token_members(s, n, j, UTokenFields { written: None }) {
            Some((acc, e)) => match parse_char_tok(s, n, e, '}') {
                Some(m) => match (acc.written) {
                    (Some(v0)) => Some((UEventToken { written: v0 }, m)),
                    _ => None,
                },
                None => None,
            },
            None => None,
        },
        None => None,
    }
}

pub fn parse_u_tokens(s: &str, n: usize, i: usize) -> (r: Option<(Vec<UEventToken>, usize)>)
    requires
        n == s@.len(),
        i <= n,
    ensures
        match r {
            Some(p) => sp_u_tokens(s@, i as int) == Some((
                p.0@.map_values(|t: UEventToken| t@),
                p.1 as int,
            )) && i < p.1 <= n,
            None => sp_u_tokens(s@, i as int) is None,
        },
    decreases n - i,
{
    match parse_u_token(s, n, i) {
        Some((t, j)) => match parse_char_tok(s, n, j, ',') {
            Some(j2) => match parse_u_tokens(s, n, j2) {
                Some((mut rest, k)) => {
                    let ghost old_rest = rest@;
                    rest.insert(0, t);
                    proof {
                        assert(rest@.map_values(|x: UEventToken| x@) =~= seq![t@]
                            + old_rest.map_values(|x: UEventToken| x@));
                    }
                    Some((rest, k))
                },
                None => None,
            },
            None => {
                let mut v: Vec<UEventToken> = Vec::new();
                v.push(t);
                proof {
                    assert(v@.map_values(|x: UEventToken| x@) =~= seq![t@]);
                }
                Some((v, j))
            },
        },
        None => None,
    }
}

pub fn parse_u_token_array(s: &str, n: usize, i: usize) -> (r: Option<(Vec<UEventToken>, usize)>)
    requires
        n == s@.len(),
        i <= n,
    ensures
        match r {
            Some(p) => sp_u_token_array(s@, i as int) == Some((
                p.0@.map_values(|t: UEventToken| t@),
                p.1 as int,
            )) && i < p.1 <= n,
            None => sp_u_token_array(s@, i as int) is None,
        },
{
    match parse_char_tok(s, n, i, '[') {
        Some(j) => match parse_char_tok(s, n, j, ']') {
            Some(e) => {
                let v: Vec<UEventToken> = Vec::new();
                proof {
                    assert(v@.map_values(|x: UEventToken| x@) =~= Seq::<UEventTokenV>::empty());
                }
                Some((v, e))
            },
            None => match parse_u_tokens(s, n, j) {
                Some((ts, j2)) => match parse_char_tok(s, n, j2, ']') {
                    Some(e) => Some((ts, e)),
                    None => None,
                },
                None => None,
            },
        },
        None => None,
    }
}

fn parse_u_result_member_value(
    s: &str,
    n: usize,
    i: usize,
    acc: UResultFields,
    key: &str,
) -> (r: Option<(UResultFields, usize)>)
    requires
        n == s@.len(),
        i <= n,
    ensures
        match r {
            Some(p) => sp_u_result_member_value(s@, i as int, acc@, key@) == Some((
                p.0@,
                p.1 as int,
            )) && i <= p.1 <= n,
            None => sp_u_result_member_value(s@, i as int, acc@, key@) is None,
        },
{
    if str_eq(key, "tokens") {
        if acc.tokens.is_some() {
            None
        } else {
            match parse_u_token_array(s, n, i) {
                Some((v, e)) => Some((UResultFields { tokens: Some(v), ..acc }, e)),
                None => None,
            }
        }
    } else if str_eq(key, "text") {
        if acc.text.is_some() {
            None
        } else {
            match parse_string(s, n, i) {
                Some((v, e)) => Some((UResultFields { text: Some(v), ..acc }, e)),
                None => None,
            }
        }
    } else {
        match skip_value(s, n, i) {
            Some(e) => Some((acc, e)),
            None => None,
        }
    }
}

fn parse_u_result_members(s: &str, n: usize, i: usize, acc: UResultFields) -> (r: Option<(UResultFields, usize)>)
    requires
        n == s@.len(),
        i <= n,
    ensures
        match r {
            Some(p) => sp_u_result_members(s@, i as int, acc@) == Some((p.0@, p.1 as int)) && i
                < p.1 <= n,
            None => sp_u_result_members(s@, i as int, acc@) is None,
        },
    decreases n - i,
{
    match parse_string(s, n, i) {
        Some((key, kpos)) => match parse_char_tok(s, n, kpos, ':') {
            Some(c) => match parse_u_result_member_value(s, n, c, acc, key.as_str()) {
                Some((acc2, e)) => match parse_char_tok(s, n, e, ',') {
                    Some(j) => parse_u_result_members(s, n, j, acc2),
                    None => Some((acc2, e)),
                },
                None => None,
            },
            None => None,
        },
        None => None,
    }
}

pub fn parse_u_result(s: &str, n: usize, i: usize) -> (r: Option<(UEventResult, usize)>)
    requires
        n == s@.len(),
        i <= n,
    ensures
        match r {
            Some(p) => sp_u_result(s@, i as int) == Some((p.0@, p.1 as int)) && i < p.1 <= n,
            None => sp_u_result(s@, i as int) is None,
        },
{
    match parse_char_tok(s, n, i, '{') {
        Some(j) => match parse_u_result_members(s, n, j, UResultFields { tokens: None, text: None }) {
            Some((acc, e)) => match parse_char_tok(s, n, e, '}') {
                Some(m) => match (acc.tokens, acc.text) {
                    (Some(v0), Some(v1)) => Some((UEventResult { tokens: v0, text: v1 }, m)),
                    _ => None,
                },
                None => None,
            },
            None => None,
        },
        None => None,
    }
}

pub fn parse_u_results(s: &str, n: usize, i: usize) -> (r: Option<(Vec<UEventResult>, usize)>)
    requires
        n == s@.len(),
        i <= n,
    ensures
        match r {
            Some(p) => sp_u_results(s@, i as int) == Some((
                p.0@.map_values(|t: UEventResult| t@),
                p.1 as int,
            )) && i < p.1 <= n,
            None => sp_u_results(s@, i as int) is None,
        },
    decreases n - i,
{
    match parse_u_result(s, n, i) {
        Some((t, j)) => match parse_char_tok(s, n, j, ',') {
            Some(j2) => match parse_u_results(s, n, j2) {
                Some((mut rest, k)) => {
                    let ghost old_rest = rest@;
                    rest.insert(0, t);
                    proof {
                        assert(rest@.map_values(|x: UEventResult| x@) =~= seq![t@]
                            + old_rest.map_values(|x: UEventResult| x@));
                    }
                    Some((rest, k))
                },
                None => None,
            },
            None => {
                let mut v: Vec<UEventResult> = Vec::new();
                v.push(t);
                proof {
                    assert(v@.map_values(|x: UEventResult| x@) =~= seq![t@]);
                }
                Some((v, j))
            },
        },
        None => None,
    }
}

pub fn parse_u_result_array(s: &str, n: usize, i: usize) -> (r: Option<(Vec<UEventResult>, usize)>)
    requires
        n == s@.len(),
        i <= n,
    ensures
        match r {
            Some(p) => sp_u_result_array(s@, i as int) == Some((
                p.0@.map_values(|t: UEventResult| t@),
                p.1 as int,
            )) && i < p.1 <= n,
            None => sp_u_result_array(s@, i as int) is None,
        },
{
    match parse_char_tok(s, n, i, '[') {
        Some(j) => match parse_char_tok(s, n, j, ']') {
            Some(e) => {
                let v: Vec<UEventResult> = Vec::new();
                proof {
                    assert(v@.map_values(|x: UEventResult| x@) =~= Seq::<UEventResultV>::empty());
                }
                Some((v, e))
            },
            None => match parse_u_results(s, n, j) {
                Some((ts, j2)) => match parse_char_tok(s, n, j2, ']') {
                    Some(e) => Some((ts, e)),
                    None => None,
                },
                None => None,
            },
        },
        None => None,
    }
}

fn parse_u_payload_member_value(
    s: &str,
    n: usize,
    i: usize,
    acc: UPayloadFields,
    key: &str,
) -> (r: Option<(UPayloadFields, usize)>)
    requires
        n == s@.len(),
        i <= n,
    ensures
        match r {
            Some(p) => sp_u_payload_member_value(s@, i as int, acc@, key@) == Some((
                p.0@,
                p.1 as int,
            )) && i <= p.1 <= n,
            None => sp_u_payload_member_value(s@, i as int, acc@, key@) is None,
        },
{
    if str_eq(key, "results") {
        if acc.results.is_some() {
            None
        } else {
            match parse_u_result_array(s, n, i) {
                Some((v, e)) => Some((UPayloadFields { results: Some(v), ..acc }, e)),
                None => None,
            }
        }
    } else if str_eq(key, "text") {
        if acc.text.is_some() {
            None
        } else {
            match parse_string(s, n, i) {
                Some((v, e)) => Some((UPayloadFields { text: Some(v), ..acc }, e)),
                None => None,
            }
        }
    } else {
        match skip_value(s, n, i) {
            Some(e) => Some((acc, e)),
            None => None,
        }
    }
}

fn parse_u_payload_members(s: &str, n: usize, i: usize, acc: UPayloadFields) -> (r: Option<(UPayloadFields, usize)>)
    requires
        n == s@.len(),
        i <= n,
    ensures
        match r {
            Some(p) => sp_u_payload_members(s@, i as int, acc@) == Some((p.0@, p.1 as int)) && i
                < p.1 <= n,
            None => sp_u_payload_members(s@, i as int, acc@) is None,
        },
    decreases n - i,
{
    match parse_string(s, n, i) {
        Some((key, kpos)) => match parse_char_tok(s, n, kpos, ':') {
            Some(c) => match parse_u_payload_member_value(s, n, c, acc, key.as_str()) {
                Some((acc2, e)) => match parse_char_tok(s, n, e, ',') {
                    Some(j) => parse_u_payload_members(s, n, j, acc2),
                    None => Some((acc2, e)),
                },
                None => None,
            },
            None => None,
        },
        None => None,
    }
}

/// Reads a whole utterance payload at `i`.
pub fn parse_u_payload(s: &str, n: usize, i: usize) -> (r: Option<(UEventPayload, usize)>)
    requires
        n == s@.len(),
        i <= n,
    ensures
        match r {
            Some(p) => sp_u_payload(s@, i as int) == Some((p.0@, p.1 as int)) && i < p.1 <= n,
            None => sp_u_payload(s@, i as int) is None,
        },
{
    match parse_char_tok(s, n, i, '{') {
        Some(j) => match parse_u_payload_members(s, n, j, UPayloadFields { results: None, text: None }) {
            Some((acc, e)) => match parse_char_tok(s, n, e, '}') {
                Some(m) => match (acc.results, acc.text) {
                    (Some(v0), Some(v1)) => Some((UEventPayload { results: v0, text: v1 }, m)),
                    _ => None,
                },
                None => None,
            },
            None => None,
        },
        None => None,
    }
}

fn parse_a_token_member_value(
    s: &str,
    n: usize,
    i: usize,
    acc: ATokenFields,
    key: &str,
) -> (r: Option<(ATokenFields, usize)>)
    requires
        n == s@.len(),
        i <= n,
    ensures
        match r {
            Some(p) => sp_a_token_member_value(s@, i as int, acc@, key@) == Some((
                p.0@,
                p.1 as int,
            )) && i <= p.1 <= n,
            None => sp_a_token_member_value(s@, i as int, acc@, key@) is None,
        },
{
    if str_eq(key, "written") {
        if acc.written.is_some() {
            None
        } else {
            match parse_string(s, n, i) {
                Some((v, e)) => Some((ATokenFields { written: Some(v), ..acc }, e)),
                None => None,
            }
        }
    } else if str_eq(key, "confidence") {
        if acc.confidence.is_some() {
            None
        } else {
            match parse_number(s, n, i) {
                Some((v, e)) => Some((ATokenFields { confidence: Some(v), ..acc }, e)),
                None => None,
            }
        }
    } else if str_eq(key, "starttime") {
        if acc.starttime.is_some() {
            None
        } else {
            match parse_u64_tok(s, n, i) {
                Some((v, e)) => Some((ATokenFields { starttime: Some(v), ..acc }, e)),
                None => None,
            }
        }
    } else if str_eq(key, "endtime") {
        if acc.endtime.is_some() {
            None
        } else {
            match parse_u64_tok(s, n, i) {
                Some((v, e)) => Some((ATokenFields { endtime: Some(v), ..acc }, e)),
                None => None,
            }
        }
    } else if str_eq(key, "spoken") {
        if acc.spoken.is_some() {
            None
        } else {
            match parse_string(s, n, i) {
                Some((v, e)) => Some((ATokenFields { spoken: Some(v), ..acc }, e)),
                None => None,
            }
        }
    } else {
        match skip_value(s, n, i) {
            Some(e) => Some((acc, e)),
            None => None,
        }
    }
}

fn parse_a_token_members(s: &str, n: usize, i: usize, acc: ATokenFields) -> (r: Option<(ATokenFields, usize)>)
    requires
        n == s@.len(),
        i <= n,
    ensures
        match r {
            Some(p) => sp_a_token_members(s@, i as int, acc@) == Some((p.0@, p.1 as int)) && i
                < p.1 <= n,
            None => sp_a_token_members(s@, i as int, acc@) is None,
        },
    decreases n - i,
{
    match parse_string(s, n, i) {
        Some((key, kpos)) => match parse_char_tok(s, n, kpos, ':') {
            Some(c) => match parse_a_token_member_value(s, n, c, acc, key.as_str()) {
                Some((acc2, e)) => match parse_char_tok(s, n, e, ',') {
                    Some(j) => parse_a_token_members(s, n, j, acc2),
                    None => Some((acc2, e)),
                },
                None => None,
            },
            None => None,
        },
        None => None,
    }
}

pub fn parse_a_token(s: &str, n: usize, i: usize) -> (r: Option<(AEventToken, usize)>)
    requires
        n == s@.len(),
        i <= n,
    ensures
        match r {
            Some(p) => sp_a_token(s@, i as int) == Some((p.0@, p.1 as int)) && i < p.1 <= n,
            None => sp_a_token(s@, i as int) is None,
        },
{
    match parse_char_tok(s, n, i, '{') {
        Some(j) => match parse_a_token_members(s, n, j, ATokenFields { written: None, confidence: None, starttime: None, endtime: None, spoken: None }) {
            Some((acc, e)) => match parse_char_tok(s, n, e, '}') {
                Some(m) => match (acc.written, acc.confidence, acc.starttime, acc.endtime, acc.spoken) {
                    (Some(v0), Some(v1), Some(v2), Some(v3), Some(v4)) => Some((AEventToken { written: v0, confidence: v1, starttime: v2, endtime: v3, spoken: v4 }, m)),
                    _ => None,
                },
                None => None,
            },
            None => None,
        },
        None => None,
    }
}

pub fn parse_a_tokens(s: &str, n: usize, i: usize) -> (r: Option<(Vec<AEventToken>, usize)>)
    requires
        n == s@.len(),
        i <= n,
    ensures
        match r {
            Some(p) => sp_a_tokens(s@, i as int) == Some((
                p.0@.map_values(|t: AEventToken| t@),
                p.1 as int,
            )) && i < p.1 <= n,
            None => sp_a_tokens(s@, i as int) is None,
        },
    decreases n - i,
{
    match parse_a_token(s, n, i) {
        Some((t, j)) => match parse_char_tok(s, n, j, ',') {
            Some(j2) => match parse_a_tokens(s, n, j2) {
                Some((mut rest, k)) => {
                    let ghost old_rest = rest@;
                    rest.insert(0, t);
                    proof {
                        assert(rest@.map_values(|x: AEventToken| x@) =~= seq![t@]
                            + old_rest.map_values(|x: AEventToken| x@));
                    }
                    Some((rest, k))
                },
                None => None,
            },
            None => {
                let mut v: Vec<AEventToken> = Vec::new();
                v.push(t);
                proof {
                    assert(v@.map_values(|x: AEventToken| x@) =~= seq![t@]);
                }
                Some((v, j))
            },
        },
        None => None,
    }
}

pub fn parse_a_token_array(s: &str, n: usize, i: usize) -> (r: Option<(Vec<AEventToken>, usize)>)
    requires
        n == s@.len(),
        i <= n,
    ensures
        match r {
            Some(p) => sp_a_token_array(s@, i as int) == Some((
                p.0@.map_values(|t: AEventToken| t@),
                p.1 as int,
            )) && i < p.1 <= n,
            None => sp_a_token_array(s@, i as int) is None,
        },
{
    match parse_char_tok(s, n, i, '[') {
        Some(j) => match parse_char_tok(s, n, j, ']') {
            Some(e) => {
                let v: Vec<AEventToken> = Vec::new();
                proof {
                    assert(v@.map_values(|x: AEventToken| x@) =~= Seq::<AEventTokenV>::empty());
                }
                Some((v, e))
            },
            None => match parse_a_tokens(s, n, j) {
                Some((ts, j2)) => match parse_char_tok(s, n, j2, ']') {
                    Some(e) => Some((ts, e)),
                    None => None,
                },
                None => None,
            },
        },
        None => None,
    }
}

fn parse_a_result_member_value(
    s: &str,
    n: usize,
    i: usize,
    acc: AResultFields,
    key: &str,
) -> (r: Option<(AResultFields, usize)>)
    requires
        n == s@.len(),
        i <= n,
    ensures
        match r {
            Some(p) => sp_a_result_member_value(s@, i as int, acc@, key@) == Some((
                p.0@,
                p.1 as int,
            )) && i <= p.1 <= n,
            None => sp_a_result_member_value(s@, i as int, acc@, key@) is None,
        },
{
    if str_eq(key, "tokens") {
        if acc.tokens.is_some() {
            None
        } else {
            match parse_a_token_array(s, n, i) {
                Some((v, e)) => Some((AResultFields { tokens: Some(v), ..acc }, e)),
                None => None,
            }
        }
    } else if str_eq(key, "confidence") {
        if acc.confidence.is_some() {
            None
        } else {
            match parse_number(s, n, i) {
                Some((v, e)) => Some((AResultFields { confidence: Some(v), ..acc }, e)),
                None => None,
            }
        }
    } else if str_eq(key, "starttime") {
        if acc.starttime.is_some() {
            None
        } else {
            match parse_u64_tok(s, n, i) {
                Some((v, e)) => Some((AResultFields { starttime: Some(v), ..acc }, e)),
                None => None,
            }
        }
    } else if str_eq(key, "endtime") {
        if acc.endtime.is_some() {
            None
        } else {
            match parse_u64_tok(s, n, i) {
                Some((v, e)) => Some((AResultFields { endtime: Some(v), ..acc }, e)),
                None => None,
            }
        }
    } else if str_eq(key, "text") {
        if acc.text.is_some() {
            None
        } else {
            match parse_string(s, n, i) {
                Some((v, e)) => Some((AResultFields { text: Some(v), ..acc }, e)),
                None => None,
            }
        }
    } else {
        match skip_value(s, n, i) {
            Some(e) => Some((acc, e)),
            None => None,
        }
    }
}

fn parse_a_result_members(s: &str, n: usize, i: usize, acc: AResultFields) -> (r: Option<(AResultFields, usize)>)
    requires
        n == s@.len(),
        i <= n,
    ensures
        match r {
            Some(p) => sp_a_result_members(s@, i as int, acc@) == Some((p.0@, p.1 as int)) && i
                < p.1 <= n,
            None => sp_a_result_members(s@, i as int, acc@) is None,
        },
    decreases n - i,
{
    match parse_string(s, n, i) {
        Some((key, kpos)) => match parse_char_tok(s, n, kpos, ':') {
            Some(c) => match parse_a_result_member_value(s, n, c, acc, key.as_str()) {
                Some((acc2, e)) => match parse_char_tok(s, n, e, ',') {
                    Some(j) => parse_a_result_members(s, n, j, acc2),
                    None => Some((acc2, e)),
                },
                None => None,
            },
            None => None,
        },
        None => None,
    }
}

pub fn parse_a_result(s: &str, n: usize, i: usize) -> (r: Option<(AEventResult, usize)>)
    requires
        n == s@.len(),
        i <= n,
    ensures
        match r {
            Some(p) => sp_a_result(s@, i as int) == Some((p.0@, p.1 as int)) && i < p.1 <= n,
            None => sp_a_result(s@, i as int) is None,
        },
{
    match parse_char_tok(s, n, i, '{') {
        Some(j) => match parse_a_result_members(s, n, j, AResultFields { tokens: None, confidence: None, starttime: None, endtime: None, text: None }) {
            Some((acc, e)) => match parse_char_tok(s, n, e, '}') {
                Some(m) => match (acc.tokens, acc.confidence, acc.starttime, acc.endtime, acc.text) {
                    (Some(v0), Some(v1), Some(v2), Some(v3), Some(v4)) => Some((AEventResult { tokens: v0, confidence: v1, starttime: v2, endtime: v3, text: v4 }, m)),
                    _ => None,
                },
                None => None,
            },
            None => None,
        },
        None => None,
    }
}

pub fn parse_a_results(s: &str, n: usize, i: usize) -> (r: Option<(Vec<AEventResult>, usize)>)
    requires
        n == s@.len(),
        i <= n,
    ensures
        match r {
            Some(p) => sp_a_results(s@, i as int) == Some((
                p.0@.map_values(|t: AEventResult| t@),
                p.1 as int,
            )) && i < p.1 <= n,
            None => sp_a_results(s@, i as int) is None,
        },
    decreases n - i,
{
    match parse_a_result(s, n, i) {
        Some((t, j)) => match parse_char_tok(s, n, j, ',') {
            Some(j2) => match parse_a_results(s, n, j2) {
                Some((mut rest, k)) => {
                    let ghost old_rest = rest@;
                    rest.insert(0, t);
                    proof {
                        assert(rest@.map_values(|x: AEventResult| x@) =~= seq![t@]
                            + old_rest.map_values(|x: AEventResult| x@));
                    }
                    Some((rest, k))
                },
                None => None,
            },
            None => {
                let mut v: Vec<AEventResult> = Vec::new();
                v.push(t);
                proof {
                    assert(v@.map_values(|x: AEventResult| x@) =~= seq![t@]);
                }
                Some((v, j))
            },
        },
        None => None,
    }
}

pub fn parse_a_result_array(s: &str, n: usize, i: usize) -> (r: Option<(Vec<AEventResult>, usize)>)
    requires
        n == s@.len(),
        i <= n,
    ensures
        match r {
            Some(p) => sp_a_result_array(s@, i as int) == Some((
                p.0@.map_values(|t: AEventResult| t@),
                p.1 as int,
            )) && i < p.1 <= n,
            None => sp_a_result_array(s@, i as int) is None,
        },
{
    match parse_char_tok(s, n, i, '[') {
        Some(j) => match parse_char_tok(s, n, j, ']') {
            Some(e) => {
                let v: Vec<AEventResult> = Vec::new();
                proof {
                    assert(v@.map_values(|x: AEventResult| x@) =~= Seq::<AEventResultV>::empty());
                }
                Some((v, e))
            },
            None => match parse_a_results(s, n, j) {
                Some((ts, j2)) => match parse_char_tok(s, n, j2, ']') {
                    Some(e) => Some((ts, e)),
                    None => None,
                },
                None => None,
            },
        },
        None => None,
    }
}

fn parse_a_payload_member_value(
    s: &str,
    n: usize,
    i: usize,
    acc: APayloadFields,
    key: &str,
) -> (r: Option<(APayloadFields, usize)>)
    requires
        n == s@.len(),
        i <= n,
    ensures
        match r {
            Some(p) => sp_a_payload_member_value(s@, i as int, acc@, key@) == Some((
                p.0@,
                p.1 as int,
            )) && i <= p.1 <= n,
            None => sp_a_payload_member_value(s@, i as int, acc@, key@) is None,
        },
{
    if str_eq(key, "results") {
        if acc.results.is_some() {
            None
        } else {
            match parse_a_result_array(s, n, i) {
                Some((v, e)) => Some((APayloadFields { results: Some(v), ..acc }, e)),
                None => None,
            }
        }
    } else if str_eq(key, "utteranceid") {
        if acc.utteranceid.is_some() {
            None
        } else {
            match parse_string(s, n, i) {
                Some((v, e)) => Some((APayloadFields { utteranceid: Some(v), ..acc }, e)),
                None => None,
            }
        }
    } else if str_eq(key, "text") {
        if acc.text.is_some() {
            None
        } else {
            match parse_string(s, n, i) {
                Some((v, e)) => Some((APayloadFields { text: Some(v), ..acc }, e)),
                None => None,
            }
        }
    } else if str_eq(key, "code") {
        if acc.code.is_some() {
            None
        } else {
            match parse_string(s, n, i) {
                Some((v, e)) => Some((APayloadFields { code: Some(v), ..acc }, e)),
                None => None,
            }
        }
    } else if str_eq(key, "message") {
        if acc.message.is_some() {
            None
        } else {
            match parse_string(s, n, i) {
                Some((v, e)) => Some((APayloadFields { message: Some(v), ..acc }, e)),
                None => None,
            }
        }
    } else {
        match skip_value(s, n, i) {
            Some(e) => Some((acc, e)),
            None => None,
        }
    }
}

fn parse_a_payload_members(s: &str, n: usize, i: usize, acc: APayloadFields) -> (r: Option<(APayloadFields, usize)>)
    requires
        n == s@.len(),
        i <= n,
    ensures
        match r {
            Some(p) => sp_a_payload_members(s@, i as int, acc@) == Some((p.0@, p.1 as int)) && i
                < p.1 <= n,
            None => sp_a_payload_members(s@, i as int, acc@) is None,
        },
    decreases n - i,
{
    match parse_string(s, n, i) {
        Some((key, kpos)) => match parse_char_tok(s, n, kpos, ':') {
            Some(c) => match parse_a_payload_member_value(s, n, c, acc, key.as_str()) {
                Some((acc2, e)) => match parse_char_tok(s, n, e, ',') {
                    Some(j) => parse_a_payload_members(s, n, j, acc2),
                    None => Some((acc2, e)),
                },
                None => None,
            },
            None => None,
        },
        None => None,
    }
}

/// Reads a whole result payload at `i`.
pub fn parse_a_payload(s: &str, n: usize, i: usize) -> (r: Option<(AEventPayload, usize)>)
    requires
        n == s@.len(),
        i <= n,
    ensures
        match r {
            Some(p) => sp_a_payload(s@, i as int) == Some((p.0@, p.1 as int)) && i < p.1 <= n,
            None => sp_a_payload(s@, i as int) is None,
        },
{
    match parse_char_tok(s, n, i, '{') {
        Some(j) => match parse_a_payload_members(s, n, j, APayloadFields { results: None, utteranceid: None, text: None, code: None, message: None }) {
            Some((acc, e)) => match parse_char_tok(s, n, e, '}') {
                Some(m) => match (acc.results, acc.utteranceid, acc.text, acc.code, acc.message) {
                    (Some(v0), Some(v1), Some(v2), Some(v3), Some(v4)) => Some((AEventPayload { results: v0, utteranceid: v1, text: v2, code: v3, message: v4 }, m)),
                    _ => None,
                },
                None => None,
            },
            None => None,
        },
        None => None,
    }
}

} // verus!
