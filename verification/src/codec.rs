//! The packet codec: classifies inbound text frames by their first
//! character and builds the outbound wire frames.

use vstd::prelude::*;
use vstd::slice::slice_to_vec;
use vstd::string::{StrSliceExecFns, StringExecFns};
use crate::numeric::{parse_u64_spec, parse_u64_str};
use crate::json::{scan_ws, sp_ws};
use crate::payload::{AEventPayload, AEventPayloadV, UEventPayload, UEventPayloadV, sp_a_payload, sp_u_payload, parse_a_payload, parse_u_payload};

verus! {

/// Options of one session: audio format, grammar profile, and the
/// authorization key, fixed for the session lifetime.
#[derive(Clone, Debug, PartialEq)]
pub struct SCommandOption {
    pub audio_format: String,
    pub grammar_file_names: String,
    pub authorization: String,
}

pub ghost struct SCommandOptionV {
    pub audio_format: Seq<char>,
    pub grammar_file_names: Seq<char>,
    pub authorization: Seq<char>,
}

impl View for SCommandOption {
    type V = SCommandOptionV;

    open spec fn view(&self) -> SCommandOptionV {
        SCommandOptionV {
            audio_format: self.audio_format@,
            grammar_file_names: self.grammar_file_names@,
            authorization: self.authorization@,
        }
    }
}

/// Text of the start command built from the session options.
pub open spec fn start_message_of(o: SCommandOptionV) -> Seq<char> {
    "s "@ + o.audio_format + " "@ + o.grammar_file_names + " authorization="@ + o.authorization
}

impl SCommandOption {
    /// Builds the start-command frame text.
    pub fn create_message(&self) -> (r: String)
        ensures
            r@ == start_message_of(self@),
    {
        let mut m = String::from_str("s ");
        m.append(self.audio_format.as_str());
        m.append(" ");
        m.append(self.grammar_file_names.as_str());
        m.append(" authorization=");
        m.append(self.authorization.as_str());
        m
    }
}

/// Why a frame could not be decoded.  Every parse failure is fatal to
/// the session.
#[derive(Clone, Copy, Debug, PartialEq, Eq, Structural)]
pub enum ParseError {
    /// The text frame held no characters at all.
    EmptyFrame,
    /// A progress acknowledgment arrived without its error text.
    MissingErrorText,
    /// A timing event carried no readable 64-bit timestamp.
    BadTimestamp,
    /// The utterance-event payload did not match its object shape.
    BadUtterancePayload,
    /// The result-event payload did not match its object shape.
    BadResultPayload,
}

pub open spec fn parse_error_message_of(e: ParseError) -> Seq<char> {
    match e {
        ParseError::EmptyFrame => "received an empty text frame"@,
        ParseError::MissingErrorText => "failed to get error message"@,
        ParseError::BadTimestamp => "failed to convert string to u64"@,
        ParseError::BadUtterancePayload => "failed to deserialize U Event Payload"@,
        ParseError::BadResultPayload => "failed to deserialize A Event Payload"@,
    }
}

impl ParseError {
    /// The terminal error text this failure surfaces.
    pub fn message(&self) -> (r: String)
        ensures
            r@ == parse_error_message_of(*self),
    {
        match self {
            ParseError::EmptyFrame => String::from_str("received an empty text frame"),
            ParseError::MissingErrorText => String::from_str("failed to get error message"),
            ParseError::BadTimestamp => String::from_str("failed to convert string to u64"),
            ParseError::BadUtterancePayload => String::from_str("failed to deserialize U Event Payload"),
            ParseError::BadResultPayload => String::from_str("failed to deserialize A Event Payload"),
        }
    }
}

/// One classified frame, outbound or inbound.
#[derive(Clone, Debug, PartialEq)]
pub enum PacketData {
    StartCommand(SCommandOption),
    AudioChunk,
    EndCommand,
    StartAck(Option<String>),
    ProgressAck(String),
    EndAck(Option<String>),
    StartEvent(u64),
    EndEvent(u64),
    CancelEvent,
    UtteranceEvent(UEventPayload),
    ResultEvent(AEventPayload),
    GrammarEvent(Option<String>),
    Unrecognized,
}

pub ghost enum PacketDataV {
    StartCommand(SCommandOptionV),
    AudioChunk,
    EndCommand,
    StartAck(Option<Seq<char>>),
    ProgressAck(Seq<char>),
    EndAck(Option<Seq<char>>),
    StartEvent(u64),
    EndEvent(u64),
    CancelEvent,
    UtteranceEvent(UEventPayloadV),
    ResultEvent(AEventPayloadV),
    GrammarEvent(Option<Seq<char>>),
    Unrecognized,
}

pub open spec fn opt_str_view(o: Option<String>) -> Option<Seq<char>> {
    match o {
        Some(s) => Some(s@),
        None => None,
    }
}

impl View for PacketData {
    type V = PacketDataV;

    open spec fn view(&self) -> PacketDataV {
        match self {
            PacketData::StartCommand(o) => PacketDataV::StartCommand(o@),
            PacketData::AudioChunk => PacketDataV::AudioChunk,
            PacketData::EndCommand => PacketDataV::EndCommand,
            PacketData::StartAck(e) => PacketDataV::StartAck(opt_str_view(*e)),
            PacketData::ProgressAck(e) => PacketDataV::ProgressAck(e@),
            PacketData::EndAck(e) => PacketDataV::EndAck(opt_str_view(*e)),
            PacketData::StartEvent(t) => PacketDataV::StartEvent(*t),
            PacketData::EndEvent(t) => PacketDataV::EndEvent(*t),
            PacketData::CancelEvent => PacketDataV::CancelEvent,
            PacketData::UtteranceEvent(p) => PacketDataV::UtteranceEvent(p@),
            PacketData::ResultEvent(p) => PacketDataV::ResultEvent(p@),
            PacketData::GrammarEvent(e) => PacketDataV::GrammarEvent(opt_str_view(*e)),
            PacketData::Unrecognized => PacketDataV::Unrecognized,
        }
    }
}

pub open spec fn packet_label_of(d: PacketDataV) -> Seq<char> {
    match d {
        PacketDataV::StartCommand(_) => "Send s Command"@,
        PacketDataV::AudioChunk => "Send p Command"@,
        PacketDataV::EndCommand => "Send e Command"@,
        PacketDataV::StartAck(_) => "Recieve s Command Response"@,
        PacketDataV::ProgressAck(_) => "Recieve p Command Response"@,
        PacketDataV::EndAck(_) => "Recieve e Command Response"@,
        PacketDataV::StartEvent(_) => "Recieve S Event"@,
        PacketDataV::EndEvent(_) => "Recieve E Event"@,
        PacketDataV::CancelEvent => "Recieve C Event"@,
        PacketDataV::UtteranceEvent(_) => "Recieve U Event"@,
        PacketDataV::ResultEvent(_) => "Recieve A Event"@,
        PacketDataV::GrammarEvent(_) => "Recieve G Event"@,
        PacketDataV::Unrecognized => "Other Data"@,
    }
}

impl PacketData {
    /// Short human-readable name of the variant, for console echo.
    pub fn description(&self) -> (r: &'static str)
        ensures
            r@ == packet_label_of(self@),
    {
        match self {
            PacketData::StartCommand(_) => "Send s Command",
            PacketData::AudioChunk => "Send p Command",
            PacketData::EndCommand => "Send e Command",
            PacketData::StartAck(_) => "Recieve s Command Response",
            PacketData::ProgressAck(_) => "Recieve p Command Response",
            PacketData::EndAck(_) => "Recieve e Command Response",
            PacketData::StartEvent(_) => "Recieve S Event",
            PacketData::EndEvent(_) => "Recieve E Event",
            PacketData::CancelEvent => "Recieve C Event",
            PacketData::UtteranceEvent(_) => "Recieve U Event",
            PacketData::ResultEvent(_) => "Recieve A Event",
            PacketData::GrammarEvent(_) => "Recieve G Event",
            PacketData::Unrecognized => "Other Data",
        }
    }
}

/// One logged frame: capture time, classified data, raw text.
#[derive(Clone, Debug, PartialEq)]
pub struct Packet {
    pub inserted_time: String,
    pub data: PacketData,
    pub raw: String,
}

pub ghost struct PacketV {
    pub inserted_time: Seq<char>,
    pub data: PacketDataV,
    pub raw: Seq<char>,
}

impl View for Packet {
    type V = PacketV;

    open spec fn view(&self) -> PacketV {
        PacketV { inserted_time: self.inserted_time@, data: self.data@, raw: self.raw@ }
    }
}

/// The frame text past the first character, when there is any.
pub open spec fn suffix_of(s: Seq<char>) -> Option<Seq<char>> {
    if s.len() > 1 {
        Some(s.subrange(1, s.len() as int))
    } else {
        None
    }
}

/// Takes the suffix of a frame: everything past the command character.
pub fn parse_command_error(packet_text: &str) -> (r: Option<String>)
    ensures
        opt_str_view(r) == suffix_of(packet_text@),
{
    let n = packet_text.unicode_len();
    if n > 1 {
        Some(packet_text.substring_char(1, n).to_owned())
    } else {
        None
    }
}

/// Reads an event timestamp out of an optional frame suffix.
pub fn convert_suffix_to_u64(suffix: &Option<String>) -> (r: Result<u64, ParseError>)
    ensures
        match suffix {
            Some(t) => match parse_u64_spec(t@) {
                Some(v) => r == Ok::<u64, ParseError>(v),
                None => r == Err::<u64, ParseError>(ParseError::BadTimestamp),
            },
            None => r == Err::<u64, ParseError>(ParseError::BadTimestamp),
        },
{
    match suffix {
        Some(t) => match parse_u64_str(t.as_str()) {
            Some(v) => Ok(v),
            None => Err(ParseError::BadTimestamp),
        },
        None => Err(ParseError::BadTimestamp),
    }
}

/// What decoding a text frame yields, by the dispatch table: the first
/// character picks the variant, the suffix carries its value.
pub open spec fn decode_spec(s: Seq<char>) -> Result<PacketDataV, ParseError> {
    if s.len() == 0 {
        Err(ParseError::EmptyFrame)
    } else {
        let sfx = suffix_of(s);
        let c = s[0];
        if c == 's' {
            Ok(PacketDataV::StartAck(sfx))
        } else if c == 'p' {
            match sfx {
                Some(e) => Ok(PacketDataV::ProgressAck(e)),
                None => Err(ParseError::MissingErrorText),
            }
        } else if c == 'e' {
            Ok(PacketDataV::EndAck(sfx))
        } else if c == 'S' {
            match sfx {
                Some(t) => match parse_u64_spec(t) {
                    Some(v) => Ok(PacketDataV::StartEvent(v)),
                    None => Err(ParseError::BadTimestamp),
                },
                None => Err(ParseError::BadTimestamp),
            }
        } else if c == 'E' {
            match sfx {
                Some(t) => match parse_u64_spec(t) {
                    Some(v) => Ok(PacketDataV::EndEvent(v)),
                    None => Err(ParseError::BadTimestamp),
                },
                None => Err(ParseError::BadTimestamp),
            }
        } else if c == 'C' {
            Ok(PacketDataV::CancelEvent)
        } else if c == 'U' {
            match sfx {
                Some(t) => match sp_u_payload(t, 0) {
                    Some(p) => if sp_ws(t, p.1) == t.len() {
                        Ok(PacketDataV::UtteranceEvent(p.0))
                    } else {
                        Err(ParseError::BadUtterancePayload)
                    },
                    None => Err(ParseError::BadUtterancePayload),
                },
                None => Err(ParseError::BadUtterancePayload),
            }
        } else if c == 'A' {
            match sfx {
                Some(t) => match sp_a_payload(t, 0) {
                    Some(p) => if sp_ws(t, p.1) == t.len() {
                        Ok(PacketDataV::ResultEvent(p.0))
                    } else {
                        Err(ParseError::BadResultPayload)
                    },
                    None => Err(ParseError::BadResultPayload),
                },
                None => Err(ParseError::BadResultPayload),
            }
        } else if c == 'G' {
            Ok(PacketDataV::GrammarEvent(sfx))
        } else {
            Ok(PacketDataV::Unrecognized)
        }
    }
}

/// Decodes one inbound text frame into its typed packet data.
pub fn decode(raw: &str) -> (r: Result<PacketData, ParseError>)
    ensures
        match r {
            Ok(d) => decode_spec(raw@) == Ok::<PacketDataV, ParseError>(d@),
            Err(e) => decode_spec(raw@) == Err::<PacketDataV, ParseError>(e),
        },
{
    let n = raw.unicode_len();
    if n == 0 {
        return Err(ParseError::EmptyFrame);
    }
    let c = raw.get_char(0);
    let suffix = parse_command_error(raw);
    match c {
        's' => Ok(PacketData::StartAck(suffix)),
        'p' => match suffix {
            Some(e) => Ok(PacketData::ProgressAck(e)),
            None => Err(ParseError::MissingErrorText),
        },
        'e' => Ok(PacketData::EndAck(suffix)),
        'S' => match convert_suffix_to_u64(&suffix) {
            Ok(v) => Ok(PacketData::StartEvent(v)),
            Err(e) => Err(e),
        },
        'E' => match convert_suffix_to_u64(&suffix) {
            Ok(v) => Ok(PacketData::EndEvent(v)),
            Err(e) => Err(e),
        },
        'C' => Ok(PacketData::CancelEvent),
        'U' => match suffix {
            Some(t) => {
                let m = t.as_str().unicode_len();
                match parse_u_payload(t.as_str(), m, 0) {
                    Some((p, j)) => {
                        if scan_ws(t.as_str(), m, j) == m {
                            Ok(PacketData::UtteranceEvent(p))
                        } else {
                            Err(ParseError::BadUtterancePayload)
                        }
                    },
                    None => Err(ParseError::BadUtterancePayload),
                }
            },
            None => Err(ParseError::BadUtterancePayload),
        },
        'A' => match suffix {
            Some(t) => {
                let m = t.as_str().unicode_len();
                match parse_a_payload(t.as_str(), m, 0) {
                    Some((p, j)) => {
                        if scan_ws(t.as_str(), m, j) == m {
                            Ok(PacketData::ResultEvent(p))
                        } else {
                            Err(ParseError::BadResultPayload)
                        }
                    },
                    None => Err(ParseError::BadResultPayload),
                }
            },
            None => Err(ParseError::BadResultPayload),
        },
        'G' => Ok(PacketData::GrammarEvent(suffix)),
        _ => Ok(PacketData::Unrecognized),
    }
}

/// Law: whatever the options, the encoded start command opens with the
/// `s` command character, and the bare `s` acknowledgment frame that
/// answers it decodes to a clean (error-free) start acknowledgment.
pub proof fn lemma_start_round_trip(o: SCommandOptionV)
    ensures
        start_message_of(o).len() > 0,
        start_message_of(o)[0] == 's',
        decode_spec(seq!['s']) == Ok::<PacketDataV, ParseError>(
            PacketDataV::StartAck(None::<Seq<char>>),
        ),
{
    reveal_strlit("s ");
}

/// An audio wire frame: the marker byte 112 in front of the raw bytes.
pub open spec fn audio_frame_of(b: Seq<u8>) -> Seq<u8> {
    seq![112u8] + b
}

/// Builds the binary audio frame for one chunk.
pub fn audio_frame(chunk: &[u8]) -> (r: Vec<u8>)
    ensures
        r@ == audio_frame_of(chunk@),
{
    let mut v = slice_to_vec(chunk);
    v.insert(0, 112);
    proof {
        assert(v@ =~= audio_frame_of(chunk@));
    }
    v
}

} // verus!
