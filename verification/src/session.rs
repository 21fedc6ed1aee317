//! The session state machine: sequences handshake, audio streaming,
//! and termination, classifying every inbound frame and owning the
//! packet log, the transcript, and the terminal error.
//!
//! The machine is pure: the caller performs the socket and file work
//! and feeds frames and audio chunks in; the machine hands wire frames
//! back.  Its whole behaviour is the spec-level transition function
//! `ingest`, and the ordering guarantees of the protocol are proved of
//! that function.

use vstd::prelude::*;
use vstd::string::{StrSliceExecFns, StringExecFns};
use crate::codec::{
    audio_frame, audio_frame_of, decode, decode_spec, opt_str_view, parse_error_message_of,
    start_message_of, Packet, PacketData, PacketDataV, PacketV, SCommandOption, SCommandOptionV,
};
use crate::text::push_char;

verus! {

/// Phases of one session, in protocol order.
#[derive(Clone, Copy, Debug, PartialEq, Eq, Structural)]
pub enum SessionState {
    Idle,
    AwaitStartAck,
    Streaming,
    AwaitEndAck,
    Closed,
    Aborted,
}

pub open spec fn is_terminal(st: SessionState) -> bool {
    st is Closed || st is Aborted
}

/// Mathematical model of a session.
#[verifier::ext_equal]
pub ghost struct SessionV {
    pub options: SCommandOptionV,
    pub state: SessionState,
    pub handshake_complete: bool,
    pub end_sent: bool,
    pub json_output: bool,
    pub packets: Seq<PacketV>,
    pub lines: Seq<Seq<char>>,
    pub error_message: Option<Seq<char>>,
    pub history: Seq<PacketDataV>,
}

/// A clean start acknowledgment: the handshake succeeded.
pub open spec fn is_ok_start_ack(p: PacketDataV) -> bool {
    p == PacketDataV::StartAck(None::<Seq<char>>)
}

pub open spec fn has_ok_start_ack(h: Seq<PacketDataV>) -> bool {
    exists|i: int| 0 <= i < h.len() && is_ok_start_ack(h[i])
}

/// A result event whose error code is empty: its text joins the
/// transcript.
pub open spec fn is_clean_result(p: PacketDataV) -> bool {
    match p {
        PacketDataV::ResultEvent(pl) => pl.code.len() == 0,
        _ => false,
    }
}

pub open spec fn result_text(p: PacketDataV) -> Seq<char> {
    match p {
        PacketDataV::ResultEvent(pl) => pl.text,
        _ => Seq::empty(),
    }
}

/// The transcript a history of observed packets yields: the text of
/// every clean result event, in arrival order.
pub open spec fn transcript_of(h: Seq<PacketDataV>) -> Seq<Seq<char>>
    decreases h.len(),
{
    if h.len() == 0 {
        Seq::empty()
    } else if is_clean_result(h.last()) {
        transcript_of(h.drop_last()).push(result_text(h.last()))
    } else {
        transcript_of(h.drop_last())
    }
}

/// The same transcript, phrased directly: keep the clean result
/// events, in order, and take their text.
pub open spec fn clean_results_of(h: Seq<PacketDataV>) -> Seq<Seq<char>> {
    h.filter(|p: PacketDataV| is_clean_result(p)).map_values(|p: PacketDataV| result_text(p))
}

/// Law: the transcript is, in order, the text of every observed result
/// event whose error code is empty, and of nothing else.
pub proof fn lemma_transcript_is_filtered_results(h: Seq<PacketDataV>)
    ensures
        transcript_of(h) == clean_results_of(h),
    decreases h.len(),
{
    reveal(Seq::filter);
    if h.len() == 0 {
        assert(transcript_of(h) =~= clean_results_of(h));
    } else {
        lemma_transcript_is_filtered_results(h.drop_last());
        if is_clean_result(h.last()) {
            assert(clean_results_of(h) =~= clean_results_of(h.drop_last()).push(
                result_text(h.last()),
            ));
        } else {
            assert(clean_results_of(h) =~= clean_results_of(h.drop_last()));
        }
    }
}

pub proof fn lemma_transcript_push(h: Seq<PacketDataV>, p: PacketDataV)
    ensures
        transcript_of(h.push(p)) == if is_clean_result(p) {
            transcript_of(h).push(result_text(p))
        } else {
            transcript_of(h)
        },
{
    assert(h.push(p).drop_last() =~= h);
    assert(h.push(p).last() == p);
}

pub proof fn lemma_has_ok_start_ack_push(h: Seq<PacketDataV>, p: PacketDataV)
    ensures
        has_ok_start_ack(h) ==> has_ok_start_ack(h.push(p)),
        is_ok_start_ack(p) ==> has_ok_start_ack(h.push(p)),
{
    if has_ok_start_ack(h) {
        let i = choose|i: int| 0 <= i < h.len() && is_ok_start_ack(h[i]);
        assert(h.push(p)[i] == h[i]);
    }
    if is_ok_start_ack(p) {
        assert(h.push(p)[h.len() as int] == p);
    }
}

/// Aborting: the first fatal condition fills the terminal-error slot.
pub open spec fn abort_of(s: SessionV, e: Seq<char>) -> SessionV {
    SessionV { state: SessionState::Aborted, error_message: Some(e), ..s }
}

/// Observing one decoded packet in a non-terminal state.
pub open spec fn step(s: SessionV, p: PacketDataV) -> SessionV {
    match p {
        PacketDataV::StartAck(e) => match e {
            None => SessionV {
                handshake_complete: true,
                state: if s.state is AwaitStartAck {
                    SessionState::Streaming
                } else {
                    s.state
                },
                ..s
            },
            Some(msg) => abort_of(s, msg),
        },
        PacketDataV::ProgressAck(msg) => abort_of(s, msg),
        PacketDataV::EndAck(e) => match e {
            None => SessionV { state: SessionState::Closed, ..s },
            Some(msg) => abort_of(s, msg),
        },
        PacketDataV::ResultEvent(pl) => if pl.code.len() == 0 {
            SessionV { lines: s.lines.push(pl.text), ..s }
        } else {
            abort_of(s, pl.message)
        },
        _ => s,
    }
}

/// Logging one packet: the history always grows, the packet log only
/// when capture is on.
pub open spec fn record_of(s: SessionV, pkt: PacketV) -> SessionV {
    SessionV {
        history: s.history.push(pkt.data),
        packets: if s.json_output {
            s.packets.push(pkt)
        } else {
            s.packets
        },
        ..s
    }
}

/// The whole effect of one inbound text frame: terminal states absorb
/// it; a decode failure aborts; a decoded packet is logged and then
/// stepped.
pub open spec fn ingest(s: SessionV, raw: Seq<char>, ts: Seq<char>) -> SessionV {
    if is_terminal(s.state) {
        s
    } else {
        match decode_spec(raw) {
            Ok(d) => step(record_of(s, PacketV { inserted_time: ts, data: d, raw }), d),
            Err(e) => abort_of(s, parse_error_message_of(e)),
        }
    }
}

/// Well-formedness: the transcript tracks the history, streaming
/// presupposes a clean start acknowledgment, the end command pins the
/// late phases, and the error slot is filled exactly when aborted.
pub open spec fn wf_v(s: SessionV) -> bool {
    &&& s.lines == transcript_of(s.history)
    &&& (s.handshake_complete ==> has_ok_start_ack(s.history))
    &&& (s.state is Streaming ==> s.handshake_complete)
    &&& (s.end_sent ==> (s.state is AwaitEndAck || s.state is Closed || s.state is Aborted))
    &&& (s.error_message is Some <==> s.state is Aborted)
}

/// Law: observing any frame keeps a session well formed.
pub proof fn lemma_ingest_preserves_wf(s: SessionV, raw: Seq<char>, ts: Seq<char>)
    requires
        wf_v(s),
    ensures
        wf_v(ingest(s, raw, ts)),
{
    if !is_terminal(s.state) {
        match decode_spec(raw) {
            Ok(d) => {
                lemma_transcript_push(s.history, d);
                lemma_has_ok_start_ack_push(s.history, d);
            },
            Err(_) => {},
        }
    }
}

/// Law: while no clean start acknowledgment stands in the history, the
/// machine does not stream, so no audio frame is ever produced.
pub proof fn lemma_no_audio_before_start_ack(s: SessionV)
    requires
        wf_v(s),
        !has_ok_start_ack(s.history),
    ensures
        !(s.state is Streaming),
{
}

/// Law: a start acknowledgment that carries error text aborts the
/// session at once, surfaces that text verbatim, and leaves the
/// transcript alone; the machine never reaches the streaming phase on
/// that frame.
pub proof fn lemma_start_ack_error_aborts(s: SessionV, raw: Seq<char>, ts: Seq<char>, e: Seq<char>)
    requires
        !is_terminal(s.state),
        decode_spec(raw) == Ok::<PacketDataV, crate::codec::ParseError>(
            PacketDataV::StartAck(Some(e)),
        ),
    ensures
        ingest(s, raw, ts).state is Aborted,
        ingest(s, raw, ts).error_message == Some(e),
        ingest(s, raw, ts).lines == s.lines,
        ingest(s, raw, ts).handshake_complete == s.handshake_complete,
{
}

/// Law: a clean start acknowledgment completes the handshake, and one
/// observed while the machine awaits it starts the streaming phase.
pub proof fn lemma_clean_start_ack_streams(s: SessionV, raw: Seq<char>, ts: Seq<char>)
    requires
        !is_terminal(s.state),
        decode_spec(raw) == Ok::<PacketDataV, crate::codec::ParseError>(
            PacketDataV::StartAck(None::<Seq<char>>),
        ),
    ensures
        ingest(s, raw, ts).handshake_complete,
        s.state is AwaitStartAck ==> ingest(s, raw, ts).state is Streaming,
{
}

/// Law: a frame that fails to decode aborts the session at once with
/// the parse error's message and leaves the transcript alone; being
/// aborted, the machine produces no further audio frame.
pub proof fn lemma_parse_failure_aborts(
    s: SessionV,
    raw: Seq<char>,
    ts: Seq<char>,
    e: crate::codec::ParseError,
)
    requires
        !is_terminal(s.state),
        decode_spec(raw) == Err::<PacketDataV, crate::codec::ParseError>(e),
    ensures
        ingest(s, raw, ts).state is Aborted,
        ingest(s, raw, ts).error_message == Some(parse_error_message_of(e)),
        ingest(s, raw, ts).lines == s.lines,
{
}

/// Law: a terminal session absorbs every further frame unchanged, so
/// exactly one terminal outcome stands.
pub proof fn lemma_terminal_absorbs(s: SessionV, raw: Seq<char>, ts: Seq<char>)
    requires
        is_terminal(s.state),
    ensures
        ingest(s, raw, ts) == s,
{
}

/// Law: a result event with an empty error code appends exactly its
/// text to the transcript; one with a non-empty code leaves the
/// transcript alone and aborts with the payload's message.
pub proof fn lemma_result_event_transcript(
    s: SessionV,
    raw: Seq<char>,
    ts: Seq<char>,
    pl: crate::payload::AEventPayloadV,
)
    requires
        wf_v(s),
        !is_terminal(s.state),
        decode_spec(raw) == Ok::<PacketDataV, crate::codec::ParseError>(
            PacketDataV::ResultEvent(pl),
        ),
    ensures
        pl.code.len() == 0 ==> ingest(s, raw, ts).lines == s.lines.push(pl.text),
        pl.code.len() > 0 ==> ingest(s, raw, ts).lines == s.lines
            && ingest(s, raw, ts).state is Aborted
            && ingest(s, raw, ts).error_message == Some(pl.message),
{
}

/// Law: once the end command has been emitted the machine never
/// streams again, whatever else arrives; with `on_audio_eof` emitting
/// the end frame only from the streaming phase, at most one end
/// command leaves per session.
pub proof fn lemma_end_command_once(s: SessionV, raw: Seq<char>, ts: Seq<char>)
    requires
        wf_v(s),
        s.end_sent,
    ensures
        ingest(s, raw, ts).end_sent,
        !(ingest(s, raw, ts).state is Streaming),
        wf_v(ingest(s, raw, ts)),
{
    lemma_ingest_preserves_wf(s, raw, ts);
}

/// What the session hands the output writer: options, the packet log,
/// the transcript, and the terminal error if any.
#[derive(Clone, Debug, PartialEq)]
pub struct JsonOutput {
    pub option: SCommandOption,
    pub packets: Vec<Packet>,
    pub lines: Vec<String>,
    pub error_message: Option<String>,
}

/// Transcript lines joined by single newlines.
pub open spec fn join_lines(ls: Seq<Seq<char>>) -> Seq<char>
    decreases ls.len(),
{
    if ls.len() == 0 {
        Seq::empty()
    } else if ls.len() == 1 {
        ls[0]
    } else {
        join_lines(ls.drop_last()) + seq!['\n'] + ls.last()
    }
}

impl JsonOutput {
    /// The plain-text output: transcript lines joined by newlines.
    pub fn transcript_text(&self) -> (r: String)
        ensures
            r@ == join_lines(self.lines@.map_values(|l: String| l@)),
    {
        let ghost m = self.lines@.map_values(|l: String| l@);
        let n = self.lines.len();
        let mut out = String::new();
        let mut i: usize = 0;
        while i < n
            invariant
                0 <= i <= n,
                n == self.lines.len(),
                m == self.lines@.map_values(|l: String| l@),
                out@ == join_lines(m.subrange(0, i as int)),
            decreases n - i,
        {
            if i > 0 {
                push_char(&mut out, '\n');
            }
            out.append(self.lines[i].as_str());
            proof {
                let pre = m.subrange(0, i as int);
                let cur = m.subrange(0, i + 1);
                assert(cur.drop_last() =~= pre);
                assert(cur.last() == m[i as int]);
            }
            i = i + 1;
        }
        proof {
            assert(m.subrange(0, n as int) =~= m);
        }
        out
    }
}

/// One live session.  All mutation goes through the methods below, and
/// every mutation is exactly what the model functions say.
pub struct Session {
    options: SCommandOption,
    state: SessionState,
    handshake_complete: bool,
    end_sent: bool,
    json_output: bool,
    packets: Vec<Packet>,
    lines: Vec<String>,
    error_message: Option<String>,
    history: Ghost<Seq<PacketDataV>>,
}

impl View for Session {
    type V = SessionV;

    closed spec fn view(&self) -> SessionV {
        SessionV {
            options: self.options@,
            state: self.state,
            handshake_complete: self.handshake_complete,
            end_sent: self.end_sent,
            json_output: self.json_output,
            packets: self.packets@.map_values(|p: Packet| p@),
            lines: self.lines@.map_values(|l: String| l@),
            error_message: opt_str_view(self.error_message),
            history: self.history@,
        }
    }
}

impl Session {
    pub open spec fn wf(&self) -> bool {
        wf_v(self@)
    }

    /// A fresh idle session around the given options.
    pub fn new(options: SCommandOption, json_output: bool) -> (r: Session)
        ensures
            r.wf(),
            r@.options == options@,
            r@.state is Idle,
            !r@.handshake_complete,
            !r@.end_sent,
            r@.json_output == json_output,
            r@.packets == Seq::<PacketV>::empty(),
            r@.lines == Seq::<Seq<char>>::empty(),
            r@.error_message is None,
            r@.history == Seq::<PacketDataV>::empty(),
    {
        let r = Session {
            options,
            state: SessionState::Idle,
            handshake_complete: false,
            end_sent: false,
            json_output,
            packets: Vec::new(),
            lines: Vec::new(),
            error_message: None,
            history: Ghost(Seq::empty()),
        };
        proof {
            assert(r@.packets =~= Seq::<PacketV>::empty());
            assert(r@.lines =~= Seq::<Seq<char>>::empty());
        }
        r
    }

    /// Starts the handshake: hands back the start-command frame and
    /// awaits its acknowledgment (or streams at once when a clean
    /// acknowledgment already arrived during the defensive drain).
    pub fn begin(&mut self) -> (frame: String)
        requires
            old(self).wf(),
            old(self)@.state is Idle,
        ensures
            final(self).wf(),
            frame@ == start_message_of(old(self)@.options),
            final(self)@ == (SessionV {
                state: if old(self)@.handshake_complete {
                    SessionState::Streaming
                } else {
                    SessionState::AwaitStartAck
                },
                ..old(self)@
            }),
    {
        let frame = self.options.create_message();
        if self.handshake_complete {
            self.state = SessionState::Streaming;
        } else {
            self.state = SessionState::AwaitStartAck;
        }
        proof {
            assert(self@ =~= (SessionV {
                state: if old(self)@.handshake_complete {
                    SessionState::Streaming
                } else {
                    SessionState::AwaitStartAck
                },
                ..old(self)@
            }));
        }
        frame
    }

    /// Observes one inbound text frame: decodes it, logs it, and takes
    /// the transition the model prescribes.  `received_at` is the
    /// capture timestamp kept on the logged packet.
    pub fn on_inbound(&mut self, raw: &str, received_at: String)
        requires
            old(self).wf(),
        ensures
            final(self).wf(),
            final(self)@ == ingest(old(self)@, raw@, received_at@),
    {
        proof {
            lemma_ingest_preserves_wf(old(self)@, raw@, received_at@);
        }
        if self.state == SessionState::Closed || self.state == SessionState::Aborted {
            return ;
        }
        match decode(raw) {
            Err(pe) => {
                self.state = SessionState::Aborted;
                self.error_message = Some(pe.message());
                proof {
                    assert(self@ =~= ingest(old(self)@, raw@, received_at@));
                }
            },
            Ok(data) => {
                proof {
                    self.history@ = self.history@.push(data@);
                }
                match &data {
                    PacketData::StartAck(e) => match e {
                        None => {
                            self.handshake_complete = true;
                            if self.state == SessionState::AwaitStartAck {
                                self.state = SessionState::Streaming;
                            }
                        },
                        Some(msg) => {
                            self.state = SessionState::Aborted;
                            self.error_message = Some(msg.clone());
                        },
                    },
                    PacketData::ProgressAck(msg) => {
                        self.state = SessionState::Aborted;
                        self.error_message = Some(msg.clone());
                    },
                    PacketData::EndAck(e) => match e {
                        None => {
                            self.state = SessionState::Closed;
                        },
                        Some(msg) => {
                            self.state = SessionState::Aborted;
                            self.error_message = Some(msg.clone());
                        },
                    },
                    PacketData::ResultEvent(pl) => {
                        if pl.code.as_str().is_empty() {
                            self.lines.push(pl.text.clone());
                        } else {
                            self.state = SessionState::Aborted;
                            self.error_message = Some(pl.message.clone());
                        }
                    },
                    _ => {},
                }
                if self.json_output {
                    self.packets.push(Packet {
                        inserted_time: received_at,
                        data,
                        raw: raw.to_owned(),
                    });
                }
                proof {
                    assert(self@.packets =~= ingest(old(self)@, raw@, received_at@).packets);
                    assert(self@.lines =~= ingest(old(self)@, raw@, received_at@).lines);
                    assert(self@ =~= ingest(old(self)@, raw@, received_at@));
                }
            },
        }
    }

    /// Frames one audio chunk while streaming; outside the streaming
    /// phase no audio frame is ever produced.
    pub fn on_audio(&self, chunk: &[u8]) -> (frame: Option<Vec<u8>>)
        requires
            self.wf(),
        ensures
            self@.state is Streaming ==> (frame matches Some(f) && f@ == audio_frame_of(chunk@)),
            !(self@.state is Streaming) ==> frame is None,
            frame is Some ==> self@.handshake_complete && has_ok_start_ack(self@.history),
    {
        if self.state == SessionState::Streaming {
            Some(audio_frame(chunk))
        } else {
            None
        }
    }

    /// Audio exhaustion: from the streaming phase this hands back the
    /// end-command frame, exactly once per session, and awaits the end
    /// acknowledgment.
    pub fn on_audio_eof(&mut self) -> (frame: Option<String>)
        requires
            old(self).wf(),
        ensures
            final(self).wf(),
            old(self)@.state is Streaming ==> (frame matches Some(f) && f@ == "e"@
                && final(self)@ == (SessionV {
                    state: SessionState::AwaitEndAck,
                    end_sent: true,
                    ..old(self)@
                })),
            !(old(self)@.state is Streaming) ==> frame is None && final(self)@ == old(self)@,
            old(self)@.end_sent ==> frame is None,
    {
        if self.state == SessionState::Streaming {
            self.state = SessionState::AwaitEndAck;
            self.end_sent = true;
            proof {
                assert(self@ =~= (SessionV {
                    state: SessionState::AwaitEndAck,
                    end_sent: true,
                    ..old(self)@
                }));
            }
            Some(String::from_str("e"))
        } else {
            None
        }
    }

    /// A transport failure: fatal at once, unless the session already
    /// ended.
    pub fn on_transport_error(&mut self, message: String)
        requires
            old(self).wf(),
        ensures
            final(self).wf(),
            is_terminal(old(self)@.state) ==> final(self)@ == old(self)@,
            !is_terminal(old(self)@.state) ==> final(self)@ == abort_of(old(self)@, message@),
    {
        if self.state == SessionState::Closed || self.state == SessionState::Aborted {
            return ;
        }
        self.state = SessionState::Aborted;
        self.error_message = Some(message);
        proof {
            assert(self@ =~= abort_of(old(self)@, message@));
        }
    }

    /// Bundles the session's outcome for the output writer.
    pub fn finalize(self) -> (r: JsonOutput)
        ensures
            r.option@ == self@.options,
            r.packets@.map_values(|p: Packet| p@) == self@.packets,
            r.lines@.map_values(|l: String| l@) == self@.lines,
            opt_str_view(r.error_message) == self@.error_message,
    {
        JsonOutput {
            option: self.options,
            packets: self.packets,
            lines: self.lines,
            error_message: self.error_message,
        }
    }

    pub fn state(&self) -> (r: SessionState)
        ensures
            r == self@.state,
    {
        self.state
    }

    pub fn handshake_complete(&self) -> (r: bool)
        ensures
            r == self@.handshake_complete,
    {
        self.handshake_complete
    }

    pub fn end_sent(&self) -> (r: bool)
        ensures
            r == self@.end_sent,
    {
        self.end_sent
    }

    pub fn transcript_lines(&self) -> (r: &Vec<String>)
        ensures
            r@.map_values(|l: String| l@) == self@.lines,
    {
        &self.lines
    }

    pub fn packet_log(&self) -> (r: &Vec<Packet>)
        ensures
            r@.map_values(|p: Packet| p@) == self@.packets,
    {
        &self.packets
    }

    pub fn error_message(&self) -> (r: &Option<String>)
        ensures
            opt_str_view(*r) == self@.error_message,
    {
        &self.error_message
    }
}

} // verus!
