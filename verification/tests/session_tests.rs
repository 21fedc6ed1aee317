use ami_client::codec::SCommandOption;
use ami_client::session::{Session, SessionState};

fn opts() -> SCommandOption {
    SCommandOption {
        audio_format: "16k".to_string(),
        grammar_file_names: "-a-general".to_string(),
        authorization: "SECRET-REDACTED".to_string(),
    }
}

fn ts() -> String {
    "0.000000".to_string()
}

#[test]
fn handshake_then_streaming() {
    let mut s = Session::new(opts(), false);
    assert_eq!(s.state(), SessionState::Idle);
    let frame = s.begin();
    assert_eq!(frame, "s 16k -a-general authorization=SECRET-REDACTED");
    assert_eq!(s.state(), SessionState::AwaitStartAck);
    // no audio frame leaves before the clean start acknowledgment
    assert!(s.on_audio(&[1, 2, 3]).is_none());
    s.on_inbound("s", ts());
    assert!(s.handshake_complete());
    assert_eq!(s.state(), SessionState::Streaming);
    let audio = s.on_audio(&[1, 2, 3]).unwrap();
    assert_eq!(audio, vec![112, 1, 2, 3]);
}

#[test]
fn start_ack_error_aborts_without_audio() {
    let mut s = Session::new(opts(), false);
    s.begin();
    s.on_inbound("sERR123", ts());
    assert_eq!(s.state(), SessionState::Aborted);
    assert_eq!(s.error_message().as_deref(), Some("ERR123"));
    assert!(!s.handshake_complete());
    // aborted: no audio frame is ever produced
    assert!(s.on_audio(&[9]).is_none());
    assert!(s.on_audio_eof().is_none());
}

#[test]
fn transcript_collects_clean_results_in_order() {
    let mut s = Session::new(opts(), false);
    s.begin();
    s.on_inbound("s", ts());
    s.on_inbound(
        "A{\"results\":[],\"utteranceid\":\"u1\",\"text\":\"first\",\"code\":\"\",\"message\":\"\"}",
        ts(),
    );
    s.on_inbound("U{\"results\":[],\"text\":\"partial\"}", ts());
    s.on_inbound(
        "A{\"results\":[],\"utteranceid\":\"u2\",\"text\":\"second\",\"code\":\"\",\"message\":\"\"}",
        ts(),
    );
    assert_eq!(s.transcript_lines(), &vec!["first".to_string(), "second".to_string()]);
    assert_eq!(s.state(), SessionState::Streaming);
}

#[test]
fn result_event_with_error_code_aborts() {
    let mut s = Session::new(opts(), false);
    s.begin();
    s.on_inbound("s", ts());
    s.on_inbound(
        "A{\"results\":[],\"utteranceid\":\"u1\",\"text\":\"kept\",\"code\":\"\",\"message\":\"\"}",
        ts(),
    );
    s.on_inbound(
        "A{\"results\":[],\"utteranceid\":\"u2\",\"text\":\"lost\",\"code\":\"x\",\"message\":\"fatal result\"}",
        ts(),
    );
    assert_eq!(s.state(), SessionState::Aborted);
    assert_eq!(s.error_message().as_deref(), Some("fatal result"));
    // the failing event's text never joins the transcript
    assert_eq!(s.transcript_lines(), &vec!["kept".to_string()]);
}

#[test]
fn single_end_command_even_for_empty_audio() {
    let mut s = Session::new(opts(), false);
    s.begin();
    s.on_inbound("s", ts());
    // zero-length audio source: the first read hits the end at once
    let end = s.on_audio_eof();
    assert_eq!(end.as_deref(), Some("e"));
    assert!(s.end_sent());
    assert_eq!(s.state(), SessionState::AwaitEndAck);
    // asking again never yields a second end command
    assert!(s.on_audio_eof().is_none());
    assert!(s.on_audio(&[1]).is_none());
    s.on_inbound("e", ts());
    assert_eq!(s.state(), SessionState::Closed);
    assert!(s.on_audio_eof().is_none());
}

#[test]
fn end_ack_error_aborts() {
    let mut s = Session::new(opts(), false);
    s.begin();
    s.on_inbound("s", ts());
    s.on_audio_eof();
    s.on_inbound("esession rejected", ts());
    assert_eq!(s.state(), SessionState::Aborted);
    assert_eq!(s.error_message().as_deref(), Some("session rejected"));
}

#[test]
fn progress_ack_aborts_mid_stream() {
    let mut s = Session::new(opts(), false);
    s.begin();
    s.on_inbound("s", ts());
    s.on_inbound("pupload rejected", ts());
    assert_eq!(s.state(), SessionState::Aborted);
    assert_eq!(s.error_message().as_deref(), Some("upload rejected"));
    assert!(s.on_audio(&[1]).is_none());
}

#[test]
fn early_end_ack_closes_session() {
    let mut s = Session::new(opts(), false);
    s.begin();
    s.on_inbound("s", ts());
    s.on_inbound("e", ts());
    assert_eq!(s.state(), SessionState::Closed);
    assert!(!s.end_sent());
    assert!(s.on_audio(&[1]).is_none());
}

#[test]
fn parse_failure_aborts_without_further_audio() {
    let mut s = Session::new(opts(), false);
    s.begin();
    s.on_inbound("s", ts());
    s.on_inbound("U{broken", ts());
    assert_eq!(s.state(), SessionState::Aborted);
    assert_eq!(
        s.error_message().as_deref(),
        Some("failed to deserialize U Event Payload")
    );
    assert!(s.on_audio(&[1]).is_none());
}

#[test]
fn terminal_state_absorbs_later_frames() {
    let mut s = Session::new(opts(), false);
    s.begin();
    s.on_inbound("sERR", ts());
    assert_eq!(s.state(), SessionState::Aborted);
    // the first fatal condition stands; later frames change nothing
    s.on_inbound("s", ts());
    s.on_inbound("e", ts());
    assert_eq!(s.state(), SessionState::Aborted);
    assert_eq!(s.error_message().as_deref(), Some("ERR"));
}

#[test]
fn transport_error_aborts() {
    let mut s = Session::new(opts(), false);
    s.begin();
    s.on_transport_error("failed to read message: broken pipe".to_string());
    assert_eq!(s.state(), SessionState::Aborted);
    assert_eq!(
        s.error_message().as_deref(),
        Some("failed to read message: broken pipe")
    );
}

#[test]
fn packet_log_only_when_capture_is_on() {
    let mut quiet = Session::new(opts(), false);
    quiet.begin();
    quiet.on_inbound("s", ts());
    quiet.on_inbound("Gready", ts());
    assert!(quiet.packet_log().is_empty());

    let mut traced = Session::new(opts(), true);
    traced.begin();
    traced.on_inbound("s", "1.000001".to_string());
    traced.on_inbound("Gready", "2.000002".to_string());
    assert_eq!(traced.packet_log().len(), 2);
    assert_eq!(traced.packet_log()[0].raw, "s");
    assert_eq!(traced.packet_log()[0].inserted_time, "1.000001");
    assert_eq!(traced.packet_log()[1].raw, "Gready");
    assert_eq!(traced.packet_log()[1].data.description(), "Recieve G Event");
}

#[test]
fn ignored_events_change_nothing() {
    let mut s = Session::new(opts(), false);
    s.begin();
    s.on_inbound("s", ts());
    s.on_inbound("S1620000000123456", ts());
    s.on_inbound("E1620000000123999", ts());
    s.on_inbound("C", ts());
    s.on_inbound("Ggrammar", ts());
    s.on_inbound("zmystery", ts());
    assert_eq!(s.state(), SessionState::Streaming);
    assert!(s.transcript_lines().is_empty());
    assert!(s.error_message().is_none());
}

#[test]
fn finalize_bundles_everything() {
    let mut s = Session::new(opts(), true);
    s.begin();
    s.on_inbound("s", ts());
    s.on_inbound(
        "A{\"results\":[],\"utteranceid\":\"u\",\"text\":\"line one\",\"code\":\"\",\"message\":\"\"}",
        ts(),
    );
    s.on_inbound(
        "A{\"results\":[],\"utteranceid\":\"u\",\"text\":\"line two\",\"code\":\"\",\"message\":\"\"}",
        ts(),
    );
    s.on_audio_eof();
    s.on_inbound("e", ts());
    let out = s.finalize();
    assert_eq!(out.option.audio_format, "16k");
    assert_eq!(out.lines, vec!["line one".to_string(), "line two".to_string()]);
    assert!(out.error_message.is_none());
    assert_eq!(out.packets.len(), 4);
    assert_eq!(out.transcript_text(), "line one\nline two");
}

#[test]
fn transcript_text_empty_and_single() {
    let s = Session::new(opts(), false);
    let out = s.finalize();
    assert_eq!(out.transcript_text(), "");

    let mut s2 = Session::new(opts(), false);
    s2.begin();
    s2.on_inbound("s", ts());
    s2.on_inbound(
        "A{\"results\":[],\"utteranceid\":\"u\",\"text\":\"only\",\"code\":\"\",\"message\":\"\"}",
        ts(),
    );
    let out2 = s2.finalize();
    assert_eq!(out2.transcript_text(), "only");
}

#[test]
fn start_ack_during_defensive_drain() {
    // a clean acknowledgment that arrives before the start command is
    // sent still completes the handshake
    let mut s = Session::new(opts(), false);
    s.on_inbound("s", ts());
    assert!(s.handshake_complete());
    assert_eq!(s.state(), SessionState::Idle);
    s.begin();
    assert_eq!(s.state(), SessionState::Streaming);
}
