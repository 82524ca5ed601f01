//! The firmware's line protocol (`READY`, `INSERTED:<uid>`, `REMOVED:<uid>`,
//! `RFIDCART_FW:<id>`, `ERROR: <msg>`) and the decisions of the reader
//! watchdog: how a probe classifies a reader, which streamed lines are
//! forwarded, and when the observed connection state changes.

use crate::text::{lemma_trim_idem, chars_equal, chars_start_with, has_prefix, str_chars, string_from_chars, trim, trim_bounds};
use vstd::prelude::*;

verus! {

/// The firmware identity this app knows how to talk to.
pub const EXPECTED_FIRMWARE_ID: &'static str = "v1";

/// What the watchdog currently knows about the reader.
#[derive(Debug, Clone, Copy, PartialEq, Eq, Structural)]
pub enum ReaderState {
    Disconnected,
    ConnectedUnknownFirmware,
    ConnectedReady,
}

impl ReaderState {
    /// The name the frontend uses for this state.
    pub open spec fn name(self) -> Seq<char> {
        match self {
            ReaderState::Disconnected => "disconnected"@,
            ReaderState::ConnectedUnknownFirmware => "connectedUnknownFirmware"@,
            ReaderState::ConnectedReady => "connectedReady"@,
        }
    }

    /// The name the frontend uses for this state.
    pub fn as_str(&self) -> (res: &'static str)
        ensures
            res@ == self.name(),
    {
        match self {
            ReaderState::Disconnected => "disconnected",
            ReaderState::ConnectedUnknownFirmware => "connectedUnknownFirmware",
            ReaderState::ConnectedReady => "connectedReady",
        }
    }
}

/// One recognized line of firmware output.
#[derive(Debug, Clone, PartialEq, Eq)]
pub enum ProtocolEvent {
    Ready,
    Inserted(String),
    Removed(String),
    FirmwareId(String),
    Error(String),
}

/// The mathematical content of a [`ProtocolEvent`].
pub enum ProtocolMsg {
    Ready,
    Inserted(Seq<char>),
    Removed(Seq<char>),
    FirmwareId(Seq<char>),
    Error(Seq<char>),
}

impl View for ProtocolEvent {
    type V = ProtocolMsg;

    open spec fn view(&self) -> ProtocolMsg {
        match self {
            ProtocolEvent::Ready => ProtocolMsg::Ready,
            ProtocolEvent::Inserted(u) => ProtocolMsg::Inserted(u@),
            ProtocolEvent::Removed(u) => ProtocolMsg::Removed(u@),
            ProtocolEvent::FirmwareId(i) => ProtocolMsg::FirmwareId(i@),
            ProtocolEvent::Error(m) => ProtocolMsg::Error(m@),
        }
    }
}

/// The event a line of firmware output stands for, if any: the line is
/// trimmed, then matched exactly against `READY` or by prefix against the
/// four tagged forms; an error message is trimmed once more.
pub open spec fn line_event(line: Seq<char>) -> Option<ProtocolMsg> {
    let t = trim(line);
    if t == "READY"@ {
        Some(ProtocolMsg::Ready)
    } else if has_prefix(t, "INSERTED:"@) {
        Some(ProtocolMsg::Inserted(t.skip("INSERTED:"@.len() as int)))
    } else if has_prefix(t, "REMOVED:"@) {
        Some(ProtocolMsg::Removed(t.skip("REMOVED:"@.len() as int)))
    } else if has_prefix(t, "RFIDCART_FW:"@) {
        Some(ProtocolMsg::FirmwareId(t.skip("RFIDCART_FW:"@.len() as int)))
    } else if has_prefix(t, "ERROR:"@) {
        Some(ProtocolMsg::Error(trim(t.skip("ERROR:"@.len() as int))))
    } else {
        None
    }
}

/// Parses one line of firmware output. Anything that is not a recognized
/// protocol line gives `None`; malformed input is ignored, never an error.
pub fn parse_line(line: &str) -> (res: Option<ProtocolEvent>)
    ensures
        match res {
            Some(e) => line_event(line@) == Some(e@),
            None => line_event(line@) is None,
        },
{
    let v = str_chars(line);
    let (a, b) = trim_bounds(v.as_slice());
    let t = &v.as_slice()[a..b];
    let ready = str_chars("READY");
    if chars_equal(t, ready.as_slice()) {
        return Some(ProtocolEvent::Ready);
    }
    let inserted = str_chars("INSERTED:");
    if chars_start_with(t, inserted.as_slice()) {
        return Some(ProtocolEvent::Inserted(string_from_chars(&t[inserted.len()..t.len()])));
    }
    let removed = str_chars("REMOVED:");
    if chars_start_with(t, removed.as_slice()) {
        return Some(ProtocolEvent::Removed(string_from_chars(&t[removed.len()..t.len()])));
    }
    let firmware = str_chars("RFIDCART_FW:");
    if chars_start_with(t, firmware.as_slice()) {
        return Some(ProtocolEvent::FirmwareId(string_from_chars(&t[firmware.len()..t.len()])));
    }
    let error = str_chars("ERROR:");
    if chars_start_with(t, error.as_slice()) {
        let msg = &t[error.len()..t.len()];
        let (c, d) = trim_bounds(msg);
        return Some(ProtocolEvent::Error(string_from_chars(&msg[c..d])));
    }
    None
}

/// Whether a firmware identity is the one this app expects.
pub open spec fn firmware_state(id: Seq<char>) -> ReaderState {
    if id == EXPECTED_FIRMWARE_ID@ {
        ReaderState::ConnectedReady
    } else {
        ReaderState::ConnectedUnknownFirmware
    }
}

/// Classifies a reader from the firmware identity it reported.
pub fn classify_firmware(id: &str) -> (res: ReaderState)
    ensures
        res == firmware_state(id@),
{
    let got = str_chars(id);
    let want = str_chars(EXPECTED_FIRMWARE_ID);
    if chars_equal(got.as_slice(), want.as_slice()) {
        ReaderState::ConnectedReady
    } else {
        ReaderState::ConnectedUnknownFirmware
    }
}

/// What one attempt to read a line from the serial port gave.
#[derive(Debug, Clone, PartialEq, Eq)]
pub enum ReadOutcome {
    /// A full line arrived.
    Line(String),
    /// The port reported end of input.
    Closed,
    /// No line arrived within the port's read timeout.
    TimedOut,
    /// Any other I/O error.
    Failed,
}

/// What happened during a firmware-identity probe.
#[derive(Debug, Clone, PartialEq, Eq)]
pub enum ProbeEvent {
    /// The port could not be opened.
    OpenFailed,
    /// The `ID?` handshake could not be written.
    HandshakeFailed,
    /// A read attempt finished.
    Read(ReadOutcome),
    /// The probe's deadline passed before an answer arrived.
    DeadlinePassed,
}

/// What the probe does next.
#[derive(Debug, Clone, Copy, PartialEq, Eq)]
pub enum ProbeAction {
    /// Read another line.
    KeepReading,
    /// The probe is over and the reader is in this state.
    Conclude(ReaderState),
}

/// The probe's answer to one event: a port that cannot be opened or
/// written is disconnected; a firmware-identity line decides the state; any
/// other line is skipped; end of input, a timeout, an error or the deadline
/// leave a connected reader of unknown firmware.
pub open spec fn probe_answer(event: ProbeEvent) -> ProbeAction {
    match event {
        ProbeEvent::OpenFailed => ProbeAction::Conclude(ReaderState::Disconnected),
        ProbeEvent::HandshakeFailed => ProbeAction::Conclude(ReaderState::Disconnected),
        ProbeEvent::Read(ReadOutcome::Line(l)) => match line_event(l@) {
            Some(ProtocolMsg::FirmwareId(id)) => ProbeAction::Conclude(firmware_state(id)),
            _ => ProbeAction::KeepReading,
        },
        _ => ProbeAction::Conclude(ReaderState::ConnectedUnknownFirmware),
    }
}

/// One decision of `probe_reader`: how the reader is classified from what
/// the port did after the `ID?` handshake.
pub fn probe_step(event: &ProbeEvent) -> (res: ProbeAction)
    ensures
        res == probe_answer(*event),
{
    match event {
        ProbeEvent::OpenFailed => ProbeAction::Conclude(ReaderState::Disconnected),
        ProbeEvent::HandshakeFailed => ProbeAction::Conclude(ReaderState::Disconnected),
        ProbeEvent::Read(ReadOutcome::Line(l)) => match parse_line(l.as_str()) {
            Some(ProtocolEvent::FirmwareId(id)) => ProbeAction::Conclude(
                classify_firmware(id.as_str()),
            ),
            _ => ProbeAction::KeepReading,
        },
        _ => ProbeAction::Conclude(ReaderState::ConnectedUnknownFirmware),
    }
}

/// What the tag stream does next.
#[derive(Debug, Clone, PartialEq, Eq)]
pub enum StreamAction {
    /// Hand this tag event to the listener, then read on.
    Forward(ProtocolEvent),
    /// Read on without forwarding anything.
    KeepReading,
    /// The connection is gone; stop streaming.
    Stop,
}

/// The stream's answer to one read: insert, remove and error lines are
/// forwarded, other lines and timeouts are skipped, end of input and any
/// other error end the stream.
pub open spec fn stream_answer(read: ReadOutcome, res: StreamAction) -> bool {
    match read {
        ReadOutcome::Line(l) => match line_event(l@) {
            Some(ProtocolMsg::Inserted(u)) => res matches StreamAction::Forward(e) && e@
                == ProtocolMsg::Inserted(u),
            Some(ProtocolMsg::Removed(u)) => res matches StreamAction::Forward(e) && e@
                == ProtocolMsg::Removed(u),
            Some(ProtocolMsg::Error(m)) => res matches StreamAction::Forward(e) && e@
                == ProtocolMsg::Error(m),
            _ => res == StreamAction::KeepReading,
        },
        ReadOutcome::TimedOut => res == StreamAction::KeepReading,
        _ => res == StreamAction::Stop,
    }
}

/// One decision of the tag stream that runs while a ready reader is
/// connected.
pub fn stream_step(read: &ReadOutcome) -> (res: StreamAction)
    ensures
        stream_answer(*read, res),
        res is Stop <==> (*read is Closed || *read is Failed),
        *read is Line ==> (res is Forward || res is KeepReading),
{
    let res = match read {
        ReadOutcome::Line(l) => match parse_line(l.as_str()) {
            Some(ProtocolEvent::Inserted(u)) => StreamAction::Forward(ProtocolEvent::Inserted(u)),
            Some(ProtocolEvent::Removed(u)) => StreamAction::Forward(ProtocolEvent::Removed(u)),
            Some(ProtocolEvent::Error(m)) => StreamAction::Forward(ProtocolEvent::Error(m)),
            _ => StreamAction::KeepReading,
        },
        ReadOutcome::TimedOut => StreamAction::KeepReading,
        _ => StreamAction::Stop,
    };
    proof {
        law_stream_stops_only_when_port_ends(*read, res);
    }
    res
}

/// What the watchdog's events report to its listener.
#[derive(Debug, Clone, PartialEq, Eq)]
pub enum WatchdogEvent {
    State(ReaderState),
    Tag(ProtocolEvent),
}

/// What the watchdog observed since its last decision.
#[derive(Debug, Clone, Copy, PartialEq, Eq)]
pub enum WatchdogInput {
    /// No USB serial port is present.
    PortMissing,
    /// A port is present and a probe classified it.
    Probed(ReaderState),
    /// The tag stream on a ready reader ended.
    StreamEnded,
}

/// What the watchdog does after a decision.
#[derive(Debug, Clone, Copy, PartialEq, Eq)]
pub enum WatchdogNext {
    /// Wait one poll interval, then look for the port again.
    Poll,
    /// Stream tag events from the port until the connection drops.
    Stream,
}

/// One decision of the watchdog: its new state, the state change to report
/// (if any), and what it does next.
#[derive(Debug, Clone, Copy, PartialEq, Eq)]
pub struct WatchdogStep {
    pub state: ReaderState,
    pub report: Option<ReaderState>,
    pub next: WatchdogNext,
}

/// The watchdog's first step: it starts disconnected and says so.
pub fn watchdog_start() -> (res: WatchdogStep)
    ensures
        res == (WatchdogStep {
            state: ReaderState::Disconnected,
            report: Some(ReaderState::Disconnected),
            next: WatchdogNext::Poll,
        }),
{
    WatchdogStep {
        state: ReaderState::Disconnected,
        report: Some(ReaderState::Disconnected),
        next: WatchdogNext::Poll,
    }
}

/// The watchdog's answer to an observation made in state `state`.
pub open spec fn watchdog_answer(state: ReaderState, input: WatchdogInput) -> WatchdogStep {
    match input {
        WatchdogInput::PortMissing => WatchdogStep {
            state: ReaderState::Disconnected,
            report: if state != ReaderState::Disconnected {
                Some(ReaderState::Disconnected)
            } else {
                None
            },
            next: WatchdogNext::Poll,
        },
        WatchdogInput::Probed(observed) => WatchdogStep {
            state: observed,
            report: if observed != state {
                Some(observed)
            } else {
                None
            },
            next: if observed == ReaderState::ConnectedReady {
                WatchdogNext::Stream
            } else {
                WatchdogNext::Poll
            },
        },
        WatchdogInput::StreamEnded => WatchdogStep {
            state: ReaderState::Disconnected,
            report: Some(ReaderState::Disconnected),
            next: WatchdogNext::Poll,
        },
    }
}

/// One decision of `run_watchdog`: a missing port means disconnected, a
/// probe's verdict becomes the state, an ended stream means disconnected;
/// changes are reported, and only a ready reader is streamed from.
pub fn watchdog_step(state: ReaderState, input: WatchdogInput) -> (res: WatchdogStep)
    ensures
        res == watchdog_answer(state, input),
{
    match input {
        WatchdogInput::PortMissing => WatchdogStep {
            state: ReaderState::Disconnected,
            report: if state != ReaderState::Disconnected {
                Some(ReaderState::Disconnected)
            } else {
                None
            },
            next: WatchdogNext::Poll,
        },
        WatchdogInput::Probed(observed) => WatchdogStep {
            state: observed,
            report: if observed != state {
                Some(observed)
            } else {
                None
            },
            next: if observed == ReaderState::ConnectedReady {
                WatchdogNext::Stream
            } else {
                WatchdogNext::Poll
            },
        },
        WatchdogInput::StreamEnded => WatchdogStep {
            state: ReaderState::Disconnected,
            report: Some(ReaderState::Disconnected),
            next: WatchdogNext::Poll,
        },
    }
}

/// A serial port as the watchdog sees it.
#[derive(Debug, Clone, PartialEq, Eq)]
pub struct PortSummary {
    pub port_name: String,
    pub is_usb: bool,
}

/// Index of the first USB port in `ports`, if any.
pub open spec fn first_usb_index(ports: Seq<PortSummary>) -> Option<int>
    decreases ports.len(),
{
    if ports.len() == 0 {
        None
    } else if ports[0].is_usb {
        Some(0)
    } else {
        match first_usb_index(ports.drop_first()) {
            Some(i) => Some(i + 1),
            None => None,
        }
    }
}

proof fn lemma_first_usb_index(ports: Seq<PortSummary>)
    ensures
        match first_usb_index(ports) {
            Some(i) => 0 <= i < ports.len() && ports[i].is_usb && forall|k: int|
                0 <= k < i ==> !ports[k].is_usb,
            None => forall|k: int| 0 <= k < ports.len() ==> !ports[k].is_usb,
        },
    decreases ports.len(),
{
    if ports.len() > 0 && !ports[0].is_usb {
        let rest = ports.drop_first();
        lemma_first_usb_index(rest);
        assert forall|k: int| 0 < k < ports.len() implies ports[k] == rest[k - 1] by {}
    }
}

/// The reader's port: the first USB serial port in the system's list. There
/// is no allowlist; the first USB serial port is assumed to be the reader.
pub fn first_usb_port(ports: &Vec<PortSummary>) -> (res: Option<String>)
    ensures
        match first_usb_index(ports@) {
            Some(i) => res matches Some(n) && n@ == ports@[i].port_name@,
            None => res is None,
        },
{
    proof {
        lemma_first_usb_index(ports@);
    }
    let mut i: usize = 0;
    while i < ports.len()
        invariant
            i <= ports@.len(),
            forall|k: int| 0 <= k < i ==> !ports@[k].is_usb,
            match first_usb_index(ports@) {
                Some(j) => 0 <= j < ports@.len() && ports@[j].is_usb && forall|k: int|
                    0 <= k < j ==> !ports@[k].is_usb,
                None => forall|k: int| 0 <= k < ports@.len() ==> !ports@[k].is_usb,
            },
        decreases ports.len() - i,
    {
        if ports[i].is_usb {
            proof {
                match first_usb_index(ports@) {
                    Some(j) => {
                        if j > i {
                            assert(!ports@[i as int].is_usb);
                        }
                    },
                    None => {},
                }
            }
            return Some(ports[i].port_name.clone());
        }
        i = i + 1;
    }
    None
}

/// The frontend event a watchdog event is announced as: its name and
/// payload. State changes go out as `reader-state` with the state's name;
/// inserts, removals and reader errors as `tag-inserted`, `tag-removed` and
/// `reader-error` with the uid or message; anything else is not announced.
pub open spec fn frontend_event_of(event: WatchdogEvent) -> Option<(Seq<char>, Seq<char>)> {
    match event {
        WatchdogEvent::State(s) => Some(("reader-state"@, s.name())),
        WatchdogEvent::Tag(ProtocolEvent::Inserted(u)) => Some(("tag-inserted"@, u@)),
        WatchdogEvent::Tag(ProtocolEvent::Removed(u)) => Some(("tag-removed"@, u@)),
        WatchdogEvent::Tag(ProtocolEvent::Error(m)) => Some(("reader-error"@, m@)),
        WatchdogEvent::Tag(_) => None,
    }
}

/// How a watchdog event is announced to the frontend.
pub fn frontend_event(event: &WatchdogEvent) -> (res: Option<(String, String)>)
    ensures
        match frontend_event_of(*event) {
            Some((n, p)) => res matches Some((rn, rp)) && rn@ == n && rp@ == p,
            None => res is None,
        },
{
    match event {
        WatchdogEvent::State(s) => Some(("reader-state".to_owned(), s.as_str().to_owned())),
        WatchdogEvent::Tag(ProtocolEvent::Inserted(u)) => Some(("tag-inserted".to_owned(), u.clone())),
        WatchdogEvent::Tag(ProtocolEvent::Removed(u)) => Some(("tag-removed".to_owned(), u.clone())),
        WatchdogEvent::Tag(ProtocolEvent::Error(m)) => Some(("reader-error".to_owned(), m.clone())),
        WatchdogEvent::Tag(_) => None,
    }
}

/// Whitespace around a line (line endings included) never changes what it
/// means: a line and its trimmed form parse alike.
pub proof fn law_parse_ignores_surrounding_whitespace(line: Seq<char>)
    ensures
        line_event(trim(line)) == line_event(line),
{
    lemma_trim_idem(line);
}

/// A probe concludes that the reader is ready only when the reader
/// reported exactly the expected firmware identity.
pub proof fn law_ready_only_for_expected_firmware(event: ProbeEvent)
    ensures
        probe_answer(event) == ProbeAction::Conclude(ReaderState::ConnectedReady) ==> (event matches ProbeEvent::Read(ReadOutcome::Line(l)) && line_event(l@)
            == Some(ProtocolMsg::FirmwareId(EXPECTED_FIRMWARE_ID@))),
{
}

/// The tag stream ends only when the port does: a line of any text, a
/// protocol line or not, never stops it (an unrecognized line is skipped,
/// a tag line forwarded), a timeout never stops it, and end of input or an
/// I/O error always does.
pub proof fn law_stream_stops_only_when_port_ends(read: ReadOutcome, res: StreamAction)
    requires
        stream_answer(read, res),
    ensures
        res is Stop <==> (read is Closed || read is Failed),
        read is Line ==> (res is Forward || res is KeepReading),
        read matches ReadOutcome::Line(l) ==> (line_event(l@) matches Some(m) && (m is Inserted || m is Removed
            || m is Error)) == res is Forward,
{
}

/// The tag stream forwards insert, remove and error events and nothing
/// else; in particular a `READY` or firmware-identity line never reaches
/// the listener as a tag event.
pub proof fn law_stream_forwards_only_tag_events(read: ReadOutcome, res: StreamAction)
    requires
        stream_answer(read, res),
    ensures
        res matches StreamAction::Forward(e) ==> (e@ matches ProtocolMsg::Inserted(_) || e@ matches ProtocolMsg::Removed(_)
            || e@ matches ProtocolMsg::Error(_)),
{
}

/// Every watchdog decision reports its new state whenever the state
/// changes, reports nothing but the new state, and streams tag events only
/// from a reader running the expected firmware.
pub proof fn law_watchdog_reports_every_change(state: ReaderState, input: WatchdogInput)
    ensures
        watchdog_answer(state, input).state != state ==> watchdog_answer(state, input).report
            == Some(watchdog_answer(state, input).state),
        watchdog_answer(state, input).report is Some ==> watchdog_answer(state, input).report
            == Some(watchdog_answer(state, input).state),
        watchdog_answer(state, input).next == WatchdogNext::Stream ==> watchdog_answer(
            state,
            input,
        ).state == ReaderState::ConnectedReady,
{
}

/// One round of the watchdog loop as the machine showed it: no USB serial
/// port, or a port whose probe gave `observed`, with the lines the tag
/// stream read before the connection dropped (read only when the watchdog
/// streams, that is when `observed` is ready).
pub enum Round {
    PortMissing,
    Probed(ReaderState, Seq<Seq<char>>),
}

/// What the watchdog hands its listener, as values.
pub enum Announced {
    State(ReaderState),
    Tag(ProtocolMsg),
}

/// The announcement a step's report makes, if any.
pub open spec fn reported(report: Option<ReaderState>) -> Seq<Announced> {
    match report {
        Some(s) => seq![Announced::State(s)],
        None => seq![],
    }
}

/// The tag events a stream forwards from the lines it read, in order.
pub open spec fn streamed_tags(lines: Seq<Seq<char>>) -> Seq<Announced>
    decreases lines.len(),
{
    if lines.len() == 0 {
        seq![]
    } else {
        let head = match line_event(lines[0]) {
            Some(ProtocolMsg::Inserted(u)) => seq![Announced::Tag(ProtocolMsg::Inserted(u))],
            Some(ProtocolMsg::Removed(u)) => seq![Announced::Tag(ProtocolMsg::Removed(u))],
            Some(ProtocolMsg::Error(m)) => seq![Announced::Tag(ProtocolMsg::Error(m))],
            _ => seq![],
        };
        head + streamed_tags(lines.drop_first())
    }
}

/// One round from state `state`: the state it ends in and what it
/// announces. A ready reader is streamed from until the connection drops,
/// which the watchdog then reports.
pub open spec fn round_run(state: ReaderState, round: Round) -> (ReaderState, Seq<Announced>) {
    match round {
        Round::PortMissing => {
            let st = watchdog_answer(state, WatchdogInput::PortMissing);
            (st.state, reported(st.report))
        },
        Round::Probed(observed, lines) => {
            let st = watchdog_answer(state, WatchdogInput::Probed(observed));
            if st.next == WatchdogNext::Stream {
                let end = watchdog_answer(st.state, WatchdogInput::StreamEnded);
                (end.state, reported(st.report) + streamed_tags(lines) + reported(end.report))
            } else {
                (st.state, reported(st.report))
            }
        },
    }
}

/// What rounds starting in `state` announce.
pub open spec fn run_from(state: ReaderState, rounds: Seq<Round>) -> Seq<Announced>
    decreases rounds.len(),
{
    if rounds.len() == 0 {
        seq![]
    } else {
        let (next, said) = round_run(state, rounds[0]);
        said + run_from(next, rounds.drop_first())
    }
}

/// Everything a watchdog run announces: its start, then each round's.
pub open spec fn watchdog_run(rounds: Seq<Round>) -> Seq<Announced> {
    seq![Announced::State(ReaderState::Disconnected)] + run_from(ReaderState::Disconnected, rounds)
}

/// A message the tag stream forwards.
pub open spec fn tag_msg(m: ProtocolMsg) -> bool {
    m is Inserted || m is Removed || m is Error
}

/// Announcements that follow a reported state `last` keep order: each new
/// state differs from the one before, after ready comes disconnected, tags
/// come only while ready, and a run never ends ready.
spec fn orderly(last: ReaderState, events: Seq<Announced>) -> bool
    decreases events.len(),
{
    if events.len() == 0 {
        last != ReaderState::ConnectedReady
    } else {
        match events[0] {
            Announced::State(s) => s != last && (last == ReaderState::ConnectedReady ==> s
                == ReaderState::Disconnected) && orderly(s, events.drop_first()),
            Announced::Tag(m) => last == ReaderState::ConnectedReady && tag_msg(m) && orderly(
                last,
                events.drop_first(),
            ),
        }
    }
}

proof fn lemma_orderly_state(last: ReaderState, s: ReaderState, rest: Seq<Announced>)
    ensures
        orderly(last, seq![Announced::State(s)] + rest) == (s != last && (last
            == ReaderState::ConnectedReady ==> s == ReaderState::Disconnected) && orderly(s, rest)),
{
    let e = seq![Announced::State(s)] + rest;
    assert(e[0] == Announced::State(s));
    assert(e.drop_first() =~= rest);
}

proof fn lemma_orderly_tags(lines: Seq<Seq<char>>, rest: Seq<Announced>)
    ensures
        orderly(ReaderState::ConnectedReady, streamed_tags(lines) + rest) == orderly(
            ReaderState::ConnectedReady,
            rest,
        ),
    decreases lines.len(),
{
    if lines.len() == 0 {
        assert(streamed_tags(lines) + rest =~= rest);
    } else {
        let tail = streamed_tags(lines.drop_first());
        lemma_orderly_tags(lines.drop_first(), rest);
        let head = match line_event(lines[0]) {
            Some(ProtocolMsg::Inserted(u)) => seq![Announced::Tag(ProtocolMsg::Inserted(u))],
            Some(ProtocolMsg::Removed(u)) => seq![Announced::Tag(ProtocolMsg::Removed(u))],
            Some(ProtocolMsg::Error(m)) => seq![Announced::Tag(ProtocolMsg::Error(m))],
            _ => seq![],
        };
        assert(streamed_tags(lines) == head + tail);
        assert(streamed_tags(lines) + rest =~= head + (tail + rest));
        if head.len() == 0 {
            assert(head + (tail + rest) =~= tail + rest);
        } else {
            let e = head + (tail + rest);
            assert(e.drop_first() =~= tail + rest);
        }
    }
}

proof fn lemma_run_orderly(state: ReaderState, rounds: Seq<Round>)
    requires
        state != ReaderState::ConnectedReady,
    ensures
        orderly(state, run_from(state, rounds)),
    decreases rounds.len(),
{
    if rounds.len() > 0 {
        let (next, said) = round_run(state, rounds[0]);
        let rest = run_from(next, rounds.drop_first());
        assert(next != ReaderState::ConnectedReady);
        lemma_run_orderly(next, rounds.drop_first());
        assert(run_from(state, rounds) == said + rest);
        match rounds[0] {
            Round::PortMissing => {
                if state != ReaderState::Disconnected {
                    lemma_orderly_state(state, ReaderState::Disconnected, rest);
                } else {
                    assert(said + rest =~= rest);
                }
            },
            Round::Probed(observed, lines) => {
                if observed == ReaderState::ConnectedReady {
                    let tags = streamed_tags(lines);
                    let tail = seq![Announced::State(ReaderState::Disconnected)] + rest;
                    assert(said + rest =~= seq![Announced::State(observed)] + (tags + tail));
                    lemma_orderly_state(ReaderState::ConnectedReady, ReaderState::Disconnected, rest);
                    lemma_orderly_tags(lines, tail);
                    lemma_orderly_state(state, observed, tags + tail);
                } else if observed != state {
                    lemma_orderly_state(state, observed, rest);
                } else {
                    assert(said + rest =~= rest);
                }
            },
        }
    }
}

/// Between positions `i` and `j` of `t` there are only tag events.
pub open spec fn only_tags_between(t: Seq<Announced>, i: int, j: int) -> bool {
    forall|k: int| i < k < j ==> #[trigger] t[k] is Tag
}

/// A tag announcement carries a message the stream forwards.
pub open spec fn tag_ok(e: Announced) -> bool {
    match e {
        Announced::Tag(m) => tag_msg(m),
        Announced::State(_) => true,
    }
}

/// Two state reports with only tags between them never carry one state.
pub open spec fn no_repeated_report(t: Seq<Announced>) -> bool {
    forall|i: int, j: int|
        0 <= i < j < t.len() && t[i] is State && t[j] is State && #[trigger] only_tags_between(t, i, j)
            ==> t[i] != t[j]
}

/// Every tag comes after a ready report with only tags in between, and is
/// an insert, a removal or a reader error.
pub open spec fn tags_only_while_ready(t: Seq<Announced>) -> bool {
    forall|j: int|
        0 <= j < t.len() && #[trigger] t[j] is Tag ==> tag_ok(t[j]) && exists|i: int|
            0 <= i < j && t[i] == Announced::State(ReaderState::ConnectedReady)
                && #[trigger] only_tags_between(t, i, j)
}

/// Every ready report is followed, after its tags, by a disconnected one.
pub open spec fn ready_ends_disconnected(t: Seq<Announced>) -> bool {
    forall|i: int|
        0 <= i < t.len() && #[trigger] t[i] == Announced::State(ReaderState::ConnectedReady) ==> exists|m: int|
            i < m < t.len() && t[m] == Announced::State(ReaderState::Disconnected)
                && #[trigger] only_tags_between(t, i, m)
}

#[verifier::spinoff_prover]
#[verifier::rlimit(50)]
proof fn lemma_orderly_props(last: ReaderState, ev: Seq<Announced>)
    requires
        orderly(last, ev),
    ensures
        no_repeated_report(seq![Announced::State(last)] + ev),
        tags_only_while_ready(seq![Announced::State(last)] + ev),
        ready_ends_disconnected(seq![Announced::State(last)] + ev),
    decreases ev.len(),
{
    let t = seq![Announced::State(last)] + ev;
    assert(t[0] == Announced::State(last));
    if ev.len() == 0 {
        assert(t.len() == 1);
    } else {
        let rest = ev.drop_first();
        assert forall|k: int| 1 <= k < t.len() implies t[k] == ev[k - 1] by {}
        match ev[0] {
            Announced::State(s) => {
                lemma_orderly_props(s, rest);
                let t2 = seq![Announced::State(s)] + rest;
                assert(t2 =~= ev);
                assert forall|k: int| 1 <= k < t.len() implies #[trigger] t[k] == t2[k - 1] by {}
                assert forall|i: int, j: int|
                    0 <= i < j < t.len() && t[i] is State && t[j] is State && #[trigger] only_tags_between(
                        t,
                        i,
                        j,
                    ) implies t[i] != t[j] by {
                    if i == 0 {
                        if j > 1 {
                            assert(t[1] is Tag);
                        }
                    } else {
                        assert(only_tags_between(t2, i - 1, j - 1)) by {
                            assert forall|k: int| i - 1 < k < j - 1 implies #[trigger] t2[k] is Tag by {
                                assert(t[k + 1] is Tag);
                            }
                        }
                        assert(t2[i - 1] is State && t2[j - 1] is State);
                    }
                }
                assert forall|j: int| 0 <= j < t.len() && #[trigger] t[j] is Tag implies tag_ok(t[j])
                    && exists|i: int|
                    0 <= i < j && t[i] == Announced::State(ReaderState::ConnectedReady)
                        && #[trigger] only_tags_between(t, i, j) by {
                    assert(j >= 2);
                    assert(t2[j - 1] is Tag);
                    let i2 = choose|i2: int|
                        0 <= i2 < j - 1 && t2[i2] == Announced::State(ReaderState::ConnectedReady)
                            && #[trigger] only_tags_between(t2, i2, j - 1);
                    assert(only_tags_between(t, i2 + 1, j)) by {
                        assert forall|k: int| i2 + 1 < k < j implies #[trigger] t[k] is Tag by {
                            assert(t2[k - 1] is Tag);
                        }
                    }
                    assert(t[i2 + 1] == t2[i2]);
                }
                assert forall|i: int|
                    0 <= i < t.len() && #[trigger] t[i] == Announced::State(ReaderState::ConnectedReady)
                        implies exists|m: int|
                    i < m < t.len() && t[m] == Announced::State(ReaderState::Disconnected)
                        && #[trigger] only_tags_between(t, i, m) by {
                    if i == 0 {
                        assert(only_tags_between(t, 0, 1));
                        assert(t[1] == Announced::State(ReaderState::Disconnected));
                    } else {
                        assert(t2[i - 1] == Announced::State(ReaderState::ConnectedReady));
                        let m2 = choose|m2: int|
                            i - 1 < m2 < t2.len() && t2[m2] == Announced::State(ReaderState::Disconnected)
                                && #[trigger] only_tags_between(t2, i - 1, m2);
                        assert(only_tags_between(t, i, m2 + 1)) by {
                            assert forall|k: int| i < k < m2 + 1 implies #[trigger] t[k] is Tag by {
                                assert(t2[k - 1] is Tag);
                            }
                        }
                        assert(t[m2 + 1] == t2[m2]);
                    }
                }
            },
            Announced::Tag(msg) => {
                lemma_orderly_props(last, rest);
                let t2 = seq![Announced::State(last)] + rest;
                assert(t2[0] == Announced::State(last));
                assert forall|k: int| 2 <= k < t.len() implies #[trigger] t[k] == t2[k - 1] by {
                    assert(t[k] == ev[k - 1]);
                    assert(ev[k - 1] == rest[k - 2]);
                }
                assert(t[1] == Announced::Tag(msg));
                assert forall|i: int, j: int|
                    0 <= i < j < t.len() && t[i] is State && t[j] is State && #[trigger] only_tags_between(
                        t,
                        i,
                        j,
                    ) implies t[i] != t[j] by {
                    assert(i != 1 && j != 1);
                    let i2 = if i == 0 { 0 } else { i - 1 };
                    assert(t2[i2] == t[i]);
                    assert(t2[j - 1] == t[j]);
                    assert(only_tags_between(t2, i2, j - 1)) by {
                        assert forall|k: int| i2 < k < j - 1 implies #[trigger] t2[k] is Tag by {
                            assert(t[k + 1] is Tag);
                        }
                    }
                }
                assert forall|j: int| 0 <= j < t.len() && #[trigger] t[j] is Tag implies tag_ok(t[j])
                    && exists|i: int|
                    0 <= i < j && t[i] == Announced::State(ReaderState::ConnectedReady)
                        && #[trigger] only_tags_between(t, i, j) by {
                    if j == 1 {
                        assert(only_tags_between(t, 0, 1));
                    } else {
                        assert(t2[j - 1] is Tag);
                        let i2 = choose|i2: int|
                            0 <= i2 < j - 1 && t2[i2] == Announced::State(ReaderState::ConnectedReady)
                                && #[trigger] only_tags_between(t2, i2, j - 1);
                        let i = if i2 == 0 { 0 } else { i2 + 1 };
                        assert(t[i] == t2[i2]);
                        assert(only_tags_between(t, i, j)) by {
                            assert forall|k: int| i < k < j implies #[trigger] t[k] is Tag by {
                                if k >= 2 {
                                    assert(t2[k - 1] is Tag);
                                }
                            }
                        }
                    }
                }
                assert forall|i: int|
                    0 <= i < t.len() && #[trigger] t[i] == Announced::State(ReaderState::ConnectedReady)
                        implies exists|m: int|
                    i < m < t.len() && t[m] == Announced::State(ReaderState::Disconnected)
                        && #[trigger] only_tags_between(t, i, m) by {
                    assert(i != 1);
                    let i2 = if i == 0 { 0 } else { i - 1 };
                    assert(t2[i2] == t[i]);
                    let m2 = choose|m2: int|
                        i2 < m2 < t2.len() && t2[m2] == Announced::State(ReaderState::Disconnected)
                            && #[trigger] only_tags_between(t2, i2, m2);
                    assert(t[m2 + 1] == t2[m2]);
                    assert(only_tags_between(t, i, m2 + 1)) by {
                        assert forall|k: int| i < k < m2 + 1 implies #[trigger] t[k] is Tag by {
                            if k >= 2 {
                                assert(t2[k - 1] is Tag);
                            }
                        }
                    }
                }
            },
        }
    }
}

/// Over a whole run, whatever the ports and probes show: the watchdog first
/// announces that the reader is disconnected; it never reports the same
/// state twice in a row; tag events come only after a ready report with
/// no other report in between, and are inserts, removals or reader errors;
/// and every ready report is followed, after its tags, by a disconnected
/// one when the stream ends.
pub proof fn law_watchdog_run(rounds: Seq<Round>)
    ensures
        watchdog_run(rounds)[0] == Announced::State(ReaderState::Disconnected),
        no_repeated_report(watchdog_run(rounds)),
        tags_only_while_ready(watchdog_run(rounds)),
        ready_ends_disconnected(watchdog_run(rounds)),
{
    lemma_run_orderly(ReaderState::Disconnected, rounds);
    lemma_orderly_props(ReaderState::Disconnected, run_from(ReaderState::Disconnected, rounds));
}

} // verus!
