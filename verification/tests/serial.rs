use cart_reader::serial::{frontend_event, WatchdogEvent};
use cart_reader::serial::{
    classify_firmware, first_usb_port, parse_line, probe_step, stream_step, watchdog_start,
    watchdog_step, PortSummary, ProbeAction, ProbeEvent, ProtocolEvent, ReadOutcome, ReaderState,
    StreamAction, WatchdogInput, WatchdogNext, EXPECTED_FIRMWARE_ID,
};

#[test]
fn parses_ready() {
    assert_eq!(parse_line("READY"), Some(ProtocolEvent::Ready));
}

#[test]
fn parses_inserted_with_uid() {
    assert_eq!(
        parse_line("INSERTED:04A3B2C1"),
        Some(ProtocolEvent::Inserted("04A3B2C1".to_string()))
    );
}

#[test]
fn parses_removed_with_uid() {
    assert_eq!(
        parse_line("REMOVED:04A3B2C1"),
        Some(ProtocolEvent::Removed("04A3B2C1".to_string()))
    );
}

#[test]
fn parses_firmware_id() {
    assert_eq!(
        parse_line("RFIDCART_FW:v1"),
        Some(ProtocolEvent::FirmwareId("v1".to_string()))
    );
}

#[test]
fn parses_error_message() {
    assert_eq!(
        parse_line("ERROR: PN532 not found - check wiring and SPI switch mode"),
        Some(ProtocolEvent::Error(
            "PN532 not found - check wiring and SPI switch mode".to_string()
        ))
    );
}

#[test]
fn trims_trailing_line_endings() {
    assert_eq!(parse_line("READY\r\n"), Some(ProtocolEvent::Ready));
}

#[test]
fn malformed_line_is_ignored_not_crashed_on() {
    assert_eq!(parse_line("garbage noise on the wire"), None);
    assert_eq!(parse_line(""), None);
}

#[test]
fn parse_line_ignores_surrounding_whitespace_of_tagged_lines() {
    assert_eq!(
        parse_line("  \tINSERTED:AB12\r\n"),
        Some(ProtocolEvent::Inserted("AB12".to_string()))
    );
    assert_eq!(parse_line(" ready "), None);
    assert_eq!(parse_line("INSERTED:"), Some(ProtocolEvent::Inserted(String::new())));
}

#[test]
fn reader_state_names() {
    assert_eq!(ReaderState::Disconnected.as_str(), "disconnected");
    assert_eq!(ReaderState::ConnectedUnknownFirmware.as_str(), "connectedUnknownFirmware");
    assert_eq!(ReaderState::ConnectedReady.as_str(), "connectedReady");
}

#[test]
fn firmware_v1_is_ready_and_anything_else_is_unknown() {
    assert_eq!(EXPECTED_FIRMWARE_ID, "v1");
    assert_eq!(classify_firmware("v1"), ReaderState::ConnectedReady);
    assert_eq!(classify_firmware("v2"), ReaderState::ConnectedUnknownFirmware);
    assert_eq!(classify_firmware(""), ReaderState::ConnectedUnknownFirmware);
}

#[test]
fn probe_classifies_from_the_firmware_reply() {
    assert_eq!(
        probe_step(&ProbeEvent::OpenFailed),
        ProbeAction::Conclude(ReaderState::Disconnected)
    );
    assert_eq!(
        probe_step(&ProbeEvent::HandshakeFailed),
        ProbeAction::Conclude(ReaderState::Disconnected)
    );
    assert_eq!(
        probe_step(&ProbeEvent::Read(ReadOutcome::Line("READY\n".to_string()))),
        ProbeAction::KeepReading
    );
    assert_eq!(
        probe_step(&ProbeEvent::Read(ReadOutcome::Line("RFIDCART_FW:v1\r\n".to_string()))),
        ProbeAction::Conclude(ReaderState::ConnectedReady)
    );
    assert_eq!(
        probe_step(&ProbeEvent::Read(ReadOutcome::Line("RFIDCART_FW:v0\n".to_string()))),
        ProbeAction::Conclude(ReaderState::ConnectedUnknownFirmware)
    );
    assert_eq!(
        probe_step(&ProbeEvent::Read(ReadOutcome::TimedOut)),
        ProbeAction::Conclude(ReaderState::ConnectedUnknownFirmware)
    );
    assert_eq!(
        probe_step(&ProbeEvent::DeadlinePassed),
        ProbeAction::Conclude(ReaderState::ConnectedUnknownFirmware)
    );
}

#[test]
fn stream_forwards_only_tag_and_error_lines() {
    assert_eq!(
        stream_step(&ReadOutcome::Line("INSERTED:04A3B2C1\n".to_string())),
        StreamAction::Forward(ProtocolEvent::Inserted("04A3B2C1".to_string()))
    );
    assert_eq!(
        stream_step(&ReadOutcome::Line("REMOVED:04A3B2C1\n".to_string())),
        StreamAction::Forward(ProtocolEvent::Removed("04A3B2C1".to_string()))
    );
    assert_eq!(
        stream_step(&ReadOutcome::Line("ERROR: boom\n".to_string())),
        StreamAction::Forward(ProtocolEvent::Error("boom".to_string()))
    );
    assert_eq!(stream_step(&ReadOutcome::Line("READY\n".to_string())), StreamAction::KeepReading);
    assert_eq!(
        stream_step(&ReadOutcome::Line("RFIDCART_FW:v1\n".to_string())),
        StreamAction::KeepReading
    );
    assert_eq!(stream_step(&ReadOutcome::TimedOut), StreamAction::KeepReading);
    assert_eq!(stream_step(&ReadOutcome::Closed), StreamAction::Stop);
    assert_eq!(stream_step(&ReadOutcome::Failed), StreamAction::Stop);
}

#[test]
fn watchdog_reports_changes_and_streams_only_when_ready() {
    let start = watchdog_start();
    assert_eq!(start.state, ReaderState::Disconnected);
    assert_eq!(start.report, Some(ReaderState::Disconnected));

    let s = watchdog_step(ReaderState::Disconnected, WatchdogInput::PortMissing);
    assert_eq!(s.report, None);
    assert_eq!(s.next, WatchdogNext::Poll);

    let s = watchdog_step(
        ReaderState::Disconnected,
        WatchdogInput::Probed(ReaderState::ConnectedUnknownFirmware),
    );
    assert_eq!(s.state, ReaderState::ConnectedUnknownFirmware);
    assert_eq!(s.report, Some(ReaderState::ConnectedUnknownFirmware));
    assert_eq!(s.next, WatchdogNext::Poll);

    let s = watchdog_step(
        ReaderState::ConnectedUnknownFirmware,
        WatchdogInput::Probed(ReaderState::ConnectedUnknownFirmware),
    );
    assert_eq!(s.report, None);

    let s = watchdog_step(
        ReaderState::ConnectedUnknownFirmware,
        WatchdogInput::Probed(ReaderState::ConnectedReady),
    );
    assert_eq!(s.report, Some(ReaderState::ConnectedReady));
    assert_eq!(s.next, WatchdogNext::Stream);

    let s = watchdog_step(ReaderState::ConnectedReady, WatchdogInput::StreamEnded);
    assert_eq!(s.state, ReaderState::Disconnected);
    assert_eq!(s.report, Some(ReaderState::Disconnected));
    assert_eq!(s.next, WatchdogNext::Poll);

    let s = watchdog_step(ReaderState::ConnectedUnknownFirmware, WatchdogInput::PortMissing);
    assert_eq!(s.report, Some(ReaderState::Disconnected));
}

#[test]
fn first_usb_port_is_the_reader() {
    let ports = vec![
        PortSummary { port_name: "COM1".to_string(), is_usb: false },
        PortSummary { port_name: "COM3".to_string(), is_usb: true },
        PortSummary { port_name: "COM4".to_string(), is_usb: true },
    ];
    assert_eq!(first_usb_port(&ports), Some("COM3".to_string()));
    assert_eq!(first_usb_port(&ports[..1].to_vec()), None);
    assert_eq!(first_usb_port(&Vec::new()), None);
}

#[test]
fn watchdog_events_are_announced_to_the_frontend() {
    assert_eq!(
        frontend_event(&WatchdogEvent::State(ReaderState::ConnectedReady)),
        Some(("reader-state".to_string(), "connectedReady".to_string()))
    );
    assert_eq!(
        frontend_event(&WatchdogEvent::Tag(ProtocolEvent::Inserted("U1".into()))),
        Some(("tag-inserted".to_string(), "U1".to_string()))
    );
    assert_eq!(
        frontend_event(&WatchdogEvent::Tag(ProtocolEvent::Removed("U1".into()))),
        Some(("tag-removed".to_string(), "U1".to_string()))
    );
    assert_eq!(
        frontend_event(&WatchdogEvent::Tag(ProtocolEvent::Error("boom".into()))),
        Some(("reader-error".to_string(), "boom".to_string()))
    );
    assert_eq!(frontend_event(&WatchdogEvent::Tag(ProtocolEvent::Ready)), None);
}

#[test]
fn a_watchdog_run_never_repeats_a_report_and_ends_streams_disconnected() {
    let rounds = [
        WatchdogInput::PortMissing,
        WatchdogInput::Probed(ReaderState::ConnectedUnknownFirmware),
        WatchdogInput::Probed(ReaderState::ConnectedUnknownFirmware),
        WatchdogInput::Probed(ReaderState::ConnectedReady),
        WatchdogInput::Probed(ReaderState::ConnectedReady),
        WatchdogInput::PortMissing,
        WatchdogInput::PortMissing,
    ];
    let start = watchdog_start();
    let mut reports = vec![start.report.unwrap()];
    let mut state = start.state;
    for input in rounds {
        let step = watchdog_step(state, input);
        reports.extend(step.report);
        state = step.state;
        if step.next == WatchdogNext::Stream {
            let end = watchdog_step(state, WatchdogInput::StreamEnded);
            reports.extend(end.report);
            state = end.state;
        }
    }
    assert_eq!(
        reports,
        vec![
            ReaderState::Disconnected,
            ReaderState::ConnectedUnknownFirmware,
            ReaderState::ConnectedReady,
            ReaderState::Disconnected,
            ReaderState::ConnectedReady,
            ReaderState::Disconnected,
        ]
    );
    assert!(reports.windows(2).all(|w| w[0] != w[1]));
}
