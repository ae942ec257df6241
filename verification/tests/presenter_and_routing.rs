use kokorobox_native::macos_app_routing::{
    apply_macos_application_routing, parse_response, request_json, validate_request, MacosApplicationRoutingAction,
    MacosApplicationRoutingConfiguration, MacosApplicationRoutingIdentifierKind,
    MacosApplicationRoutingProtocol, MacosApplicationRoutingRule, MacosApplicationRoutingState,
    WireCommand, WireResponse, MAXIMUM_REQUEST_BYTES,
};
use kokorobox_native::terminal_proxy::{assignments, content, names};
use kokorobox_native::TargetOs;
use kokorobox_native::traffic_presenter::{
    color_is_dark, format_rate, presenter_style, presenter_text_colors, run_command_stream,
    taskbar_font_height, PresenterBackend, PresenterCommand, PresenterLayout, PresenterState,
    PresenterTheme, PresenterTransition, ProtocolError, RuntimeError, StreamLine, PROTOCOL_VERSION,
    WS_CHILD, WS_POPUP,
};

#[test]
fn formats_rates_like_the_desktop_client() {
    assert_eq!(format_rate(0), "0 B");
    assert_eq!(format_rate(1023), "1023 B");
    assert_eq!(format_rate(1024), "1.00 KB");
    assert_eq!(format_rate(12 * 1024), "12.00 KB");
    assert_eq!(format_rate(100 * 1024), "100.0 KB");
    assert_eq!(format_rate(1023 * 1024), "1023 KB");
    assert_eq!(format_rate(1024 * 1024), "1.00 MB");
}

#[test]
fn formats_large_rates_with_the_largest_fitting_unit() {
    assert_eq!(format_rate(1536), "1.50 KB");
    assert_eq!(format_rate(u64::MAX), "16.00 EB");
    assert_eq!(format_rate(1024 * 1024 * 1024), "1.00 GB");
}

#[test]
fn applies_commands_to_shared_presenter_state() {
    let mut state = PresenterState::default();
    assert_eq!(state.upload_label(), "↑ —");

    assert_eq!(
        state.apply(PresenterCommand::Configure {
            version: PROTOCOL_VERSION,
            visible: true,
            layout: PresenterLayout::Horizontal,
            theme: PresenterTheme::Dark,
        }),
        PresenterTransition::Updated
    );
    assert_eq!(
        state.apply(PresenterCommand::Traffic {
            version: PROTOCOL_VERSION,
            up: 1024,
            down: 2048,
        }),
        PresenterTransition::Updated
    );

    assert!(state.visible);
    assert_eq!(state.combined_label(), "↑ 1.00 KB/s  ↓ 2.00 KB/s");
    assert_eq!(state.single_line_label(), "↑ 1.00 KB/s  ↓ 2.00 KB/s");
    assert_eq!(
        state.apply(PresenterCommand::Shutdown {
            version: PROTOCOL_VERSION,
        }),
        PresenterTransition::Shutdown
    );
}

#[test]
fn unavailable_clears_the_traffic_sample() {
    let mut state = PresenterState::default();
    state.apply(PresenterCommand::Traffic { version: PROTOCOL_VERSION, up: 1, down: 2 });
    assert_eq!(state.download_label(), "↓ 2 B/s");
    assert_eq!(
        state.apply(PresenterCommand::Unavailable { version: PROTOCOL_VERSION }),
        PresenterTransition::Updated
    );
    assert_eq!(state.combined_label(), "↑ —\n↓ —");
}

#[test]
fn attached_presenter_is_a_child_and_fallback_is_a_popup() {
    let attached = presenter_style(true);
    assert_ne!(attached & WS_CHILD, 0);
    assert_eq!(attached & WS_POPUP, 0);

    let fallback = presenter_style(false);
    assert_eq!(fallback & WS_CHILD, 0);
    assert_ne!(fallback & WS_POPUP, 0);
}

#[test]
fn taskbar_text_contrasts_with_both_light_and_dark_themes() {
    let (dark_foreground, dark_shadow) = presenter_text_colors(PresenterTheme::Dark, 0);
    assert!(!color_is_dark(dark_foreground));
    assert!(color_is_dark(dark_shadow));

    let (light_foreground, light_shadow) = presenter_text_colors(PresenterTheme::Light, 0);
    assert!(color_is_dark(light_foreground));
    assert!(!color_is_dark(light_shadow));
}

#[test]
fn taskbar_font_scales_with_the_taskbar_without_becoming_extreme() {
    assert_eq!(taskbar_font_height(48, 96), -14);
    assert_eq!(taskbar_font_height(60, 120), -18);
    assert_eq!(taskbar_font_height(72, 144), -21);
    assert_eq!(taskbar_font_height(96, 192), -28);
    assert_eq!(taskbar_font_height(48, 0), -14);
}

#[derive(Default)]
struct RecordingBackend {
    updates: Vec<PresenterState>,
    shutdowns: usize,
}

impl PresenterBackend for RecordingBackend {
    type Error = String;

    fn update(&mut self, state: PresenterState) -> Result<(), Self::Error> {
        self.updates.push(state);
        Ok(())
    }

    fn shutdown(&mut self) -> Result<(), Self::Error> {
        self.shutdowns += 1;
        Ok(())
    }
}

fn line(text: &str, decoded: Result<PresenterCommand, ProtocolError>) -> StreamLine {
    StreamLine::Line { text: text.to_string(), decoded }
}

#[test]
fn drives_backend_until_shutdown() {
    let input = vec![
        line(
            "{\"version\":1,\"type\":\"configure\",\"visible\":true,\"layout\":\"stacked\",\"theme\":\"system\"}",
            Ok(PresenterCommand::Configure {
                version: 1,
                visible: true,
                layout: PresenterLayout::Stacked,
                theme: PresenterTheme::System,
            }),
        ),
        line(
            "{\"version\":1,\"type\":\"traffic\",\"up\":1024,\"down\":2048}",
            Ok(PresenterCommand::Traffic { version: 1, up: 1024, down: 2048 }),
        ),
        line("{\"version\":1,\"type\":\"shutdown\"}", Ok(PresenterCommand::Shutdown { version: 1 })),
    ];
    let mut backend = RecordingBackend::default();

    run_command_stream(&input, &mut backend).expect("command stream");

    assert_eq!(backend.updates.len(), 2);
    assert_eq!(backend.updates[1].upload_label(), "↑ 1.00 KB/s");
    assert_eq!(backend.shutdowns, 1);
}

#[test]
fn shuts_down_when_parent_closes_stdin() {
    let input = vec![line(
        "{\"type\":\"configure\",\"version\":1,\"visible\":true,\"layout\":\"horizontal\",\"theme\":\"light\"}",
        Ok(PresenterCommand::Configure {
            version: PROTOCOL_VERSION,
            visible: true,
            layout: PresenterLayout::Horizontal,
            theme: PresenterTheme::Light,
        }),
    )];
    let mut backend = RecordingBackend::default();

    run_command_stream(&input, &mut backend).expect("command stream");

    assert_eq!(backend.updates.len(), 1);
    assert_eq!(backend.shutdowns, 1);
}

#[test]
fn stream_skips_blank_lines_and_stops_at_invalid_ones() {
    let input = vec![
        line("   ", Err(ProtocolError::InvalidJson("EOF".to_string()))),
        line("{\"version\":2,\"type\":\"shutdown\"}", Err(ProtocolError::UnsupportedVersion(2))),
        line("{\"version\":1,\"type\":\"shutdown\"}", Ok(PresenterCommand::Shutdown { version: 1 })),
    ];
    let mut backend = RecordingBackend::default();
    match run_command_stream(&input, &mut backend) {
        Err(RuntimeError::Protocol(ProtocolError::UnsupportedVersion(2))) => {}
        other => panic!("unexpected result {other:?}"),
    }
    assert_eq!(backend.updates.len(), 0);
    assert_eq!(backend.shutdowns, 0);
    let unreadable = vec![StreamLine::Unreadable("broken pipe".to_string())];
    match run_command_stream(&unreadable, &mut backend) {
        Err(RuntimeError::Input(message)) => assert_eq!(message, "broken pipe"),
        other => panic!("unexpected result {other:?}"),
    }
    assert_eq!(
        ProtocolError::UnsupportedVersion(2).message(),
        "unsupported presenter protocol version: 2"
    );
}

fn configuration() -> MacosApplicationRoutingConfiguration {
    MacosApplicationRoutingConfiguration {
        proxy_available: true,
        proxy_udp_dns: true,
        diagnostic_logging: false,
        rules: vec![MacosApplicationRoutingRule {
            signing_identifier: "com.example.app".to_string(),
            identifier_kind: MacosApplicationRoutingIdentifierKind::SigningIdentifier,
            rule_protocol: MacosApplicationRoutingProtocol::Both,
            action: MacosApplicationRoutingAction::Proxy,
            enabled: true,
            priority: 1,
        }],
    }
}

#[test]
fn typed_apply_owns_the_versioned_wire_envelope() {
    let request: serde_json::Value =
        serde_json::from_str(&request_json(WireCommand::Apply, Some(&configuration())).unwrap())
            .unwrap();
    assert_eq!(request["version"], 1);
    assert_eq!(request["command"], "apply");
    assert_eq!(request["configuration"]["failClosed"], true);
    assert_eq!(request["configuration"]["proxyHost"], "127.0.0.1");
    assert_eq!(request["configuration"]["proxyPort"], 7891);
    assert_eq!(request["configuration"]["dnsHost"], "127.0.0.1");
    assert_eq!(request["configuration"]["dnsPort"], 7892);
    assert_eq!(
        request["configuration"]["rules"][0]["identifierKind"],
        "SIGNING_IDENTIFIER"
    );
}

fn response(version: u8, state: &str) -> WireResponse {
    WireResponse {
        version,
        ok: true,
        state: state.to_string(),
        needs_user_approval: false,
        message: None,
    }
}

#[test]
fn validates_typed_configuration_and_response() {
    let mut invalid = configuration();
    invalid.rules[0].priority = 0;
    assert!(request_json(WireCommand::Apply, Some(&invalid)).is_err());

    let status = parse_response(Some(response(1, "running"))).unwrap();
    assert_eq!(status.state, MacosApplicationRoutingState::Running);
    assert!(!status.needs_user_approval);
    assert!(parse_response(Some(response(2, "running"))).is_err());
    assert!(parse_response(Some(response(1, "unknown"))).is_err());
}

#[test]
fn rejects_empty_oversized_and_nul_requests() {
    assert!(validate_request("").is_err());
    assert!(validate_request(&"x".repeat(MAXIMUM_REQUEST_BYTES + 1)).is_err());
    assert!(validate_request("bad\0request").is_err());
    assert!(validate_request(r#"{"version":1,"command":"status"}"#).is_ok());
}

#[test]
fn routing_state_names_round_trip() {
    for state in [
        MacosApplicationRoutingState::Disabled,
        MacosApplicationRoutingState::Starting,
        MacosApplicationRoutingState::Running,
    ] {
        assert_eq!(MacosApplicationRoutingState::parse(state.as_str()).unwrap(), state);
    }
    assert!(MacosApplicationRoutingState::parse("unknown").is_err());
}

#[test]
fn formats_fixed_environment_names_and_preserves_literal_values() {
    let values = assignments("127.0.0.1", 7890, &vec!["a$b\\c\"d`e".into()]).unwrap();
    assert_eq!(values.len(), names().len());
    assert_eq!(values[0], "http_proxy=http://127.0.0.1:7890");
    assert_eq!(values[3], "no_proxy=a$b\\c\"d`e");
    assert!(
        content(&values)
            .unwrap()
            .contains("no_proxy=\"a$$b\\\\c\\\"d\\`e\"")
    );
    assert!(assignments("bad\nname", 7890, &vec![]).is_err());
}

#[test]
fn apply_request_carries_the_configuration() {
    let request = apply_macos_application_routing(&configuration(), TargetOs::Macos).unwrap();
    assert_eq!(request, request_json(WireCommand::Apply, Some(&configuration())).unwrap());
    assert!(request.starts_with("{\"version\":1,\"command\":\"apply\",\"configuration\":{"));
    let mut invalid = configuration();
    invalid.rules[0].signing_identifier = String::new();
    assert_eq!(
        apply_macos_application_routing(&invalid, TargetOs::Windows).unwrap_err().message,
        "Invalid macOS application-routing rule"
    );
    assert_eq!(
        apply_macos_application_routing(&configuration(), TargetOs::Windows).unwrap_err().message,
        "UNSUPPORTED_PLATFORM: macOS application routing requires macOS"
    );
}

#[test]
fn invalid_line_after_commands_stops_without_shutdown() {
    let input = vec![
        line(
            "{\"version\":1,\"type\":\"traffic\",\"up\":1,\"down\":2}",
            Ok(PresenterCommand::Traffic { version: 1, up: 1, down: 2 }),
        ),
        line("{\"version\":1,\"type\":\"bogus\"}", Err(ProtocolError::InvalidJson("unknown variant".to_string()))),
        line("{\"version\":1,\"type\":\"unavailable\"}", Ok(PresenterCommand::Unavailable { version: 1 })),
    ];
    let mut backend = RecordingBackend::default();
    match run_command_stream(&input, &mut backend) {
        Err(RuntimeError::Protocol(ProtocolError::InvalidJson(detail))) => assert_eq!(detail, "unknown variant"),
        other => panic!("unexpected result {other:?}"),
    }
    assert_eq!(backend.updates.len(), 1);
    assert_eq!(backend.updates[0].traffic.map(|t| (t.up, t.down)), Some((1, 2)));
    assert_eq!(backend.shutdowns, 0);
}

#[derive(Default)]
struct FailingBackend {
    updates: usize,
    shutdowns: usize,
}

impl PresenterBackend for FailingBackend {
    type Error = String;

    fn update(&mut self, _state: PresenterState) -> Result<(), Self::Error> {
        self.updates += 1;
        Err("display lost".to_string())
    }

    fn shutdown(&mut self) -> Result<(), Self::Error> {
        self.shutdowns += 1;
        Ok(())
    }
}

#[test]
fn backend_failure_stops_the_run_at_the_failed_call() {
    let input = vec![
        line(
            "{\"version\":1,\"type\":\"traffic\",\"up\":1,\"down\":2}",
            Ok(PresenterCommand::Traffic { version: 1, up: 1, down: 2 }),
        ),
        line(
            "{\"version\":1,\"type\":\"traffic\",\"up\":3,\"down\":4}",
            Ok(PresenterCommand::Traffic { version: 1, up: 3, down: 4 }),
        ),
    ];
    let mut backend = FailingBackend::default();
    match run_command_stream(&input, &mut backend) {
        Err(RuntimeError::Backend(message)) => assert_eq!(message, "display lost"),
        other => panic!("unexpected result {other:?}"),
    }
    assert_eq!(backend.updates, 1);
    assert_eq!(backend.shutdowns, 0);
}
