//! The macOS application-routing bridge protocol: validating the
//! configuration, writing the versioned request, bounding its size, and
//! reading the module's response.
use vstd::prelude::*;
use crate::error::{NativeError, fails_with};
use crate::TargetOs;
use crate::text::{
    chars_of, decimal, json_quoted, json_string, push_decimal, push_str, string_of, trim, trim_exec,
    utf8_len, utf8_len_capped,
};

verus! {

broadcast use vstd::string::group_string_axioms;

pub const PROTOCOL_VERSION: u8 = 1;

pub const MAXIMUM_REQUEST_BYTES: usize = 262144;

pub const MAXIMUM_RULES: usize = 256;

#[derive(Debug, Clone, Copy, PartialEq, Eq, Structural)]
pub enum MacosApplicationRoutingIdentifierKind {
    SigningIdentifier,
    ProcessName,
}

#[derive(Debug, Clone, Copy, PartialEq, Eq, Structural)]
pub enum MacosApplicationRoutingProtocol {
    Tcp,
    Udp,
    Both,
}

#[derive(Debug, Clone, Copy, PartialEq, Eq, Structural)]
pub enum MacosApplicationRoutingAction {
    Proxy,
    Direct,
    Block,
}

#[derive(Debug, Clone)]
pub struct MacosApplicationRoutingRule {
    pub signing_identifier: String,
    pub identifier_kind: MacosApplicationRoutingIdentifierKind,
    pub rule_protocol: MacosApplicationRoutingProtocol,
    pub action: MacosApplicationRoutingAction,
    pub enabled: bool,
    pub priority: u32,
}

#[derive(Debug, Clone)]
pub struct MacosApplicationRoutingConfiguration {
    pub proxy_available: bool,
    pub proxy_udp_dns: bool,
    pub diagnostic_logging: bool,
    pub rules: Vec<MacosApplicationRoutingRule>,
}

#[derive(Debug, Clone, Copy, PartialEq, Eq, Structural)]
pub enum MacosApplicationRoutingState {
    Disabled,
    Starting,
    Running,
    Stopping,
    Error,
}

/// The wire name of a state.
pub open spec fn state_name(state: MacosApplicationRoutingState) -> Seq<char> {
    match state {
        MacosApplicationRoutingState::Disabled => "disabled"@,
        MacosApplicationRoutingState::Starting => "starting"@,
        MacosApplicationRoutingState::Running => "running"@,
        MacosApplicationRoutingState::Stopping => "stopping"@,
        MacosApplicationRoutingState::Error => "error"@,
    }
}

/// The state a wire name denotes.
pub open spec fn state_named(name: Seq<char>) -> Option<MacosApplicationRoutingState> {
    if name == "disabled"@ {
        Some(MacosApplicationRoutingState::Disabled)
    } else if name == "starting"@ {
        Some(MacosApplicationRoutingState::Starting)
    } else if name == "running"@ {
        Some(MacosApplicationRoutingState::Running)
    } else if name == "stopping"@ {
        Some(MacosApplicationRoutingState::Stopping)
    } else if name == "error"@ {
        Some(MacosApplicationRoutingState::Error)
    } else {
        None
    }
}

impl MacosApplicationRoutingState {
    pub fn as_str(self) -> (name: &'static str)
        ensures
            name@ == state_name(self),
    {
        match self {
            MacosApplicationRoutingState::Disabled => "disabled",
            MacosApplicationRoutingState::Starting => "starting",
            MacosApplicationRoutingState::Running => "running",
            MacosApplicationRoutingState::Stopping => "stopping",
            MacosApplicationRoutingState::Error => "error",
        }
    }

    /// The state a wire name denotes.
    pub fn parse(value: &str) -> (result: Result<MacosApplicationRoutingState, NativeError>)
        ensures
            match state_named(value@) {
                Some(state) => result == Ok::<MacosApplicationRoutingState, NativeError>(state),
                None => fails_with(result, "Unsupported macOS application-routing state"@),
            },
    {
        let v = value.to_string();
        if v == "disabled".to_string() {
            Ok(MacosApplicationRoutingState::Disabled)
        } else if v == "starting".to_string() {
            Ok(MacosApplicationRoutingState::Starting)
        } else if v == "running".to_string() {
            Ok(MacosApplicationRoutingState::Running)
        } else if v == "stopping".to_string() {
            Ok(MacosApplicationRoutingState::Stopping)
        } else if v == "error".to_string() {
            Ok(MacosApplicationRoutingState::Error)
        } else {
            Err(NativeError::new("Unsupported macOS application-routing state"))
        }
    }
}

/// Every state's name reads back as that state, and only state names read
/// as states.
pub proof fn state_names_round_trip(state: MacosApplicationRoutingState, name: Seq<char>)
    ensures
        state_named(state_name(state)) == Some(state),
        state_named(name) == Some(state) ==> name == state_name(state),
{
    reveal_strlit("disabled");
    reveal_strlit("starting");
    reveal_strlit("running");
    reveal_strlit("stopping");
    reveal_strlit("error");
    assert("disabled"@.len() == 8 && "disabled"@[0] == 'd');
    assert("starting"@.len() == 8 && "starting"@[0] == 's' && "starting"@[2] == 'a');
    assert("running"@.len() == 7);
    assert("stopping"@.len() == 8 && "stopping"@[0] == 's' && "stopping"@[2] == 'o');
    assert("error"@.len() == 5);
}

#[derive(Debug, Clone)]
pub struct MacosApplicationRoutingStatus {
    pub state: MacosApplicationRoutingState,
    pub needs_user_approval: bool,
    pub message: Option<String>,
}

// ---------------------------------------------------------------------------
// The configuration
// ---------------------------------------------------------------------------
/// A rule names an application (a signing identifier that is not blank and
/// holds no NUL) and has a positive priority.
pub open spec fn rule_valid(rule: MacosApplicationRoutingRule) -> bool {
    trim(rule.signing_identifier@).len() > 0 && !rule.signing_identifier@.contains('\0')
        && rule.priority != 0
}

/// The configuration is acceptable, or the message of the rule it breaks.
pub open spec fn configuration_check(configuration: MacosApplicationRoutingConfiguration) -> Result<
    (),
    Seq<char>,
> {
    if configuration.rules@.len() > MAXIMUM_RULES {
        Err("macOS application routing supports at most 256 rules"@)
    } else if exists|i: int|
        0 <= i < configuration.rules@.len() && !rule_valid(#[trigger] configuration.rules@[i]) {
        Err("Invalid macOS application-routing rule"@)
    } else {
        Ok(())
    }
}

pub fn validate_configuration(configuration: &MacosApplicationRoutingConfiguration) -> (result: Result<
    (),
    NativeError,
>)
    ensures
        match configuration_check(*configuration) {
            Ok(()) => result is Ok,
            Err(m) => fails_with(result, m),
        },
{
    if configuration.rules.len() > MAXIMUM_RULES {
        return Err(NativeError::new("macOS application routing supports at most 256 rules"));
    }
    let mut i: usize = 0;
    while i < configuration.rules.len()
        invariant
            i <= configuration.rules.len(),
            configuration.rules@.len() <= MAXIMUM_RULES,
            forall|j: int| 0 <= j < i ==> rule_valid(#[trigger] configuration.rules@[j]),
        decreases configuration.rules.len() - i,
    {
        let rule = &configuration.rules[i];
        let id = chars_of(rule.signing_identifier.as_str());
        if trim_exec(&id).len() == 0 || crate::text::contains_char(&id, '\0') || rule.priority == 0 {
            return Err(NativeError::new("Invalid macOS application-routing rule"));
        }
        i = i + 1;
    }
    Ok(())
}

// ---------------------------------------------------------------------------
// The request
// ---------------------------------------------------------------------------
/// What the module is asked to do.
#[derive(Debug, Clone, Copy, PartialEq, Eq, Structural)]
pub enum WireCommand {
    Apply,
    Stop,
    Status,
    OpenSettings,
}

/// The wire name of a command.
pub open spec fn command_name(command: WireCommand) -> Seq<char> {
    match command {
        WireCommand::Apply => "apply"@,
        WireCommand::Stop => "stop"@,
        WireCommand::Status => "status"@,
        WireCommand::OpenSettings => "open-settings"@,
    }
}

/// A JSON boolean.
pub open spec fn json_bool(b: bool) -> Seq<char> {
    if b {
        "true"@
    } else {
        "false"@
    }
}

/// The wire names of the rule's enumerations.
pub open spec fn kind_name(kind: MacosApplicationRoutingIdentifierKind) -> Seq<char> {
    match kind {
        MacosApplicationRoutingIdentifierKind::SigningIdentifier => "SIGNING_IDENTIFIER"@,
        MacosApplicationRoutingIdentifierKind::ProcessName => "PROCESS_NAME"@,
    }
}

pub open spec fn protocol_name(protocol: MacosApplicationRoutingProtocol) -> Seq<char> {
    match protocol {
        MacosApplicationRoutingProtocol::Tcp => "TCP"@,
        MacosApplicationRoutingProtocol::Udp => "UDP"@,
        MacosApplicationRoutingProtocol::Both => "BOTH"@,
    }
}

pub open spec fn action_name(action: MacosApplicationRoutingAction) -> Seq<char> {
    match action {
        MacosApplicationRoutingAction::Proxy => "PROXY"@,
        MacosApplicationRoutingAction::Direct => "DIRECT"@,
        MacosApplicationRoutingAction::Block => "BLOCK"@,
    }
}

/// One rule as a JSON object.
pub open spec fn rule_json(rule: MacosApplicationRoutingRule) -> Seq<char> {
    "{\"signingIdentifier\":"@ + json_quoted(rule.signing_identifier@) + ",\"identifierKind\":\""@
        + kind_name(rule.identifier_kind) + "\",\"ruleProtocol\":\""@ + protocol_name(
        rule.rule_protocol,
    ) + "\",\"action\":\""@ + action_name(rule.action) + "\",\"enabled\":"@ + json_bool(
        rule.enabled,
    ) + ",\"priority\":"@ + decimal(rule.priority as nat) + "}"@
}

/// `text` is `before`, then the field `"enabled":` holding `true` or `false`
/// as `enabled` says, then a comma and `after`.
pub open spec fn has_enabled_field(text: Seq<char>, before: Seq<char>, after: Seq<char>, enabled: bool) -> bool {
    text == before + "\"enabled\":"@ + (if enabled {
        "true"@
    } else {
        "false"@
    }) + ","@ + after
}

/// A rule's JSON object carries the rule's own `enabled` flag: `"enabled":`
/// followed by `true` for an enabled rule and `false` for a disabled one, so
/// a rule the user turned off is sent as off.
pub proof fn rule_json_carries_its_enabled_flag(rule: MacosApplicationRoutingRule)
    ensures
        exists|before: Seq<char>, after: Seq<char>|
            #[trigger] has_enabled_field(rule_json(rule), before, after, rule.enabled),
        rule_json(MacosApplicationRoutingRule { enabled: true, ..rule }) != rule_json(
            MacosApplicationRoutingRule { enabled: false, ..rule },
        ),
{
    reveal_strlit("\",\"enabled\":");
    reveal_strlit("\"enabled\":");
    reveal_strlit("\",");
    reveal_strlit(",\"priority\":");
    reveal_strlit(",");
    reveal_strlit("\"priority\":");
    reveal_strlit("true");
    reveal_strlit("false");
    let before = "{\"signingIdentifier\":"@ + json_quoted(rule.signing_identifier@)
        + ",\"identifierKind\":\""@ + kind_name(rule.identifier_kind) + "\",\"ruleProtocol\":\""@
        + protocol_name(rule.rule_protocol) + "\",\"action\":\""@ + action_name(rule.action)
        + "\","@;
    let after = "\"priority\":"@ + decimal(rule.priority as nat) + "}"@;
    let flag = if rule.enabled {
        "true"@
    } else {
        "false"@
    };
    assert("\",\"enabled\":"@ =~= "\","@ + "\"enabled\":"@);
    assert(",\"priority\":"@ =~= ","@ + "\"priority\":"@);
    assert(rule_json(rule) =~= before + "\"enabled\":"@ + flag + ","@ + after);
    assert(has_enabled_field(rule_json(rule), before, after, rule.enabled));
    let on = MacosApplicationRoutingRule { enabled: true, ..rule };
    let off = MacosApplicationRoutingRule { enabled: false, ..rule };
    assert(rule_json(on).len() + 1 == rule_json(off).len());
}

/// The rules as JSON objects separated by commas.
pub open spec fn rules_json(rules: Seq<MacosApplicationRoutingRule>) -> Seq<char>
    decreases rules.len(),
{
    if rules.len() == 0 {
        seq![]
    } else if rules.len() == 1 {
        rule_json(rules[0])
    } else {
        rules_json(rules.drop_last()) + ","@ + rule_json(rules.last())
    }
}

/// The configuration as sent: fail-closed, with the fixed local proxy at
/// port 7891 and DNS at port 7892.
pub open spec fn configuration_json(configuration: MacosApplicationRoutingConfiguration) -> Seq<char> {
    "{\"version\":1,\"failClosed\":true,\"proxyAvailable\":"@ + json_bool(
        configuration.proxy_available,
    ) + ",\"proxyHost\":\"127.0.0.1\",\"proxyPort\":7891,\"proxyUdpDns\":"@ + json_bool(
        configuration.proxy_udp_dns,
    ) + ",\"dnsHost\":\"127.0.0.1\",\"dnsPort\":7892,\"diagnosticLogging\":"@ + json_bool(
        configuration.diagnostic_logging,
    ) + ",\"rules\":["@ + rules_json(configuration.rules@) + "]}"@
}

/// The request: the protocol version, the command and any configuration.
pub open spec fn request_text(
    command: WireCommand,
    configuration: Option<MacosApplicationRoutingConfiguration>,
) -> Seq<char> {
    "{\"version\":1,\"command\":\""@ + command_name(command) + "\""@ + match configuration {
        Some(c) => ",\"configuration\":"@ + configuration_json(c),
        None => seq![],
    } + "}"@
}

/// A request the bridge accepts: not empty, at most 256 KiB, without NUL.
pub open spec fn request_size_valid(request: Seq<char>) -> bool {
    request.len() > 0 && utf8_len(request) <= MAXIMUM_REQUEST_BYTES && !request.contains('\0')
}

/// Checks the size of a request.
pub fn validate_request(request: &str) -> (result: Result<(), NativeError>)
    ensures
        request_size_valid(request@) ==> result is Ok,
        !request_size_valid(request@) ==> fails_with(
            result,
            "macOS application-routing request size is invalid"@,
        ),
{
    let chars = chars_of(request);
    let n = utf8_len_capped(&chars, MAXIMUM_REQUEST_BYTES);
    if chars.len() == 0 || n > MAXIMUM_REQUEST_BYTES || crate::text::contains_char(&chars, '\0') {
        return Err(NativeError::new("macOS application-routing request size is invalid"));
    }
    Ok(())
}

fn push_bool(out: &mut Vec<char>, b: bool)
    ensures
        final(out)@ == old(out)@ + json_bool(b),
{
    if b {
        push_str(out, "true");
    } else {
        push_str(out, "false");
    }
}

fn push_rule(out: &mut Vec<char>, rule: &MacosApplicationRoutingRule)
    ensures
        final(out)@ == old(out)@ + rule_json(*rule),
{
    push_str(out, "{\"signingIdentifier\":");
    push_str(out, json_string(rule.signing_identifier.as_str()).as_str());
    push_str(out, ",\"identifierKind\":\"");
    match rule.identifier_kind {
        MacosApplicationRoutingIdentifierKind::SigningIdentifier => push_str(out, "SIGNING_IDENTIFIER"),
        MacosApplicationRoutingIdentifierKind::ProcessName => push_str(out, "PROCESS_NAME"),
    }
    push_str(out, "\",\"ruleProtocol\":\"");
    match rule.rule_protocol {
        MacosApplicationRoutingProtocol::Tcp => push_str(out, "TCP"),
        MacosApplicationRoutingProtocol::Udp => push_str(out, "UDP"),
        MacosApplicationRoutingProtocol::Both => push_str(out, "BOTH"),
    }
    push_str(out, "\",\"action\":\"");
    match rule.action {
        MacosApplicationRoutingAction::Proxy => push_str(out, "PROXY"),
        MacosApplicationRoutingAction::Direct => push_str(out, "DIRECT"),
        MacosApplicationRoutingAction::Block => push_str(out, "BLOCK"),
    }
    push_str(out, "\",\"enabled\":");
    push_bool(out, rule.enabled);
    push_str(out, ",\"priority\":");
    push_decimal(out, rule.priority as u128);
    push_str(out, "}");
    assert(out@ =~= old(out)@ + rule_json(*rule));
}

#[verifier::spinoff_prover]
fn push_configuration(out: &mut Vec<char>, configuration: &MacosApplicationRoutingConfiguration)
    ensures
        final(out)@ == old(out)@ + configuration_json(*configuration),
{
    push_str(out, "{\"version\":1,\"failClosed\":true,\"proxyAvailable\":");
    push_bool(out, configuration.proxy_available);
    push_str(out, ",\"proxyHost\":\"127.0.0.1\",\"proxyPort\":7891,\"proxyUdpDns\":");
    push_bool(out, configuration.proxy_udp_dns);
    push_str(out, ",\"dnsHost\":\"127.0.0.1\",\"dnsPort\":7892,\"diagnosticLogging\":");
    push_bool(out, configuration.diagnostic_logging);
    push_str(out, ",\"rules\":[");
    let ghost before_rules = out@;
    let rules = &configuration.rules;
    let mut i: usize = 0;
    assert(rules@.take(0) =~= Seq::<MacosApplicationRoutingRule>::empty());
    while i < rules.len()
        invariant
            i <= rules.len(),
            out@ == before_rules + rules_json(rules@.take(i as int)),
        decreases rules.len() - i,
    {
        assert(rules@.take(i + 1).drop_last() =~= rules@.take(i as int));
        assert(rules@.take(i + 1).last() == rules@[i as int]);
        if i > 0 {
            push_str(out, ",");
        }
        push_rule(out, &rules[i]);
        proof {
            if i == 0 {
                assert(rules@.take(1) =~= seq![rules@[0]]);
            }
        }
        assert(out@ =~= before_rules + rules_json(rules@.take(i + 1)));
        i = i + 1;
    }
    assert(rules@.take(rules.len() as int) =~= rules@);
    push_str(out, "]}");
    assert(out@ =~= old(out)@ + configuration_json(*configuration));
}

/// The request for a command, or the message of the rule the configuration
/// or the request's size breaks.
pub open spec fn request_spec(
    command: WireCommand,
    configuration: Option<MacosApplicationRoutingConfiguration>,
) -> Result<Seq<char>, Seq<char>> {
    match configuration {
        Some(c) if configuration_check(c) is Err => Err(configuration_check(c)->Err_0),
        _ => {
            let text = request_text(command, configuration);
            if request_size_valid(text) {
                Ok(text)
            } else {
                Err("macOS application-routing request size is invalid"@)
            }
        },
    }
}

/// The configuration as an owned optional value.
pub open spec fn opt_configuration(c: Option<&MacosApplicationRoutingConfiguration>) -> Option<
    MacosApplicationRoutingConfiguration,
> {
    match c {
        Some(x) => Some(*x),
        None => None,
    }
}

/// Writes the request for a command.
pub fn request_json(
    command: WireCommand,
    configuration: Option<&MacosApplicationRoutingConfiguration>,
) -> (result: Result<String, NativeError>)
    ensures
        match request_spec(command, opt_configuration(configuration)) {
            Ok(text) => result matches Ok(s) && s@ == text,
            Err(m) => fails_with(result, m),
        },
{
    match configuration {
        Some(c) => match validate_configuration(c) {
            Err(e) => {
                return Err(e);
            },
            Ok(()) => {},
        },
        None => {},
    }
    let mut out: Vec<char> = Vec::new();
    push_str(&mut out, "{\"version\":1,\"command\":\"");
    match command {
        WireCommand::Apply => push_str(&mut out, "apply"),
        WireCommand::Stop => push_str(&mut out, "stop"),
        WireCommand::Status => push_str(&mut out, "status"),
        WireCommand::OpenSettings => push_str(&mut out, "open-settings"),
    }
    push_str(&mut out, "\"");
    match configuration {
        Some(c) => {
            push_str(&mut out, ",\"configuration\":");
            push_configuration(&mut out, c);
        },
        None => {},
    }
    push_str(&mut out, "}");
    assert(out@ =~= request_text(command, opt_configuration(configuration)));
    let request = string_of(&out);
    match validate_request(request.as_str()) {
        Err(e) => Err(e),
        Ok(()) => Ok(request),
    }
}

// ---------------------------------------------------------------------------
// The response
// ---------------------------------------------------------------------------
/// The module's response as read from its JSON.
#[derive(Debug, Clone)]
pub struct WireResponse {
    pub version: u8,
    pub ok: bool,
    pub state: String,
    pub needs_user_approval: bool,
    pub message: Option<String>,
}

/// The status a response gives, or the message of why it is refused:
/// `None` stands for a response that was not a valid response object.
pub open spec fn response_spec(response: Option<WireResponse>) -> Result<
    (MacosApplicationRoutingState, bool, Option<Seq<char>>),
    Seq<char>,
> {
    match response {
        None => Err("Unsupported macOS application-routing module response"@),
        Some(r) => if r.version != PROTOCOL_VERSION {
            Err("Unsupported macOS application-routing module response"@)
        } else if !r.ok {
            match r.message {
                Some(m) => Err(m@),
                None => Err("macOS application routing failed"@),
            }
        } else {
            match state_named(r.state@) {
                None => Err("Unsupported macOS application-routing state"@),
                Some(s) => Ok(
                    (
                        s,
                        r.needs_user_approval,
                        match r.message {
                            Some(m) => Some(m@),
                            None => None,
                        },
                    ),
                ),
            }
        },
    }
}

/// Reads the module's response.
pub fn parse_response(response: Option<WireResponse>) -> (result: Result<
    MacosApplicationRoutingStatus,
    NativeError,
>)
    ensures
        match response_spec(response) {
            Err(m) => fails_with(result, m),
            Ok((state, approval, message)) => result matches Ok(status) && status.state == state
                && status.needs_user_approval == approval && match status.message {
                Some(m) => message == Some(m@),
                None => message is None,
            },
        },
{
    let r = match response {
        None => {
            return Err(NativeError::new("Unsupported macOS application-routing module response"));
        },
        Some(r) => r,
    };
    if r.version != PROTOCOL_VERSION {
        return Err(NativeError::new("Unsupported macOS application-routing module response"));
    }
    if !r.ok {
        return match r.message {
            Some(m) => Err(NativeError { message: m }),
            None => Err(NativeError::new("macOS application routing failed")),
        };
    }
    let state = match MacosApplicationRoutingState::parse(r.state.as_str()) {
        Err(e) => {
            return Err(e);
        },
        Ok(s) => s,
    };
    Ok(
        MacosApplicationRoutingStatus {
            state,
            needs_user_approval: r.needs_user_approval,
            message: r.message,
        },
    )
}

/// What the bridge call returned: its success, the response and the error
/// text; the response on success, else the error.
pub fn bridge_outcome(ok: bool, response: Option<String>, error: Option<String>) -> (result: Result<
    String,
    NativeError,
>)
    ensures
        !ok ==> match error {
            Some(e) => fails_with(result, e@),
            None => fails_with(result, "macOS application routing failed"@),
        },
        ok ==> match response {
            Some(r) => result matches Ok(s) && s@ == r@,
            None => fails_with(result, "macOS application routing returned no response"@),
        },
{
    if !ok {
        return match error {
            Some(e) => Err(NativeError { message: e }),
            None => Err(NativeError::new("macOS application routing failed")),
        };
    }
    match response {
        Some(r) => Ok(r),
        None => Err(NativeError::new("macOS application routing returned no response")),
    }
}

/// Without the macOS bridge a request is still checked, then refused.
pub fn invoke_unsupported(request: &str) -> (result: Result<String, NativeError>)
    ensures
        request_size_valid(request@) ==> fails_with(
            result,
            "UNSUPPORTED_PLATFORM: macOS application routing requires macOS"@,
        ),
        !request_size_valid(request@) ==> fails_with(
            result,
            "macOS application-routing request size is invalid"@,
        ),
{
    match validate_request(request) {
        Err(e) => Err(e),
        Ok(()) => Err(NativeError::new("UNSUPPORTED_PLATFORM: macOS application routing requires macOS")),
    }
}

/// The request for a command on `os`: the request text where the macOS
/// bridge exists, else, once the configuration and the request are checked,
/// the unsupported-platform error.
pub open spec fn routing_request_spec(
    command: WireCommand,
    configuration: Option<MacosApplicationRoutingConfiguration>,
    os: TargetOs,
) -> Result<Seq<char>, Seq<char>> {
    match request_spec(command, configuration) {
        Err(m) => Err(m),
        Ok(text) => if os == TargetOs::Macos {
            Ok(text)
        } else {
            Err("UNSUPPORTED_PLATFORM: macOS application routing requires macOS"@)
        },
    }
}

fn routing_request(
    command: WireCommand,
    configuration: Option<&MacosApplicationRoutingConfiguration>,
    os: TargetOs,
) -> (result: Result<String, NativeError>)
    ensures
        match routing_request_spec(command, opt_configuration(configuration), os) {
            Ok(text) => result matches Ok(s) && s@ == text,
            Err(m) => fails_with(result, m),
        },
{
    match request_json(command, configuration) {
        Err(e) => Err(e),
        Ok(text) => if os == TargetOs::Macos {
            Ok(text)
        } else {
            Err(NativeError::new("UNSUPPORTED_PLATFORM: macOS application routing requires macOS"))
        },
    }
}

/// The request that applies a configuration; the app sends it to the bridge
/// and reads the reply with `parse_response`.
pub fn apply_macos_application_routing(
    configuration: &MacosApplicationRoutingConfiguration,
    os: TargetOs,
) -> (result: Result<String, NativeError>)
    ensures
        match routing_request_spec(WireCommand::Apply, Some(*configuration), os) {
            Ok(text) => result matches Ok(s) && s@ == text,
            Err(m) => fails_with(result, m),
        },
{
    routing_request(WireCommand::Apply, Some(configuration), os)
}

/// The request that asks for the status.
pub fn get_macos_application_routing_status(os: TargetOs) -> (result: Result<String, NativeError>)
    ensures
        match routing_request_spec(WireCommand::Status, None, os) {
            Ok(text) => result matches Ok(s) && s@ == text,
            Err(m) => fails_with(result, m),
        },
{
    routing_request(WireCommand::Status, None, os)
}

/// The request that stops routing.
pub fn stop_macos_application_routing(os: TargetOs) -> (result: Result<String, NativeError>)
    ensures
        match routing_request_spec(WireCommand::Stop, None, os) {
            Ok(text) => result matches Ok(s) && s@ == text,
            Err(m) => fails_with(result, m),
        },
{
    routing_request(WireCommand::Stop, None, os)
}

/// The request that opens the system settings.
pub fn open_macos_application_routing_settings(os: TargetOs) -> (result: Result<String, NativeError>)
    ensures
        match routing_request_spec(WireCommand::OpenSettings, None, os) {
            Ok(text) => result matches Ok(s) && s@ == text,
            Err(m) => fails_with(result, m),
        },
{
    routing_request(WireCommand::OpenSettings, None, os)
}

} // verus!
