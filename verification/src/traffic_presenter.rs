//! State, labels and rate formatting of the per-user traffic presenter.
//!
//! Desktop writes one versioned command per line; the presenter keeps a
//! [`PresenterState`] and renders it as "↑ … / ↓ …" labels.  Reading the
//! stream and decoding JSON happen outside the library; this module owns the
//! state machine, the protocol-version rule and the exact label text.
use vstd::prelude::*;
use crate::text::{chars_of, decimal, digit_char, digit_char_exec, push_decimal, push_str, string_of, trim, trim_exec};

verus! {

broadcast use vstd::string::group_string_axioms;

/// The only protocol version this presenter accepts.
pub const PROTOCOL_VERSION: u8 = 1;

#[derive(Debug, Clone, Copy, PartialEq, Eq, Structural)]
pub enum PresenterLayout {
    Horizontal,
    Stacked,
}

#[derive(Debug, Clone, Copy, PartialEq, Eq, Structural)]
pub enum PresenterTheme {
    System,
    Light,
    Dark,
}

#[derive(Debug, Clone, Copy, PartialEq, Eq, Structural)]
pub struct TrafficSnapshot {
    pub up: u64,
    pub down: u64,
}

#[derive(Debug, Clone, Copy, PartialEq, Eq, Structural)]
pub struct PresenterState {
    pub visible: bool,
    pub layout: PresenterLayout,
    pub theme: PresenterTheme,
    pub traffic: Option<TrafficSnapshot>,
}

/// The state before any command: hidden, stacked, system theme, no sample.
pub open spec fn initial_state() -> PresenterState {
    PresenterState {
        visible: false,
        layout: PresenterLayout::Stacked,
        theme: PresenterTheme::System,
        traffic: None,
    }
}

impl Default for PresenterState {
    fn default() -> (state: Self)
        ensures
            state == initial_state(),
    {
        PresenterState {
            visible: false,
            layout: PresenterLayout::Stacked,
            theme: PresenterTheme::System,
            traffic: None,
        }
    }
}

#[derive(Debug, Clone, Copy, PartialEq, Eq, Structural)]
pub enum PresenterTransition {
    Updated,
    Shutdown,
}

/// One protocol message.  `Unavailable` reports that Desktop has no traffic
/// sample to show.
#[derive(Debug, Clone, Copy, PartialEq, Eq, Structural)]
pub enum PresenterCommand {
    Configure { version: u8, visible: bool, layout: PresenterLayout, theme: PresenterTheme },
    Traffic { version: u8, up: u64, down: u64 },
    Unavailable { version: u8 },
    Shutdown { version: u8 },
}

/// The version a command carries.
pub open spec fn command_version(command: PresenterCommand) -> u8 {
    match command {
        PresenterCommand::Configure { version, .. } => version,
        PresenterCommand::Traffic { version, .. } => version,
        PresenterCommand::Unavailable { version } => version,
        PresenterCommand::Shutdown { version } => version,
    }
}

impl PresenterCommand {
    pub fn version(&self) -> (version: u8)
        ensures
            version == command_version(*self),
    {
        match self {
            PresenterCommand::Configure { version, .. } => *version,
            PresenterCommand::Traffic { version, .. } => *version,
            PresenterCommand::Unavailable { version } => *version,
            PresenterCommand::Shutdown { version } => *version,
        }
    }
}

/// Why a line of the command stream was rejected.
#[derive(Debug, Clone, PartialEq, Eq)]
pub enum ProtocolError {
    InvalidJson(String),
    UnsupportedVersion(u8),
}

impl ProtocolError {
    /// The text shown for this error.
    pub fn message(&self) -> (text: String)
        ensures
            text@ == match self {
                ProtocolError::InvalidJson(detail) => "invalid presenter command: "@ + detail@,
                ProtocolError::UnsupportedVersion(version) => "unsupported presenter protocol version: "@
                    + decimal(*version as nat),
            },
    {
        let mut out: Vec<char> = Vec::new();
        match self {
            ProtocolError::InvalidJson(detail) => {
                push_str(&mut out, "invalid presenter command: ");
                push_str(&mut out, detail.as_str());
            },
            ProtocolError::UnsupportedVersion(version) => {
                push_str(&mut out, "unsupported presenter protocol version: ");
                push_decimal(&mut out, *version as u128);
            },
        }
        string_of(&out)
    }
}

/// Accepts a decoded command only when it speaks [`PROTOCOL_VERSION`].
pub fn check_command_version(command: PresenterCommand) -> (result: Result<
    PresenterCommand,
    ProtocolError,
>)
    ensures
        command_version(command) == PROTOCOL_VERSION ==> result == Ok::<
            PresenterCommand,
            ProtocolError,
        >(command),
        command_version(command) != PROTOCOL_VERSION ==> result == Err::<
            PresenterCommand,
            ProtocolError,
        >(ProtocolError::UnsupportedVersion(command_version(command))),
{
    let version = command.version();
    if version != PROTOCOL_VERSION {
        return Err(ProtocolError::UnsupportedVersion(version));
    }
    Ok(command)
}

/// The state after `command`.
pub open spec fn next_state(state: PresenterState, command: PresenterCommand) -> PresenterState {
    match command {
        PresenterCommand::Configure { visible, layout, theme, .. } => PresenterState {
            visible,
            layout,
            theme,
            ..state
        },
        PresenterCommand::Traffic { up, down, .. } => PresenterState {
            traffic: Some(TrafficSnapshot { up, down }),
            ..state
        },
        PresenterCommand::Unavailable { .. } => PresenterState { traffic: None, ..state },
        PresenterCommand::Shutdown { .. } => state,
    }
}

/// A configure command sets visibility, layout and theme to exactly the
/// values it carries and keeps the traffic sample; a traffic command sets
/// the sample to its rates and keeps the rest; an unavailable command
/// clears the sample and keeps the rest; a shutdown changes nothing.
pub proof fn commands_set_what_they_carry(
    state: PresenterState,
    version: u8,
    visible: bool,
    layout: PresenterLayout,
    theme: PresenterTheme,
    up: u64,
    down: u64,
)
    ensures
        ({
            let s = next_state(state, PresenterCommand::Configure { version, visible, layout, theme });
            s.visible == visible && s.layout == layout && s.theme == theme && s.traffic
                == state.traffic
        }),
        ({
            let s = next_state(state, PresenterCommand::Traffic { version, up, down });
            s.traffic == Some(TrafficSnapshot { up, down }) && s.visible == state.visible
                && s.layout == state.layout && s.theme == state.theme
        }),
        ({
            let s = next_state(state, PresenterCommand::Unavailable { version });
            s.traffic is None && s.visible == state.visible && s.layout == state.layout && s.theme
                == state.theme
        }),
        next_state(state, PresenterCommand::Shutdown { version }) == state,
{
}

/// What a command asks of the presenter.
pub open spec fn transition_of(command: PresenterCommand) -> PresenterTransition {
    match command {
        PresenterCommand::Shutdown { .. } => PresenterTransition::Shutdown,
        _ => PresenterTransition::Updated,
    }
}

// ---------------------------------------------------------------------------
// Rate formatting
// ---------------------------------------------------------------------------
/// 2 to the power `k`.
pub open spec fn pow2(k: nat) -> nat
    decreases k,
{
    if k == 0 {
        1
    } else {
        2 * pow2((k - 1) as nat)
    }
}

/// 1024 to the power `k`.
pub open spec fn pow1024(k: nat) -> nat
    decreases k,
{
    if k == 0 {
        1
    } else {
        1024 * pow1024((k - 1) as nat)
    }
}

/// The number of binary digits of `n` (0 for 0).
pub open spec fn bit_length(n: nat) -> nat
    decreases n,
{
    if n == 0 {
        0
    } else {
        1 + bit_length(n / 2)
    }
}

/// `n / d` rounded to the nearest integer, ties to the even neighbour.
pub open spec fn round_half_even(n: nat, d: nat) -> nat
    recommends
        d > 0,
{
    let q = n / d;
    let r = n % d;
    if 2 * r > d || (2 * r == d && q % 2 == 1) {
        q + 1
    } else {
        q
    }
}

/// The value of `n as f64`: `n` rounded to a 53-bit significand, ties to even.
pub open spec fn f64_value(n: nat) -> nat {
    if bit_length(n) <= 53 {
        n
    } else {
        let e = (bit_length(n) - 53) as nat;
        round_half_even(n, pow2(e)) * pow2(e)
    }
}

/// The unit index that the division loop stops at, starting from `u`.
pub open spec fn unit_from(v: nat, u: nat) -> nat
    decreases 8 - u,
{
    if u < 8 && v >= pow1024(u + 1) {
        unit_from(v, u + 1)
    } else {
        u
    }
}

/// `v / d` written with two decimals (`{:.2}`).
pub open spec fn fixed2(v: nat, d: nat) -> Seq<char> {
    let q = round_half_even(v * 100, d);
    decimal(q / 100) + seq!['.', digit_char((q % 100) / 10), digit_char(q % 10)]
}

/// `v / d` written with one decimal (`{:.1}`).
pub open spec fn fixed1(v: nat, d: nat) -> Seq<char> {
    let q = round_half_even(v * 10, d);
    decimal(q / 10) + seq!['.', digit_char(q % 10)]
}

/// `v / d` written without decimals (`{:.0}`).
pub open spec fn fixed0(v: nat, d: nat) -> Seq<char> {
    decimal(round_half_even(v, d))
}

/// The name of unit `u`.
pub open spec fn unit_name(u: nat) -> Seq<char> {
    if u == 0 {
        "B"@
    } else if u == 1 {
        "KB"@
    } else if u == 2 {
        "MB"@
    } else if u == 3 {
        "GB"@
    } else if u == 4 {
        "TB"@
    } else if u == 5 {
        "PB"@
    } else if u == 6 {
        "EB"@
    } else if u == 7 {
        "ZB"@
    } else {
        "YB"@
    }
}

/// The text of a byte-per-second rate: whole bytes below 1024, otherwise the
/// value in the largest binary unit, with two decimals while that fits in
/// five characters, one while it fits in six, and none beyond.
pub open spec fn rate_text(bytes_per_second: nat) -> Seq<char> {
    if bytes_per_second < 1024 {
        decimal(bytes_per_second) + " B"@
    } else {
        let v = f64_value(bytes_per_second);
        let u = unit_from(v, 0);
        let d = pow1024(u);
        let number = if fixed2(v, d).len() <= 5 {
            fixed2(v, d)
        } else if fixed2(v, d).len() == 6 {
            fixed1(v, d)
        } else {
            fixed0(v, d)
        };
        number + " "@ + unit_name(u)
    }
}

proof fn lemma_pow2_monotone(i: nat, j: nat)
    requires
        i <= j,
    ensures
        pow2(i) <= pow2(j),
        pow2(i) >= 1,
    decreases j,
{
    if j > i {
        lemma_pow2_monotone(i, (j - 1) as nat);
    } else if i > 0 {
        lemma_pow2_monotone((i - 1) as nat, (i - 1) as nat);
    }
}

proof fn lemma_pow1024_monotone(i: nat, j: nat)
    requires
        i <= j,
    ensures
        pow1024(i) <= pow1024(j),
        pow1024(i) >= 1,
    decreases j,
{
    if j > i {
        lemma_pow1024_monotone(i, (j - 1) as nat);
    } else if i > 0 {
        lemma_pow1024_monotone((i - 1) as nat, (i - 1) as nat);
    }
}

proof fn lemma_bit_length_bound(n: nat, k: nat)
    requires
        n < pow2(k),
    ensures
        bit_length(n) <= k,
    decreases k,
{
    if n > 0 && k > 0 {
        lemma_bit_length_bound(n / 2, (k - 1) as nat);
    }
}

/// Decimal lengths around the thresholds used by [`rate_text`].
proof fn lemma_decimal_len(n: nat)
    ensures
        n < 10 ==> decimal(n).len() == 1,
        10 <= n < 100 ==> decimal(n).len() == 2,
        n < 100 ==> decimal(n).len() <= 2,
        100 <= n < 1000 ==> decimal(n).len() == 3,
        n >= 1000 ==> decimal(n).len() >= 4,
    decreases n,
{
    if n >= 10 {
        lemma_decimal_len(n / 10);
    }
}

fn round_half_even_exec(n: u128, d: u128) -> (r: u128)
    requires
        d > 0,
        n <= 0x1_0000_0000_0000_0000_0000_0000,
        d <= 0x1_0000_0000_0000_0000_0000_0000,
    ensures
        r == round_half_even(n as nat, d as nat),
{
    let q = n / d;
    let rem = n % d;
    if 2 * rem > d || (2 * rem == d && q % 2 == 1) {
        q + 1
    } else {
        q
    }
}

/// `b as f64`, as an exact integer.
fn f64_value_exec(b: u64) -> (v: u128)
    ensures
        v == f64_value(b as nat),
        v <= 0x1_0000_0000_0000_0800,
{
    let mut len: u64 = 0;
    let mut rest: u64 = b;
    while rest > 0
        invariant
            bit_length(b as nat) == len + bit_length(rest as nat),
            len <= 64,
            rest <= b,
        decreases rest,
    {
        proof {
            assert(bit_length(rest as nat) == 1 + bit_length((rest / 2) as nat));
            if len == 64 {
                assert(pow2(64) == 0x1_0000_0000_0000_0000) by {
                    reveal_with_fuel(pow2, 65);
                }
                lemma_bit_length_bound(b as nat, 64);
            }
        }
        rest = rest / 2;
        len = len + 1;
    }
    if len <= 53 {
        return b as u128;
    }
    let e = len - 53;
    proof {
        assert(pow2(64) == 0x1_0000_0000_0000_0000) by {
            reveal_with_fuel(pow2, 65);
        }
        lemma_bit_length_bound(b as nat, 64);
        assert(pow2(11) == 2048) by {
            reveal_with_fuel(pow2, 12);
        }
    }
    let mut p: u128 = 1;
    let mut i: u64 = 0;
    while i < e
        invariant
            i <= e,
            e <= 11,
            p == pow2(i as nat),
        decreases e - i,
    {
        proof {
            lemma_pow2_monotone(i as nat, 10);
            assert(pow2(10) == 1024) by {
                reveal_with_fuel(pow2, 11);
            }
        }
        p = p * 2;
        i = i + 1;
    }
    proof {
        lemma_pow2_monotone(e as nat, 11);
    }
    let q = round_half_even_exec(b as u128, p);
    assert(q <= (b as u128) / p + 1);
    assert((b as u128) / p <= b as u128) by (nonlinear_arith)
        requires
            p >= 1,
    ;
    assert(q * p <= 0x1_0000_0000_0000_0000 * 2048) by (nonlinear_arith)
        requires
            q <= 0x1_0000_0000_0000_0000,
            p <= 2048,
    ;
    let v = q * p;
    assert(v <= 0x1_0000_0000_0000_0800) by (nonlinear_arith)
        requires
            v == q * p,
            q <= (b as u128) / p + 1,
            p >= 1,
            b < 0x1_0000_0000_0000_0000,
            p <= 2048,
    ;
    v
}

/// The unit the division loop of [`rate_text`] stops at, with its divisor.
fn rate_unit_exec(v: u128) -> (result: (usize, u128))
    requires
        v <= 0x1_0000_0000_0000_0800,
    ensures
        result.0 == unit_from(v as nat, 0),
        result.1 == pow1024(result.0 as nat),
        result.0 <= 8,
{
    let mut unit: usize = 0;
    let mut d: u128 = 1;
    proof {
        assert(pow1024(7) == 0x40_0000_0000_0000_0000) by {
            reveal_with_fuel(pow1024, 8);
        }
        lemma_pow1024_monotone(0, 7);
    }
    while unit < 8 && v >= d * 1024
        invariant
            unit <= 8,
            d == pow1024(unit as nat),
            unit_from(v as nat, 0) == unit_from(v as nat, unit as nat),
            pow1024(7) == 0x40_0000_0000_0000_0000,
            unit < 8 ==> d <= 0x40_0000_0000_0000_0000,
        decreases 8 - unit,
    {
        proof {
            lemma_pow1024_monotone(unit as nat, 7);
            if unit + 1 < 8 {
                lemma_pow1024_monotone((unit + 1) as nat, 7);
            }
        }
        d = d * 1024;
        unit = unit + 1;
    }
    proof {
        if unit < 8 {
            lemma_pow1024_monotone(unit as nat, 7);
        }
    }
    (unit, d)
}

fn unit_name_exec(unit: usize) -> (name: &'static str)
    ensures
        name@ == unit_name(unit as nat),
{
    if unit == 0 {
        "B"
    } else if unit == 1 {
        "KB"
    } else if unit == 2 {
        "MB"
    } else if unit == 3 {
        "GB"
    } else if unit == 4 {
        "TB"
    } else if unit == 5 {
        "PB"
    } else if unit == 6 {
        "EB"
    } else if unit == 7 {
        "ZB"
    } else {
        "YB"
    }
}

/// Appends [`rate_text`] of `bytes_per_second` to `out`.
fn push_rate(out: &mut Vec<char>, bytes_per_second: u64)
    ensures
        final(out)@ == old(out)@ + rate_text(bytes_per_second as nat),
{
    if bytes_per_second < 1024 {
        push_decimal(out, bytes_per_second as u128);
        push_str(out, " B");
        return;
    }
    let v = f64_value_exec(bytes_per_second);
    let (unit, d) = rate_unit_exec(v);
    proof {
        lemma_pow1024_monotone(unit as nat, 8);
        assert(pow1024(8) == 0x1_0000_0000_0000_0000_0000) by {
            reveal_with_fuel(pow1024, 9);
        }
    }
    let ghost number: Seq<char>;
    let q2 = round_half_even_exec(v * 100, d);
    let ghost f2 = fixed2(v as nat, d as nat);
    proof {
        assert(f2.len() == decimal((q2 / 100) as nat).len() + 3);
        lemma_decimal_len((q2 / 100) as nat);
    }
    if q2 < 10000 {
        push_decimal(out, q2 / 100);
        out.push('.');
        out.push(digit_char_exec(((q2 % 100) / 10) as u8));
        out.push(digit_char_exec((q2 % 10) as u8));
        proof {
            number = f2;
        }
    } else if q2 < 100000 {
        let q1 = round_half_even_exec(v * 10, d);
        push_decimal(out, q1 / 10);
        out.push('.');
        out.push(digit_char_exec((q1 % 10) as u8));
        proof {
            number = fixed1(v as nat, d as nat);
        }
    } else {
        let q0 = round_half_even_exec(v, d);
        push_decimal(out, q0);
        proof {
            number = fixed0(v as nat, d as nat);
        }
    }
    push_str(out, " ");
    push_str(out, unit_name_exec(unit));
    proof {
        assert(out@ =~= old(out)@ + (number + " "@ + unit_name(unit as nat)));
    }
}

/// Formats a byte-per-second counter the way Desktop does: `"0 B"`,
/// `"1023 B"`, `"1.00 KB"`, `"100.0 KB"`, `"1023 KB"`, `"1.00 MB"`.
pub fn format_rate(bytes_per_second: u64) -> (text: String)
    ensures
        text@ == rate_text(bytes_per_second as nat),
{
    let mut out: Vec<char> = Vec::new();
    push_rate(&mut out, bytes_per_second);
    proof {
        assert(out@ =~= rate_text(bytes_per_second as nat));
    }
    string_of(&out)
}

/// Text without a line feed.
pub open spec fn single_line(text: Seq<char>) -> bool {
    forall|i: int| 0 <= i < text.len() ==> #[trigger] text[i] != '\n'
}

proof fn lemma_single_line_concat(a: Seq<char>, b: Seq<char>)
    requires
        single_line(a),
        single_line(b),
    ensures
        single_line(a + b),
{
    assert forall|i: int| 0 <= i < (a + b).len() implies #[trigger] (a + b)[i] != '\n' by {
        if i >= a.len() {
            assert((a + b)[i] == b[i - a.len()]);
        }
    }
}

proof fn lemma_decimal_single_line(n: nat)
    ensures
        single_line(decimal(n)),
{
    crate::text::lemma_decimal_digits(n);
}

proof fn lemma_fixed_single_line(v: nat, d: nat)
    ensures
        single_line(fixed2(v, d)),
        single_line(fixed1(v, d)),
        single_line(fixed0(v, d)),
{
    let q2 = round_half_even(v * 100, d);
    let q1 = round_half_even(v * 10, d);
    lemma_decimal_single_line(q2 / 100);
    lemma_decimal_single_line(q1 / 10);
    lemma_decimal_single_line(round_half_even(v, d));
    lemma_single_line_concat(decimal(q2 / 100), seq!['.', digit_char((q2 % 100) / 10), digit_char(q2 % 10)]);
    lemma_single_line_concat(decimal(q1 / 10), seq!['.', digit_char(q1 % 10)]);
}

/// A rate is written on one line.
pub proof fn lemma_rate_text_single_line(bytes_per_second: nat)
    ensures
        single_line(rate_text(bytes_per_second)),
{
    reveal_strlit(" B");
    reveal_strlit(" ");
    reveal_strlit("B");
    reveal_strlit("KB");
    reveal_strlit("MB");
    reveal_strlit("GB");
    reveal_strlit("TB");
    reveal_strlit("PB");
    reveal_strlit("EB");
    reveal_strlit("ZB");
    reveal_strlit("YB");
    if bytes_per_second < 1024 {
        lemma_decimal_single_line(bytes_per_second);
        lemma_single_line_concat(decimal(bytes_per_second), " B"@);
    } else {
        let v = f64_value(bytes_per_second);
        let u = unit_from(v, 0);
        let d = pow1024(u);
        lemma_fixed_single_line(v, d);
        let number = if fixed2(v, d).len() <= 5 {
            fixed2(v, d)
        } else if fixed2(v, d).len() == 6 {
            fixed1(v, d)
        } else {
            fixed0(v, d)
        };
        lemma_single_line_concat(number, " "@);
        lemma_single_line_concat(number + " "@, unit_name(u));
    }
}

/// Each traffic label is written on one line.
pub proof fn lemma_labels_single_line(state: PresenterState)
    ensures
        single_line(upload_text(state)),
        single_line(download_text(state)),
{
    reveal_strlit("↑ ");
    reveal_strlit("↓ ");
    reveal_strlit("/s");
    reveal_strlit("↑ —");
    reveal_strlit("↓ —");
    match state.traffic {
        Some(traffic) => {
            lemma_rate_text_single_line(traffic.up as nat);
            lemma_rate_text_single_line(traffic.down as nat);
            lemma_single_line_concat("↑ "@, rate_text(traffic.up as nat));
            lemma_single_line_concat("↑ "@ + rate_text(traffic.up as nat), "/s"@);
            lemma_single_line_concat("↓ "@, rate_text(traffic.down as nat));
            lemma_single_line_concat("↓ "@ + rate_text(traffic.down as nat), "/s"@);
        },
        None => {},
    }
}

// ---------------------------------------------------------------------------
// Labels
// ---------------------------------------------------------------------------
/// "↑ <rate>/s", or "↑ —" before the first sample.
pub open spec fn upload_text(state: PresenterState) -> Seq<char> {
    match state.traffic {
        Some(traffic) => "↑ "@ + rate_text(traffic.up as nat) + "/s"@,
        None => "↑ —"@,
    }
}

/// "↓ <rate>/s", or "↓ —" before the first sample.
pub open spec fn download_text(state: PresenterState) -> Seq<char> {
    match state.traffic {
        Some(traffic) => "↓ "@ + rate_text(traffic.down as nat) + "/s"@,
        None => "↓ —"@,
    }
}

/// What separates the two labels in a layout.
pub open spec fn layout_separator(layout: PresenterLayout) -> Seq<char> {
    match layout {
        PresenterLayout::Horizontal => "  "@,
        PresenterLayout::Stacked => "\n"@,
    }
}

impl PresenterState {
    /// Applies one command and reports whether the presenter should redraw or
    /// shut down.  Shutdown leaves the state as it was.
    pub fn apply(&mut self, command: PresenterCommand) -> (transition: PresenterTransition)
        ensures
            *final(self) == next_state(*old(self), command),
            transition == transition_of(command),
    {
        match command {
            PresenterCommand::Configure { visible, layout, theme, .. } => {
                self.visible = visible;
                self.layout = layout;
                self.theme = theme;
                PresenterTransition::Updated
            },
            PresenterCommand::Traffic { up, down, .. } => {
                self.traffic = Some(TrafficSnapshot { up, down });
                PresenterTransition::Updated
            },
            PresenterCommand::Unavailable { .. } => {
                self.traffic = None;
                PresenterTransition::Updated
            },
            PresenterCommand::Shutdown { .. } => PresenterTransition::Shutdown,
        }
    }

    pub fn upload_label(&self) -> (label: String)
        ensures
            label@ == upload_text(*self),
    {
        let mut out: Vec<char> = Vec::new();
        self.push_upload(&mut out);
        proof {
            assert(out@ =~= upload_text(*self));
        }
        string_of(&out)
    }

    pub fn download_label(&self) -> (label: String)
        ensures
            label@ == download_text(*self),
    {
        let mut out: Vec<char> = Vec::new();
        self.push_download(&mut out);
        proof {
            assert(out@ =~= download_text(*self));
        }
        string_of(&out)
    }

    /// Both labels, side by side or one above the other as the layout says.
    pub fn combined_label(&self) -> (label: String)
        ensures
            label@ == upload_text(*self) + layout_separator(self.layout) + download_text(*self),
    {
        let mut out: Vec<char> = Vec::new();
        self.push_upload(&mut out);
        match self.layout {
            PresenterLayout::Horizontal => push_str(&mut out, "  "),
            PresenterLayout::Stacked => push_str(&mut out, "\n"),
        }
        self.push_download(&mut out);
        proof {
            assert(out@ =~= upload_text(*self) + layout_separator(self.layout) + download_text(
                *self,
            ));
        }
        string_of(&out)
    }

    /// Both labels on one line.
    pub fn single_line_label(&self) -> (label: String)
        ensures
            label@ == upload_text(*self) + "  "@ + download_text(*self),
            single_line(label@),
    {
        proof {
            reveal_strlit("  ");
            lemma_labels_single_line(*self);
            lemma_single_line_concat(upload_text(*self), "  "@);
            lemma_single_line_concat(upload_text(*self) + "  "@, download_text(*self));
        }
        let mut out: Vec<char> = Vec::new();
        self.push_upload(&mut out);
        push_str(&mut out, "  ");
        self.push_download(&mut out);
        proof {
            assert(out@ =~= upload_text(*self) + "  "@ + download_text(*self));
        }
        string_of(&out)
    }

    fn push_upload(&self, out: &mut Vec<char>)
        ensures
            final(out)@ == old(out)@ + upload_text(*self),
    {
        match self.traffic {
            Some(traffic) => {
                push_str(out, "↑ ");
                push_rate(out, traffic.up);
                push_str(out, "/s");
                proof {
                    assert(out@ =~= old(out)@ + upload_text(*self));
                }
            },
            None => push_str(out, "↑ —"),
        }
    }

    fn push_download(&self, out: &mut Vec<char>)
        ensures
            final(out)@ == old(out)@ + download_text(*self),
    {
        match self.traffic {
            Some(traffic) => {
                push_str(out, "↓ ");
                push_rate(out, traffic.down);
                push_str(out, "/s");
                proof {
                    assert(out@ =~= old(out)@ + download_text(*self));
                }
            },
            None => push_str(out, "↓ —"),
        }
    }
}

} // verus!

verus! {

// ---------------------------------------------------------------------------
// Command stream
// ---------------------------------------------------------------------------
/// What the reader of the command stream observed.
#[derive(Debug, Clone, Copy, PartialEq, Eq, Structural)]
pub enum StreamEvent {
    /// A line holding only white space.
    Blank,
    /// A decoded command of the supported version.
    Command(PresenterCommand),
    /// Desktop closed the stream.
    Closed,
}

/// What the presenter backend must do next.
#[derive(Debug, Clone, Copy, PartialEq, Eq, Structural)]
pub enum StreamAction {
    /// Read the next line.
    Continue,
    /// Redraw with this state, then read the next line.
    Update(PresenterState),
    /// Hide the presentation and stop; closing the stream counts as shutdown.
    Shutdown,
}

/// The decision of the command-stream loop for one event.
pub open spec fn stream_action(state: PresenterState, event: StreamEvent) -> StreamAction {
    match event {
        StreamEvent::Blank => StreamAction::Continue,
        StreamEvent::Closed => StreamAction::Shutdown,
        StreamEvent::Command(command) => match transition_of(command) {
            PresenterTransition::Updated => StreamAction::Update(next_state(state, command)),
            PresenterTransition::Shutdown => StreamAction::Shutdown,
        },
    }
}

/// Closing the input stream is equivalent to a shutdown command: both end
/// the presenter without changing what it shows.
pub proof fn closing_the_stream_is_a_shutdown(state: PresenterState, version: u8)
    ensures
        stream_action(state, StreamEvent::Closed) == stream_action(
            state,
            StreamEvent::Command(PresenterCommand::Shutdown { version }),
        ),
        stream_action(state, StreamEvent::Closed) == StreamAction::Shutdown,
        next_state(state, PresenterCommand::Shutdown { version }) == state,
{
}

/// One step of the command-stream loop: applies a command to `state` and says
/// whether to redraw, keep reading or shut down.
pub fn stream_step(state: &mut PresenterState, event: StreamEvent) -> (action: StreamAction)
    ensures
        action == stream_action(*old(state), event),
        *final(state) == match event {
            StreamEvent::Command(command) => next_state(*old(state), command),
            _ => *old(state),
        },
{
    match event {
        StreamEvent::Blank => StreamAction::Continue,
        StreamEvent::Closed => StreamAction::Shutdown,
        StreamEvent::Command(command) => match state.apply(command) {
            PresenterTransition::Updated => StreamAction::Update(*state),
            PresenterTransition::Shutdown => StreamAction::Shutdown,
        },
    }
}

/// Whether a line of the stream is blank and is skipped.
pub fn is_blank_line(line: &str) -> (blank: bool)
    ensures
        blank == (trim(line@).len() == 0),
{
    let chars = chars_of(line);
    let trimmed = trim_exec(&chars);
    trimmed.len() == 0
}

/// A call made on a presenter backend.
#[derive(Debug, Clone, Copy, PartialEq, Eq, Structural)]
pub enum BackendCall {
    /// `update` with this state.
    Update(PresenterState),
    /// `shutdown`.
    Shutdown,
}

/// Where the presenter's output goes: a platform backend that shows the
/// state and hides it on shutdown.  A backend may keep a log of the calls
/// made on it (`calls`), each with whether it succeeded; one that says so
/// (`keeps_call_log`) appends each call and its outcome to it.  A backend
/// that keeps no log (the default) promises nothing of `calls`.
pub trait PresenterBackend {
    type Error;

    /// Whether this backend keeps the call log that `update` and `shutdown`
    /// promise.
    closed spec fn keeps_call_log() -> bool {
        false
    }

    /// The calls made on this backend so far, oldest first, each with
    /// whether it succeeded, for a backend that keeps the log.
    closed spec fn calls(&self) -> Seq<(BackendCall, bool)> {
        Seq::empty()
    }

    /// Shows `state`.
    fn update(&mut self, state: PresenterState) -> (result: Result<(), Self::Error>)
        ensures
            Self::keeps_call_log() ==> final(self).calls() == old(self).calls().push(
                (BackendCall::Update(state), result is Ok),
            ),
    ;

    /// Hides the presentation before the process exits.
    fn shutdown(&mut self) -> (result: Result<(), Self::Error>)
        ensures
            Self::keeps_call_log() ==> final(self).calls() == old(self).calls().push(
                (BackendCall::Shutdown, result is Ok),
            ),
    ;
}

/// Why running a command stream stopped early.
#[derive(Debug)]
pub enum RuntimeError<E> {
    /// Reading the stream failed, with the error's text.
    Input(String),
    /// A line was not a valid protocol message.
    Protocol(ProtocolError),
    /// The backend failed.
    Backend(E),
}

/// A line of the command stream: its text with what decoding it as a
/// protocol message gave, or the error of reading it.
#[derive(Debug)]
pub enum StreamLine {
    Line { text: String, decoded: Result<PresenterCommand, ProtocolError> },
    Unreadable(String),
}

/// How a command stream ends, by the rules of the protocol alone.
pub enum StreamEnd {
    /// A shutdown command, or the end of the stream.
    Shutdown,
    /// A line could not be read.
    Input(Seq<char>),
    /// A line was not a valid protocol message.
    Protocol(ProtocolError),
}

/// How the stream ends from line `i` on, in state `state`: blank lines are
/// skipped, the first unreadable or invalid line stops it, a shutdown
/// command or the end of input closes it.
pub open spec fn stream_end(lines: Seq<StreamLine>, i: int, state: PresenterState) -> StreamEnd
    decreases lines.len() - i,
{
    if i < 0 || i >= lines.len() {
        StreamEnd::Shutdown
    } else {
        match lines[i] {
            StreamLine::Unreadable(message) => StreamEnd::Input(message@),
            StreamLine::Line { text, decoded } => if trim(text@).len() == 0 {
                stream_end(lines, i + 1, state)
            } else {
                match decoded {
                    Err(error) => StreamEnd::Protocol(error),
                    Ok(command) => match transition_of(command) {
                        PresenterTransition::Shutdown => StreamEnd::Shutdown,
                        PresenterTransition::Updated => stream_end(
                            lines,
                            i + 1,
                            next_state(state, command),
                        ),
                    },
                }
            },
        }
    }
}

/// The backend calls of a stream from line `i` on, in state `state`: each
/// command before the end shows the state it leads to, and a shutdown
/// command or the end of input shuts the backend down; an unreadable or
/// invalid line ends the calls without a shutdown.
pub open spec fn stream_calls(lines: Seq<StreamLine>, i: int, state: PresenterState) -> Seq<
    BackendCall,
>
    decreases lines.len() - i,
{
    if i < 0 || i >= lines.len() {
        seq![BackendCall::Shutdown]
    } else {
        match lines[i] {
            StreamLine::Unreadable(_) => seq![],
            StreamLine::Line { text, decoded } => if trim(text@).len() == 0 {
                stream_calls(lines, i + 1, state)
            } else {
                match decoded {
                    Err(_) => seq![],
                    Ok(command) => match transition_of(command) {
                        PresenterTransition::Shutdown => seq![BackendCall::Shutdown],
                        PresenterTransition::Updated => seq![
                            BackendCall::Update(next_state(state, command)),
                        ] + stream_calls(lines, i + 1, next_state(state, command)),
                    },
                }
            },
        }
    }
}

/// The calls of a stream are updates, followed by a single shutdown exactly
/// when the stream ends in a shutdown (a shutdown command or the end of
/// input); a stream stopped by an unreadable or invalid line shuts nothing
/// down.
pub proof fn streams_shut_down_once_at_the_end(lines: Seq<StreamLine>, i: int, state: PresenterState)
    ensures
        ({
            let calls = stream_calls(lines, i, state);
            &&& (stream_end(lines, i, state) is Shutdown) <==> (calls.len() >= 1 && calls.last()
                is Shutdown)
            &&& forall|j: int|
                0 <= j < calls.len() && (#[trigger] calls[j] is Shutdown) ==> j == calls.len() - 1
        }),
    decreases lines.len() - i,
{
    if 0 <= i < lines.len() {
        match lines[i] {
            StreamLine::Unreadable(_) => {},
            StreamLine::Line { text, decoded } => if trim(text@).len() == 0 {
                streams_shut_down_once_at_the_end(lines, i + 1, state);
            } else {
                match decoded {
                    Err(_) => {},
                    Ok(command) => match transition_of(command) {
                        PresenterTransition::Shutdown => {},
                        PresenterTransition::Updated => {
                            let next = next_state(state, command);
                            streams_shut_down_once_at_the_end(lines, i + 1, next);
                            let rest = stream_calls(lines, i + 1, next);
                            let calls = seq![BackendCall::Update(next)] + rest;
                            assert(stream_calls(lines, i, state) == calls);
                            assert forall|j: int|
                                0 <= j < calls.len() && (#[trigger] calls[j] is Shutdown) implies j
                                == calls.len() - 1 by {
                                assert(j > 0);
                                assert(calls[j] == rest[j - 1]);
                            }
                            if rest.len() >= 1 {
                                assert(calls.last() == rest.last());
                            }
                        },
                    },
                }
            },
        }
    }
}

/// The calls a run made, with their outcomes, follow the planned calls: the
/// first of them in order, every call but the last one succeeded.
pub open spec fn follows_plan(made: Seq<(BackendCall, bool)>, planned: Seq<BackendCall>) -> bool {
    &&& made.len() <= planned.len()
    &&& forall|i: int| 0 <= i < made.len() ==> (#[trigger] made[i]).0 == planned[i]
    &&& forall|i: int| 0 <= i < made.len() - 1 ==> (#[trigger] made[i]).1
}

/// The planned calls, each made successfully.
pub open spec fn all_succeeded(calls: Seq<BackendCall>) -> Seq<(BackendCall, bool)> {
    calls.map_values(|c: BackendCall| (c, true))
}

/// The result of a run that no backend error stopped, by how the stream
/// ends.
pub open spec fn ends_as<E>(result: Result<(), RuntimeError<E>>, end: StreamEnd) -> bool {
    match end {
        StreamEnd::Shutdown => result is Ok,
        StreamEnd::Input(message) => result matches Err(RuntimeError::Input(m)) && m@ == message,
        StreamEnd::Protocol(error) => result matches Err(RuntimeError::Protocol(e))
            && protocol_error_view(e) == protocol_error_view(error),
    }
}

/// A protocol error as values.
pub open spec fn protocol_error_view(error: ProtocolError) -> (bool, Seq<char>, u8) {
    match error {
        ProtocolError::InvalidJson(detail) => (true, detail@, 0),
        ProtocolError::UnsupportedVersion(version) => (false, seq![], version),
    }
}

impl ProtocolError {
    /// A copy of this error.
    pub fn duplicate(&self) -> (copy: ProtocolError)
        ensures
            protocol_error_view(copy) == protocol_error_view(*self),
    {
        match self {
            ProtocolError::InvalidJson(detail) => ProtocolError::InvalidJson(detail.clone()),
            ProtocolError::UnsupportedVersion(version) => ProtocolError::UnsupportedVersion(
                *version,
            ),
        }
    }
}

/// Drives `backend` with a command stream: each command updates the state
/// and the backend is shown the new state; a shutdown command or the end of
/// the stream shuts the backend down.  The first unreadable or invalid line
/// stops the run with its error, without a shutdown.  A backend error stops
/// the run at the call that failed.
pub fn run_command_stream<B: PresenterBackend>(lines: &Vec<StreamLine>, backend: &mut B) -> (result:
    Result<(), RuntimeError<B::Error>>)
    ensures
        !(result matches Err(RuntimeError::Backend(_))) ==> ends_as(
            result,
            stream_end(lines@, 0, initial_state()),
        ),
        B::keeps_call_log() ==> exists|made: Seq<(BackendCall, bool)>|
            {
                &&& #[trigger] follows_plan(made, stream_calls(lines@, 0, initial_state()))
                &&& final(backend).calls() == old(backend).calls() + made
                &&& (result matches Err(RuntimeError::Backend(_))) == (made.len() > 0 && !made.last().1)
                &&& !(result matches Err(RuntimeError::Backend(_))) ==> made.len() == stream_calls(
                    lines@,
                    0,
                    initial_state(),
                ).len()
            },
{
    let ghost full = stream_calls(lines@, 0, initial_state());
    let ghost start = backend.calls();
    let ghost mut done: Seq<BackendCall> = seq![];
    let mut state = PresenterState::default();
    let mut i: usize = 0;
    assert(done + full =~= full);
    while i < lines.len()
        invariant
            i <= lines.len(),
            stream_end(lines@, i as int, state) == stream_end(lines@, 0, initial_state()),
            full == stream_calls(lines@, 0, initial_state()),
            start == old(backend).calls(),
            B::keeps_call_log() ==> backend.calls() == start + all_succeeded(done),
            done + stream_calls(lines@, i as int, state) == full,
        decreases lines.len() - i,
    {
        match &lines[i] {
            StreamLine::Unreadable(message) => {
                assert(done =~= full);
                proof {
                    lemma_plan_done(full);
                }
                return Err(RuntimeError::Input(message.clone()));
            },
            StreamLine::Line { text, decoded } => {
                if !is_blank_line(text.as_str()) {
                    match decoded {
                        Err(error) => {
                            assert(done =~= full);
                            proof {
                                lemma_plan_done(full);
                            }
                            return Err(RuntimeError::Protocol(error.duplicate()));
                        },
                        Ok(command) => {
                            let ghost before = state;
                            match stream_step(&mut state, StreamEvent::Command(*command)) {
                                StreamAction::Update(shown) => {
                                    let ghost rest = stream_calls(lines@, i + 1, state);
                                    assert(stream_calls(lines@, i as int, before) == seq![
                                        BackendCall::Update(shown),
                                    ] + rest);
                                    assert(done.push(BackendCall::Update(shown)) + rest =~= full);
                                    let outcome = backend.update(shown);
                                    proof {
                                        lemma_plan_step(done, BackendCall::Update(shown), rest, full, outcome is Ok);
                                    }
                                    match outcome {
                                        Ok(()) => {},
                                        Err(error) => {
                                            return Err(RuntimeError::Backend(error));
                                        },
                                    }
                                    proof {
                                        done = done.push(BackendCall::Update(shown));
                                    }
                                },
                                _ => {
                                    assert(full =~= done.push(BackendCall::Shutdown));
                                    assert(done.push(BackendCall::Shutdown) + seq![] =~= full);
                                    let outcome = backend.shutdown();
                                    proof {
                                        lemma_plan_step(done, BackendCall::Shutdown, seq![], full, outcome is Ok);
                                    }
                                    return match outcome {
                                        Ok(()) => Ok(()),
                                        Err(error) => Err(RuntimeError::Backend(error)),
                                    };
                                },
                            }
                        },
                    }
                }
            },
        }
        i = i + 1;
    }
    assert(full =~= done.push(BackendCall::Shutdown));
    assert(done.push(BackendCall::Shutdown) + seq![] =~= full);
    let outcome = backend.shutdown();
    proof {
        lemma_plan_step(done, BackendCall::Shutdown, seq![], full, outcome is Ok);
    }
    match outcome {
        Ok(()) => Ok(()),
        Err(error) => Err(RuntimeError::Backend(error)),
    }
}

/// Every planned call made successfully follows the plan.
proof fn lemma_plan_done(full: Seq<BackendCall>)
    ensures
        follows_plan(all_succeeded(full), full),
        all_succeeded(full).len() == full.len(),
        all_succeeded(full).len() > 0 ==> all_succeeded(full).last().1,
{
}

/// One more planned call, after the planned calls `done` all succeeded.
proof fn lemma_plan_step(
    done: Seq<BackendCall>,
    call: BackendCall,
    rest: Seq<BackendCall>,
    full: Seq<BackendCall>,
    ok: bool,
)
    requires
        done.push(call) + rest == full,
    ensures
        ({
            let made = all_succeeded(done).push((call, ok));
            &&& follows_plan(made, full)
            &&& made.len() == done.len() + 1
            &&& made.last().1 == ok
            &&& ok ==> made == all_succeeded(done.push(call))
        }),
{
    let made = all_succeeded(done).push((call, ok));
    assert forall|i: int| 0 <= i < made.len() implies (#[trigger] made[i]).0 == full[i] by {
        assert((done.push(call) + rest)[i] == done.push(call)[i]);
    }
    if ok {
        assert(made =~= all_succeeded(done.push(call)));
    }
}

// ---------------------------------------------------------------------------
// Tray icon
// ---------------------------------------------------------------------------
/// The side of the square tray icon, in pixels.
pub const ICON_SIZE: u32 = 18;

/// The icon's background colour.
pub open spec fn icon_blue(c: int) -> u8 {
    if c == 0 {
        30
    } else if c == 1 {
        122
    } else if c == 2 {
        238
    } else {
        255
    }
}

/// The down arrow drawn on the left: a vertical bar and two diagonals
/// meeting at the bottom.
pub open spec fn in_down_arrow(x: int, y: int) -> bool {
    7 <= y < 12 && (x == 5 - (y - 7) || x == 5 + (y - 7) || x == 5)
}

/// The up arrow drawn on the right: a vertical bar and two diagonals
/// meeting at the top.
pub open spec fn in_up_arrow(x: int, y: int) -> bool {
    (6 <= y <= 10 && (x == 12 - (10 - y) || x == 12 + (10 - y))) || (x == 12 && 6 <= y < 11)
}

/// Byte `c` (red, green, blue, alpha) of the icon's pixel at `(x, y)`:
/// white arrows on a blue square with a transparent one-pixel border.
pub open spec fn icon_byte(x: int, y: int, c: int) -> u8 {
    if in_down_arrow(x, y) || in_up_arrow(x, y) {
        255
    } else if 1 <= x <= 16 && 1 <= y <= 16 {
        icon_blue(c)
    } else {
        0
    }
}

/// The index of byte `c` of pixel `(x, y)` in a square RGBA image of side
/// `size`.
pub open spec fn pixel_index(size: int, x: int, y: int, c: int) -> int {
    (y * size + x) * 4 + c
}

/// Writes `color` at pixel `(x, y)` of a square RGBA image of side `size`;
/// pixels outside the image are ignored.
pub fn set_pixel(rgba: &mut Vec<u8>, size: u32, x: u32, y: u32, color: [u8; 4])
    requires
        0 < size <= 64,
        old(rgba)@.len() == size * size * 4,
    ensures
        final(rgba)@.len() == old(rgba)@.len(),
        forall|i: int|
            0 <= i < old(rgba)@.len() ==> #[trigger] final(rgba)@[i] == if x < size && y < size
                && pixel_index(size as int, x as int, y as int, 0) <= i < pixel_index(
                size as int,
                x as int,
                y as int,
                4,
            ) {
                color@[i - pixel_index(size as int, x as int, y as int, 0)]
            } else {
                old(rgba)@[i]
            },
{
    if x >= size || y >= size {
        return;
    }
    assert(y * size + x < size * size) by (nonlinear_arith)
        requires
            x < size,
            y < size,
    ;
    assert(size * size <= 4096) by (nonlinear_arith)
        requires
            size <= 64,
    ;
    let index = ((y * size + x) * 4) as usize;
    let mut c: usize = 0;
    while c < 4
        invariant
            c <= 4,
            index as int == pixel_index(size as int, x as int, y as int, 0),
            index + 4 <= old(rgba)@.len(),
            rgba@.len() == old(rgba)@.len(),
            forall|i: int|
                0 <= i < old(rgba)@.len() ==> #[trigger] rgba@[i] == if index <= i < index + c {
                    color@[i - index]
                } else {
                    old(rgba)@[i]
                },
        decreases 4 - c,
    {
        rgba.set(index + c, color[c]);
        c = c + 1;
    }
}

/// The pixels of the tray icon, as RGBA rows of `ICON_SIZE` pixels.
pub fn status_icon() -> (rgba: Vec<u8>)
    ensures
        rgba@.len() == ICON_SIZE * ICON_SIZE * 4,
        forall|x: int, y: int, c: int|
            0 <= x < 18 && 0 <= y < 18 && 0 <= c < 4 ==> #[trigger] rgba@[pixel_index(18, x, y, c)]
                == icon_byte(x, y, c),
{
    let mut rgba: Vec<u8> = vec![0u8; 1296];
    let blue: [u8; 4] = [30, 122, 238, 255];
    let white: [u8; 4] = [255, 255, 255, 255];
    assert(blue@ =~= seq![30u8, 122u8, 238u8, 255u8]);
    assert(white@ =~= seq![255u8, 255u8, 255u8, 255u8]);
    let mut y: u32 = 1;
    while y < ICON_SIZE - 1
        invariant
            1 <= y <= 17,
            rgba@.len() == 1296,
            blue@ == seq![30u8, 122u8, 238u8, 255u8],
            forall|px: int, py: int, c: int|
                0 <= px < 18 && 0 <= py < 18 && 0 <= c < 4 ==> #[trigger] rgba@[pixel_index(
                    18,
                    px,
                    py,
                    c,
                )] == if 1 <= px <= 16 && 1 <= py < y {
                    icon_blue(c)
                } else {
                    0
                },
        decreases 17 - y,
    {
        let mut x: u32 = 1;
        while x < ICON_SIZE - 1
            invariant
                1 <= y <= 16,
                1 <= x <= 17,
                rgba@.len() == 1296,
                blue@ == seq![30u8, 122u8, 238u8, 255u8],
                forall|px: int, py: int, c: int|
                    0 <= px < 18 && 0 <= py < 18 && 0 <= c < 4 ==> #[trigger] rgba@[pixel_index(
                        18,
                        px,
                        py,
                        c,
                    )] == if 1 <= px <= 16 && (1 <= py < y || (py == y && px < x)) {
                        icon_blue(c)
                    } else {
                        0
                    },
            decreases 17 - x,
        {
            let ghost before = rgba@;
            set_pixel(&mut rgba, ICON_SIZE, x, y, blue);
            assert forall|px: int, py: int, c: int|
                0 <= px < 18 && 0 <= py < 18 && 0 <= c < 4 implies #[trigger] rgba@[pixel_index(
                    18,
                    px,
                    py,
                    c,
                )] == if 1 <= px <= 16 && (1 <= py < y || (py == y && px < x + 1)) {
                    icon_blue(c)
                } else {
                    0
                } by {
                let i = pixel_index(18, px, py, c);
                assert(0 <= i < 1296);
                if px == x && py == y {
                    assert(i - pixel_index(18, x as int, y as int, 0) == c);
                } else {
                    assert(!(pixel_index(18, x as int, y as int, 0) <= i < pixel_index(
                        18,
                        x as int,
                        y as int,
                        4,
                    )));
                    assert(before[i] == rgba@[i]);
                }
            }
            x = x + 1;
        }
        y = y + 1;
    }
    let mut offset: u32 = 0;
    while offset < 5
        invariant
            offset <= 5,
            rgba@.len() == 1296,
            white@ == seq![255u8, 255u8, 255u8, 255u8],
            forall|px: int, py: int, c: int|
                0 <= px < 18 && 0 <= py < 18 && 0 <= c < 4 ==> #[trigger] rgba@[pixel_index(
                    18,
                    px,
                    py,
                    c,
                )] == if drawn_arrow(px, py, offset as int) {
                    255
                } else if 1 <= px <= 16 && 1 <= py <= 16 {
                    icon_blue(c)
                } else {
                    0
                },
        decreases 5 - offset,
    {
        let ghost before = rgba@;
        set_pixel(&mut rgba, ICON_SIZE, 5 - offset, 7 + offset, white);
        set_pixel(&mut rgba, ICON_SIZE, 5 + offset, 7 + offset, white);
        set_pixel(&mut rgba, ICON_SIZE, 5, 7 + offset, white);
        set_pixel(&mut rgba, ICON_SIZE, 12 - offset, 10 - offset, white);
        set_pixel(&mut rgba, ICON_SIZE, 12 + offset, 10 - offset, white);
        set_pixel(&mut rgba, ICON_SIZE, 12, 6 + offset, white);
        assert forall|px: int, py: int, c: int|
            0 <= px < 18 && 0 <= py < 18 && 0 <= c < 4 implies #[trigger] rgba@[pixel_index(
                18,
                px,
                py,
                c,
            )] == if drawn_arrow(px, py, offset + 1) {
                255
            } else if 1 <= px <= 16 && 1 <= py <= 16 {
                icon_blue(c)
            } else {
                0
            } by {
            let i = pixel_index(18, px, py, c);
            assert(0 <= i < 1296);
            if !is_offset_pixel(px, py, offset as int) {
                assert(rgba@[i] == before[i]);
            }
        }
        offset = offset + 1;
    }
    assert forall|x: int, y: int, c: int|
        0 <= x < 18 && 0 <= y < 18 && 0 <= c < 4 implies #[trigger] rgba@[pixel_index(18, x, y, c)]
            == icon_byte(x, y, c) by {
        if in_down_arrow(x, y) {
            assert(is_offset_pixel(x, y, y - 7));
        }
        if in_up_arrow(x, y) {
            if 6 <= y <= 10 && (x == 12 - (10 - y) || x == 12 + (10 - y)) {
                assert(is_offset_pixel(x, y, 10 - y));
            } else {
                assert(is_offset_pixel(x, y, y - 6));
            }
        }
        if drawn_arrow(x, y, 5) {
            let k = choose|k: int| 0 <= k < 5 && #[trigger] is_offset_pixel(x, y, k);
            assert(is_offset_pixel(x, y, k));
        }
        assert(drawn_arrow(x, y, 5) == (in_down_arrow(x, y) || in_up_arrow(x, y)));
    }
    rgba
}

/// The arrow pixels drawn for the offsets below `o`.
pub open spec fn drawn_arrow(x: int, y: int, o: int) -> bool {
    exists|k: int| 0 <= k < o && #[trigger] is_offset_pixel(x, y, k)
}

/// The six arrow pixels drawn for offset `k`.
pub open spec fn is_offset_pixel(x: int, y: int, k: int) -> bool {
    ||| (x == 5 - k && y == 7 + k)
    ||| (x == 5 + k && y == 7 + k)
    ||| (x == 5 && y == 7 + k)
    ||| (x == 12 - k && y == 10 - k)
    ||| (x == 12 + k && y == 10 - k)
    ||| (x == 12 && y == 6 + k)
}

// ---------------------------------------------------------------------------
// Windows taskbar presentation
// ---------------------------------------------------------------------------
/// `WS_CHILD`.
pub const WS_CHILD: u32 = 0x4000_0000;

/// `WS_POPUP`.
pub const WS_POPUP: u32 = 0x8000_0000;

/// `WS_CLIPSIBLINGS`.
pub const WS_CLIPSIBLINGS: u32 = 0x0400_0000;

/// Light text (`0x00f4f4f4` as a COLORREF) and its dark shadow.
pub const LIGHT_TEXT: u32 = 0x00f4_f4f4;
pub const LIGHT_TEXT_SHADOW: u32 = 0x0015_1515;

/// Dark text and its light shadow.
pub const DARK_TEXT: u32 = 0x0015_1515;
pub const DARK_TEXT_SHADOW: u32 = 0x00f4_f4f4;

/// The window style of the presenter: a child of the taskbar when attached,
/// a top-level popup otherwise.
pub fn presenter_style(attached: bool) -> (style: u32)
    ensures
        style == if attached {
            WS_CHILD | WS_CLIPSIBLINGS
        } else {
            WS_POPUP | WS_CLIPSIBLINGS
        },
{
    if attached {
        WS_CHILD | WS_CLIPSIBLINGS
    } else {
        WS_POPUP | WS_CLIPSIBLINGS
    }
}

/// The perceived brightness rule for a COLORREF (`0x00bbggrr`).
pub open spec fn is_dark_color(color: u32) -> bool {
    let red = color % 256;
    let green = (color / 256) % 256;
    let blue = (color / 65536) % 256;
    red * 299 + green * 587 + blue * 114 < 128_000
}

/// Whether a COLORREF is dark.
pub fn color_is_dark(color: u32) -> (dark: bool)
    ensures
        dark == is_dark_color(color),
{
    let red = color % 256;
    let green = (color / 256) % 256;
    let blue = (color / 65536) % 256;
    red * 299 + green * 587 + blue * 114 < 128_000
}

/// Foreground and shadow colours for a theme; the system theme follows the
/// system window-text colour `system_text`.
pub fn presenter_text_colors(theme: PresenterTheme, system_text: u32) -> (colors: (u32, u32))
    ensures
        colors == match theme {
            PresenterTheme::Dark => (LIGHT_TEXT, LIGHT_TEXT_SHADOW),
            PresenterTheme::Light => (DARK_TEXT, DARK_TEXT_SHADOW),
            PresenterTheme::System => if is_dark_color(system_text) {
                (DARK_TEXT, DARK_TEXT_SHADOW)
            } else {
                (LIGHT_TEXT, LIGHT_TEXT_SHADOW)
            },
        },
        is_dark_color(colors.0) != is_dark_color(colors.1),
        theme == PresenterTheme::Dark ==> !is_dark_color(colors.0),
        theme == PresenterTheme::Light ==> is_dark_color(colors.0),
{
    assert(!is_dark_color(LIGHT_TEXT) && is_dark_color(LIGHT_TEXT_SHADOW));
    assert(is_dark_color(DARK_TEXT) && !is_dark_color(DARK_TEXT_SHADOW));
    match theme {
        PresenterTheme::Dark => (LIGHT_TEXT, LIGHT_TEXT_SHADOW),
        PresenterTheme::Light => (DARK_TEXT, DARK_TEXT_SHADOW),
        PresenterTheme::System => if color_is_dark(system_text) {
            (DARK_TEXT, DARK_TEXT_SHADOW)
        } else {
            (LIGHT_TEXT, LIGHT_TEXT_SHADOW)
        },
    }
}

/// The font height (negative: character height in pixels) for a presenter
/// of `client_height` pixels on a window of `window_dpi` (0 means 96).
pub open spec fn font_height(client_height: int, window_dpi: nat) -> int {
    let dpi: int = if window_dpi == 0 {
        96
    } else {
        window_dpi as int
    };
    let scaled: int = (14 * dpi + 48) / 96;
    let dpi_scaled = if scaled < 12 {
        12
    } else if scaled > 32 {
        32
    } else {
        scaled
    };
    let available = if client_height / 2 - 2 > 12 {
        client_height / 2 - 2
    } else {
        12
    };
    -(if dpi_scaled < available {
        dpi_scaled
    } else {
        available
    })
}

/// The taskbar font height: 14 points scaled by DPI, kept between 12 and 32
/// pixels and within half the presenter.
pub fn taskbar_font_height(client_height: i32, window_dpi: u32) -> (height: i32)
    requires
        14 * (window_dpi as int) + 48 <= u32::MAX,
    ensures
        height == font_height(client_height as int, window_dpi as nat),
        -32 <= height <= -12,
{
    let dpi: u32 = if window_dpi == 0 {
        96
    } else {
        window_dpi
    };
    let scaled: u32 = (14 * dpi + 48) / 96;
    let dpi_scaled: i32 = if scaled < 12 {
        12
    } else if scaled > 32 {
        32
    } else {
        scaled as i32
    };
    let available: i32 = if client_height < 28 {
        12
    } else {
        client_height / 2 - 2
    };
    if dpi_scaled < available {
        -dpi_scaled
    } else {
        -available
    }
}

/// A screen rectangle.
#[derive(Debug, Clone, Copy, PartialEq, Eq, Structural)]
pub struct ScreenRect {
    pub left: i32,
    pub top: i32,
    pub right: i32,
    pub bottom: i32,
}

/// Where the presenter window goes, and whether it stays above other windows.
#[derive(Debug, Clone, Copy, PartialEq, Eq, Structural)]
pub struct PresenterPlacement {
    pub x: i32,
    pub y: i32,
    pub width: i32,
    pub height: i32,
    pub topmost: bool,
}

/// The presenter's width for a layout.
pub open spec fn desired_width(layout: PresenterLayout) -> int {
    match layout {
        PresenterLayout::Horizontal => 230,
        PresenterLayout::Stacked => 138,
    }
}

pub open spec fn int_max(a: int, b: int) -> int {
    if a > b {
        a
    } else {
        b
    }
}

pub open spec fn int_min(a: int, b: int) -> int {
    if a < b {
        a
    } else {
        b
    }
}

/// The placement before the taskbar offset, as (x, y, width, height): left of
/// the notification area on a horizontal taskbar, above it on a vertical one;
/// without a notification area, a fixed distance from the far edge.
pub open spec fn relative_placement(
    taskbar: ScreenRect,
    tray: Option<ScreenRect>,
    layout: PresenterLayout,
) -> (int, int, int, int) {
    let width = taskbar.right - taskbar.left;
    let height = taskbar.bottom - taskbar.top;
    if width >= height {
        let x = match tray {
            Some(t) => t.left - taskbar.left - desired_width(layout) - 4,
            None => width - desired_width(layout) - 180,
        };
        (int_max(x, 0), 0, int_min(desired_width(layout), width), height)
    } else {
        let desired_height = int_min(64, height);
        let y = match tray {
            Some(t) => t.top - taskbar.top - desired_height - 4,
            None => height - desired_height - 120,
        };
        (0, int_max(y, 0), width, desired_height)
    }
}

/// The final placement: relative to the taskbar when attached, in screen
/// coordinates and topmost when the presenter is a fallback popup.
pub open spec fn placement(
    taskbar: ScreenRect,
    tray: Option<ScreenRect>,
    layout: PresenterLayout,
    attached: bool,
) -> (int, int, int, int, bool) {
    let (x, y, width, height) = relative_placement(taskbar, tray, layout);
    if attached {
        (x, y, width, height, false)
    } else {
        (x + taskbar.left, y + taskbar.top, width, height, true)
    }
}

pub open spec fn fits_i32(v: int) -> bool {
    i32::MIN <= v <= i32::MAX
}

/// The coordinates of [`placement`] fit the window API's 32-bit integers.
pub open spec fn placement_fits(
    taskbar: ScreenRect,
    tray: Option<ScreenRect>,
    layout: PresenterLayout,
    attached: bool,
) -> bool {
    let p = placement(taskbar, tray, layout, attached);
    &&& fits_i32(taskbar.right - taskbar.left)
    &&& fits_i32(taskbar.bottom - taskbar.top)
    &&& fits_i32(p.0)
    &&& fits_i32(p.1)
}

/// Places the presenter next to the notification area of the taskbar.
pub fn presenter_placement(
    taskbar: ScreenRect,
    tray: Option<ScreenRect>,
    layout: PresenterLayout,
    attached: bool,
) -> (p: PresenterPlacement)
    requires
        placement_fits(taskbar, tray, layout, attached),
    ensures
        (p.x as int, p.y as int, p.width as int, p.height as int, p.topmost) == placement(
            taskbar,
            tray,
            layout,
            attached,
        ),
{
    let width: i64 = taskbar.right as i64 - taskbar.left as i64;
    let height: i64 = taskbar.bottom as i64 - taskbar.top as i64;
    let desired: i64 = match layout {
        PresenterLayout::Horizontal => 230,
        PresenterLayout::Stacked => 138,
    };
    let (x, y, w, h) = if width >= height {
        let x: i64 = match tray {
            Some(t) => t.left as i64 - taskbar.left as i64 - desired - 4,
            None => width - desired - 180,
        };
        (if x > 0 {
            x
        } else {
            0
        }, 0i64, if desired < width {
            desired
        } else {
            width
        }, height)
    } else {
        let desired_height: i64 = if 64 < height {
            64
        } else {
            height
        };
        let y: i64 = match tray {
            Some(t) => t.top as i64 - taskbar.top as i64 - desired_height - 4,
            None => height - desired_height - 120,
        };
        (0i64, if y > 0 {
            y
        } else {
            0
        }, width, desired_height)
    };
    if attached {
        PresenterPlacement {
            x: x as i32,
            y: y as i32,
            width: w as i32,
            height: h as i32,
            topmost: false,
        }
    } else {
        PresenterPlacement {
            x: (x + taskbar.left as i64) as i32,
            y: (y + taskbar.top as i64) as i32,
            width: w as i32,
            height: h as i32,
            topmost: true,
        }
    }
}

} // verus!
