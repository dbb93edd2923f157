//! The modem's state and the command dispatcher.
//!
//! `Sim868` holds the state of one emulated device. `process_at` takes one
//! line of text, changes the state as the command asks and returns the lines
//! of the response, in order. What it does is stated by `dispatch`, a function
//! of the state's model and the line's characters.

use crate::command::{parse_command, parse_line, Command, InfoKind};
use crate::text::{decimal, push_decimal, wrap, wrapped};
use vstd::prelude::*;
use vstd::string::*;

verus! {

/// The baud rate that the modem reports, and the only one that `AT+IPR`
/// accepts.
pub const DEFAULT_BAUDRATE: usize = 115200;

/// Seconds between two position reports of a modem that was never told
/// otherwise.
pub const DEFAULT_URC_INTERVAL: u8 = 5;

/// The line that answers a command that cannot be carried out.
pub const CME_ERROR: &'static str = "+CME ERROR:0";

/// The content of the line that acknowledges a command.
pub const OK: &'static str = "OK";

/// The single line that answers the bare attention command.
pub const ATTENTION_REPLY: &'static str = "AT\r\nOK";

/// What the diagnostic line for a line outside the command table begins with.
pub const UNKNOWN_MARKER: &'static str = "Not Implemendted Command";

/// The manufacturer's name.
pub const MANUFACTURER: &'static str = "SIMCOM_Ltd";

/// The model identifier.
pub const MODEL: &'static str = "SIMCOM_SIM868";

/// The serial number.
pub const SERIAL_NUMBER: &'static str = "86737803397915";

/// The firmware revision.
pub const REVISION: &'static str = "1418B05Scustome";

/// First line of the power-up sequence: not registered yet.
pub const BOOT_CREG: &'static str = "+CREG: 0";

/// Second line of the power-up sequence: the SIM is ready.
pub const BOOT_CPIN: &'static str = "+CPIN: READY";

/// Third line of the power-up sequence: searching for the packet network.
pub const BOOT_CGREG: &'static str = "+CGREG:2";

/// Fourth line of the power-up sequence: calls can be made.
pub const BOOT_CALL_READY: &'static str = "Call Ready";

/// The line that follows a reset of the device.
pub const RESET_NOTICE: &'static str = "+CFUN=1";

/// What the report of the stored functionality mode begins with.
pub const CFUN_REPORT: &'static str = "+CFUN: ";

/// What the report of the baud rate begins with.
pub const IPR_REPORT: &'static str = "+IPR: ";

/// What a report of the registration status begins with.
pub const CREG_REPORT: &'static str = "+CREG: ";

/// A request to the GNSS producer, sent over the session's control channel.
#[derive(Clone, Copy, Debug, PartialEq, Eq, Structural)]
pub enum GnssConfig {
    /// Report every so many seconds from now on.
    URC(u8),
    /// A change of the reporting status. The producer takes it off the
    /// channel and leaves its state as it is.
    STATUS(bool),
}

/// Model of the configuration that commands read and change.
pub struct ConfigurationState {
    pub baud_rate: usize,
    pub echo_enabled: bool,
    pub error_verbosity: u8,
    pub function_mode: Option<u8>,
    pub reset_mode: Option<u8>,
    pub registration_urc: bool,
}

impl ConfigurationState {
    /// What holds of every configuration: the baud rate is the one supported
    /// rate, the verbosity is 0, 1 or 2, a stored functionality mode is 0, 1
    /// or 4, and a stored reset mode is one digit.
    pub open spec fn wf(self) -> bool {
        &&& self.baud_rate == DEFAULT_BAUDRATE
        &&& self.error_verbosity <= 2
        &&& (self.function_mode matches Some(mode) ==> mode == 0 || mode == 1 || mode == 4)
        &&& (self.reset_mode matches Some(reset) ==> reset <= 9)
    }

    /// The configuration of a modem that has seen no command.
    pub open spec fn initial() -> ConfigurationState {
        ConfigurationState {
            baud_rate: DEFAULT_BAUDRATE,
            echo_enabled: false,
            error_verbosity: 0,
            function_mode: None,
            reset_mode: None,
            registration_urc: false,
        }
    }
}

/// The configuration that commands read and change.
#[derive(Debug, PartialEq, Eq)]
pub struct GSMConfig {
    baudrate: usize,
    echo: bool,
    cmee: u8,
    fun_mode: Option<u8>,
    rst_mod: Option<u8>,
    creg_urc: bool,
}

impl View for GSMConfig {
    type V = ConfigurationState;

    closed spec fn view(&self) -> ConfigurationState {
        ConfigurationState {
            baud_rate: self.baudrate,
            echo_enabled: self.echo,
            error_verbosity: self.cmee,
            function_mode: self.fun_mode,
            reset_mode: self.rst_mod,
            registration_urc: self.creg_urc,
        }
    }
}

impl GSMConfig {
    #[verifier::type_invariant]
    spec fn inv(&self) -> bool {
        self@.wf()
    }

    /// The configuration of a modem that has seen no command.
    pub fn new() -> (config: GSMConfig)
        ensures
            config@ == ConfigurationState::initial(),
    {
        GSMConfig {
            baudrate: DEFAULT_BAUDRATE,
            echo: false,
            cmee: 0,
            fun_mode: None,
            rst_mod: None,
            creg_urc: false,
        }
    }

    /// The baud rate that the modem reports.
    pub fn baudrate(&self) -> (rate: usize)
        ensures
            rate == self@.baud_rate,
            rate == DEFAULT_BAUDRATE,
    {
        proof {
            use_type_invariant(self);
        }
        self.baudrate
    }

    /// Whether the modem repeats each command in front of its response.
    pub fn echo(&self) -> (on: bool)
        ensures
            on == self@.echo_enabled,
    {
        self.echo
    }

    /// How much the modem says about an error: 0, 1 or 2.
    pub fn cmee(&self) -> (level: u8)
        ensures
            level == self@.error_verbosity,
            level <= 2,
    {
        proof {
            use_type_invariant(self);
        }
        self.cmee
    }

    /// The functionality mode that was stored last, if any was.
    pub fn fun_mode(&self) -> (mode: Option<u8>)
        ensures
            mode == self@.function_mode,
            mode matches Some(m) ==> m == 0 || m == 1 || m == 4,
    {
        proof {
            use_type_invariant(self);
        }
        self.fun_mode
    }

    /// The reset mode that was stored last, if any was.
    pub fn rst_mod(&self) -> (reset: Option<u8>)
        ensures
            reset == self@.reset_mode,
            reset matches Some(r) ==> r <= 9,
    {
        proof {
            use_type_invariant(self);
        }
        self.rst_mod
    }

    /// Whether changes of the registration status are to be reported.
    pub fn creg_urc(&self) -> (on: bool)
        ensures
            on == self@.registration_urc,
    {
        self.creg_urc
    }
}

/// Model of the GNSS receiver's state.
pub struct GnssState {
    pub urc: u8,
    pub urc_enabled: bool,
    pub power: bool,
}

impl GnssState {
    /// What holds of every GNSS state: reports are at least a second apart.
    pub open spec fn wf(self) -> bool {
        self.urc >= 1
    }

    /// The state of a receiver that was never switched on.
    pub open spec fn initial() -> GnssState {
        GnssState { urc: DEFAULT_URC_INTERVAL, urc_enabled: false, power: false }
    }
}

/// The GNSS receiver's state: whether it is switched on and how many seconds
/// lie between two position reports.
#[derive(Debug)]
pub struct GnssConfiguration {
    urc: u8,
    urc_enabled: bool,
    power: bool,
}

impl View for GnssConfiguration {
    type V = GnssState;

    closed spec fn view(&self) -> GnssState {
        GnssState { urc: self.urc, urc_enabled: self.urc_enabled, power: self.power }
    }
}

/// The interval that a request for `requested` seconds sets: the request, and
/// one second where it asks for none.
pub open spec fn clamped_interval(requested: u8) -> u8 {
    if requested >= 1 {
        requested
    } else {
        1
    }
}

impl GnssConfiguration {
    #[verifier::type_invariant]
    spec fn inv(&self) -> bool {
        self@.wf()
    }

    /// The state of a receiver that was never switched on: no power, a report
    /// every five seconds.
    pub fn default() -> (gnss: GnssConfiguration)
        ensures
            gnss@ == GnssState::initial(),
    {
        GnssConfiguration { urc: DEFAULT_URC_INTERVAL, urc_enabled: false, power: false }
    }

    /// Whether the receiver is switched on.
    pub fn power(&self) -> (on: bool)
        ensures
            on == self@.power,
    {
        self.power
    }

    /// Seconds between two position reports; never less than one.
    pub fn urc(&self) -> (seconds: u8)
        ensures
            seconds == self@.urc,
            seconds >= 1,
    {
        proof {
            use_type_invariant(self);
        }
        self.urc
    }

    /// The reporting status that the session set last.
    pub fn urc_enabled(&self) -> (on: bool)
        ensures
            on == self@.urc_enabled,
    {
        self.urc_enabled
    }

    /// Switches the receiver on or off.
    pub fn set_power(&mut self, on: bool)
        ensures
            final(self)@ == (GnssState { power: on, ..old(self)@ }),
    {
        proof {
            use_type_invariant(&*self);
        }
        self.power = on;
    }

    /// Stores the reporting status.
    pub fn set_urc_enabled(&mut self, on: bool)
        ensures
            final(self)@ == (GnssState { urc_enabled: on, ..old(self)@ }),
    {
        proof {
            use_type_invariant(&*self);
        }
        self.urc_enabled = on;
    }

    /// Sets the seconds between two position reports. A request for zero
    /// seconds sets one second.
    pub fn set_urc(&mut self, seconds: u8)
        ensures
            final(self)@ == (GnssState { urc: clamped_interval(seconds), ..old(self)@ }),
            final(self)@.urc >= 1,
    {
        self.urc = if seconds >= 1 {
            seconds
        } else {
            1
        };
    }
}

/// Model of one emulated device.
pub struct ModemState {
    pub power: bool,
    pub gnss: GnssState,
    pub working: bool,
    pub configs: ConfigurationState,
    pub reg_status: u8,
    pub gnss_reporting: bool,
    pub creg_reporting: bool,
}

impl ModemState {
    /// What holds of every device: its configuration and its GNSS state are
    /// well formed.
    pub open spec fn wf(self) -> bool {
        self.gnss.wf() && self.configs.wf()
    }

    /// The state that a session starts with.
    pub open spec fn initial(active: bool) -> ModemState {
        ModemState {
            power: active,
            gnss: GnssState::initial(),
            working: true,
            configs: ConfigurationState::initial(),
            reg_status: 0,
            gnss_reporting: false,
            creg_reporting: false,
        }
    }
}

/// One emulated device.
#[derive(Debug)]
pub struct Sim868 {
    /// Whether the device is switched on.
    pub power: bool,
    /// The GNSS receiver; the session shares it with the GNSS producer.
    pub gnss: GnssConfiguration,
    /// Whether the session is still running.
    pub working: bool,
    /// The configuration that commands read and change.
    pub configs: GSMConfig,
    /// The registration status; the session shares it with the registration
    /// producer.
    pub reg_status: u8,
    /// Whether the GNSS producer was started.
    pub gnss_reporting: bool,
    /// Whether the registration producer was started.
    pub creg_reporting: bool,
}

impl View for Sim868 {
    type V = ModemState;

    open spec fn view(&self) -> ModemState {
        ModemState {
            power: self.power,
            gnss: self.gnss@,
            working: self.working,
            configs: self.configs@,
            reg_status: self.reg_status,
            gnss_reporting: self.gnss_reporting,
            creg_reporting: self.creg_reporting,
        }
    }
}

/// The line that acknowledges a command.
pub open spec fn ok_line() -> Seq<char> {
    wrapped(OK@)
}

/// The identification text of each kind.
pub open spec fn info_text(kind: InfoKind) -> Seq<char> {
    match kind {
        InfoKind::Manufacturer => MANUFACTURER@,
        InfoKind::Model => MODEL@,
        InfoKind::Serial => SERIAL_NUMBER@,
        InfoKind::Revision => REVISION@,
    }
}

/// The lines of the power-up sequence, the acknowledgement at their end.
pub open spec fn boot_lines() -> Seq<Seq<char>> {
    seq![
        wrapped(BOOT_CREG@),
        wrapped(BOOT_CPIN@),
        wrapped(BOOT_CGREG@),
        wrapped(BOOT_CALL_READY@),
        ok_line(),
    ]
}

/// The lines that answer the choice of a functionality mode: the power-up
/// sequence for full functionality, the acknowledgement alone for the others.
pub open spec fn function_lines(mode: u8) -> Seq<Seq<char>> {
    if mode == 1 {
        boot_lines()
    } else {
        seq![ok_line()]
    }
}

/// The line that a reset adds to the answer, if the command asks for one.
pub open spec fn reset_lines(reset: Option<u8>) -> Seq<Seq<char>> {
    if reset == Some(1u8) {
        seq![wrapped(RESET_NOTICE@)]
    } else {
        seq![]
    }
}

/// 1 for true, 0 for false.
pub open spec fn flag(b: bool) -> nat {
    if b {
        1
    } else {
        0
    }
}

/// The line that reports the stored functionality mode.
pub open spec fn function_report(mode: u8) -> Seq<char> {
    wrapped(CFUN_REPORT@ + decimal(mode as nat))
}

/// The line that reports the baud rate.
pub open spec fn baud_report(rate: usize) -> Seq<char> {
    wrapped(IPR_REPORT@ + decimal(rate as nat))
}

/// The line that reports whether status changes are announced, and the
/// status.
pub open spec fn registration_report(urc: bool, status: u8) -> Seq<char> {
    wrapped(CREG_REPORT@ + decimal(flag(urc)) + seq![','] + decimal(status as nat))
}

/// Whether the device in state `s` refuses the command `c`: a malformed line,
/// a baud rate other than the supported one, or a query for a functionality
/// mode that was never stored.
pub open spec fn rejects(s: ModemState, c: Command) -> bool {
    match c {
        Command::Malformed => true,
        Command::SetBaud { rate } => rate != s.configs.baud_rate,
        Command::QueryFunction => s.configs.function_mode is None,
        _ => false,
    }
}

/// The lines that answer command `c`, read from `line`, in state `s`. The
/// echo of the line is not among them.
pub open spec fn answer(s: ModemState, c: Command, line: Seq<char>) -> Seq<Seq<char>> {
    if rejects(s, c) {
        seq![CME_ERROR@]
    } else {
        match c {
            Command::Attention => seq![ATTENTION_REPLY@],
            Command::SetFunction { mode, reset } => function_lines(mode) + reset_lines(reset),
            Command::QueryFunction => seq![
                function_report(s.configs.function_mode->0),
                ok_line(),
            ],
            Command::SetBaud { rate } => seq![ok_line()],
            Command::QueryBaud => seq![baud_report(s.configs.baud_rate), ok_line()],
            Command::Save => seq![ok_line()],
            Command::SetEcho { on } => seq![ok_line()],
            Command::SetVerbosity { level } => seq![ok_line()],
            Command::Info { kind } => seq![wrapped(info_text(kind)), ok_line()],
            Command::SetRegistration { urc } => seq![ok_line()],
            Command::QueryRegistration => seq![
                registration_report(s.configs.registration_urc, s.reg_status),
                ok_line(),
            ],
            Command::Malformed => seq![CME_ERROR@],
            Command::Unknown => seq![UNKNOWN_MARKER@ + line],
        }
    }
}

/// The state after command `c` in state `s`. A command that is refused, a
/// query and a line outside the table leave the state as it is.
pub open spec fn next_state(s: ModemState, c: Command) -> ModemState {
    match c {
        Command::SetFunction { mode, reset } => ModemState {
            configs: ConfigurationState {
                function_mode: Some(mode),
                reset_mode: if reset is Some {
                    reset
                } else {
                    s.configs.reset_mode
                },
                ..s.configs
            },
            ..s
        },
        Command::SetEcho { on } => ModemState {
            configs: ConfigurationState { echo_enabled: on, ..s.configs },
            ..s
        },
        Command::SetVerbosity { level } => ModemState {
            configs: ConfigurationState { error_verbosity: level, ..s.configs },
            ..s
        },
        Command::SetRegistration { urc } => ModemState {
            configs: ConfigurationState { registration_urc: urc, ..s.configs },
            creg_reporting: s.creg_reporting || urc,
            ..s
        },
        _ => s,
    }
}

/// Whether the answer to `c` in state `s` comes after an echo of the line,
/// given that echo is on: it does unless the line is the bare attention
/// command, lies outside the table or is refused.
pub open spec fn echoed(s: ModemState, c: Command) -> bool {
    !(c is Attention) && !(c is Unknown) && !rejects(s, c)
}

/// The echo in front of the answer: the line as it came, blanks included, and
/// a carriage return.
pub open spec fn echo_lines(s: ModemState, c: Command, line: Seq<char>) -> Seq<Seq<char>> {
    if s.configs.echo_enabled && echoed(s, c) {
        seq![line.push('\r')]
    } else {
        seq![]
    }
}

/// The response to `line` in state `s`: the echo, if any, then the answer.
pub open spec fn response(s: ModemState, line: Seq<char>) -> Seq<Seq<char>> {
    echo_lines(s, parse_line(line), line) + answer(s, parse_line(line), line)
}

/// What the device in state `s` does with `line`: the state afterwards and the
/// lines of the response.
pub open spec fn dispatch(s: ModemState, line: Seq<char>) -> (ModemState, Seq<Seq<char>>) {
    (next_state(s, parse_line(line)), response(s, line))
}

/// `c` where it is a functionality-mode command, malformed otherwise.
pub open spec fn function_only(c: Command) -> Command {
    if c is SetFunction || c is QueryFunction {
        c
    } else {
        Command::Malformed
    }
}

/// `c` where it is a baud-rate command, malformed otherwise.
pub open spec fn baud_only(c: Command) -> Command {
    if c is SetBaud || c is QueryBaud {
        c
    } else {
        Command::Malformed
    }
}

/// `c` where it is an echo command, malformed otherwise.
pub open spec fn echo_only(c: Command) -> Command {
    if c is SetEcho {
        c
    } else {
        Command::Malformed
    }
}

/// `c` where it is a verbosity command, malformed otherwise.
pub open spec fn verbosity_only(c: Command) -> Command {
    if c is SetVerbosity {
        c
    } else {
        Command::Malformed
    }
}

/// `c` where it is an identification command, malformed otherwise.
pub open spec fn info_only(c: Command) -> Command {
    if c is Info {
        c
    } else {
        Command::Malformed
    }
}

/// `c` where it is a registration command, malformed otherwise.
pub open spec fn registration_only(c: Command) -> Command {
    if c is SetRegistration || c is QueryRegistration {
        c
    } else {
        Command::Malformed
    }
}

/// Appends `line` to `lines`.
fn push_line(lines: &mut Vec<String>, line: String)
    ensures
        final(lines).deep_view() == old(lines).deep_view().push(line@),
{
    lines.push(line);
    assert(lines.deep_view() =~= old(lines).deep_view().push(line@));
}

/// The acknowledgement, as a line of its own.
fn ok_reply() -> (line: String)
    ensures
        line@ == ok_line(),
{
    wrap(OK)
}

/// The error line.
fn error_reply() -> (line: String)
    ensures
        line@ == CME_ERROR@,
{
    String::from_str(CME_ERROR)
}

/// A report line: `label` and the decimal notation of `value`, wrapped.
fn report_reply(label: &str, value: u64) -> (line: String)
    ensures
        line@ == wrapped(label@ + decimal(value as nat)),
{
    let mut content = String::from_str(label);
    push_decimal(&mut content, value);
    wrap(content.as_str())
}

/// The lines of a response as one text, in order and with nothing between
/// them. Sent as one unit, a response cannot be parted by a line of a
/// producer.
pub fn batch_text(batch: &Vec<String>) -> (text: String)
    ensures
        text@ == batch.deep_view().flatten(),
{
    let mut text = String::new();
    let mut i: usize = 0;
    assert(batch.deep_view().take(0) =~= Seq::<Seq<char>>::empty());
    while i < batch.len()
        invariant
            i <= batch.len(),
            text@ == batch.deep_view().take(i as int).flatten(),
        decreases batch.len() - i,
    {
        proof {
            let done = batch.deep_view().take(i as int);
            done.lemma_flatten_push(batch@[i as int]@);
            assert(batch.deep_view().take(i + 1) =~= done.push(batch@[i as int]@));
        }
        text.append(batch[i].as_str());
        i = i + 1;
    }
    assert(batch.deep_view().take(batch.len() as int) =~= batch.deep_view());
    text
}

impl Sim868 {
    /// The device at the start of a session: default configuration, GNSS
    /// receiver off with a report every five seconds, not registered. The
    /// receiver always starts from its defaults; `gnss_conf` is taken for the
    /// sake of callers that hold one and is not consulted.
    pub fn new(active: bool, gnss_conf: GnssConfiguration) -> (sim: Sim868)
        ensures
            sim@ == ModemState::initial(active),
            sim@.wf(),
    {
        Sim868 {
            power: active,
            gnss: GnssConfiguration::default(),
            working: true,
            configs: GSMConfig::new(),
            reg_status: 0,
            gnss_reporting: false,
            creg_reporting: false,
        }
    }

    /// Whether the device refuses `c` as it stands now.
    pub fn rejects(&self, c: Command) -> (refused: bool)
        ensures
            refused == rejects(self@, c),
    {
        match c {
            Command::Malformed => true,
            Command::SetBaud { rate } => rate != self.configs.baudrate as u64,
            Command::QueryFunction => self.configs.fun_mode.is_none(),
            _ => false,
        }
    }

    /// Carries out `line` if it is a functionality-mode command and returns
    /// the lines that answer it; the error line, and no change, for any other
    /// line. Setting mode 1 answers with the power-up sequence; a reset mode
    /// of 1 adds the reset notice.
    pub fn cfun(&mut self, line: &str) -> (lines: Vec<String>)
        ensures
            lines.deep_view() == answer(old(self)@, function_only(parse_line(line@)), line@),
            final(self)@ == next_state(old(self)@, function_only(parse_line(line@))),
    {
        proof {
            use_type_invariant(&self.configs);
        }
        let mut lines: Vec<String> = Vec::new();
        assert(lines.deep_view() =~= Seq::<Seq<char>>::empty());
        match parse_command(line) {
            Command::SetFunction { mode, reset } => {
                self.configs.fun_mode = Some(mode);
                if reset.is_some() {
                    self.configs.rst_mod = reset;
                }
                if mode == 1 {
                    push_line(&mut lines, wrap(BOOT_CREG));
                    push_line(&mut lines, wrap(BOOT_CPIN));
                    push_line(&mut lines, wrap(BOOT_CGREG));
                    push_line(&mut lines, wrap(BOOT_CALL_READY));
                }
                push_line(&mut lines, ok_reply());
                if reset == Some(1u8) {
                    push_line(&mut lines, wrap(RESET_NOTICE));
                }
                assert(lines.deep_view() =~= function_lines(mode) + reset_lines(reset));
            },
            Command::QueryFunction => {
                match self.configs.fun_mode {
                    Some(mode) => {
                        push_line(&mut lines, report_reply(CFUN_REPORT, mode as u64));
                        push_line(&mut lines, ok_reply());
                    },
                    None => {
                        push_line(&mut lines, error_reply());
                    },
                }
                assert(lines.deep_view() =~= answer(old(self)@, Command::QueryFunction, line@));
            },
            _ => {
                push_line(&mut lines, error_reply());
                assert(lines.deep_view() =~= seq![CME_ERROR@]);
            },
        }
        lines
    }

    /// Answers `line` if it is a baud-rate command: the acknowledgement where
    /// it sets the supported rate, the report of the rate where it asks for
    /// it, the error line where it sets any other rate or is any other line.
    /// The rate never changes.
    pub fn ipr(&mut self, line: &str) -> (reply: String)
        ensures
            reply@ == answer(old(self)@, baud_only(parse_line(line@)), line@).first(),
            final(self)@ == next_state(old(self)@, baud_only(parse_line(line@))),
            final(self)@ == old(self)@,
    {
        match parse_command(line) {
            Command::SetBaud { rate } => {
                if rate == self.configs.baudrate as u64 {
                    ok_reply()
                } else {
                    error_reply()
                }
            },
            Command::QueryBaud => report_reply(IPR_REPORT, self.configs.baudrate as u64),
            _ => error_reply(),
        }
    }

    /// Carries out `line` if it is an echo command: switches the echo on or
    /// off and returns the acknowledgement. The error line, and no change,
    /// for any other line.
    pub fn echo(&mut self, line: &str) -> (reply: String)
        ensures
            reply@ == answer(old(self)@, echo_only(parse_line(line@)), line@).first(),
            final(self)@ == next_state(old(self)@, echo_only(parse_line(line@))),
    {
        proof {
            use_type_invariant(&self.configs);
        }
        match parse_command(line) {
            Command::SetEcho { on } => {
                self.configs.echo = on;
                ok_reply()
            },
            _ => error_reply(),
        }
    }

    /// Carries out `line` if it is a verbosity command: stores the level and
    /// returns the acknowledgement. The error line, and no change, for any
    /// other line.
    pub fn cmee(&mut self, line: &str) -> (reply: String)
        ensures
            reply@ == answer(old(self)@, verbosity_only(parse_line(line@)), line@).first(),
            final(self)@ == next_state(old(self)@, verbosity_only(parse_line(line@))),
    {
        proof {
            use_type_invariant(&self.configs);
        }
        match parse_command(line) {
            Command::SetVerbosity { level } => {
                self.configs.cmee = level;
                ok_reply()
            },
            _ => error_reply(),
        }
    }

    /// Answers `line` if it is one of the four identification commands: the
    /// text it asks for, wrapped. The error line for any other line. The
    /// state does not change.
    pub fn manu_info(&mut self, line: &str) -> (reply: String)
        ensures
            reply@ == answer(old(self)@, info_only(parse_line(line@)), line@).first(),
            final(self)@ == old(self)@,
    {
        match parse_command(line) {
            Command::Info { kind } => match kind {
                InfoKind::Manufacturer => wrap(MANUFACTURER),
                InfoKind::Model => wrap(MODEL),
                InfoKind::Serial => wrap(SERIAL_NUMBER),
                InfoKind::Revision => wrap(REVISION),
            },
            _ => error_reply(),
        }
    }

    /// Carries out `line` if it is a registration command. Setting it stores
    /// whether status changes are to be announced, marks the registration
    /// producer as started where they are, and returns the acknowledgement;
    /// asking returns the report of the setting and the status. The error
    /// line, and no change, for any other line.
    pub fn creg(&mut self, line: &str) -> (reply: String)
        ensures
            reply@ == answer(old(self)@, registration_only(parse_line(line@)), line@).first(),
            final(self)@ == next_state(old(self)@, registration_only(parse_line(line@))),
    {
        proof {
            use_type_invariant(&self.configs);
        }
        match parse_command(line) {
            Command::SetRegistration { urc } => {
                self.configs.creg_urc = urc;
                if urc {
                    self.creg_reporting = true;
                }
                ok_reply()
            },
            Command::QueryRegistration => {
                let mut content = String::from_str(CREG_REPORT);
                push_decimal(
                    &mut content,
                    if self.configs.creg_urc {
                        1
                    } else {
                        0
                    },
                );
                content.append(",");
                push_decimal(&mut content, self.reg_status as u64);
                proof {
                    reveal_strlit(",");
                    assert(content@ =~= CREG_REPORT@ + decimal(flag(self.configs.creg_urc))
                        + seq![','] + decimal(self.reg_status as nat));
                }
                wrap(content.as_str())
            },
            _ => error_reply(),
        }
    }

    /// Takes one line of text, carries out the command that it is and returns
    /// the lines of the response, in order. There is a response to every
    /// line.
    ///
    /// The bare attention command is answered by its one line. A line outside
    /// the command table is answered by one diagnostic line that repeats it.
    /// A command that is malformed or refused is answered by the error line
    /// and changes nothing. Every other command is carried out, and its answer
    /// follows the echo of the line where echo was on before the command.
    pub fn process_at(&mut self, at_cmd: &str) -> (res: Option<Vec<String>>)
        ensures
            res is Some,
            res->0.deep_view() == dispatch(old(self)@, at_cmd@).1,
            final(self)@ == dispatch(old(self)@, at_cmd@).0,
    {
        let c = parse_command(at_cmd);
        let mut res: Vec<String> = Vec::new();
        assert(res.deep_view() =~= Seq::<Seq<char>>::empty());
        if self.rejects(c) {
            push_line(&mut res, error_reply());
            assert(res.deep_view() =~= response(old(self)@, at_cmd@));
            return Some(res);
        }
        match c {
            Command::Attention => {
                push_line(&mut res, String::from_str(ATTENTION_REPLY));
                assert(res.deep_view() =~= response(old(self)@, at_cmd@));
                return Some(res);
            },
            Command::Unknown => {
                push_line(&mut res, String::from_str(UNKNOWN_MARKER).concat(at_cmd));
                assert(res.deep_view() =~= response(old(self)@, at_cmd@));
                return Some(res);
            },
            _ => {},
        }
        if self.configs.echo() {
            proof {
                reveal_strlit("\r");
            }
            let echoed_line = String::from_str(at_cmd).concat("\r");
            assert(echoed_line@ =~= at_cmd@.push('\r'));
            push_line(&mut res, echoed_line);
        }
        assert(res.deep_view() =~= echo_lines(old(self)@, c, at_cmd@));
        match c {
            Command::SetFunction { .. } | Command::QueryFunction => {
                let mut lines = self.cfun(at_cmd);
                let ghost before = res.deep_view();
                let ghost added = lines.deep_view();
                res.append(&mut lines);
                assert(res.deep_view() =~= before + added);
            },
            Command::SetBaud { .. } => {
                push_line(&mut res, self.ipr(at_cmd));
            },
            Command::QueryBaud => {
                push_line(&mut res, self.ipr(at_cmd));
                push_line(&mut res, ok_reply());
            },
            Command::Save => {
                push_line(&mut res, ok_reply());
            },
            Command::SetEcho { .. } => {
                push_line(&mut res, self.echo(at_cmd));
            },
            Command::SetVerbosity { .. } => {
                push_line(&mut res, self.cmee(at_cmd));
            },
            Command::Info { .. } => {
                push_line(&mut res, self.manu_info(at_cmd));
                push_line(&mut res, ok_reply());
            },
            Command::SetRegistration { .. } => {
                push_line(&mut res, self.creg(at_cmd));
            },
            Command::QueryRegistration => {
                push_line(&mut res, self.creg(at_cmd));
                push_line(&mut res, ok_reply());
            },
            _ => {},
        }
        assert(res.deep_view() =~= response(old(self)@, at_cmd@));
        Some(res)
    }
}

} // verus!
