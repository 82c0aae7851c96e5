//! The decisions of a drone's actor: how it drives the Xbee (power, flight
//! mode, MAVLink terminal) and the life cycle of ARGoS on its computer.
use vstd::prelude::*;
use crate::robot::{TerminalAction, XbeeAction};
use crate::xbee::{lookup, lookup_pin, Pin, PinMode};
use crate::text::utf8_to_string;
use crate::shared::drone::Update;
use vstd::utf8::{decode_utf8, encode_utf8, valid_utf8};
use ansi_parser::AnsiParser;

verus! {

/// The pin modes that a drone's Xbee is configured with: the UART pins
/// without flow control, four identifier inputs, and the outputs that
/// select autonomous mode (DIO4) and switch the Up Core (DIO11) and Pixhawk
/// (DIO12) power.
pub open spec fn default_pin_config_spec() -> Seq<(Pin, PinMode)> {
    seq![
        (Pin::DOUT, PinMode::Alternate),
        (Pin::DIO6, PinMode::Disable),
        (Pin::DIO7, PinMode::Disable),
        (Pin::DIN, PinMode::Alternate),
        (Pin::DIO0, PinMode::Input),
        (Pin::DIO1, PinMode::Input),
        (Pin::DIO2, PinMode::Input),
        (Pin::DIO3, PinMode::Input),
        (Pin::DIO4, PinMode::OutputDefaultLow),
        (Pin::DIO11, PinMode::OutputDefaultLow),
        (Pin::DIO12, PinMode::OutputDefaultLow),
    ]
}

/// The default pin modes of a drone's Xbee.
pub fn default_pin_config() -> (res: Vec<(Pin, PinMode)>)
    ensures
        res@ == default_pin_config_spec(),
{
    let res = vec![
        (Pin::DOUT, PinMode::Alternate),
        (Pin::DIO6, PinMode::Disable),
        (Pin::DIO7, PinMode::Disable),
        (Pin::DIN, PinMode::Alternate),
        (Pin::DIO0, PinMode::Input),
        (Pin::DIO1, PinMode::Input),
        (Pin::DIO2, PinMode::Input),
        (Pin::DIO3, PinMode::Input),
        (Pin::DIO4, PinMode::OutputDefaultLow),
        (Pin::DIO11, PinMode::OutputDefaultLow),
        (Pin::DIO12, PinMode::OutputDefaultLow),
    ];
    assert(res@ =~= default_pin_config_spec());
    res
}

/// Whether a pin reads high in the sampled states (missing pins read low).
pub open spec fn is_high(states: Seq<(Pin, bool)>, pin: Pin) -> bool {
    lookup(states, pin) == Some(true)
}

/// Whether the default configuration of `pin` is kept: an output that is
/// already switched on keeps its state instead of being reset low.
pub open spec fn keeps_default(states: Seq<(Pin, bool)>, pin: Pin) -> bool {
    if pin == Pin::DIO4 {
        !is_high(states, Pin::DIO4)
    } else if pin == Pin::DIO11 {
        !is_high(states, Pin::DIO11)
    } else if pin == Pin::DIO12 {
        !is_high(states, Pin::DIO12)
    } else {
        true
    }
}

/// The default pin configuration without the outputs that are already high.
pub open spec fn initial_modes_spec(states: Seq<(Pin, bool)>) -> Seq<(Pin, PinMode)> {
    default_pin_config_spec().filter(|e: (Pin, PinMode)| keeps_default(states, e.0))
}

/// When an Xbee (re)connects, each of the drone's outputs (autonomous mode
/// DIO4, Up Core power DIO11, Pixhawk power DIO12) is judged by its own
/// sampled state alone: an output that the sample reports high gets no
/// mode, so it stays on; any other is reset to a low output. Every other
/// pin gets its default mode.
pub proof fn lemma_outputs_kept_by_own_state(states: Seq<(Pin, bool)>, pin: Pin)
    ensures
        ({
            let modes = initial_modes_spec(states);
            let output = pin == Pin::DIO4 || pin == Pin::DIO11 || pin == Pin::DIO12;
            &&& output && lookup(states, pin) == Some(true) ==> forall|k: int| 0 <= k < modes.len() ==> modes[k].0 != pin
            &&& output && lookup(states, pin) != Some(true) ==> modes.contains((pin, PinMode::OutputDefaultLow))
            &&& !output ==> forall|m: PinMode| default_pin_config_spec().contains((pin, m)) ==> modes.contains((pin, m))
        }),
{
    broadcast use vstd::seq_lib::group_filter_ensures;
    let d = default_pin_config_spec();
    let keep = |e: (Pin, PinMode)| keeps_default(states, e.0);
    let modes = d.filter(keep);
    assert(modes == initial_modes_spec(states));
    let output = pin == Pin::DIO4 || pin == Pin::DIO11 || pin == Pin::DIO12;
    if output && lookup(states, pin) == Some(true) {
        assert forall|k: int| 0 <= k < modes.len() implies modes[k].0 != pin by {
            assert(keep(modes[k]));
        }
    }
    if output && lookup(states, pin) != Some(true) {
        let i: int = if pin == Pin::DIO4 { 8 } else if pin == Pin::DIO11 { 9 } else { 10 };
        assert(d[i] == (pin, PinMode::OutputDefaultLow));
        assert(keep(d[i]));
    }
    if !output {
        assert forall|m: PinMode| d.contains((pin, m)) implies modes.contains((pin, m)) by {
            let i = choose|i: int| 0 <= i < d.len() && d[i] == (pin, m);
            assert(keep(d[i]));
        }
    }
}

/// The pin modes to configure when an Xbee (re)connects, and whether the
/// drone is found in autonomous mode. Without a sample, every default is
/// applied and the drone is taken to be under manual control; with one, a
/// drone that is already in autonomous mode or powered stays so.
pub fn initial_pin_modes(states: Option<&Vec<(Pin, bool)>>) -> (res: (bool, Vec<(Pin, PinMode)>))
    ensures
        match states {
            None => !res.0 && res.1@ == default_pin_config_spec(),
            Some(s) => res.0 == is_high(s@, Pin::DIO4) && res.1@ == initial_modes_spec(s@),
        },
{
    let defaults = default_pin_config();
    match states {
        None => (false, defaults),
        Some(states) => {
            let autonomous = lookup_pin(states, Pin::DIO4) == Some(true);
            let upcore = lookup_pin(states, Pin::DIO11) == Some(true);
            let pixhawk = lookup_pin(states, Pin::DIO12) == Some(true);
            let ghost keep = |e: (Pin, PinMode)| keeps_default(states@, e.0);
            let mut modes: Vec<(Pin, PinMode)> = Vec::new();
            let mut k: usize = 0;
            while k < defaults.len()
                invariant
                    k <= defaults.len(),
                    defaults@ == default_pin_config_spec(),
                    autonomous == is_high(states@, Pin::DIO4),
                    upcore == is_high(states@, Pin::DIO11),
                    pixhawk == is_high(states@, Pin::DIO12),
                    modes@ == defaults@.take(k as int).filter(|e: (Pin, PinMode)| keeps_default(states@, e.0)),
                decreases defaults.len() - k,
            {
                let (pin, mode) = defaults[k];
                let keep = match pin {
                    Pin::DIO4 => !autonomous,
                    Pin::DIO11 => !upcore,
                    Pin::DIO12 => !pixhawk,
                    _ => true,
                };
                assert(keep == keeps_default(states@, pin));
                let ghost pre = defaults@.take(k as int);
                assert(defaults@.take(k + 1).drop_last() =~= pre);
                proof {
                    pre.lemma_filter_push((pin, mode), |e: (Pin, PinMode)| keeps_default(states@, e.0));
                }
                assert(defaults@.take(k + 1) =~= pre.push((pin, mode)));
                if keep {
                    modes.push((pin, mode));
                }
                k = k + 1;
            }
            assert(defaults@.take(k as int) =~= defaults@);
            (autonomous, modes)
        },
    }
}

/// The power state that a sample reports, where it reports both supplies:
/// the Up Core's (DIO11) and the Pixhawk's (DIO12).
pub fn power_state(states: &Vec<(Pin, bool)>) -> (res: Option<(bool, bool)>)
    ensures
        match (lookup(states@, Pin::DIO11), lookup(states@, Pin::DIO12)) {
            (Some(upcore), Some(pixhawk)) => res == Some((upcore, pixhawk)),
            _ => res is None,
        },
{
    match (lookup_pin(states, Pin::DIO11), lookup_pin(states, Pin::DIO12)) {
        (Some(upcore), Some(pixhawk)) => Some((upcore, pixhawk)),
        _ => None,
    }
}

/// Heartbeats go to the Pixhawk only under manual control: in autonomous
/// mode their absence lets its off-board fail-safe take over.
pub fn sends_heartbeat(autonomous: bool) -> (res: bool)
    ensures
        res == !autonomous,
{
    !autonomous
}

/// What the Xbee actor does for an action.
#[derive(Debug)]
pub enum XbeePlan {
    /// Drive one output pin to a level.
    WriteOutput { pin: Pin, level: bool },
    /// Send a SERIAL_CONTROL message to the Pixhawk's shell with these
    /// bytes and this count.
    SerialControl { data: Vec<u8>, count: u8 },
    /// Refuse: the MAVLink terminal is not available in autonomous mode.
    RefuseAutonomous,
    /// Nothing to do; report success.
    Acknowledge,
}

/// The bytes of a shell command sent over MAVLink: the command followed by
/// a line feed, with their number modulo 256 as the count.
pub fn serial_command(command: &str) -> (res: (Vec<u8>, u8))
    ensures
        res.0@ == encode_utf8(command@).push(0x0a),
        res.1 == (encode_utf8(command@).len() + 1) as u8,
{
    let bytes = command.as_bytes();
    let mut data: Vec<u8> = Vec::new();
    let mut i: usize = 0;
    while i < bytes.len()
        invariant
            i <= bytes@.len(),
            bytes@ == encode_utf8(command@),
            data@ == bytes@.take(i as int),
        decreases bytes.len() - i,
    {
        data.push(bytes[i]);
        i = i + 1;
        assert(data@ =~= bytes@.take(i as int));
    }
    assert(bytes@.take(i as int) =~= bytes@);
    data.push(0x0a);
    let count = data.len() as u8;
    (data, count)
}

/// Decides how the Xbee actor carries out `action`. Power and flight-mode
/// changes drive their output pin; the MAVLink terminal is refused in
/// autonomous mode, and otherwise starting it sends a bare line feed and
/// running a command sends the command and a line feed.
pub fn xbee_plan(action: &XbeeAction, autonomous: bool) -> (res: XbeePlan)
    ensures
        match action {
            XbeeAction::SetAutonomousMode(e) => res == (XbeePlan::WriteOutput { pin: Pin::DIO4, level: *e }),
            XbeeAction::SetUpCorePower(e) => res == (XbeePlan::WriteOutput { pin: Pin::DIO11, level: *e }),
            XbeeAction::SetPixhawkPower(e) => res == (XbeePlan::WriteOutput { pin: Pin::DIO12, level: *e }),
            XbeeAction::Mavlink(a) => if autonomous {
                res is RefuseAutonomous
            } else {
                match a {
                    TerminalAction::Start => res matches XbeePlan::SerialControl { data, count }
                        && data@ == seq![0x0au8] && count == 1,
                    TerminalAction::Run(c) => res matches XbeePlan::SerialControl { data, count }
                        && data@ == encode_utf8(c@).push(0x0a)
                        && count == (encode_utf8(c@).len() + 1) as u8,
                    TerminalAction::Stop => res is Acknowledge,
                }
            },
        },
{
    match action {
        XbeeAction::SetAutonomousMode(enable) => XbeePlan::WriteOutput { pin: Pin::DIO4, level: *enable },
        XbeeAction::SetUpCorePower(enable) => XbeePlan::WriteOutput { pin: Pin::DIO11, level: *enable },
        XbeeAction::SetPixhawkPower(enable) => XbeePlan::WriteOutput { pin: Pin::DIO12, level: *enable },
        XbeeAction::Mavlink(action) => {
            if autonomous {
                XbeePlan::RefuseAutonomous
            } else {
                match action {
                    TerminalAction::Start => {
                        let mut data = Vec::new();
                        data.push(0x0a);
                        assert(data@ =~= seq![0x0au8]);
                        XbeePlan::SerialControl { data, count: 1 }
                    },
                    TerminalAction::Run(command) => {
                        let (data, count) = serial_command(command.as_str());
                        XbeePlan::SerialControl { data, count }
                    },
                    TerminalAction::Stop => XbeePlan::Acknowledge,
                }
            }
        },
    }
}

/// Whether the drone is in autonomous mode after carrying out `action`:
/// only a successful change of the flight mode changes it.
pub fn autonomous_after(action: &XbeeAction, autonomous: bool, succeeded: bool) -> (res: bool)
    ensures
        match action {
            XbeeAction::SetAutonomousMode(e) => res == if succeeded { *e } else { autonomous },
            _ => res == autonomous,
        },
{
    match action {
        XbeeAction::SetAutonomousMode(enable) => if succeeded { *enable } else { autonomous },
        _ => autonomous,
    }
}

/// The input that runs a command in the Bash terminal: the command and a
/// carriage return.
pub fn bash_input(command: &str) -> (res: Vec<u8>)
    ensures
        res@ == encode_utf8(command@).push(0x0d),
{
    let bytes = command.as_bytes();
    let mut data: Vec<u8> = Vec::new();
    let mut i: usize = 0;
    while i < bytes.len()
        invariant
            i <= bytes@.len(),
            bytes@ == encode_utf8(command@),
            data@ == bytes@.take(i as int),
        decreases bytes.len() - i,
    {
        data.push(bytes[i]);
        i = i + 1;
        assert(data@ =~= bytes@.take(i as int));
    }
    assert(bytes@.take(i as int) =~= bytes@);
    data.push(0x0d);
    data
}


/// The command line of ARGoS: the configuration file, then the router's
/// socket, the robot's identifier and the Pixhawk's port where given.
pub open spec fn argos_args_spec(config: Seq<char>, router: Option<Seq<char>>, id: Option<Seq<char>>, pixhawk: Option<Seq<char>>) -> Seq<Seq<char>> {
    seq!["--config"@, config]
        + match router { Some(r) => seq!["--router"@, r], None => Seq::empty() }
        + match id { Some(i) => seq!["--id"@, i], None => Seq::empty() }
        + match pixhawk { Some(p) => seq!["--pixhawk"@, p], None => Seq::empty() }
}

/// The view of an optional string.
pub open spec fn opt_view(s: Option<String>) -> Option<Seq<char>> {
    match s { Some(t) => Some(t@), None => None }
}

/// Appends an option and its value.
fn push_option(args: &mut Vec<String>, name: &str, value: Option<String>)
    ensures
        crate::xml::strings_view(final(args)@) == crate::xml::strings_view(old(args)@)
            + match opt_view(value) { Some(v) => seq![name@, v], None => Seq::empty() },
{
    if let Some(value) = value {
        let ghost before = args@;
        let flag = name.to_owned();
        let ghost fv = flag@;
        let ghost vv = value@;
        args.push(flag);
        args.push(value);
        assert(crate::xml::strings_view(args@) =~= crate::xml::strings_view(before) + seq![fv, vv]);
    } else {
        assert(crate::xml::strings_view(args@) =~= crate::xml::strings_view(args@) + Seq::<Seq<char>>::empty());
    }
}

/// The arguments that start ARGoS with a configuration file.
pub fn argos_args(config: &String, router_socket: Option<String>, id: Option<String>, pixhawk_port: Option<String>) -> (res: Vec<String>)
    ensures
        crate::xml::strings_view(res@) == argos_args_spec(config@, opt_view(router_socket), opt_view(id), opt_view(pixhawk_port)),
{
    let ghost r = opt_view(router_socket);
    let ghost i = opt_view(id);
    let ghost p = opt_view(pixhawk_port);
    let mut args: Vec<String> = Vec::new();
    args.push("--config".to_owned());
    args.push(config.clone());
    assert(crate::xml::strings_view(args@) =~= seq!["--config"@, config@]);
    push_option(&mut args, "--router", router_socket);
    push_option(&mut args, "--id", id);
    push_option(&mut args, "--pixhawk", pixhawk_port);
    args
}

/// The longest prefix of `bytes` that is valid UTF-8.
pub open spec fn valid_prefix_len(bytes: Seq<u8>) -> nat {
    choose|n: nat| n <= bytes.len() && valid_utf8(bytes.take(n as int))
        && forall|m: nat| n < m <= bytes.len() ==> !valid_utf8(#[trigger] bytes.take(m as int))
}

/// `std::str::from_utf8` followed by `Utf8Error::valid_up_to`: the length
/// of the longest prefix of `bytes` that is valid UTF-8 (all of them where
/// they are valid).
#[verifier::external_body]
fn utf8_valid_up_to(bytes: &[u8]) -> (n: usize)
    ensures
        n <= bytes@.len(),
        valid_utf8(bytes@.take(n as int)),
        forall|m: nat| n < m <= bytes@.len() ==> !valid_utf8(#[trigger] bytes@.take(m as int)),
{
    match std::str::from_utf8(bytes) {
        Ok(_) => bytes.len(),
        Err(error) => error.valid_up_to(),
    }
}

/// The text blocks and escape sequences that ansi-parser finds in `text`,
/// in order: a text block as `Some` of its text, an escape sequence as
/// `None`.
pub uninterp spec fn ansi_segments(text: Seq<char>) -> Seq<Option<Seq<char>>>;

/// Splits `text` with ansi-parser's `ansi_parse` into text blocks and
/// escape sequences; which is which is left to the name `ansi_segments`.
#[verifier::external_body]
fn ansi_parse_segments(text: &str) -> (res: Vec<Option<String>>)
    ensures
        res@.map_values(|s: Option<String>| opt_view(s)) == ansi_segments(text@),
{
    text.ansi_parse().map(|output| match output {
        ansi_parser::Output::TextBlock(block) => Some(block.to_owned()),
        ansi_parser::Output::Escape(_) => None,
    }).collect()
}

/// The text blocks among segments, joined.
pub open spec fn join_text(segments: Seq<Option<Seq<char>>>) -> Seq<char>
    decreases segments.len(),
{
    if segments.len() == 0 {
        Seq::empty()
    } else {
        join_text(segments.drop_last()) + match segments.last() { Some(t) => t, None => Seq::empty() }
    }
}

/// The text that a SERIAL_CONTROL reply shows on the MAVLink terminal: its
/// first `count` bytes up to the end of their valid UTF-8, without ANSI
/// escape sequences.
pub open spec fn terminal_text_spec(data: Seq<u8>, count: nat) -> Seq<char> {
    let bytes = data.take(count as int);
    join_text(ansi_segments(decode_utf8(bytes.take(valid_prefix_len(bytes) as int))))
}

/// The text that a SERIAL_CONTROL reply shows on the MAVLink terminal.
pub fn terminal_text(data: &Vec<u8>, count: u8) -> (res: String)
    requires
        count as int <= data@.len(),
    ensures
        res@ == terminal_text_spec(data@, count as nat),
{
    let bytes = crate::wire::copy_range(data, 0, count as usize);
    assert(bytes@ =~= data@.take(count as int));
    let n = utf8_valid_up_to(bytes.as_slice());
    let valid = crate::wire::copy_range(&bytes, 0, n);
    assert(valid@ =~= bytes@.take(n as int));
    proof {
        let w = valid_prefix_len(bytes@);
        assert(valid_utf8(bytes@.take(n as int)) && forall|m: nat| n < m <= bytes@.len() ==> !valid_utf8(#[trigger] bytes@.take(m as int)));
        assert(w == n) by {
            let wit = n as nat;
            assert(wit <= bytes@.len() && valid_utf8(bytes@.take(wit as int))
                && forall|m: nat| wit < m <= bytes@.len() ==> !valid_utf8(#[trigger] bytes@.take(m as int)));
            if w < n {
                assert(!valid_utf8(bytes@.take(n as int)));
            } else if w > n {
                assert(!valid_utf8(bytes@.take(w as int)));
            }
        }
    }
    let text = match utf8_to_string(valid.as_slice()) {
        Ok(text) => text,
        Err(_) => {
            assert(false);
            String::new()
        },
    };
    let segments = ansi_parse_segments(text.as_str());
    let ghost sv = segments@.map_values(|s: Option<String>| opt_view(s));
    let mut out = String::new();
    let mut k: usize = 0;
    while k < segments.len()
        invariant
            k <= segments@.len(),
            sv == segments@.map_values(|s: Option<String>| opt_view(s)),
            out@ == join_text(sv.take(k as int)),
        decreases segments.len() - k,
    {
        assert(sv.take(k + 1).drop_last() =~= sv.take(k as int));
        match &segments[k] {
            Some(block) => {
                out.append(block.as_str());
            },
            None => {},
        }
        k = k + 1;
    }
    assert(sv.take(k as int) =~= sv);
    out
}



/// Why a drone's actor cannot pass an action on.
#[derive(Debug, PartialEq, Eq, Clone, Copy)]
pub enum LinkRefusal {
    XbeeNotConnected,
    FernbedienungNotConnected,
}

/// The links of a drone's actor: the address of its Xbee and of its Up
/// Core's Fernbedienung service, where each is connected.
#[derive(Debug, PartialEq, Eq, Clone, Copy)]
pub struct DroneLinks {
    pub xbee: Option<[u8; 4]>,
    pub fernbedienung: Option<[u8; 4]>,
}

/// The updates that a new subscriber receives first: the links that are up,
/// the Xbee's before the Up Core's.
pub open spec fn replay_spec(links: DroneLinks) -> Seq<Update> {
    (match links.xbee { Some(a) => seq![Update::XbeeConnected(a)], None => Seq::empty() })
        + (match links.fernbedienung { Some(a) => seq![Update::FernbedienungConnected(a)], None => Seq::empty() })
}

impl DroneLinks {
    /// No link is up.
    pub fn new() -> (res: DroneLinks)
        ensures
            res.xbee is None && res.fernbedienung is None,
    {
        DroneLinks { xbee: None, fernbedienung: None }
    }

    /// An Xbee was associated with the drone; the update announces it.
    pub fn associate_xbee(&mut self, addr: [u8; 4]) -> (res: Update)
        ensures
            final(self).xbee == Some(addr),
            final(self).fernbedienung == old(self).fernbedienung,
            res == Update::XbeeConnected(addr),
    {
        self.xbee = Some(addr);
        Update::XbeeConnected(addr)
    }

    /// The Xbee's task ended; the update announces it.
    pub fn xbee_lost(&mut self) -> (res: Update)
        ensures
            final(self).xbee is None,
            final(self).fernbedienung == old(self).fernbedienung,
            res == Update::XbeeDisconnected,
    {
        self.xbee = None;
        Update::XbeeDisconnected
    }

    /// A Fernbedienung service was associated with the drone; the update
    /// announces it.
    pub fn associate_fernbedienung(&mut self, addr: [u8; 4]) -> (res: Update)
        ensures
            final(self).fernbedienung == Some(addr),
            final(self).xbee == old(self).xbee,
            res == Update::FernbedienungConnected(addr),
    {
        self.fernbedienung = Some(addr);
        Update::FernbedienungConnected(addr)
    }

    /// The Fernbedienung task ended; the update announces it.
    pub fn fernbedienung_lost(&mut self) -> (res: Update)
        ensures
            final(self).fernbedienung is None,
            final(self).xbee == old(self).xbee,
            res == Update::FernbedienungDisconnected,
    {
        self.fernbedienung = None;
        Update::FernbedienungDisconnected
    }

    /// Whether an action for the Xbee can be passed on.
    pub fn route_xbee(&self) -> (res: Result<(), LinkRefusal>)
        ensures
            res is Ok <==> self.xbee is Some,
            res matches Err(r) ==> r == LinkRefusal::XbeeNotConnected,
    {
        match self.xbee {
            Some(_) => Ok(()),
            None => Err(LinkRefusal::XbeeNotConnected),
        }
    }

    /// Whether an action for the Fernbedienung service (setting up an
    /// experiment among them) can be passed on.
    pub fn route_fernbedienung(&self) -> (res: Result<(), LinkRefusal>)
        ensures
            res is Ok <==> self.fernbedienung is Some,
            res matches Err(r) ==> r == LinkRefusal::FernbedienungNotConnected,
    {
        match self.fernbedienung {
            Some(_) => Ok(()),
            None => Err(LinkRefusal::FernbedienungNotConnected),
        }
    }

    /// The updates that bring a new subscriber in sync.
    pub fn replay(&self) -> (res: Vec<Update>)
        ensures
            res@ == replay_spec(*self),
    {
        let mut res: Vec<Update> = Vec::new();
        if let Some(a) = self.xbee {
            res.push(Update::XbeeConnected(a));
        }
        if let Some(a) = self.fernbedienung {
            res.push(Update::FernbedienungConnected(a));
        }
        proof {
            assert(res@ =~= replay_spec(*self));
        }
        res
    }

    /// Stopping an experiment: whether ARGoS is told to stop (where the Up
    /// Core is connected) and whether autonomous mode is switched off
    /// (where the Xbee is connected); both go out at once.
    pub fn stop_orders(&self) -> (res: (bool, bool))
        ensures
            res.0 == self.fernbedienung is Some,
            res.1 == self.xbee is Some,
    {
        (self.fernbedienung.is_some(), self.xbee.is_some())
    }
}

/// Where the start of an experiment on a drone stands.
#[derive(Debug, PartialEq, Eq, Clone, Copy)]
pub enum StartStage {
    /// Nothing sent yet.
    Begin,
    /// Autonomous mode was requested from the Xbee.
    AwaitXbee,
    /// ARGoS was told to start.
    AwaitFernbedienung,
}

/// Why the start of an experiment on a drone failed.
#[derive(Debug, PartialEq, Eq, Clone, Copy)]
pub enum StartFailure {
    XbeeNotConnected,
    XbeeFailed,
    FernbedienungNotConnected,
    FernbedienungFailed,
}

/// The next thing to do when starting an experiment on a drone.
#[derive(Debug, PartialEq, Eq, Clone, Copy)]
pub enum StartOrder {
    /// Ask the Xbee to switch on autonomous mode.
    EnableAutonomousMode,
    /// Ask the Fernbedienung service to start ARGoS.
    StartArgos,
    /// The start is over, with this outcome.
    Finish(Result<(), StartFailure>),
}

/// The start of an experiment on a drone, one step at a time: autonomous
/// mode first, then ARGoS; `succeeded` is the outcome of the order given
/// at the previous stage.
pub open spec fn start_step_spec(links: DroneLinks, stage: StartStage, succeeded: bool) -> (StartStage, StartOrder) {
    match stage {
        StartStage::Begin => match links.xbee {
            Some(_) => (StartStage::AwaitXbee, StartOrder::EnableAutonomousMode),
            None => (StartStage::Begin, StartOrder::Finish(Err(StartFailure::XbeeNotConnected))),
        },
        StartStage::AwaitXbee => if !succeeded {
            (StartStage::AwaitXbee, StartOrder::Finish(Err(StartFailure::XbeeFailed)))
        } else {
            match links.fernbedienung {
                Some(_) => (StartStage::AwaitFernbedienung, StartOrder::StartArgos),
                None => (StartStage::AwaitXbee, StartOrder::Finish(Err(StartFailure::FernbedienungNotConnected))),
            }
        },
        StartStage::AwaitFernbedienung => if succeeded {
            (StartStage::AwaitFernbedienung, StartOrder::Finish(Ok(())))
        } else {
            (StartStage::AwaitFernbedienung, StartOrder::Finish(Err(StartFailure::FernbedienungFailed)))
        },
    }
}

/// Decides the next step of starting an experiment on a drone.
pub fn start_step(links: &DroneLinks, stage: StartStage, succeeded: bool) -> (res: (StartStage, StartOrder))
    ensures
        res == start_step_spec(*links, stage, succeeded),
{
    match stage {
        StartStage::Begin => match links.xbee {
            Some(_) => (StartStage::AwaitXbee, StartOrder::EnableAutonomousMode),
            None => (StartStage::Begin, StartOrder::Finish(Err(StartFailure::XbeeNotConnected))),
        },
        StartStage::AwaitXbee => if !succeeded {
            (StartStage::AwaitXbee, StartOrder::Finish(Err(StartFailure::XbeeFailed)))
        } else {
            match links.fernbedienung {
                Some(_) => (StartStage::AwaitFernbedienung, StartOrder::StartArgos),
                None => (StartStage::AwaitXbee, StartOrder::Finish(Err(StartFailure::FernbedienungNotConnected))),
            }
        },
        StartStage::AwaitFernbedienung => if succeeded {
            (StartStage::AwaitFernbedienung, StartOrder::Finish(Ok(())))
        } else {
            (StartStage::AwaitFernbedienung, StartOrder::Finish(Err(StartFailure::FernbedienungFailed)))
        },
    }
}

/// ARGoS is only ever told to start once autonomous mode was switched on,
/// and a start succeeds only from the stage that awaited ARGoS, after it
/// succeeded.
pub proof fn lemma_autonomous_before_argos(links: DroneLinks, stage: StartStage, succeeded: bool)
    ensures
        start_step_spec(links, stage, succeeded).1 == StartOrder::StartArgos
            ==> stage == StartStage::AwaitXbee && succeeded && links.fernbedienung is Some,
        start_step_spec(links, stage, succeeded).1 == StartOrder::Finish(Ok(()))
            ==> stage == StartStage::AwaitFernbedienung && succeeded,
{
}

/// A subscriber is told of exactly the links that are up: after an
/// association the replay announces it, after a loss it does not.
pub proof fn lemma_replay_tracks_links(links: DroneLinks, addr: [u8; 4])
    ensures
        replay_spec(DroneLinks { xbee: Some(addr), ..links }).contains(Update::XbeeConnected(addr)),
        replay_spec(DroneLinks { fernbedienung: Some(addr), ..links }).contains(Update::FernbedienungConnected(addr)),
        !replay_spec(DroneLinks { xbee: None, ..links }).contains(Update::XbeeConnected(addr)),
        !replay_spec(DroneLinks { fernbedienung: None, ..links }).contains(Update::FernbedienungConnected(addr)),
{
    let x = DroneLinks { xbee: Some(addr), ..links };
    assert(replay_spec(x)[0] == Update::XbeeConnected(addr));
    let f = DroneLinks { fernbedienung: Some(addr), ..links };
    let r = replay_spec(f);
    assert(r[r.len() - 1] == Update::FernbedienungConnected(addr));
    let nx = DroneLinks { xbee: None, ..links };
    assert(replay_spec(nx) =~= match links.fernbedienung { Some(a) => seq![Update::FernbedienungConnected(a)], None => Seq::<Update>::empty() });
    let nf = DroneLinks { fernbedienung: None, ..links };
    assert(replay_spec(nf) =~= match links.xbee { Some(a) => seq![Update::XbeeConnected(a)], None => Seq::<Update>::empty() });
}

} // verus!
