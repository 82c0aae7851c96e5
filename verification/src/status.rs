//! What the user interface shows of each robot, and how each update from
//! the supervisor changes it.
use vstd::prelude::*;
use base64::Engine;
use crate::shared::{builderbot, drone, pipuck};

verus! {

/// The view of a camera frame: its base64 text, or the error message.
pub open spec fn result_view(r: Result<String, String>) -> Result<Seq<char>, Seq<char>> {
    match r {
        Ok(v) => Ok(v@),
        Err(e) => Err(e@),
    }
}

/// The view of the latest frame of each camera.
pub open spec fn frames_view(frames: Seq<(String, Result<String, String>)>) -> Seq<(Seq<char>, Result<Seq<char>, Seq<char>>)> {
    frames.map_values(|f: (String, Result<String, String>)| (f.0@, result_view(f.1)))
}

/// The position of the first frame of `camera`, if any.
pub open spec fn find_camera(frames: Seq<(Seq<char>, Result<Seq<char>, Seq<char>>)>, camera: Seq<char>) -> Option<int> {
    if exists|i: int| 0 <= i < frames.len() && frames[i].0 == camera {
        Some(choose|i: int| 0 <= i < frames.len() && frames[i].0 == camera && forall|j: int| 0 <= j < i ==> frames[j].0 != camera)
    } else {
        None
    }
}

/// The frames after a new frame of `camera`: it replaces the camera's
/// previous frame, or is added.
pub open spec fn frame_set(
    frames: Seq<(Seq<char>, Result<Seq<char>, Seq<char>>)>,
    camera: Seq<char>,
    frame: Result<Seq<char>, Seq<char>>,
) -> Seq<(Seq<char>, Result<Seq<char>, Seq<char>>)> {
    match find_camera(frames, camera) {
        Some(i) => frames.update(i, (camera, frame)),
        None => frames.push((camera, frame)),
    }
}

/// The character of the standard base64 alphabet (`A-Z a-z 0-9 + /`) for a
/// six-bit value.
pub open spec fn base64_char(v: int) -> char {
    if v < 26 {
        (65 + v) as char
    } else if v < 52 {
        (97 + v - 26) as char
    } else if v < 62 {
        (48 + v - 52) as char
    } else if v == 62 {
        '+'
    } else {
        '/'
    }
}

/// The base64 text of `bytes`, standard alphabet, padded with `=`: every
/// three bytes become four characters of six bits each, most significant
/// first; a last group of one or two bytes is padded.
pub open spec fn base64_text(bytes: Seq<u8>) -> Seq<char>
    decreases bytes.len(),
{
    if bytes.len() == 0 {
        Seq::empty()
    } else if bytes.len() == 1 {
        let b0 = bytes[0] as int;
        seq![base64_char(b0 / 4), base64_char((b0 % 4) * 16), '=', '=']
    } else if bytes.len() == 2 {
        let b0 = bytes[0] as int;
        let b1 = bytes[1] as int;
        seq![base64_char(b0 / 4), base64_char((b0 % 4) * 16 + b1 / 16), base64_char((b1 % 16) * 4), '=']
    } else {
        let b0 = bytes[0] as int;
        let b1 = bytes[1] as int;
        let b2 = bytes[2] as int;
        seq![base64_char(b0 / 4), base64_char((b0 % 4) * 16 + b1 / 16), base64_char((b1 % 16) * 4 + b2 / 64),
            base64_char(b2 % 64)] + base64_text(bytes.skip(3))
    }
}

/// Encodes bytes as base64 with `base64`'s standard engine (alphabet
/// `A-Z a-z 0-9 + /`, padded with `=`), which gives the text stated above.
/// The engine panics
/// where the length of the text would overflow, which the bound rules out.
#[verifier::external_body]
fn encode_base64(bytes: &[u8]) -> (res: String)
    requires
        bytes@.len() <= usize::MAX / 2,
    ensures
        res@ == base64_text(bytes@),
{
    base64::engine::general_purpose::STANDARD.encode(bytes)
}

/// What is kept of a camera's frame: the base64 text of an image, or the
/// error message.
pub open spec fn frame_of(result: Result<Vec<u8>, String>) -> Result<Seq<char>, Seq<char>> {
    match result {
        Ok(b) => Ok(base64_text(b@)),
        Err(e) => Err(e@),
    }
}

/// Keeps the latest frame of a camera: an image becomes its base64 text, an
/// error its message.
fn set_frame(frames: &mut Vec<(String, Result<String, String>)>, camera: String, result: Result<Vec<u8>, String>)
    requires
        result matches Ok(b) ==> b@.len() <= usize::MAX / 2,
    ensures
        frames_view(final(frames)@) == frame_set(frames_view(old(frames)@), camera@, frame_of(result)),
{
    let ghost target = frame_of(result);
    let frame: Result<String, String> = match result {
        Ok(bytes) => Ok(encode_base64(bytes.as_slice())),
        Err(e) => Err(e),
    };
    assert(result_view(frame) == target);
    let ghost before = frames_view(frames@);
    let mut i: usize = 0;
    while i < frames.len()
        invariant
            i <= frames@.len(),
            before == frames_view(frames@),
            before == frames_view(old(frames)@),
            result_view(frame) == target,
            target == frame_of(result),
            forall|j: int| 0 <= j < i ==> before[j].0 != camera@,
        decreases frames.len() - i,
    {
        assert(before[i as int].0 == frames@[i as int].0@);
        if frames[i].0 == camera {
            proof {
                let c = choose|c: int| 0 <= c < before.len() && before[c].0 == camera@
                    && forall|j: int| 0 <= j < c ==> before[j].0 != camera@;
                assert(c == i as int);
            }
            assert(find_camera(before, camera@) == Some(i as int));
            let ghost entry = (camera@, result_view(frame));
            frames.set(i, (camera, frame));
            assert(frames_view(frames@) =~= before.update(i as int, entry));
            assert(entry == (camera@, target));
            return;
        }
        i = i + 1;
    }
    let ghost entry = (camera@, result_view(frame));
    frames.push((camera, frame));
    assert(frames_view(frames@) =~= before.push(entry));
}

/// The number of bars shown for a signal of `percent`: one for 0 to 24, two
/// for 25 to 49, three for 50 to 74, four for anything else (a link that
/// is down shows none).
pub open spec fn signal_level_spec(percent: int) -> u8 {
    if 0 <= percent <= 24 {
        1
    } else if 25 <= percent <= 49 {
        2
    } else if 50 <= percent <= 74 {
        3
    } else {
        4
    }
}

/// The number of bars shown for a signal of `percent`.
pub fn signal_level(percent: i64) -> (res: u8)
    ensures
        res == signal_level_spec(percent as int),
{
    if 0 <= percent && percent <= 24 {
        1
    } else if 25 <= percent && percent <= 49 {
        2
    } else if 50 <= percent && percent <= 74 {
        3
    } else {
        4
    }
}

/// The Wi-Fi signal of an Up Core or a DuoVero as a percentage: its
/// strength in dBm plus 90.
pub fn wifi_percent(strength: i32) -> (res: i64)
    ensures
        res == strength + 90,
{
    strength as i64 + 90
}

/// The Pixhawk of a drone as the user interface knows it: connected
/// through its Xbee at an address, with its signal, battery and MAVLink
/// terminal, or not connected.
#[derive(Debug)]
pub enum PixhawkLink {
    Connected { addr: [u8; 4], signal: Result<i32, String>, battery: Result<i32, String>, terminal: String },
    Disconnected,
}

/// The Up Core of a drone as the user interface knows it.
#[derive(Debug)]
pub enum UpCoreLink {
    Connected { addr: [u8; 4], signal: Result<i32, String>, terminal: String },
    Disconnected,
}

/// What the user interface shows of a drone.
#[derive(Debug)]
pub struct DroneStatus {
    pub descriptor: drone::Descriptor,
    pub optitrack_pos: [u32; 3],
    pub upcore: UpCoreLink,
    pub upcore_power: bool,
    pub pixhawk: PixhawkLink,
    pub pixhawk_power: bool,
    pub camera_stream: Vec<(String, Result<String, String>)>,
}

/// Whether `s` reads "Unknown", the value of a reading not yet received.
pub open spec fn is_unknown<T>(r: Result<T, String>) -> bool {
    r matches Err(e) && e@ == "Unknown"@
}

/// The fields of a drone's status other than its links and cameras are
/// unchanged.
pub open spec fn drone_same_rest(o: DroneStatus, n: DroneStatus) -> bool {
    &&& n.descriptor == o.descriptor
    &&& n.optitrack_pos == o.optitrack_pos
}

/// What an update does to a drone's status: readings and terminal output
/// land only on a connected link, a connection starts with unknown
/// readings and an empty terminal, a disconnection forgets the link, and a
/// power report sets both power flags.
pub open spec fn drone_updated(o: DroneStatus, n: DroneStatus, u: drone::Update) -> bool {
    &&& drone_same_rest(o, n)
    &&& match u {
        drone::Update::Camera { camera, result } => {
            &&& n.upcore == o.upcore && n.pixhawk == o.pixhawk
            &&& n.upcore_power == o.upcore_power && n.pixhawk_power == o.pixhawk_power
            &&& frames_view(n.camera_stream@) == frame_set(frames_view(o.camera_stream@), camera@, frame_of(result))
        },
        drone::Update::PowerState { pixhawk, upcore } => {
            &&& n.upcore == o.upcore && n.pixhawk == o.pixhawk && n.camera_stream == o.camera_stream
            &&& n.upcore_power == upcore && n.pixhawk_power == pixhawk
        },
        _ => {
            &&& n.camera_stream == o.camera_stream
            &&& n.upcore_power == o.upcore_power && n.pixhawk_power == o.pixhawk_power
            &&& match u {
                drone::Update::Battery(r) => n.upcore == o.upcore && n.pixhawk == match o.pixhawk {
                    PixhawkLink::Connected { addr, signal, terminal, .. } =>
                        PixhawkLink::Connected { addr, signal, battery: Ok(r), terminal },
                    PixhawkLink::Disconnected => PixhawkLink::Disconnected,
                },
                drone::Update::XbeeSignal(r) => n.upcore == o.upcore && n.pixhawk == match o.pixhawk {
                    PixhawkLink::Connected { addr, battery, terminal, .. } =>
                        PixhawkLink::Connected { addr, signal: Ok(r), battery, terminal },
                    PixhawkLink::Disconnected => PixhawkLink::Disconnected,
                },
                drone::Update::XbeeConnected(a) => n.upcore == o.upcore
                    && (n.pixhawk matches PixhawkLink::Connected { addr, signal, battery, terminal }
                    && addr == a && is_unknown(signal) && is_unknown(battery) && terminal@.len() == 0),
                drone::Update::XbeeDisconnected => n.upcore == o.upcore && n.pixhawk == PixhawkLink::Disconnected,
                drone::Update::Mavlink(text) => n.upcore == o.upcore && match o.pixhawk {
                    PixhawkLink::Connected { addr, signal, battery, terminal } =>
                        n.pixhawk matches PixhawkLink::Connected { addr: a2, signal: s2, battery: b2, terminal: t2 }
                        && a2 == addr && s2 == signal && b2 == battery && t2@ == terminal@ + text@,
                    PixhawkLink::Disconnected => n.pixhawk == PixhawkLink::Disconnected,
                },
                drone::Update::FernbedienungSignal(r) => n.pixhawk == o.pixhawk && n.upcore == match o.upcore {
                    UpCoreLink::Connected { addr, terminal, .. } => UpCoreLink::Connected { addr, signal: Ok(r), terminal },
                    UpCoreLink::Disconnected => UpCoreLink::Disconnected,
                },
                drone::Update::FernbedienungConnected(a) => n.pixhawk == o.pixhawk
                    && (n.upcore matches UpCoreLink::Connected { addr, signal, terminal }
                    && addr == a && is_unknown(signal) && terminal@.len() == 0),
                drone::Update::FernbedienungDisconnected => n.pixhawk == o.pixhawk && n.upcore == UpCoreLink::Disconnected,
                drone::Update::Bash(text) => n.pixhawk == o.pixhawk && match o.upcore {
                    UpCoreLink::Connected { addr, signal, terminal } =>
                        n.upcore matches UpCoreLink::Connected { addr: a2, signal: s2, terminal: t2 }
                        && a2 == addr && s2 == signal && t2@ == terminal@ + text@,
                    UpCoreLink::Disconnected => n.upcore == UpCoreLink::Disconnected,
                },
                _ => true,
            }
        },
    }
}

/// The reading that is shown before any is received.
fn unknown() -> (res: String)
    ensures
        res@ == "Unknown"@,
{
    let res = String::from_str("Unknown");
    proof { reveal_strlit("Unknown"); }
    res
}

impl DroneStatus {
    /// A drone that is known by its descriptor only: nothing connected,
    /// both power flags off, no camera frames, and the tracking position at
    /// the origin.
    pub fn new(descriptor: drone::Descriptor) -> (res: DroneStatus)
        ensures
            res.descriptor == descriptor,
            res.optitrack_pos@ == seq![0u32, 0u32, 0u32],
            res.upcore == UpCoreLink::Disconnected,
            res.pixhawk == PixhawkLink::Disconnected,
            !res.upcore_power && !res.pixhawk_power,
            res.camera_stream@.len() == 0,
    {
        DroneStatus {
            descriptor,
            optitrack_pos: [0u32, 0u32, 0u32],
            upcore: UpCoreLink::Disconnected,
            upcore_power: false,
            pixhawk: PixhawkLink::Disconnected,
            pixhawk_power: false,
            camera_stream: Vec::new(),
        }
    }

    /// Applies an update from the supervisor.
    pub fn update(&mut self, update: drone::Update)
        requires
            update matches drone::Update::Camera { result: Ok(b), .. } ==> b@.len() <= usize::MAX / 2,
        ensures
            drone_updated(*old(self), *final(self), update),
    {
        match update {
            drone::Update::Battery(reading) => {
                match &mut self.pixhawk {
                    PixhawkLink::Connected { battery, .. } => {
                        *battery = Ok(reading);
                    },
                    PixhawkLink::Disconnected => {},
                }
            },
            drone::Update::Camera { camera, result } => {
                set_frame(&mut self.camera_stream, camera, result);
            },
            drone::Update::FernbedienungConnected(addr) => {
                self.upcore = UpCoreLink::Connected { addr, signal: Err(unknown()), terminal: String::new() };
            },
            drone::Update::FernbedienungDisconnected => {
                self.upcore = UpCoreLink::Disconnected;
            },
            drone::Update::FernbedienungSignal(strength) => {
                match &mut self.upcore {
                    UpCoreLink::Connected { signal, .. } => {
                        *signal = Ok(strength);
                    },
                    UpCoreLink::Disconnected => {},
                }
            },
            drone::Update::XbeeConnected(addr) => {
                self.pixhawk = PixhawkLink::Connected {
                    addr,
                    signal: Err(unknown()),
                    battery: Err(unknown()),
                    terminal: String::new(),
                };
            },
            drone::Update::XbeeDisconnected => {
                self.pixhawk = PixhawkLink::Disconnected;
            },
            drone::Update::XbeeSignal(strength) => {
                match &mut self.pixhawk {
                    PixhawkLink::Connected { signal, .. } => {
                        *signal = Ok(strength);
                    },
                    PixhawkLink::Disconnected => {},
                }
            },
            drone::Update::Bash(response) => {
                match &mut self.upcore {
                    UpCoreLink::Connected { terminal, .. } => {
                        terminal.append(response.as_str());
                    },
                    UpCoreLink::Disconnected => {},
                }
            },
            drone::Update::Mavlink(response) => {
                match &mut self.pixhawk {
                    PixhawkLink::Connected { terminal, .. } => {
                        terminal.append(response.as_str());
                    },
                    PixhawkLink::Disconnected => {},
                }
            },
            drone::Update::PowerState { upcore, pixhawk } => {
                self.pixhawk_power = pixhawk;
                self.upcore_power = upcore;
            },
        }
    }
}

/// The DuoVero computer of a BuilderBot as the user interface knows it.
#[derive(Debug)]
pub enum DuoVeroLink {
    Connected { addr: [u8; 4], battery: Result<i32, String>, signal: Result<i32, String>, terminal: String },
    Disconnected,
}

/// What the user interface shows of a BuilderBot.
#[derive(Debug)]
pub struct BuilderBotStatus {
    pub descriptor: builderbot::Descriptor,
    pub optitrack_pos: [u32; 3],
    pub duovero: DuoVeroLink,
    pub camera_stream: Vec<(String, Result<String, String>)>,
}

/// What an update does to a BuilderBot's status, in the same way as for a
/// drone's Up Core.
pub open spec fn builderbot_updated(o: BuilderBotStatus, n: BuilderBotStatus, u: builderbot::Update) -> bool {
    &&& n.descriptor == o.descriptor
    &&& n.optitrack_pos == o.optitrack_pos
    &&& match u {
        builderbot::Update::Camera { camera, result } => n.duovero == o.duovero
            && frames_view(n.camera_stream@) == frame_set(frames_view(o.camera_stream@), camera@, frame_of(result)),
        _ => n.camera_stream == o.camera_stream && match u {
            builderbot::Update::Battery(r) => n.duovero == match o.duovero {
                DuoVeroLink::Connected { addr, signal, terminal, .. } =>
                    DuoVeroLink::Connected { addr, battery: Ok(r), signal, terminal },
                DuoVeroLink::Disconnected => DuoVeroLink::Disconnected,
            },
            builderbot::Update::FernbedienungSignal(r) => n.duovero == match o.duovero {
                DuoVeroLink::Connected { addr, battery, terminal, .. } =>
                    DuoVeroLink::Connected { addr, battery, signal: Ok(r), terminal },
                DuoVeroLink::Disconnected => DuoVeroLink::Disconnected,
            },
            builderbot::Update::FernbedienungConnected(a) =>
                (n.duovero matches DuoVeroLink::Connected { addr, battery, signal, terminal }
                && addr == a && is_unknown(battery) && is_unknown(signal) && terminal@.len() == 0),
            builderbot::Update::FernbedienungDisconnected => n.duovero == DuoVeroLink::Disconnected,
            builderbot::Update::Bash(text) => match o.duovero {
                DuoVeroLink::Connected { addr, battery, signal, terminal } =>
                    (n.duovero matches DuoVeroLink::Connected { addr: a2, battery: b2, signal: s2, terminal: t2 }
                    && a2 == addr && b2 == battery && s2 == signal && t2@ == terminal@ + text@),
                DuoVeroLink::Disconnected => n.duovero == DuoVeroLink::Disconnected,
            },
            _ => true,
        },
    }
}

impl BuilderBotStatus {
    /// A BuilderBot known by its descriptor only.
    pub fn new(descriptor: builderbot::Descriptor) -> (res: BuilderBotStatus)
        ensures
            res.descriptor == descriptor,
            res.optitrack_pos@ == seq![0u32, 0u32, 0u32],
            res.duovero == DuoVeroLink::Disconnected,
            res.camera_stream@.len() == 0,
    {
        BuilderBotStatus {
            descriptor,
            optitrack_pos: [0u32, 0u32, 0u32],
            duovero: DuoVeroLink::Disconnected,
            camera_stream: Vec::new(),
        }
    }

    /// Applies an update from the supervisor.
    pub fn update(&mut self, update: builderbot::Update)
        requires
            update matches builderbot::Update::Camera { result: Ok(b), .. } ==> b@.len() <= usize::MAX / 2,
        ensures
            builderbot_updated(*old(self), *final(self), update),
    {
        match update {
            builderbot::Update::Battery(reading) => {
                match &mut self.duovero {
                    DuoVeroLink::Connected { battery, .. } => {
                        *battery = Ok(reading);
                    },
                    DuoVeroLink::Disconnected => {},
                }
            },
            builderbot::Update::Camera { camera, result } => {
                set_frame(&mut self.camera_stream, camera, result);
            },
            builderbot::Update::FernbedienungConnected(addr) => {
                self.duovero = DuoVeroLink::Connected {
                    addr,
                    battery: Err(unknown()),
                    signal: Err(unknown()),
                    terminal: String::new(),
                };
            },
            builderbot::Update::FernbedienungDisconnected => {
                self.duovero = DuoVeroLink::Disconnected;
            },
            builderbot::Update::FernbedienungSignal(strength) => {
                match &mut self.duovero {
                    DuoVeroLink::Connected { signal, .. } => {
                        *signal = Ok(strength);
                    },
                    DuoVeroLink::Disconnected => {},
                }
            },
            builderbot::Update::Bash(response) => {
                match &mut self.duovero {
                    DuoVeroLink::Connected { terminal, .. } => {
                        terminal.append(response.as_str());
                    },
                    DuoVeroLink::Disconnected => {},
                }
            },
        }
    }
}

/// What the user interface shows of a Pi-Puck: each update replaces the
/// part of the status that it names.
#[derive(Debug)]
pub struct PiPuckStatus {
    pub descriptor: pipuck::Descriptor,
    pub optitrack_pos: [u32; 3],
    pub connection: Option<[u8; 4]>,
    pub signal: Result<i32, String>,
    pub camera_stream: Vec<(String, Result<String, String>)>,
}

/// What an update does to a Pi-Puck's status.
pub open spec fn pipuck_updated(o: PiPuckStatus, n: PiPuckStatus, u: pipuck::Update) -> bool {
    &&& n.optitrack_pos == o.optitrack_pos
    &&& match u {
        pipuck::Update::Camera { camera, result } => n.descriptor == o.descriptor && n.connection == o.connection
            && n.signal == o.signal
            && frames_view(n.camera_stream@) == frame_set(frames_view(o.camera_stream@), camera@, frame_of(result)),
        pipuck::Update::Descriptor(d) => n.descriptor == d && n.connection == o.connection && n.signal == o.signal
            && n.camera_stream == o.camera_stream,
        pipuck::Update::FernbedienungConnection(c) => n.descriptor == o.descriptor && n.connection == c
            && n.signal == o.signal && n.camera_stream == o.camera_stream,
        pipuck::Update::FernbedienungSignal(r) => n.descriptor == o.descriptor && n.connection == o.connection
            && n.signal == r && n.camera_stream == o.camera_stream,
    }
}

impl PiPuckStatus {
    /// A Pi-Puck known by its descriptor only: no connection and an
    /// unknown signal.
    pub fn new(descriptor: pipuck::Descriptor) -> (res: PiPuckStatus)
        ensures
            res.descriptor == descriptor,
            res.optitrack_pos@ == seq![0u32, 0u32, 0u32],
            res.connection is None,
            is_unknown(res.signal),
            res.camera_stream@.len() == 0,
    {
        PiPuckStatus {
            descriptor,
            optitrack_pos: [0u32, 0u32, 0u32],
            connection: None,
            signal: Err(unknown()),
            camera_stream: Vec::new(),
        }
    }

    /// Applies an update from the supervisor.
    pub fn update(&mut self, update: pipuck::Update)
        requires
            update matches pipuck::Update::Camera { result: Ok(b), .. } ==> b@.len() <= usize::MAX / 2,
        ensures
            pipuck_updated(*old(self), *final(self), update),
    {
        match update {
            pipuck::Update::Camera { camera, result } => {
                set_frame(&mut self.camera_stream, camera, result);
            },
            pipuck::Update::Descriptor(descriptor) => {
                self.descriptor = descriptor;
            },
            pipuck::Update::FernbedienungConnection(connection) => {
                self.connection = connection;
            },
            pipuck::Update::FernbedienungSignal(signal) => {
                self.signal = signal;
            },
        }
    }
}

} // verus!
