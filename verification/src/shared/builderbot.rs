//! What the supervisor and its user interface exchange about BuilderBots.
use vstd::prelude::*;

verus! {

/// A BuilderBot of the arena: its name, the MAC address of its DuoVero
/// computer, and its tracking-system and AprilTag identifiers.
#[derive(Debug, Clone, PartialEq, Eq)]
pub struct Descriptor {
    pub id: String,
    pub duovero_macaddr: [u8; 6],
    pub optitrack_id: Option<i32>,
    pub apriltag_id: Option<u8>,
}

/// A change of a BuilderBot's state.
#[derive(Debug)]
pub enum Update {
    Battery(i32),
    Camera { camera: String, result: Result<Vec<u8>, String> },
    FernbedienungConnected([u8; 4]),
    FernbedienungDisconnected,
    FernbedienungSignal(i32),
    Bash(String),
}

/// A request that the user makes of a BuilderBot.
#[derive(Debug)]
pub enum Request {
    BashTerminalStart,
    BashTerminalStop,
    BashTerminalRun(String),
    CameraStreamEnable(bool),
    Identify,
    DuoVeroHalt,
    DuoVeroReboot,
}

} // verus!
