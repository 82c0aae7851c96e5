//! What the supervisor and its user interface exchange about Pi-Pucks.
use vstd::prelude::*;

verus! {

/// A Pi-Puck of the arena: its name, the MAC address of its Raspberry Pi,
/// and its tracking-system and AprilTag identifiers.
#[derive(Debug, Clone, PartialEq, Eq)]
pub struct Descriptor {
    pub id: String,
    pub rpi_macaddr: [u8; 6],
    pub optitrack_id: Option<i32>,
    pub apriltag_id: Option<u8>,
}

/// A change of a Pi-Puck's state.
#[derive(Debug)]
pub enum Update {
    Camera { camera: String, result: Result<Vec<u8>, String> },
    Descriptor(Descriptor),
    FernbedienungConnection(Option<[u8; 4]>),
    FernbedienungSignal(Result<i32, String>),
}

/// A request that the user makes of a Pi-Puck.
#[derive(Debug)]
pub enum Request {
    BashTerminalStart,
    BashTerminalStop,
    BashTerminalRun(String),
    CameraStreamEnable(bool),
    RaspberryPiHalt,
    RaspberryPiReboot,
}

} // verus!
