//! What the supervisor and its user interface exchange about drones.
use vstd::prelude::*;

verus! {

/// A drone of the arena: its name, the MAC addresses of its Xbee and of its
/// Up Core, and its tracking-system identifier.
#[derive(Debug, Clone, PartialEq, Eq)]
pub struct Descriptor {
    pub id: String,
    pub xbee_macaddr: [u8; 6],
    pub upcore_macaddr: [u8; 6],
    pub optitrack_id: Option<i32>,
}

/// A change of a drone's state.
#[derive(Debug)]
pub enum Update {
    Battery(i32),
    Camera { camera: String, result: Result<Vec<u8>, String> },
    FernbedienungConnected([u8; 4]),
    FernbedienungDisconnected,
    FernbedienungSignal(i32),
    XbeeConnected([u8; 4]),
    XbeeDisconnected,
    XbeeSignal(i32),
    Mavlink(String),
    Bash(String),
    PowerState { pixhawk: bool, upcore: bool },
}

/// A request that the user makes of a drone.
#[derive(Debug)]
pub enum Request {
    BashTerminalStart,
    BashTerminalStop,
    BashTerminalRun(String),
    CameraStreamEnable(bool),
    PixhawkPowerEnable(bool),
    MavlinkTerminalStart,
    MavlinkTerminalStop,
    MavlinkTerminalRun(String),
    UpCorePowerEnable(bool),
    UpCoreHalt,
    UpCoreReboot,
}

} // verus!
