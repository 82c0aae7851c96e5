//! The messages between the supervisor and its user interface.
use vstd::prelude::*;

pub mod builderbot;
pub mod drone;
pub mod pipuck;
pub mod experiment;

verus! {

/// A tracking-system report of a rigid body: its identifier, and its
/// position and orientation as the IEEE-754 bits of single-precision
/// numbers.
#[derive(Debug, Clone, Copy, PartialEq, Eq)]
pub struct TrackingUpdate {
    pub id: i32,
    pub position: [u32; 3],
    pub orientation: [u32; 4],
}

/// A message from the supervisor to the user interface.
#[derive(Debug)]
pub enum DownMessage {
    Request([u8; 16], FrontEndRequest),
    Response([u8; 16], Result<(), String>),
}

/// What the supervisor asks the user interface to show.
#[derive(Debug)]
pub enum FrontEndRequest {
    AddBuilderBot(builderbot::Descriptor),
    UpdateBuilderBot(String, builderbot::Update),
    AddDrone(drone::Descriptor),
    UpdateDrone(String, drone::Update),
    AddPiPuck(pipuck::Descriptor),
    UpdatePiPuck(String, pipuck::Update),
    UpdateExperiment(experiment::Update),
    UpdateTrackingSystem(Vec<TrackingUpdate>),
}

/// A message from the user interface to the supervisor.
#[derive(Debug)]
pub enum UpMessage {
    Request([u8; 16], BackEndRequest),
    Response([u8; 16], Result<(), String>),
}

/// What the user interface asks of the supervisor.
#[derive(Debug)]
pub enum BackEndRequest {
    DroneRequest(String, drone::Request),
    PiPuckRequest(String, pipuck::Request),
    ExperimentRequest(experiment::Request),
}

} // verus!
