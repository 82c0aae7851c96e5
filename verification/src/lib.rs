//! Protocol, framing and decision logic of a supervisor for robot-swarm
//! experiments: Xbee remote AT commands, MAVLink v2 framing, the
//! Fernbedienung remote-control protocol, the robot message router and the
//! bookkeeping of the control software that is uploaded to the robots.

pub mod wire;
pub mod xbee;
pub mod codec;
pub mod text;
pub mod xml;
pub mod software;
pub mod router;
pub mod fernbedienung;
pub mod robot;
pub mod drone;
pub mod shared;
pub mod arena;
pub mod status;
pub mod interface;
pub mod webui;
pub mod ssh;
pub mod network;
pub mod robots;
pub mod pipuck;
pub mod experiment;
pub mod journal;
pub mod config;
