//! Requests and responses of a camera stream.
use vstd::prelude::*;

verus! {

/// A camera stream: the device and the frame size and format.
#[derive(Debug)]
pub struct Stream {
    pub device: String,
    pub height: u32,
    pub width: u32,
    pub format: String,
}

/// A request to start or stop a camera stream.
#[derive(Debug)]
pub enum Request {
    Stream(Stream),
    Stop,
}

/// A frame of a camera stream.
#[derive(Debug)]
pub enum Response {
    Frame(Vec<u8>),
}

} // verus!
