//! The messages between the supervisor and the Fernbedienung service on a
//! robot; requests carry an identifier that their responses repeat.
use vstd::prelude::*;

pub mod stream;
pub mod process;

verus! {

/// A file to upload: its name, the directory to put it in and its contents.
#[derive(Debug)]
pub struct Upload {
    pub filename: String,
    pub path: String,
    pub contents: Vec<u8>,
}

/// What a request asks for.
#[derive(Debug)]
pub enum RequestKind {
    Upload(Upload),
    Process(process::Request),
    Stream(stream::Request),
}

/// A request and its identifier (the bytes of a UUID).
#[derive(Debug)]
pub struct Request(pub [u8; 16], pub RequestKind);

/// What a response reports.
#[derive(Debug)]
pub enum ResponseKind {
    Success,
    Error(String),
    Process(process::Response),
    Stream(stream::Response),
}

/// A response and the identifier of the request that it answers, if any.
#[derive(Debug)]
pub struct Response(pub Option<[u8; 16]>, pub ResponseKind);

} // verus!
