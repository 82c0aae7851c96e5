//! The client side of the Fernbedienung remote-control service: what the
//! supervisor makes of the service's responses and of the output of the
//! programs that it runs on a robot.
use vstd::prelude::*;
use vstd::utf8::{decode_utf8, valid_utf8};
use crate::text::{decimal, dotted, push_decimal, push_dotted, first_capture, mac_parse, parse_i32, parse_i32_spec, parse_mac, regex_capture, trim, trim_spec, utf8_to_string};

pub mod protocol;

pub use protocol::{Upload, process::Process};
use protocol::{process, ResponseKind};

verus! {

/// TCP port of the Fernbedienung service.
pub const PORT: u16 = 17653;

/// What can go wrong when using a Fernbedienung device.
#[derive(Debug, PartialEq, Eq)]
pub enum Error {
    RequestError,
    AbnormalTerminationError,
    RemoteError(String),
    ResponseError,
    DecodeError,
}

/// What to do with a response to a running process.
#[derive(Debug)]
pub enum RunStep {
    /// Nothing to do; wait for more.
    Continue,
    /// Forward output to the standard output channel.
    Stdout(Vec<u8>),
    /// Forward output to the standard error channel.
    Stderr(Vec<u8>),
    /// The process is over, with this result.
    Finish(Result<(), Error>),
}

/// Decides what a response to a running process means: a remote error or
/// the process's termination ends it (abnormal termination is an error),
/// output is forwarded, anything else is waited past.
pub fn run_step(response: ResponseKind) -> (res: RunStep)
    ensures
        match response {
            ResponseKind::Success => res is Continue,
            ResponseKind::Error(e) => res matches RunStep::Finish(Err(Error::RemoteError(m))) && m@ == e@,
            ResponseKind::Process(process::Response::Terminated(ok)) =>
                if ok { res matches RunStep::Finish(Ok(())) } else { res matches RunStep::Finish(Err(Error::AbnormalTerminationError)) },
            ResponseKind::Process(process::Response::StandardOutput(d)) => res matches RunStep::Stdout(o) && o@ == d@,
            ResponseKind::Process(process::Response::StandardError(d)) => res matches RunStep::Stderr(o) && o@ == d@,
            ResponseKind::Stream(_) => res is Continue,
        },
{
    match response {
        ResponseKind::Success => RunStep::Continue,
        ResponseKind::Error(error) => RunStep::Finish(Err(Error::RemoteError(error))),
        ResponseKind::Process(response) => match response {
            process::Response::Terminated(result) => {
                if result {
                    RunStep::Finish(Ok(()))
                } else {
                    RunStep::Finish(Err(Error::AbnormalTerminationError))
                }
            },
            process::Response::StandardOutput(data) => RunStep::Stdout(data),
            process::Response::StandardError(data) => RunStep::Stderr(data),
        },
        ResponseKind::Stream(_) => RunStep::Continue,
    }
}

/// The result of a request that is answered once (upload, halt, reboot):
/// a request that could not be sent is a `RequestError`; anything but an
/// `Ok` response (or no response) is a `ResponseError`.
pub fn request_result(sent: bool, response: Option<ResponseKind>) -> (res: Result<(), Error>)
    ensures
        !sent ==> res == Err::<(), Error>(Error::RequestError),
        sent ==> (res is Ok <==> response matches Some(ResponseKind::Success)),
        sent && !(response matches Some(ResponseKind::Success)) ==> res == Err::<(), Error>(Error::ResponseError),
{
    if !sent {
        return Err(Error::RequestError);
    }
    match response {
        Some(ResponseKind::Success) => Ok(()),
        _ => Err(Error::ResponseError),
    }
}

/// The standard output of a program as text without surrounding
/// whitespace; `DecodeError` where it is not UTF-8.
pub fn decode_output(stdout: &Vec<u8>) -> (res: Result<String, Error>)
    ensures
        match res {
            Ok(s) => valid_utf8(stdout@) && s@ == trim_spec(decode_utf8(stdout@)),
            Err(e) => !valid_utf8(stdout@) && e == Error::DecodeError,
        },
{
    match utf8_to_string(stdout.as_slice()) {
        Ok(text) => Ok(trim(text.as_str())),
        Err(_) => Err(Error::DecodeError),
    }
}

/// The pattern that finds the signal strength in the output of
/// `iw dev wlan0 link`.
pub open spec fn link_strength_pattern() -> Seq<char> {
    "signal:\\s+(-\\d+)\\s+dBm+"@
}

/// The pattern that finds the MAC address in the output of
/// `iw dev wlan0 info`.
pub open spec fn mac_addr_pattern() -> Seq<char> {
    "addr\\s+([0-9a-fA-F:.-]+)"@
}

/// The signal strength in the output of `iw dev wlan0 link`: the number
/// that the pattern captures in the UTF-8 text.
pub open spec fn link_strength_spec(stdout: Seq<u8>) -> Option<i32> {
    if !valid_utf8(stdout) {
        None
    } else {
        match regex_capture(link_strength_pattern(), decode_utf8(stdout)) {
            Some(c) => parse_i32_spec(c),
            None => None,
        }
    }
}

/// The MAC address in the output of `iw dev wlan0 info`: the address that
/// the pattern captures in the UTF-8 text.
pub open spec fn mac_spec(stdout: Seq<u8>) -> Option<Seq<u8>> {
    if !valid_utf8(stdout) {
        None
    } else {
        match regex_capture(mac_addr_pattern(), decode_utf8(stdout)) {
            Some(c) => mac_parse(c),
            None => None,
        }
    }
}

/// The signal strength (in dBm) that `iw dev wlan0 link` reports.
pub fn link_strength(stdout: &Vec<u8>) -> (res: Result<i32, Error>)
    ensures
        match res {
            Ok(v) => link_strength_spec(stdout@) == Some(v),
            Err(e) => link_strength_spec(stdout@) is None && e == Error::DecodeError,
        },
{
    let text = match utf8_to_string(stdout.as_slice()) {
        Ok(text) => text,
        Err(_) => return Err(Error::DecodeError),
    };
    let capture = match first_capture("signal:\\s+(-\\d+)\\s+dBm+", text.as_str()) {
        Some(capture) => capture,
        None => return Err(Error::DecodeError),
    };
    match parse_i32(capture.as_str()) {
        Some(v) => Ok(v),
        None => Err(Error::DecodeError),
    }
}

/// The MAC address that `iw dev wlan0 info` reports.
pub fn mac(stdout: &Vec<u8>) -> (res: Result<[u8; 6], Error>)
    ensures
        match res {
            Ok(a) => mac_spec(stdout@) == Some(a@),
            Err(e) => mac_spec(stdout@) is None && e == Error::DecodeError,
        },
{
    let text = match utf8_to_string(stdout.as_slice()) {
        Ok(text) => text,
        Err(_) => return Err(Error::DecodeError),
    };
    let capture = match first_capture("addr\\s+([0-9a-fA-F:.-]+)", text.as_str()) {
        Some(capture) => capture,
        None => return Err(Error::DecodeError),
    };
    match parse_mac(capture.as_str()) {
        Some(addr) => Ok(addr),
        None => Err(Error::DecodeError),
    }
}

/// A program without a working directory.
fn program(target: &str, args: Vec<String>) -> (res: Process)
    ensures
        res.target@ == target@,
        res.working_dir is None,
        res.args@ == args@,
{
    Process { target: target.to_owned(), working_dir: None, args }
}

/// `hostname`
pub fn hostname_process() -> (res: Process)
    ensures
        res.target@ == "hostname"@,
        res.working_dir is None,
        res.args@.len() == 0,
{
    program("hostname", Vec::new())
}

/// `mktemp -d`
pub fn temp_dir_process() -> (res: Process)
    ensures
        res.target@ == "mktemp"@,
        res.working_dir is None,
        res.args@.len() == 1 && res.args@[0]@ == "-d"@,
{
    let mut args = Vec::new();
    args.push("-d".to_owned());
    program("mktemp", args)
}

/// `dmesg`
pub fn kernel_messages_process() -> (res: Process)
    ensures
        res.target@ == "dmesg"@,
        res.working_dir is None,
        res.args@.len() == 0,
{
    program("dmesg", Vec::new())
}

/// `iw dev wlan0 <query>`
pub fn iw_process(query: &str) -> (res: Process)
    ensures
        res.target@ == "iw"@,
        res.working_dir is None,
        res.args@.len() == 3 && res.args@[0]@ == "dev"@ && res.args@[1]@ == "wlan0"@ && res.args@[2]@ == query@,
{
    let mut args = Vec::new();
    args.push("dev".to_owned());
    args.push("wlan0".to_owned());
    args.push(query.to_owned());
    program("iw", args)
}

/// The arguments of the camera streamer: the V4L2 input of `camera` at
/// the given resolution, served over HTTP on `port` at the robot's
/// address.
pub open spec fn mjpg_streamer_args(camera: Seq<char>, width: u16, height: u16, port: u16, addr: [u8; 4]) -> Seq<Seq<char>> {
    seq![
        "-i"@,
        "input_uvc.so -d "@ + camera + " -r "@ + decimal(width as nat) + "x"@ + decimal(height as nat) + " -n"@,
        "-o"@,
        "output_http.so -p "@ + decimal(port as nat) + " -l "@ + dotted(addr),
    ]
}

/// `mjpg_streamer`, streaming `camera` from the robot at `addr`.
pub fn mjpg_streamer_process(camera: &str, width: u16, height: u16, port: u16, addr: [u8; 4]) -> (res: Process)
    ensures
        res.target@ == "mjpg_streamer"@,
        res.working_dir is None,
        res.args@.map_values(|a: String| a@) == mjpg_streamer_args(camera@, width, height, port, addr),
{
    proof {
        reveal_strlit("-i");
        reveal_strlit("input_uvc.so -d ");
        reveal_strlit(" -r ");
        reveal_strlit("x");
        reveal_strlit(" -n");
        reveal_strlit("-o");
        reveal_strlit("output_http.so -p ");
        reveal_strlit(" -l ");
    }
    let mut input = String::from_str("input_uvc.so -d ");
    input.append(camera);
    input.append(" -r ");
    push_decimal(&mut input, width as u64);
    input.append("x");
    push_decimal(&mut input, height as u64);
    input.append(" -n");
    let mut output = String::from_str("output_http.so -p ");
    push_decimal(&mut output, port as u64);
    output.append(" -l ");
    push_dotted(&mut output, addr);
    let mut args: Vec<String> = Vec::new();
    args.push(String::from_str("-i"));
    args.push(input);
    args.push(String::from_str("-o"));
    args.push(output);
    assert(args@.map_values(|a: String| a@) =~= mjpg_streamer_args(camera@, width, height, port, addr));
    program("mjpg_streamer", args)
}

/// The address at which the camera streamer serves single frames.
pub open spec fn snapshot_url_spec(addr: [u8; 4], port: u16) -> Seq<char> {
    "http://"@ + dotted(addr) + ":"@ + decimal(port as nat) + "/?action=snapshot"@
}

/// Builds the address of a single frame of the camera streamer.
pub fn snapshot_url(addr: [u8; 4], port: u16) -> (res: String)
    ensures
        res@ == snapshot_url_spec(addr, port),
{
    proof {
        reveal_strlit("http://");
        reveal_strlit(":");
        reveal_strlit("/?action=snapshot");
    }
    let mut url = String::from_str("http://");
    push_dotted(&mut url, addr);
    url.append(":");
    push_decimal(&mut url, port as u64);
    url.append("/?action=snapshot");
    url
}

/// Where a response of the service goes.
#[derive(Debug, PartialEq, Eq, Clone, Copy)]
pub enum Routing {
    /// To the task of the request with this identifier.
    Deliver,
    /// Nowhere: no task waits for that identifier any more.
    Unclaimed,
    /// Nowhere: the response carries no identifier (a warning is logged).
    Anonymous,
}

/// The identifiers of the requests whose tasks wait for responses.
#[derive(Debug)]
pub struct Subscriptions {
    pub ids: Vec<[u8; 16]>,
}

impl Subscriptions {
    /// No identifier appears twice.
    pub open spec fn wf(&self) -> bool {
        self.ids@.no_duplicates()
    }

    /// No task waits.
    pub fn new() -> (res: Subscriptions)
        ensures
            res.wf(),
            res.ids@.len() == 0,
    {
        Subscriptions { ids: Vec::new() }
    }

    /// The position of `id`.
    fn position(&self, id: &[u8; 16]) -> (res: Option<usize>)
        ensures
            match res {
                Some(i) => i < self.ids@.len() && self.ids@[i as int] == *id,
                None => !self.ids@.contains(*id),
            },
    {
        let mut i: usize = 0;
        while i < self.ids.len()
            invariant
                i <= self.ids@.len(),
                forall|j: int| 0 <= j < i ==> self.ids@[j] != *id,
            decreases self.ids.len() - i,
        {
            if crate::wire::bytes_equal(&self.ids[i], id) {
                return Some(i);
            }
            i = i + 1;
        }
        None
    }

    /// A request was sent under `id`: its task waits for the responses.
    pub fn subscribe(&mut self, id: [u8; 16])
        requires
            old(self).wf(),
        ensures
            final(self).wf(),
            final(self).ids@.to_set() == old(self).ids@.to_set().insert(id),
    {
        match self.position(&id) {
            Some(_) => {
                assert(self.ids@.to_set().insert(id) =~= self.ids@.to_set());
            },
            None => {
                let ghost before = self.ids@;
                self.ids.push(id);
                proof { before.lemma_push_to_set_commute(id); }
            },
        }
    }

    /// Where a response under `id` goes.
    pub fn route(&self, id: Option<[u8; 16]>) -> (res: Routing)
        ensures
            match id {
                None => res == Routing::Anonymous,
                Some(i) => if self.ids@.contains(i) { res == Routing::Deliver } else { res == Routing::Unclaimed },
            },
    {
        match id {
            None => Routing::Anonymous,
            Some(i) => match self.position(&i) {
                Some(_) => Routing::Deliver,
                None => Routing::Unclaimed,
            },
        }
    }

    /// The task of the request under `id` ended: it no longer waits.
    pub fn finished(&mut self, id: [u8; 16])
        requires
            old(self).wf(),
        ensures
            final(self).wf(),
            final(self).ids@.to_set() == old(self).ids@.to_set().remove(id),
    {
        match self.position(&id) {
            Some(i) => {
                let ghost before = self.ids@;
                self.ids.remove(i);
                proof {
                    assert forall|x: [u8; 16]| #[trigger] self.ids@.contains(x) <==> (before.contains(x) && x != id) by {
                        if self.ids@.contains(x) {
                            let k = choose|k: int| 0 <= k < self.ids@.len() && self.ids@[k] == x;
                            if k < i { assert(before[k] == x); } else { assert(before[k + 1] == x); }
                            if x == id {
                                if k < i { assert(before[k] == before[i as int]); } else { assert(before[k + 1] == before[i as int]); }
                            }
                        }
                        if before.contains(x) && x != id {
                            let k = choose|k: int| 0 <= k < before.len() && before[k] == x;
                            if k < i { assert(self.ids@[k] == x); } else { assert(k != i); assert(self.ids@[k - 1] == x); }
                        }
                    }
                    assert(self.ids@.to_set() =~= before.to_set().remove(id));
                    assert forall|a: int, b: int| 0 <= a < b < self.ids@.len() implies self.ids@[a] != self.ids@[b] by {
                        let a2 = if a < i { a } else { a + 1 };
                        let b2 = if b < i { b } else { b + 1 };
                        assert(self.ids@[a] == before[a2]);
                        assert(self.ids@[b] == before[b2]);
                    }
                }
            },
            None => {
                assert(self.ids@.to_set().remove(id) =~= self.ids@.to_set());
            },
        }
    }
}

/// A response reaches a task only between the request's sending and the
/// end of its task: after the end it is unclaimed.
pub proof fn lemma_routing_after_end(before: Set<[u8; 16]>, after: Set<[u8; 16]>, id: [u8; 16])
    requires
        after == before.remove(id),
    ensures
        !after.contains(id),
        forall|other: [u8; 16]| other != id ==> (after.contains(other) == before.contains(other)),
{
}

} // verus!
