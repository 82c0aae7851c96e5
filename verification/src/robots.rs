//! The first generation of robot discovery: an address is probed for an
//! Xbee (which is asked for its own address with a remote AT command) and
//! then for an SSH server; failed addresses are probed again after a pause.
use vstd::prelude::*;
use vstd::utf8::encode_utf8;

verus! {

/// A remote AT command for an Xbee, as the bytes of its UDP packet.
#[derive(Debug)]
pub struct Command(pub Vec<u8>);

/// The packet of a remote AT command: the 0x4242 preamble, a zero packet
/// identifier and no encryption, the remote-command identifier, no command
/// options, frame 1, "apply immediately", then the command's name and its
/// arguments.
pub open spec fn packet_spec(command: Seq<u8>, arguments: Seq<u8>) -> Seq<u8> {
    seq![0x42u8, 0x42u8, 0x00u8, 0x00u8, 0x00u8, 0x00u8, 0x02u8, 0x00u8, 0x01u8, 0x02u8] + command + arguments
}

impl Command {
    /// Builds the packet of the AT command `command` with `arguments`.
    pub fn new(command: &str, arguments: &[u8]) -> (res: Command)
        ensures
            res.0@ == packet_spec(encode_utf8(command@), arguments@),
    {
        let mut packet: Vec<u8> = Vec::new();
        packet.push(0x42);
        packet.push(0x42);
        packet.push(0x00);
        packet.push(0x00);
        packet.push(0x00);
        packet.push(0x00);
        packet.push(0x02);
        packet.push(0x00);
        packet.push(0x01);
        packet.push(0x02);
        let name = command.as_bytes();
        let ghost head = packet@;
        let mut i: usize = 0;
        while i < name.len()
            invariant
                i <= name@.len(),
                name@ == encode_utf8(command@),
                packet@ == head + name@.take(i as int),
            decreases name.len() - i,
        {
            packet.push(name[i]);
            i = i + 1;
            assert(packet@ =~= head + name@.take(i as int));
        }
        assert(name@.take(i as int) =~= name@);
        let ghost mid = packet@;
        let mut k: usize = 0;
        while k < arguments.len()
            invariant
                k <= arguments@.len(),
                packet@ == mid + arguments@.take(k as int),
            decreases arguments.len() - k,
        {
            packet.push(arguments[k]);
            k = k + 1;
            assert(packet@ =~= mid + arguments@.take(k as int));
        }
        assert(arguments@.take(k as int) =~= arguments@);
        assert(packet@ =~= packet_spec(encode_utf8(command@), arguments@));
        Command(packet)
    }
}

/// The reply of an Xbee to "MY" carries its address in bytes 12 to 15; the
/// device is taken where that address is the one probed.
pub fn reply_confirms(reply: &[u8; 16], addr: [u8; 4]) -> (res: bool)
    ensures
        res == (reply@.subrange(12, 16) == addr@),
{
    let r = [reply[12], reply[13], reply[14], reply[15]];
    let res = crate::wire::bytes_equal(&r, &addr);
    assert(r@ =~= reply@.subrange(12, 16));
    proof {
        if !res {
            assert(r != addr);
            if reply@.subrange(12, 16) == addr@ {
                assert(r =~= addr);
            }
        }
    }
    res
}

/// What a probe found at an address.
#[derive(Debug, PartialEq, Eq, Clone, Copy)]
pub enum ProbeOutcome {
    /// An Xbee answered within 500 ms with this address.
    Xbee,
    /// An SSH server accepted the login within 1000 ms.
    Ssh,
    /// Neither: the address is probed again after one second.
    RetryLater,
}

/// The outcome of probing an address: an Xbee is tried first, then SSH.
pub fn probe_outcome(xbee_found: bool, ssh_found: bool) -> (res: ProbeOutcome)
    ensures
        xbee_found ==> res == ProbeOutcome::Xbee,
        !xbee_found && ssh_found ==> res == ProbeOutcome::Ssh,
        !xbee_found && !ssh_found ==> res == ProbeOutcome::RetryLater,
{
    if xbee_found {
        ProbeOutcome::Xbee
    } else if ssh_found {
        ProbeOutcome::Ssh
    } else {
        ProbeOutcome::RetryLater
    }
}

/// The pause, in milliseconds, before an address is probed again.
pub const RETRY_DELAY_MS: u64 = 1000;

/// What can be asked of a Pi-Puck reached over SSH.
#[derive(Debug, PartialEq, Eq, Clone, Copy)]
pub enum PiPuckAction {
    RpiShutdown,
    RpiReboot,
}

/// The actions a Pi-Puck offers: shutting down and rebooting its
/// Raspberry Pi.
pub fn pipuck_actions() -> (res: Vec<PiPuckAction>)
    ensures
        res@ == seq![PiPuckAction::RpiShutdown, PiPuckAction::RpiReboot],
{
    let mut res: Vec<PiPuckAction> = Vec::new();
    res.push(PiPuckAction::RpiShutdown);
    res.push(PiPuckAction::RpiReboot);
    res
}

} // verus!
