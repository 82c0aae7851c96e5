//! Remote AT commands of Xbee radio modules.
use vstd::prelude::*;
use crate::wire::{append_bytes, be16, drop_prefix, read_be16};
use bitvec::view::BitView;

verus! {

/// An I/O pin of an Xbee module.
#[derive(Debug, PartialEq, Eq, Hash, Clone, Copy)]
pub enum Pin {
    DIO0,
    DIO1,
    DIO2,
    DIO3,
    DIO4,
    DIO5,
    DIO6,
    DIO7,
    DIO8,
    DIO9,
    DIO10,
    DIO11,
    DIO12,
    DIN,
    DOUT,
}

impl Pin {
    /// The index of the pin in the module's pin masks.
    pub open spec fn idx(self) -> nat {
        match self {
            Pin::DIO0 => 0,
            Pin::DIO1 => 1,
            Pin::DIO2 => 2,
            Pin::DIO3 => 3,
            Pin::DIO4 => 4,
            Pin::DIO5 => 5,
            Pin::DIO6 => 6,
            Pin::DIO7 => 7,
            Pin::DIO8 => 8,
            Pin::DIO9 => 9,
            Pin::DIO10 => 10,
            Pin::DIO11 => 11,
            Pin::DIO12 => 12,
            Pin::DIN => 13,
            Pin::DOUT => 14,
        }
    }

    /// The pin with a given index.
    pub open spec fn from_idx(i: nat) -> Option<Pin> {
        if i == 0 { Some(Pin::DIO0) }
        else if i == 1 { Some(Pin::DIO1) }
        else if i == 2 { Some(Pin::DIO2) }
        else if i == 3 { Some(Pin::DIO3) }
        else if i == 4 { Some(Pin::DIO4) }
        else if i == 5 { Some(Pin::DIO5) }
        else if i == 6 { Some(Pin::DIO6) }
        else if i == 7 { Some(Pin::DIO7) }
        else if i == 8 { Some(Pin::DIO8) }
        else if i == 9 { Some(Pin::DIO9) }
        else if i == 10 { Some(Pin::DIO10) }
        else if i == 11 { Some(Pin::DIO11) }
        else if i == 12 { Some(Pin::DIO12) }
        else if i == 13 { Some(Pin::DIN) }
        else if i == 14 { Some(Pin::DOUT) }
        else { None }
    }

    /// The index of the pin in the module's pin masks.
    pub fn index(&self) -> (i: usize)
        ensures
            i == self.idx(),
            i < 15,
    {
        match self {
            Pin::DIO0 => 0,
            Pin::DIO1 => 1,
            Pin::DIO2 => 2,
            Pin::DIO3 => 3,
            Pin::DIO4 => 4,
            Pin::DIO5 => 5,
            Pin::DIO6 => 6,
            Pin::DIO7 => 7,
            Pin::DIO8 => 8,
            Pin::DIO9 => 9,
            Pin::DIO10 => 10,
            Pin::DIO11 => 11,
            Pin::DIO12 => 12,
            Pin::DIN => 13,
            Pin::DOUT => 14,
        }
    }
}


impl Pin {
    /// The pin with a given index, or `DecodeError` where no pin has it.
    pub fn try_from(value: usize) -> (res: Result<Pin, Error>)
        ensures
            match res {
                Ok(pin) => Pin::from_idx(value as nat) == Some(pin),
                Err(e) => Pin::from_idx(value as nat) is None && e == Error::DecodeError,
            },
    {
        match value {
            0 => Ok(Pin::DIO0),
            1 => Ok(Pin::DIO1),
            2 => Ok(Pin::DIO2),
            3 => Ok(Pin::DIO3),
            4 => Ok(Pin::DIO4),
            5 => Ok(Pin::DIO5),
            6 => Ok(Pin::DIO6),
            7 => Ok(Pin::DIO7),
            8 => Ok(Pin::DIO8),
            9 => Ok(Pin::DIO9),
            10 => Ok(Pin::DIO10),
            11 => Ok(Pin::DIO11),
            12 => Ok(Pin::DIO12),
            13 => Ok(Pin::DIN),
            14 => Ok(Pin::DOUT),
            _ => Err(Error::DecodeError),
        }
    }

    /// The two-letter AT command that configures the pin.
    pub open spec fn at(self) -> (u8, u8) {
        match self {
            Pin::DIO0 => (0x44, 0x30),
            Pin::DIO1 => (0x44, 0x31),
            Pin::DIO2 => (0x44, 0x32),
            Pin::DIO3 => (0x44, 0x33),
            Pin::DIO4 => (0x44, 0x34),
            Pin::DIO5 => (0x44, 0x35),
            Pin::DIO6 => (0x44, 0x36),
            Pin::DIO7 => (0x44, 0x37),
            Pin::DIO8 => (0x44, 0x38),
            Pin::DIO9 => (0x44, 0x39),
            Pin::DIO10 => (0x50, 0x30),
            Pin::DIO11 => (0x50, 0x31),
            Pin::DIO12 => (0x50, 0x32),
            Pin::DIN => (0x50, 0x33),
            Pin::DOUT => (0x50, 0x34),
        }
    }

    /// The two-letter AT command that configures the pin ("D0" to "D9",
    /// "P0" to "P4").
    pub fn at_command(self) -> (cmd: [u8; 2])
        ensures
            cmd[0] == self.at().0,
            cmd[1] == self.at().1,
    {
        match self {
            Pin::DIO0 => [0x44, 0x30],
            Pin::DIO1 => [0x44, 0x31],
            Pin::DIO2 => [0x44, 0x32],
            Pin::DIO3 => [0x44, 0x33],
            Pin::DIO4 => [0x44, 0x34],
            Pin::DIO5 => [0x44, 0x35],
            Pin::DIO6 => [0x44, 0x36],
            Pin::DIO7 => [0x44, 0x37],
            Pin::DIO8 => [0x44, 0x38],
            Pin::DIO9 => [0x44, 0x39],
            Pin::DIO10 => [0x50, 0x30],
            Pin::DIO11 => [0x50, 0x31],
            Pin::DIO12 => [0x50, 0x32],
            Pin::DIN => [0x50, 0x33],
            Pin::DOUT => [0x50, 0x34],
        }
    }
}

/// Every index of a pin names that pin, and every pin has an index below 15.
pub proof fn lemma_pin_index_roundtrip(p: Pin, i: nat)
    ensures
        Pin::from_idx(p.idx()) == Some(p),
        p.idx() < 15,
        Pin::from_idx(i) matches Some(q) ==> q.idx() == i,
        Pin::from_idx(i) is None <==> i >= 15,
{
}

/// The mode of an I/O pin.
#[derive(Debug, PartialEq, Eq, Clone, Copy)]
pub enum PinMode {
    Disable,
    Alternate,
    Input,
    OutputDefaultLow,
    OutputDefaultHigh,
}

impl PinMode {
    /// The byte that selects the mode in a pin command.
    pub open spec fn code_of(self) -> u8 {
        match self {
            PinMode::Disable => 0,
            PinMode::Alternate => 1,
            PinMode::Input => 3,
            PinMode::OutputDefaultLow => 4,
            PinMode::OutputDefaultHigh => 5,
        }
    }

    /// The byte that selects the mode in a pin command.
    pub fn code(self) -> (c: u8)
        ensures
            c == self.code_of(),
    {
        match self {
            PinMode::Disable => 0,
            PinMode::Alternate => 1,
            PinMode::Input => 3,
            PinMode::OutputDefaultLow => 4,
            PinMode::OutputDefaultHigh => 5,
        }
    }
}

/// What can go wrong when talking to an Xbee.
#[derive(Debug, PartialEq, Eq, Clone, Copy)]
pub enum Error {
    CallbackQueueFull,
    NoResponse,
    RequestFailed,
    DecodeError,
    CorruptResponse,
    RemoteError { frame_id: u8, status: u8 },
}

/// Length of the fixed part of a remote AT command frame.
pub const CONFIG_CMD_LEN: usize = 12;
/// The header word of a configuration frame, as the XOR of its two halves.
pub const CONFIG_CMD_HDR: u16 = 0x4242;
/// Frame type of a remote AT command request.
pub const CONFIG_CMD_REQ_ID: u8 = 0x02;
/// Frame type of a remote AT command response.
pub const CONFIG_CMD_RESP_ID: u8 = 0x82;
/// Status byte of a successful remote AT command.
pub const CONFIG_CMD_RESP_OK: u8 = 0;
/// Minimal length of the response to an I/O sample ("IS") command.
pub const SAMPLE_CMD_RESP_LEN: usize = 4;
/// How many times a request without a response is sent again.
pub const MAX_RETRIES: usize = 3;

/// A remote AT command.
#[derive(Debug, Clone)]
pub struct Command {
    pub frame_id: u8,
    pub queue: bool,
    pub at_command: [u8; 2],
    pub data: Option<Vec<u8>>,
}

/// The bytes of a remote AT command frame.
pub open spec fn command_frame(frame_id: u8, queue: bool, at0: u8, at1: u8, data: Seq<u8>) -> Seq<u8> {
    seq![0x42u8, 0x42u8, 0x00u8, 0x00u8, 0x00u8, 0x00u8, CONFIG_CMD_REQ_ID, 0x00u8, frame_id,
        if queue { 0x00u8 } else { 0x02u8 }, at0, at1] + data
}

impl Command {
    /// The frame that encodes the command.
    pub open spec fn frame(self) -> Seq<u8> {
        command_frame(self.frame_id, self.queue, self.at_command[0], self.at_command[1],
            match self.data { Some(d) => d@, None => Seq::empty() })
    }
}

/// The response to a remote AT command.
#[derive(Debug)]
pub struct CommandResponse {
    pub frame_id: u8,
    pub data: Vec<u8>,
}

/// What the decoder makes of a buffer: the result and the number of bytes
/// that it consumes.
pub enum Decoded {
    Incomplete,
    Corrupt { consumed: nat },
    Remote { frame_id: u8, status: u8 },
    Response { frame_id: u8, data: Seq<u8> },
}

/// How a buffer that starts with a response frame is decoded.
pub open spec fn decode_spec(s: Seq<u8>) -> Decoded {
    if s.len() < CONFIG_CMD_LEN {
        Decoded::Incomplete
    } else if be16(s[0], s[1]) ^ be16(s[2], s[3]) != CONFIG_CMD_HDR {
        Decoded::Corrupt { consumed: 4 }
    } else if s[6] != CONFIG_CMD_RESP_ID {
        Decoded::Corrupt { consumed: 7 }
    } else if s[11] != CONFIG_CMD_RESP_OK {
        Decoded::Remote { frame_id: s[8], status: s[11] }
    } else {
        Decoded::Response { frame_id: s[8], data: s.skip(12) }
    }
}

/// Encoder and decoder of remote AT command frames.
pub struct Codec;

impl Codec {
    /// Appends the frame of `command` to `destination`.
    pub fn encode(&mut self, command: Command, destination: &mut Vec<u8>) -> (res: Result<(), Error>)
        ensures
            res is Ok,
            final(destination)@ == old(destination)@ + command.frame(),
    {
        let ghost frame = command.frame();
        let Command { frame_id, queue, at_command, data } = command;
        destination.push(0x42);
        destination.push(0x42);
        destination.push(0x00);
        destination.push(0x00);
        /* packet id */
        destination.push(0x00);
        /* encryption */
        destination.push(0x00);
        /* command type (remote AT command) */
        destination.push(CONFIG_CMD_REQ_ID);
        /* command options (none) */
        destination.push(0x00);
        destination.push(frame_id);
        if queue {
            destination.push(0x00);
        } else {
            destination.push(0x02);
        }
        destination.push(at_command[0]);
        destination.push(at_command[1]);
        let ghost before = destination@;
        if let Some(data) = data {
            append_bytes(destination, &data);
        }
        assert(destination@ =~= old(destination)@ + frame);
        Ok(())
    }

    /// Decodes a response frame at the start of `source`.
    ///
    /// A buffer shorter than a frame is left as it is; a corrupt header
    /// consumes the bytes that were read before the fault was found; a
    /// complete frame consumes the whole buffer, whose rest is the
    /// response's data.
    pub fn decode(&mut self, source: &mut Vec<u8>) -> (res: Result<Option<CommandResponse>, Error>)
        ensures
            match decode_spec(old(source)@) {
                Decoded::Incomplete => res == Ok::<Option<CommandResponse>, Error>(None)
                    && final(source)@ == old(source)@,
                Decoded::Corrupt { consumed } => res == Err::<Option<CommandResponse>, Error>(Error::CorruptResponse)
                    && final(source)@ == old(source)@.skip(consumed as int),
                Decoded::Remote { frame_id, status } =>
                    res == Err::<Option<CommandResponse>, Error>(Error::RemoteError { frame_id, status })
                    && final(source)@ == old(source)@.skip(12),
                Decoded::Response { frame_id, data } => res matches Ok(Some(r))
                    && r.frame_id == frame_id && r.data@ == data
                    && final(source)@ == Seq::<u8>::empty(),
            },
    {
        if source.len() < CONFIG_CMD_LEN {
            return Ok(None);
        }
        let first = read_be16(source[0], source[1]);
        let second = read_be16(source[2], source[3]);
        if first ^ second != CONFIG_CMD_HDR {
            drop_prefix(source, 4);
            return Err(Error::CorruptResponse);
        }
        /* skip packet id and encryption pad */
        if source[6] != CONFIG_CMD_RESP_ID {
            drop_prefix(source, 7);
            return Err(Error::CorruptResponse);
        }
        /* skip command options */
        let frame_id = source[8];
        let status = source[11];
        if status != CONFIG_CMD_RESP_OK {
            drop_prefix(source, 12);
            return Err(Error::RemoteError { frame_id, status });
        }
        let data = source.split_off(12);
        source.clear();
        Ok(Some(CommandResponse { frame_id, data }))
    }
}

/// Whether bit `i` of `v` is set.
pub open spec fn bit(v: u16, i: u16) -> bool {
    (v >> i) & 1u16 == 1u16
}

/// The indices of the set bits of `v` below `n`, in increasing order.
pub open spec fn ones_below(v: u16, n: nat) -> Seq<usize>
    decreases n,
{
    if n == 0 {
        Seq::empty()
    } else if bit(v, (n - 1) as u16) {
        ones_below(v, (n - 1) as nat).push((n - 1) as usize)
    } else {
        ones_below(v, (n - 1) as nat)
    }
}

/// The indices of the set bits of `v`, in increasing order.
pub open spec fn ones(v: u16) -> Seq<usize> {
    ones_below(v, 16)
}

/// Every index listed is below the bound and names a set bit; every set bit
/// below the bound is listed.
pub proof fn lemma_ones_below(v: u16, n: nat)
    requires
        n <= 16,
    ensures
        forall|k: int| 0 <= k < ones_below(v, n).len() ==> #[trigger] ones_below(v, n)[k] < n
            && bit(v, ones_below(v, n)[k] as u16),
        forall|i: u16| i < n && bit(v, i) ==> #[trigger] ones_below(v, n).contains(i as usize),
    decreases n,
{
    if n > 0 {
        lemma_ones_below(v, (n - 1) as nat);
        let prev = ones_below(v, (n - 1) as nat);
        assert forall|i: u16| i < n && bit(v, i) implies #[trigger] ones_below(v, n).contains(i as usize) by {
            if i < n - 1 {
                assert(prev.contains(i as usize));
                let k = choose|k: int| 0 <= k < prev.len() && prev[k] == i as usize;
                assert(ones_below(v, n)[k] == i as usize);
            } else {
                assert(ones_below(v, n).last() == i as usize);
            }
        }
    }
}

/// The indices of the set bits of `mask`, in increasing order, as bitvec
/// enumerates them.
#[verifier::external_body]
fn set_bit_indices(mask: u16) -> (res: Vec<usize>)
    ensures
        res@ == ones(mask),
{
    mask.view_bits::<bitvec::order::Lsb0>().iter_ones().collect()
}

/// Bit `index` of `value`, as bitvec reads it.
#[verifier::external_body]
fn bit_is_set(value: u16, index: usize) -> (res: bool)
    requires
        index < 16,
    ensures
        res == bit(value, index as u16),
{
    value.view_bits::<bitvec::order::Lsb0>()[index]
}

/// The pin states that an I/O sample response reports: `None` where the
/// response is too short, reports no digital pin, or reports a pin that
/// does not exist.
pub open spec fn pin_states_spec(s: Seq<u8>) -> Option<Seq<(Pin, bool)>> {
    if s.len() < SAMPLE_CMD_RESP_LEN {
        None
    } else {
        let mask = be16(s[1], s[2]);
        if mask == 0 || s.len() < SAMPLE_CMD_RESP_LEN + 2 || bit(mask, 15) {
            None
        } else {
            let samples = be16(s[4], s[5]);
            Some(ones(mask).map_values(|i: usize| (Pin::from_idx(i as nat).unwrap(), bit(samples, i as u16))))
        }
    }
}

/// The bytes of an I/O sample response that reports the digital pins of
/// `mask`, at the levels of `samples`, and no analog pin: a sample set
/// count, the digital mask, the analog mask, then the digital samples,
/// each word big-endian.
pub open spec fn io_sample_bytes(mask: u16, samples: u16) -> Seq<u8> {
    seq![1u8] + crate::wire::be16_bytes(mask) + seq![0u8] + crate::wire::be16_bytes(samples)
}

/// Decoding an I/O sample gives back what was sampled: every pin reported
/// is one of the mask, at the level of its own bit of the digital samples,
/// and every pin of the mask is reported.
pub proof fn lemma_pin_states_of_sample(mask: u16, samples: u16)
    requires
        mask != 0,
        !bit(mask, 15),
    ensures
        ({
            let decoded = pin_states_spec(io_sample_bytes(mask, samples));
            let states = decoded.unwrap();
            &&& decoded is Some
            &&& forall|k: int| 0 <= k < states.len() ==> bit(mask, (#[trigger] states[k]).0.idx() as u16)
                && states[k].1 == bit(samples, states[k].0.idx() as u16)
            &&& forall|i: u16| i < 15 && bit(mask, i) ==> exists|k: int| 0 <= k < states.len()
                && (#[trigger] states[k]).0.idx() == i
        }),
{
    let s = io_sample_bytes(mask, samples);
    crate::wire::lemma_be16_roundtrip(mask);
    crate::wire::lemma_be16_roundtrip(samples);
    assert(be16(s[1], s[2]) == mask);
    assert(be16(s[4], s[5]) == samples);
    lemma_ones_below(mask, 16);
    let o = ones(mask);
    let mapped = o.map_values(|i: usize| (Pin::from_idx(i as nat).unwrap(), bit(samples, i as u16)));
    assert(pin_states_spec(s) == Some(mapped));
    let states = pin_states_spec(io_sample_bytes(mask, samples)).unwrap();
    assert(states == mapped);
    assert forall|k: int| 0 <= k < states.len() implies bit(mask, (#[trigger] states[k]).0.idx() as u16)
        && states[k].1 == bit(samples, states[k].0.idx() as u16) by {
        assert(o[k] < 16 && bit(mask, o[k] as u16));
        assert(o[k] != 15);
        lemma_pin_index_roundtrip(Pin::DIO0, o[k] as nat);
        assert(states[k].0.idx() == o[k]);
    }
    assert forall|i: u16| i < 15 && bit(mask, i) implies exists|k: int| 0 <= k < states.len()
        && (#[trigger] states[k]).0.idx() == i by {
        assert(o.contains(i as usize));
        let k = choose|k: int| 0 <= k < o.len() && o[k] == i as usize;
        lemma_pin_index_roundtrip(Pin::DIO0, i as nat);
        assert(mapped[k].0.idx() == i);
        assert(states[k].0.idx() == i);
    }
}

/// Decodes the response to an I/O sample ("IS") command into the state of
/// each digital pin that it reports, in increasing order of pin index.
pub fn decode_pin_states(value: &Vec<u8>) -> (res: Result<Vec<(Pin, bool)>, Error>)
    ensures
        match res {
            Ok(states) => pin_states_spec(value@) == Some(states@),
            Err(e) => pin_states_spec(value@) is None && e == Error::DecodeError,
        },
{
    if value.len() < SAMPLE_CMD_RESP_LEN {
        return Err(Error::DecodeError);
    }
    let digital_mask = read_be16(value[1], value[2]);
    if digital_mask != 0 && value.len() - SAMPLE_CMD_RESP_LEN >= 2 {
        let digital_samples = read_be16(value[4], value[5]);
        let indices = set_bit_indices(digital_mask);
        proof {
            lemma_ones_below(digital_mask, 16);
        }
        let mut states: Vec<(Pin, bool)> = Vec::new();
        let mut k: usize = 0;
        while k < indices.len()
            invariant
                k <= indices.len(),
                value@.len() >= 6,
                digital_mask == be16(value@[1], value@[2]),
                digital_mask != 0,
                digital_samples == be16(value@[4], value@[5]),
                indices@ == ones(digital_mask),
                forall|j: int| 0 <= j < k ==> #[trigger] indices@[j] < 15,
                states@ == indices@.take(k as int).map_values(|i: usize| (Pin::from_idx(i as nat).unwrap(), bit(digital_samples, i as u16))),
                forall|j: int| 0 <= j < indices@.len() ==> #[trigger] indices@[j] < 16
                    && bit(digital_mask, indices@[j] as u16),
                forall|i: u16| i < 16 && bit(digital_mask, i) ==> #[trigger] indices@.contains(i as usize),
            decreases indices.len() - k,
        {
            let index = indices[k];
            let pin = match Pin::try_from(index) {
                Ok(pin) => pin,
                Err(e) => {
                    assert(index == 15);
                    assert(bit(digital_mask, indices@[k as int] as u16));
                    assert(indices@[k as int] as u16 == 15u16);
                    assert(value@.len() >= 6);
                    assert(pin_states_spec(value@) is None);
                    return Err(e);
                }
            };
            let sample = bit_is_set(digital_samples, index);
            let ghost old_states = states@;
            states.push((pin, sample));
            k = k + 1;
            assert(indices@.take(k as int) =~= indices@.take(k - 1).push(index));
            assert(indices@.take(k as int).map_values(|i: usize| (Pin::from_idx(i as nat).unwrap(), bit(digital_samples, i as u16))) =~= old_states.push((pin, sample)));
        }
        assert(indices@.take(k as int) =~= indices@);
        proof {
            if bit(digital_mask, 15) {
                assert(indices@.contains(15usize));
                let q = choose|q: int| 0 <= q < indices@.len() && indices@[q] == 15usize;
                assert(indices@[q] < 15);
            }
        }
        Ok(states)
    } else {
        Err(Error::DecodeError)
    }
}

/// The mode that the last entry of `config` for the pin with index `i`
/// sets, if any entry names that pin.
pub open spec fn last_mode(config: Seq<(Pin, bool)>, i: nat) -> Option<bool>
    decreases config.len(),
{
    if config.len() == 0 {
        None
    } else if config.last().0.idx() == i {
        Some(config.last().1)
    } else {
        last_mode(config.drop_last(), i)
    }
}

proof fn lemma_set_bit(x: u16, k: u16, i: u16)
    requires
        k < 16,
        i < 16,
    ensures
        bit(x | (1u16 << k), i) == (bit(x, i) || i == k),
        bit(x & !(1u16 << k), i) == (bit(x, i) && i != k),
{
    assert(((x | (1u16 << k)) >> i) & 1u16 == 1u16 <==> (((x >> i) & 1u16 == 1u16) || i == k))
        by (bit_vector)
        requires k < 16, i < 16;
    assert(((x & !(1u16 << k)) >> i) & 1u16 == 1u16 <==> (((x >> i) & 1u16 == 1u16) && i != k))
        by (bit_vector)
        requires k < 16, i < 16;
}

proof fn lemma_zero_bits(i: u16)
    ensures
        !bit(0u16, i),
{
    assert((0u16 >> i) & 1u16 != 1u16) by (bit_vector);
}

/// The output-mode ("OM") and output-level ("IO") masks that configure the
/// pins of `config` as outputs at the given levels; where a pin appears more
/// than once, its last entry decides.
pub fn output_masks(config: &[(Pin, bool)]) -> (res: (u16, u16))
    ensures
        forall|i: u16| i < 16 ==> (#[trigger] bit(res.0, i) <==> last_mode(config@, i as nat) is Some),
        forall|i: u16| i < 16 ==> (#[trigger] bit(res.1, i) <==> last_mode(config@, i as nat) == Some(true)),
{
    let mut om_config: u16 = 0;
    let mut io_config: u16 = 0;
    let mut j: usize = 0;
    proof {
        assert forall|i: u16| i < 16 implies !bit(0u16, i) by { lemma_zero_bits(i); }
        assert(config@.take(0) =~= Seq::<(Pin, bool)>::empty());
    }
    while j < config.len()
        invariant
            j <= config.len(),
            forall|i: u16| i < 16 ==> (#[trigger] bit(om_config, i) <==> last_mode(config@.take(j as int), i as nat) is Some),
            forall|i: u16| i < 16 ==> (#[trigger] bit(io_config, i) <==> last_mode(config@.take(j as int), i as nat) == Some(true)),
        decreases config.len() - j,
    {
        let (pin, mode) = config[j];
        let index = pin.index();
        let shift = index as u16;
        let bit_value: u16 = 1u16 << shift;
        let ghost old_om = om_config;
        let ghost old_io = io_config;
        om_config = om_config | bit_value;
        if mode {
            io_config = io_config | bit_value;
        } else {
            io_config = io_config & !bit_value;
        }
        j = j + 1;
        proof {
            let pre = config@.take(j - 1);
            let cur = config@.take(j as int);
            assert(cur.drop_last() =~= pre);
            assert(cur.last() == (pin, mode));
            assert forall|i: u16| i < 16 implies (#[trigger] bit(om_config, i) <==> last_mode(cur, i as nat) is Some) by {
                lemma_set_bit(old_om, shift, i);
            }
            assert forall|i: u16| i < 16 implies (#[trigger] bit(io_config, i) <==> last_mode(cur, i as nat) == Some(true)) by {
                lemma_set_bit(old_io, shift, i);
            }
        }
    }
    assert(config@.take(j as int) =~= config@);
    (om_config, io_config)
}

/// The state that `states` reports for `pin`: its first entry for the pin.
pub open spec fn lookup(states: Seq<(Pin, bool)>, pin: Pin) -> Option<bool>
    decreases states.len(),
{
    if states.len() == 0 {
        None
    } else if states[0].0 == pin {
        Some(states[0].1)
    } else {
        lookup(states.drop_first(), pin)
    }
}

/// Looks up the state of `pin` in `states`.
pub fn lookup_pin(states: &Vec<(Pin, bool)>, pin: Pin) -> (res: Option<bool>)
    ensures
        res == lookup(states@, pin),
{
    let mut k: usize = 0;
    assert(states@.skip(0) =~= states@);
    while k < states.len()
        invariant
            k <= states.len(),
            lookup(states@, pin) == lookup(states@.skip(k as int), pin),
        decreases states.len() - k,
    {
        let (p, state) = states[k];
        assert(states@.skip(k as int)[0] == states@[k as int]);
        if p.index() == pin.index() {
            proof { lemma_pin_index_roundtrip(p, 0); lemma_pin_index_roundtrip(pin, 0); }
            return Some(state);
        }
        proof { lemma_pin_index_roundtrip(p, 0); lemma_pin_index_roundtrip(pin, 0); }
        assert(states@.skip(k as int).drop_first() =~= states@.skip(k + 1));
        k = k + 1;
    }
    None
}

/// Whether the read-back pin states confirm every entry of `config`.
pub open spec fn outputs_confirmed(config: Seq<(Pin, bool)>, states: Seq<(Pin, bool)>) -> bool {
    forall|j: int| 0 <= j < config.len() ==> lookup(states, #[trigger] config[j].0) == Some(config[j].1)
}

/// Checks that the pin states read back after writing outputs match the
/// requested configuration; `RequestFailed` where a pin is missing or at
/// the wrong level.
pub fn check_outputs(config: &[(Pin, bool)], states: &Vec<(Pin, bool)>) -> (res: Result<(), Error>)
    ensures
        res is Ok <==> outputs_confirmed(config@, states@),
        res matches Err(e) ==> e == Error::RequestFailed,
{
    let mut j: usize = 0;
    while j < config.len()
        invariant
            j <= config.len(),
            forall|k: int| 0 <= k < j ==> lookup(states@, #[trigger] config@[k].0) == Some(config@[k].1),
        decreases config.len() - j,
    {
        let (pin, mode) = config[j];
        match lookup_pin(states, pin) {
            Some(state) => {
                if state != mode {
                    return Err(Error::RequestFailed);
                }
            },
            None => return Err(Error::RequestFailed),
        }
        j = j + 1;
    }
    Ok(())
}

/// The smallest frame identifier in 1..=254 that no pending request uses.
pub fn unused_frame_id(in_use: &Vec<u8>) -> (res: Option<u8>)
    ensures
        match res {
            Some(id) => 1 <= id <= 254 && !in_use@.contains(id)
                && forall|k: u8| 1 <= k < id ==> #[trigger] in_use@.contains(k),
            None => forall|k: u8| 1 <= k <= 254 ==> #[trigger] in_use@.contains(k),
        },
{
    let mut id: u8 = 1;
    while id < 255
        invariant
            1 <= id <= 255,
            forall|k: u8| 1 <= k < id ==> #[trigger] in_use@.contains(k),
        decreases 255 - id,
    {
        let mut used = false;
        let mut i: usize = 0;
        while i < in_use.len()
            invariant
                i <= in_use.len(),
                used <==> in_use@.take(i as int).contains(id),
            decreases in_use.len() - i,
        {
            if in_use[i] == id {
                used = true;
            }
            let ghost pre = in_use@.take(i as int);
            assert(in_use@.take(i + 1) =~= pre.push(in_use@[i as int]));
            proof {
                if pre.push(in_use@[i as int]).contains(id) && !pre.contains(id) {
                    let q = choose|q: int| 0 <= q < pre.len() + 1 && pre.push(in_use@[i as int])[q] == id;
                    if q < pre.len() { assert(pre[q] == id); }
                }
                if pre.contains(id) {
                    let q = choose|q: int| 0 <= q < pre.len() && pre[q] == id;
                    assert(pre.push(in_use@[i as int])[q] == id);
                }
                if in_use@[i as int] == id {
                    assert(pre.push(in_use@[i as int])[pre.len() as int] == id);
                }
            }
            i = i + 1;
        }
        assert(in_use@.take(i as int) =~= in_use@);
        if !used {
            return Some(id);
        }
        id = id + 1;
    }
    None
}


/// AT command that reads the module's IPv4 address.
pub const AT_MY: [u8; 2] = [0x4d, 0x59];
/// AT command that reads the upper half of the serial number.
pub const AT_SH: [u8; 2] = [0x53, 0x48];
/// AT command that reads the lower half of the serial number.
pub const AT_SL: [u8; 2] = [0x53, 0x4c];
/// AT command that reads the link margin.
pub const AT_LM: [u8; 2] = [0x4c, 0x4d];
/// AT command that samples the I/O pins.
pub const AT_IS: [u8; 2] = [0x49, 0x53];
/// AT command that sets the output mode mask.
pub const AT_OM: [u8; 2] = [0x4f, 0x4d];
/// AT command that sets the output levels.
pub const AT_IO: [u8; 2] = [0x49, 0x4f];
/// AT command that selects the serial communication service protocol.
pub const AT_IP: [u8; 2] = [0x49, 0x50];
/// AT command that sets the serial baud rate.
pub const AT_BD: [u8; 2] = [0x42, 0x44];
/// AT command that applies queued changes.
pub const AT_AC: [u8; 2] = [0x41, 0x43];

/// The IPv4 address in the response to "MY": exactly four bytes.
pub fn decode_ip(value: &Vec<u8>) -> (res: Result<[u8; 4], Error>)
    ensures
        match res {
            Ok(addr) => value@.len() == 4 && addr@ == value@,
            Err(e) => value@.len() != 4 && e == Error::DecodeError,
        },
{
    if value.len() == 4 {
        let addr = [value[0], value[1], value[2], value[3]];
        assert(addr@ =~= value@);
        Ok(addr)
    } else {
        Err(Error::DecodeError)
    }
}

/// The MAC address made of the responses to "SH" and "SL": their
/// concatenation must be exactly six bytes.
pub fn decode_mac(upper: &Vec<u8>, lower: &Vec<u8>) -> (res: Result<[u8; 6], Error>)
    ensures
        match res {
            Ok(addr) => upper@.len() + lower@.len() == 6 && addr@ == upper@ + lower@,
            Err(e) => upper@.len() + lower@.len() != 6 && e == Error::DecodeError,
        },
{
    let mut value = upper.clone();
    assert(value@ =~= upper@);
    append_bytes(&mut value, lower);
    if value.len() == 6 {
        let addr = [value[0], value[1], value[2], value[3], value[4], value[5]];
        assert(addr@ =~= value@);
        Ok(addr)
    } else {
        Err(Error::DecodeError)
    }
}

/// The link margin in the response to "LM": its first byte.
pub fn decode_link_margin(value: &Vec<u8>) -> (res: Result<i32, Error>)
    ensures
        match res {
            Ok(margin) => value@.len() > 0 && margin == value@[0] as i32,
            Err(e) => value@.len() == 0 && e == Error::DecodeError,
        },
{
    if value.len() > 0 {
        Ok(value[0] as i32)
    } else {
        Err(Error::DecodeError)
    }
}

/// Checks the read-back of the serial communication service mode: a single
/// byte equal to the requested mode (1 for TCP, 0 for UDP).
pub fn check_scs_mode(tcp: bool, response: &Vec<u8>) -> (res: Result<(), Error>)
    ensures
        res is Ok <==> (response@.len() == 1 && response@[0] == if tcp { 1u8 } else { 0u8 }),
        res matches Err(e) ==> e == Error::RequestFailed,
{
    let expected: u8 = if tcp { 1 } else { 0 };
    if response.len() == 1 && response[0] == expected {
        Ok(())
    } else {
        Err(Error::RequestFailed)
    }
}

/// The baud rate that the module selected, read back after setting it:
/// exactly four big-endian bytes.
pub fn check_baud_rate(response: &Vec<u8>) -> (res: Result<u32, Error>)
    ensures
        match res {
            Ok(rate) => response@.len() == 4
                && rate == crate::wire::be32(response@[0], response@[1], response@[2], response@[3]),
            Err(e) => response@.len() != 4 && e == Error::RequestFailed,
        },
{
    if response.len() == 4 {
        Ok(crate::wire::read_be32(response[0], response[1], response[2], response[3]))
    } else {
        Err(Error::RequestFailed)
    }
}

/// Checks the read-back of a pin's mode: its first byte must be the mode's
/// code.
pub fn check_pin_mode(mode: PinMode, response: &Vec<u8>) -> (res: Result<(), Error>)
    ensures
        res is Ok <==> (response@.len() > 0 && response@[0] == mode.code_of()),
        res matches Err(e) ==> e == Error::RequestFailed,
{
    if response.len() > 0 && response[0] == mode.code() {
        Ok(())
    } else {
        Err(Error::RequestFailed)
    }
}

/// Checks the read-backs of the pins' modes after they were applied: one
/// response per pin, in order, each starting with its mode's code.
pub fn check_pin_modes(modes: &[(Pin, PinMode)], responses: &Vec<Vec<u8>>) -> (res: Result<(), Error>)
    ensures
        res is Ok <==> responses@.len() == modes@.len() && forall|i: int| 0 <= i < modes@.len()
            ==> (#[trigger] responses@[i])@.len() > 0 && responses@[i]@[0] == modes@[i].1.code_of(),
        res matches Err(e) ==> e == Error::RequestFailed,
{
    if responses.len() != modes.len() {
        return Err(Error::RequestFailed);
    }
    let mut i: usize = 0;
    while i < modes.len()
        invariant
            i <= modes@.len(),
            responses@.len() == modes@.len(),
            forall|j: int| 0 <= j < i ==> (#[trigger] responses@[j])@.len() > 0 && responses@[j]@[0] == modes@[j].1.code_of(),
        decreases modes.len() - i,
    {
        let (_, mode) = modes[i];
        if check_pin_mode(mode, &responses[i]).is_err() {
            return Err(Error::RequestFailed);
        }
        i = i + 1;
    }
    Ok(())
}

/// The command that sets a pin's mode, queued until changes are applied.
pub fn pin_mode_command(pin: Pin, mode: PinMode) -> (res: ([u8; 2], Vec<u8>, bool))
    ensures
        res.0[0] == pin.at().0 && res.0[1] == pin.at().1,
        res.1@ == seq![mode.code_of()],
        res.2,
{
    let mut data = Vec::new();
    data.push(mode.code());
    (pin.at_command(), data, true)
}

/// What to do with a pending request at a maintenance tick.
#[derive(Debug, PartialEq, Eq, Clone, Copy)]
pub enum Retry {
    /// Not yet due: leave it.
    Wait,
    /// Out of retries: drop its callback.
    GiveUp,
    /// Send the command again; `remaining` retries are left afterwards.
    Resend { remaining: usize },
}

/// Decides what happens to a pending request whose command was sent
/// `elapsed_ms` milliseconds ago and that has `retries` retries left: after
/// 300 ms it is sent again, or given up once no retries are left.
pub fn retry_decision(elapsed_ms: u128, retries: usize) -> (res: Retry)
    ensures
        elapsed_ms <= 300 ==> res == Retry::Wait,
        elapsed_ms > 300 && retries == 0 ==> res == Retry::GiveUp,
        elapsed_ms > 300 && retries > 0 ==> res == (Retry::Resend { remaining: (retries - 1) as usize }),
{
    if elapsed_ms > 300 {
        if retries == 0 {
            Retry::GiveUp
        } else {
            Retry::Resend { remaining: retries - 1 }
        }
    } else {
        Retry::Wait
    }
}

/// The frame of a successful response to a remote AT command.
pub open spec fn response_frame(frame_id: u8, at0: u8, at1: u8, data: Seq<u8>) -> Seq<u8> {
    seq![0x42u8, 0x42u8, 0x00u8, 0x00u8, 0x00u8, 0x00u8, CONFIG_CMD_RESP_ID, 0x00u8, frame_id, at0, at1,
        CONFIG_CMD_RESP_OK] + data
}

/// A successful response frame decodes to its frame identifier and data;
/// with a non-zero status it decodes to the remote error that carries both.
pub proof fn lemma_response_frame_decodes(frame_id: u8, at0: u8, at1: u8, status: u8, data: Seq<u8>)
    ensures
        decode_spec(response_frame(frame_id, at0, at1, data)) == (Decoded::Response { frame_id, data }),
        status != CONFIG_CMD_RESP_OK ==> decode_spec(response_frame(frame_id, at0, at1, data).update(11, status))
            == (Decoded::Remote { frame_id, status }),
{
    let f = response_frame(frame_id, at0, at1, data);
    assert(be16(0x42, 0x42) == 0x4242u16);
    assert(be16(0, 0) == 0u16);
    assert(0x4242u16 ^ 0u16 == 0x4242u16) by (bit_vector);
    assert(f.skip(12) =~= data);
}

/// Every command frame is twelve bytes of header followed by the command's
/// data, with the frame identifier at offset 8 and the AT command at 10.
pub proof fn lemma_command_frame_layout(c: Command)
    ensures
        c.frame().len() == 12 + match c.data { Some(d) => d@.len(), None => 0 },
        c.frame()[8] == c.frame_id,
        c.frame()[10] == c.at_command[0],
        c.frame()[11] == c.at_command[1],
        c.frame().skip(12) == match c.data { Some(d) => d@, None => Seq::<u8>::empty() },
{
    let d = match c.data { Some(d) => d@, None => Seq::<u8>::empty() };
    assert(c.frame().skip(12) =~= d);
}

/// The pins in a decoded sample are listed in strictly increasing order of
/// index, so none appears twice.
pub proof fn lemma_pin_states_increasing(s: Seq<u8>)
    ensures
        pin_states_spec(s) matches Some(states) ==> forall|a: int, b: int|
            0 <= a < b < states.len() ==> #[trigger] states[a].0.idx() < #[trigger] states[b].0.idx(),
{
    if let Some(states) = pin_states_spec(s) {
        let mask = be16(s[1], s[2]);
        lemma_ones_increasing(mask, 16);
        lemma_ones_below(mask, 16);
        assert forall|a: int, b: int| 0 <= a < b < states.len() implies #[trigger] states[a].0.idx()
            < #[trigger] states[b].0.idx() by {
            let ia = ones(mask)[a];
            let ib = ones(mask)[b];
            lemma_pin_index_roundtrip(states[a].0, ia as nat);
            lemma_pin_index_roundtrip(states[b].0, ib as nat);
        }
    }
}

proof fn lemma_ones_increasing(v: u16, n: nat)
    requires
        n <= 16,
    ensures
        forall|a: int, b: int| 0 <= a < b < ones_below(v, n).len() ==> #[trigger] ones_below(v, n)[a]
            < #[trigger] ones_below(v, n)[b],
    decreases n,
{
    if n > 0 {
        lemma_ones_increasing(v, (n - 1) as nat);
        lemma_ones_below(v, (n - 1) as nat);
        let prev = ones_below(v, (n - 1) as nat);
        let cur = ones_below(v, n);
        assert forall|a: int, b: int| 0 <= a < b < cur.len() implies #[trigger] cur[a] < #[trigger] cur[b] by {
            if b < prev.len() {
                assert(cur[a] == prev[a] && cur[b] == prev[b]);
            } else {
                assert(cur[a] == prev[a]);
                assert(prev[a] < n - 1);
            }
        }
    }
}

/// A request for a parameter that waits for its response: the frame it
/// was sent in, the parameter, when it was last sent, how many retries are
/// left, and whether its sender still waits.
#[derive(Debug, PartialEq, Eq, Clone, Copy)]
pub struct Pending {
    pub frame_id: u8,
    pub at_command: [u8; 2],
    pub sent_at_ms: u64,
    pub retries: usize,
    pub waiting: bool,
}

/// The command that asks for a parameter in a frame.
pub open spec fn request_command_spec(frame_id: u8, at_command: [u8; 2]) -> Command {
    Command { frame_id, queue: false, at_command, data: None }
}

/// The milliseconds since a request was last sent.
pub open spec fn elapsed_ms(p: Pending, now: u64) -> u64 {
    if now >= p.sent_at_ms { (now - p.sent_at_ms) as u64 } else { 0 }
}

/// A request after its age was checked at `now`: a request unanswered for
/// more than 300 ms is sent again while retries are left, and given up
/// (its sender no longer waits) when none are.
pub open spec fn aged(p: Pending, now: u64) -> Pending {
    if elapsed_ms(p, now) <= 300 {
        p
    } else if p.retries == 0 {
        Pending { waiting: false, ..p }
    } else {
        Pending { retries: (p.retries - 1) as usize, sent_at_ms: now, ..p }
    }
}

/// Whether the check at `now` sends a request again.
pub open spec fn resent(p: Pending, now: u64) -> bool {
    elapsed_ms(p, now) > 300 && p.retries > 0
}

/// The requests that are kept: those whose sender still waits (and is
/// still listening).
pub open spec fn survivors(entries: Seq<Pending>, listening: Seq<bool>) -> Seq<Pending>
    decreases entries.len(),
{
    if entries.len() == 0 {
        Seq::empty()
    } else {
        let rest = survivors(entries.drop_last(), listening.take(entries.len() - 1));
        if entries.last().waiting && listening[entries.len() - 1] {
            rest.push(entries.last())
        } else {
            rest
        }
    }
}

/// The requests among `entries` that the check at `now` sends again, in
/// order.
pub open spec fn resends(entries: Seq<Pending>, now: u64) -> Seq<Pending>
    decreases entries.len(),
{
    if entries.len() == 0 {
        Seq::empty()
    } else if resent(entries.last(), now) {
        resends(entries.drop_last(), now).push(entries.last())
    } else {
        resends(entries.drop_last(), now)
    }
}

/// The frame identifiers of the requests.
pub open spec fn frame_ids(entries: Seq<Pending>) -> Seq<u8> {
    Seq::new(entries.len(), |i: int| entries[i].frame_id)
}

/// The requests of an Xbee device that wait for responses.
#[derive(Debug)]
pub struct PendingRequests {
    pub entries: Vec<Pending>,
}

/// The command that asks for a parameter in a frame.
pub fn request_command(frame_id: u8, at_command: [u8; 2]) -> (res: Command)
    ensures
        res == request_command_spec(frame_id, at_command),
{
    Command { frame_id, queue: false, at_command, data: None }
}

impl PendingRequests {
    /// No two requests share a frame identifier.
    pub open spec fn wf(&self) -> bool {
        frame_ids(self.entries@).no_duplicates()
    }

    /// No request waits.
    pub fn new() -> (res: PendingRequests)
        ensures
            res.wf(),
            res.entries@.len() == 0,
    {
        let res = PendingRequests { entries: Vec::new() };
        assert(frame_ids(res.entries@) =~= Seq::<u8>::empty());
        res
    }

    /// The frame identifiers in use.
    fn ids(&self) -> (res: Vec<u8>)
        ensures
            res@ == frame_ids(self.entries@),
    {
        let mut res: Vec<u8> = Vec::new();
        let mut i: usize = 0;
        while i < self.entries.len()
            invariant
                i <= self.entries@.len(),
                res@ =~= frame_ids(self.entries@).take(i as int),
            decreases self.entries.len() - i,
        {
            res.push(self.entries[i].frame_id);
            i = i + 1;
        }
        assert(res@ =~= frame_ids(self.entries@));
        res
    }

    /// Asks for a parameter at `now`: the request takes the smallest free
    /// frame identifier and its command is sent; where all 254 are taken
    /// the request is refused with `CallbackQueueFull`.
    pub fn get_parameter(&mut self, at_command: [u8; 2], now: u64) -> (res: Result<Command, Error>)
        requires
            old(self).wf(),
        ensures
            final(self).wf(),
            match res {
                Ok(c) => {
                    &&& 1 <= c.frame_id <= 254
                    &&& !frame_ids(old(self).entries@).contains(c.frame_id)
                    &&& (forall|k: u8| 1 <= k < c.frame_id ==> #[trigger] frame_ids(old(self).entries@).contains(k))
                    &&& c == request_command_spec(c.frame_id, at_command)
                    &&& final(self).entries@ == old(self).entries@.push(Pending {
                        frame_id: c.frame_id, at_command, sent_at_ms: now, retries: MAX_RETRIES, waiting: true })
                },
                Err(e) => {
                    &&& e == Error::CallbackQueueFull
                    &&& forall|k: u8| 1 <= k <= 254 ==> #[trigger] frame_ids(old(self).entries@).contains(k)
                    &&& final(self).entries == old(self).entries
                },
            },
    {
        let ids = self.ids();
        match unused_frame_id(&ids) {
            Some(id) => {
                let ghost before = self.entries@;
                self.entries.push(Pending { frame_id: id, at_command, sent_at_ms: now, retries: MAX_RETRIES, waiting: true });
                proof {
                    assert(frame_ids(self.entries@) =~= frame_ids(before).push(id));
                }
                Ok(request_command(id, at_command))
            },
            None => Err(Error::CallbackQueueFull),
        }
    }

    /// A response arrived for `frame_id`: its request is removed; whether
    /// a sender waited for it (and gets the response).
    pub fn respond(&mut self, frame_id: u8) -> (delivered: bool)
        requires
            old(self).wf(),
        ensures
            final(self).wf(),
            !frame_ids(final(self).entries@).contains(frame_id),
            forall|k: u8| k != frame_id ==> (frame_ids(final(self).entries@).contains(k)
                == frame_ids(old(self).entries@).contains(k)),
            delivered <==> exists|i: int| 0 <= i < old(self).entries@.len()
                && old(self).entries@[i].frame_id == frame_id && old(self).entries@[i].waiting,
            frame_ids(old(self).entries@).contains(frame_id) ==> exists|i: int| 0 <= i < old(self).entries@.len()
                && old(self).entries@[i].frame_id == frame_id
                && final(self).entries@ == old(self).entries@.remove(i),
            !frame_ids(old(self).entries@).contains(frame_id) ==> final(self).entries@ == old(self).entries@,
    {
        let mut i: usize = 0;
        while i < self.entries.len()
            invariant
                i <= self.entries@.len(),
                self.entries@ == old(self).entries@,
                old(self).wf(),
                forall|j: int| 0 <= j < i ==> self.entries@[j].frame_id != frame_id,
            decreases self.entries.len() - i,
        {
            if self.entries[i].frame_id == frame_id {
                let ghost before = self.entries@;
                let p = self.entries.remove(i);
                proof {
                    let fb = frame_ids(before);
                    let fa = frame_ids(self.entries@);
                    assert(fa =~= fb.remove(i as int));
                    assert forall|a: int, b: int| 0 <= a < b < fa.len() implies fa[a] != fa[b] by {
                        let a2 = if a < i { a } else { a + 1 };
                        let b2 = if b < i { b } else { b + 1 };
                        assert(fa[a] == fb[a2]);
                        assert(fa[b] == fb[b2]);
                    }
                    assert forall|k: u8| #[trigger] fa.contains(k) <==> (fb.contains(k) && k != frame_id) by {
                        if fa.contains(k) {
                            let q = choose|q: int| 0 <= q < fa.len() && fa[q] == k;
                            let q2 = if q < i { q } else { q + 1 };
                            assert(fb[q2] == k);
                            assert(q2 != i as int);
                            assert(fb[i as int] == frame_id);
                            if k == frame_id {
                                assert(fb.no_duplicates());
                                assert(fb[q2] == fb[i as int]);
                            }
                        }
                        if fb.contains(k) && k != frame_id {
                            let q = choose|q: int| 0 <= q < fb.len() && fb[q] == k;
                            assert(q != i as int);
                            if q < i { assert(fa[q] == k); } else { assert(fa[q - 1] == k); }
                        }
                    }
                    if exists|j: int| 0 <= j < before.len() && before[j].frame_id == frame_id && before[j].waiting {
                        let j = choose|j: int| 0 <= j < before.len() && before[j].frame_id == frame_id && before[j].waiting;
                        assert(fb[j] == fb[i as int]);
                    }
                    assert(before[i as int].frame_id == frame_id && self.entries@ == before.remove(i as int));
                    assert(frame_ids(before)[i as int] == frame_id);
                    assert(frame_ids(before).contains(frame_id));
                }
                return p.waiting;
            }
            i = i + 1;
        }
        proof {
            let fb = frame_ids(self.entries@);
            assert(!fb.contains(frame_id));
        }
        false
    }

    /// The periodic check at `now`: requests whose sender stopped waiting
    /// (or stopped listening, as `listening` tells for each request) are
    /// dropped; the others are aged, and the commands of those due again
    /// are returned, to be sent.
    pub fn maintain(&mut self, now: u64, listening: &Vec<bool>) -> (res: Vec<Command>)
        requires
            old(self).wf(),
            listening@.len() == old(self).entries@.len(),
        ensures
            final(self).entries@ == survivors(old(self).entries@, listening@).map_values(|p: Pending| aged(p, now)),
            res@ == resends(survivors(old(self).entries@, listening@), now)
                .map_values(|p: Pending| request_command_spec(p.frame_id, p.at_command)),
    {
        let ghost all = self.entries@;
        let mut kept: Vec<Pending> = Vec::new();
        let mut i: usize = 0;
        while i < self.entries.len()
            invariant
                i <= all.len(),
                self.entries@ == all,
                listening@.len() == all.len(),
                kept@ == survivors(all.take(i as int), listening@.take(i as int)),
            decreases self.entries.len() - i,
        {
            let p = self.entries[i];
            assert(all.take(i + 1).drop_last() =~= all.take(i as int));
            assert(listening@.take(i + 1).take(i as int) =~= listening@.take(i as int));
            if p.waiting && listening[i] {
                kept.push(p);
            }
            i = i + 1;
        }
        assert(all.take(i as int) =~= all);
        assert(listening@.take(i as int) =~= listening@);
        let ghost surv = kept@;
        let mut next: Vec<Pending> = Vec::new();
        let mut out: Vec<Command> = Vec::new();
        let mut k: usize = 0;
        while k < kept.len()
            invariant
                k <= surv.len(),
                kept@ == surv,
                next@ =~= surv.take(k as int).map_values(|p: Pending| aged(p, now)),
                out@ =~= resends(surv.take(k as int), now).map_values(|p: Pending| request_command_spec(p.frame_id, p.at_command)),
            decreases kept.len() - k,
        {
            let p = kept[k];
            assert(surv.take(k + 1).drop_last() =~= surv.take(k as int));
            let elapsed: u64 = if now >= p.sent_at_ms { now - p.sent_at_ms } else { 0 };
            if elapsed <= 300 {
                next.push(p);
            } else if p.retries == 0 {
                next.push(Pending { waiting: false, ..p });
            } else {
                next.push(Pending { retries: p.retries - 1, sent_at_ms: now, ..p });
                out.push(request_command(p.frame_id, p.at_command));
            }
            k = k + 1;
        }
        assert(surv.take(k as int) =~= surv);
        self.entries = next;
        out
    }
}

} // verus!
