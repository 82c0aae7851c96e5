//! MAVLink v2 framing of the link to a drone's flight controller.
use vstd::prelude::*;
use std::marker::PhantomData;
use crate::wire::{copy_range, drop_prefix, le16, le16_bytes};
use mavlink::dialects::common::MavMessage;
use mavlink::error::ParserError;
use mavlink::{MavlinkVersion, Message};

verus! {

/// Start-of-frame marker of a MAVLink v2 frame.
pub const MAV_STX_V2: u8 = 0xFD;

/// Marker for the message type that a codec carries; the framing itself does
/// not depend on it.
pub struct MavMessageCodec<M> {
    _phantom: PhantomData<M>,
}

impl<M> MavMessageCodec<M> {
    /// A codec for messages of type `M`.
    pub fn new() -> MavMessageCodec<M> {
        MavMessageCodec { _phantom: PhantomData }
    }
}

/// The sequence number and sender of a MAVLink frame.
#[derive(Debug, Clone, Copy, PartialEq, Eq)]
pub struct MavHeader {
    pub sequence: u8,
    pub system_id: u8,
    pub component_id: u8,
}

/// Eight steps of the reflected CRC-16 shift register with polynomial 0x8408.
pub open spec fn crc_shift(crc: u16, n: nat) -> u16
    decreases n,
{
    if n == 0 {
        crc
    } else {
        crc_shift(if crc % 2 == 1 { (crc / 2) ^ 0x8408u16 } else { crc / 2 }, (n - 1) as nat)
    }
}

/// The CRC register after feeding `data` into a register holding `crc`.
pub open spec fn crc_update(crc: u16, data: Seq<u8>) -> u16
    decreases data.len(),
{
    if data.len() == 0 {
        crc
    } else {
        crc_update(crc_shift(crc ^ (data[0] as u16), 8), data.drop_first())
    }
}

/// CRC-16/MCRF4XX of `data`: reflected polynomial 0x8408, initial value
/// 0xFFFF, no final XOR (the checksum of MAVLink frames).
pub open spec fn crc16_mcrf4xx(data: Seq<u8>) -> u16 {
    crc_update(0xFFFFu16, data)
}

/// CRC-16/MCRF4XX of `data`, computed by crc-any's `CRCu16::crc16mcrf4cc`;
/// that constructor sets up the reflected table for polynomial 0x8408 with
/// initial value 0xFFFF and final XOR 0, the checksum stated here.
#[verifier::external_body]
fn crc16_mcrf4cc(data: &[u8]) -> (crc: u16)
    ensures
        crc == crc16_mcrf4xx(data@),
{
    let mut calc = crc_any::CRCu16::crc16mcrf4cc();
    calc.digest(data);
    calc.get_crc()
}

/// The nine header bytes after the start marker, over which, with the
/// payload and the message's extra CRC byte, the checksum runs.
pub open spec fn header_bytes(payload_len: u8, incompat_flags: u8, compat_flags: u8, header: MavHeader, msgid: u32) -> Seq<u8> {
    seq![payload_len, incompat_flags, compat_flags, header.sequence, header.system_id, header.component_id,
        (msgid % 0x100) as u8, ((msgid / 0x100) % 0x100) as u8, ((msgid / 0x10000) % 0x100) as u8]
}

/// The unsigned frame that carries `payload` as message `msgid`.
pub open spec fn frame_bytes(header: MavHeader, msgid: u32, payload: Seq<u8>, extra_crc: u8) -> Seq<u8> {
    let head = header_bytes(payload.len() as u8, 0, 0, header, msgid);
    seq![MAV_STX_V2] + head + payload + le16_bytes(crc16_mcrf4xx(head + payload + seq![extra_crc]))
}

/// Appends to `dst` the unsigned MAVLink v2 frame that carries `payload` as
/// message `msgid`, with the checksum seeded by the message's `extra_crc`.
/// The length byte holds the payload length modulo 256.
pub fn encode_frame(header: MavHeader, msgid: u32, payload: &Vec<u8>, extra_crc: u8, dst: &mut Vec<u8>)
    ensures
        final(dst)@ == old(dst)@ + frame_bytes(header, msgid, payload@, extra_crc),
{
    let mut checked: Vec<u8> = Vec::new();
    checked.push(payload.len() as u8);
    checked.push(0);
    checked.push(0);
    checked.push(header.sequence);
    checked.push(header.system_id);
    checked.push(header.component_id);
    checked.push((msgid % 0x100) as u8);
    checked.push(((msgid / 0x100) % 0x100) as u8);
    checked.push(((msgid / 0x10000) % 0x100) as u8);
    let ghost head = checked@;
    assert(head =~= header_bytes(payload@.len() as u8, 0, 0, header, msgid));
    dst.push(MAV_STX_V2);
    crate::wire::append_bytes(dst, &checked);
    crate::wire::append_bytes(dst, payload);
    crate::wire::append_bytes(&mut checked, payload);
    checked.push(extra_crc);
    assert(checked@ =~= head + payload@ + seq![extra_crc]);
    let crc = crc16_mcrf4cc(checked.as_slice());
    dst.push((crc % 256) as u8);
    dst.push((crc / 256) as u8);
    assert(dst@ =~= old(dst)@ + frame_bytes(header, msgid, payload@, extra_crc));
}

/// A frame cut out of the byte stream, before its checksum is checked.
#[derive(Debug)]
pub struct RawFrame {
    pub header: MavHeader,
    pub incompat_flags: u8,
    pub compat_flags: u8,
    pub msgid: u32,
    pub payload: Vec<u8>,
    pub crc: u16,
}

/// Whether the frame's incompatibility flags mark it as signed.
pub open spec fn is_signed(incompat_flags: u8) -> bool {
    incompat_flags % 2 == 1
}

/// The length of the frame that starts `t` (which starts with the marker and
/// holds at least three bytes).
pub open spec fn frame_len(t: Seq<u8>) -> nat {
    (12 + t[1] + if is_signed(t[2]) { 13int } else { 0int }) as nat
}

/// Where the first start marker of `s` is, if any.
pub open spec fn first_stx(s: Seq<u8>) -> Option<nat> {
    if exists|i: int| 0 <= i < s.len() && s[i] == MAV_STX_V2 {
        let i = choose|i: int| 0 <= i < s.len() && s[i] == MAV_STX_V2
            && forall|j: int| 0 <= j < i ==> s[j] != MAV_STX_V2;
        Some(i as nat)
    } else {
        None
    }
}

impl RawFrame {
    /// The frame as read from the stream `t` that starts with it.
    pub open spec fn read_from(self, t: Seq<u8>) -> bool {
        let plen = t[1] as int;
        &&& self.header == MavHeader { sequence: t[4], system_id: t[5], component_id: t[6] }
        &&& self.incompat_flags == t[2]
        &&& self.compat_flags == t[3]
        &&& self.msgid == t[7] + t[8] * 0x100 + t[9] * 0x10000
        &&& self.payload@ == t.subrange(10, 10 + plen)
        &&& self.crc == le16(t[10 + plen], t[11 + plen])
    }

    /// The bytes that the checksum of the frame covers, given the message's
    /// extra CRC byte.
    pub open spec fn checked_bytes(self, extra_crc: u8) -> Seq<u8> {
        header_bytes(self.payload@.len() as u8, self.incompat_flags, self.compat_flags, self.header, self.msgid)
            + self.payload@ + seq![extra_crc]
    }

    /// Whether the received checksum matches the one computed over the frame
    /// with the message's `extra_crc`.
    pub fn crc_matches(&self, extra_crc: u8) -> (res: bool)
        requires
            self.payload@.len() <= 255,
            self.msgid < 0x1000000,
        ensures
            res == (crc16_mcrf4xx(self.checked_bytes(extra_crc)) == self.crc),
    {
        let mut checked: Vec<u8> = Vec::new();
        checked.push(self.payload.len() as u8);
        checked.push(self.incompat_flags);
        checked.push(self.compat_flags);
        checked.push(self.header.sequence);
        checked.push(self.header.system_id);
        checked.push(self.header.component_id);
        checked.push((self.msgid % 0x100) as u8);
        checked.push(((self.msgid / 0x100) % 0x100) as u8);
        checked.push(((self.msgid / 0x10000) % 0x100) as u8);
        crate::wire::append_bytes(&mut checked, &self.payload);
        checked.push(extra_crc);
        assert(checked@ =~= self.checked_bytes(extra_crc));
        crc16_mcrf4cc(checked.as_slice()) == self.crc
    }
}

proof fn lemma_flag_bit(x: u8)
    ensures
        (x & 0x01u8 == 0x01u8) == (x % 2 == 1),
{
    assert((x & 0x01u8 == 0x01u8) == (x % 2 == 1)) by (bit_vector);
}

/// Cuts the next frame out of the stream in `src`.
///
/// Bytes before the first start marker are discarded once a marker is
/// found; without a marker the buffer is left as it is. A frame that is not
/// complete yet stays in the buffer; a complete one (with the signature of a
/// signed frame) is consumed.
pub fn take_frame(src: &mut Vec<u8>) -> (res: Option<RawFrame>)
    ensures
        match first_stx(old(src)@) {
            None => res is None && final(src)@ == old(src)@,
            Some(i) => {
                let t = old(src)@.skip(i as int);
                if t.len() < 3 || t.len() < frame_len(t) {
                    res is None && final(src)@ == t
                } else {
                    res matches Some(f) && f.read_from(t) && final(src)@ == t.skip(frame_len(t) as int)
                }
            },
        },
        res matches Some(f) ==> f.payload@.len() <= 255 && f.msgid < 0x1000000,
{
    let mut index: usize = 0;
    while index < src.len() && src[index] != MAV_STX_V2
        invariant
            index <= src@.len(),
            forall|j: int| 0 <= j < index ==> src@[j] != MAV_STX_V2,
        decreases src.len() - index,
    {
        index = index + 1;
    }
    let ghost s = src@;
    if index == src.len() {
        assert(first_stx(s) is None);
        return None;
    }
    proof {
        assert(s[index as int] == MAV_STX_V2);
        let w = choose|i: int| 0 <= i < s.len() && s[i] == MAV_STX_V2
            && forall|j: int| 0 <= j < i ==> s[j] != MAV_STX_V2;
        assert(w == index as int);
    }
    /* discard everything up to but excluding the start marker */
    drop_prefix(src, index);
    if src.len() < 3 {
        return None;
    }
    let payload_len = src[1] as usize;
    let flags = src[2];
    proof { lemma_flag_bit(flags); }
    let has_signature = flags & 0x01 == 0x01;
    let mut message_len: usize = 12 + payload_len;
    if has_signature {
        message_len = message_len + 13;
    }
    if src.len() < message_len {
        return None;
    }
    let ghost t = src@;
    let header = MavHeader { sequence: src[4], system_id: src[5], component_id: src[6] };
    let msgid: u32 = (src[7] as u32) + (src[8] as u32) * 0x100 + (src[9] as u32) * 0x10000;
    let payload = copy_range(src, 10, 10 + payload_len);
    let crc = crate::wire::read_be16(src[11 + payload_len], src[10 + payload_len]);
    let frame = RawFrame {
        header,
        incompat_flags: flags,
        compat_flags: src[3],
        msgid,
        payload,
        crc,
    };
    drop_prefix(src, message_len);
    Some(frame)
}

/// A frame written by `encode_frame` is cut out again by `take_frame`, with
/// the same header, message identifier and payload, a checksum that
/// matches for the same extra CRC byte, and the bytes after it left in the
/// buffer.
pub proof fn lemma_frame_roundtrip(header: MavHeader, msgid: u32, payload: Seq<u8>, extra_crc: u8, rest: Seq<u8>)
    requires
        payload.len() <= 255,
        msgid < 0x1000000,
    ensures
        ({
            let s = frame_bytes(header, msgid, payload, extra_crc) + rest;
            &&& first_stx(s) == Some(0nat)
            &&& s.len() >= 3 && s.len() >= frame_len(s)
            &&& frame_len(s) == 12 + payload.len()
            &&& s.skip(frame_len(s) as int) == rest
            &&& forall|f: RawFrame| #[trigger] f.read_from(s) ==> f.header == header && f.msgid == msgid
                && f.payload@ == payload && crc16_mcrf4xx(f.checked_bytes(extra_crc)) == f.crc
        }),
{
    let head = header_bytes(payload.len() as u8, 0, 0, header, msgid);
    let crc = crc16_mcrf4xx(head + payload + seq![extra_crc]);
    let s = frame_bytes(header, msgid, payload, extra_crc) + rest;
    let plen = payload.len() as int;
    assert(s[0] == MAV_STX_V2);
    assert(s.skip(0) =~= s);
    let w = choose|i: int| 0 <= i < s.len() && s[i] == MAV_STX_V2
        && forall|j: int| 0 <= j < i ==> s[j] != MAV_STX_V2;
    assert(w == 0);
    assert(s[1] == payload.len() as u8);
    assert(s[2] == 0u8);
    assert(s.skip(frame_len(s) as int) =~= rest);
    assert forall|f: RawFrame| #[trigger] f.read_from(s) implies f.header == header && f.msgid == msgid
        && f.payload@ == payload && crc16_mcrf4xx(f.checked_bytes(extra_crc)) == f.crc by {
        assert(f.payload@ =~= payload);
        assert(s[10 + plen] == (crc % 256) as u8);
        assert(s[11 + plen] == (crc / 256) as u8);
        assert(f.checked_bytes(extra_crc) =~= head + payload + seq![extra_crc]);
    }
}

#[verifier::external_type_specification]
#[verifier::external_body]
pub struct ExMavMessage(MavMessage);

#[verifier::external_type_specification]
#[verifier::external_body]
pub struct ExParserError(ParserError);

/// The extra CRC byte of message `msgid` in the common MAVLink dialect.
pub uninterp spec fn mav_extra_crc(msgid: u32) -> u8;

/// What the common dialect's `Message::parse` (MAVLink 2) gives for
/// message `msgid` and `payload`: the message, or the parser's error.
pub uninterp spec fn mav_parse(msgid: u32, payload: Seq<u8>) -> Result<MavMessage, ParserError>;

/// The identifier and MAVLink 2 payload of `message`, as the common
/// dialect's `Message::message_id` and `Message::ser` give them.
pub uninterp spec fn mav_serialization(message: MavMessage) -> (u32, Seq<u8>);

/// The CRC_EXTRA byte of a message type, from the common dialect's
/// `Message::extra_crc`, a table lookup by message identifier.
#[verifier::external_body]
fn extra_crc(msgid: u32) -> (res: u8)
    ensures
        res == mav_extra_crc(msgid),
{
    MavMessage::extra_crc(msgid)
}

/// Parses a message of the common dialect from its identifier and payload
/// with `Message::parse` (MAVLink 2). The outcome, message or error,
/// depends on the identifier and payload alone and is named, not spelled
/// out.
#[verifier::external_body]
fn parse_message(msgid: u32, payload: &[u8]) -> (res: Result<MavMessage, ParserError>)
    ensures
        res == mav_parse(msgid, payload@),
{
    MavMessage::parse(MavlinkVersion::V2, msgid, payload)
}

/// The identifier and MAVLink 2 payload of a message, from
/// `Message::message_id` and `Message::ser`. The pair depends on the
/// message alone and is named; a MAVLink 2 payload holds at most 255 bytes
/// and an identifier fits in 24 bits.
#[verifier::external_body]
fn serialize(message: &MavMessage) -> (res: (u32, Vec<u8>))
    ensures
        (res.0, res.1@) == mav_serialization(*message),
        res.1@.len() <= 255,
        res.0 < 0x1000000,
{
    let mut buffer = [0u8; 255];
    let len = message.ser(MavlinkVersion::V2, &mut buffer);
    (message.message_id(), buffer[..len].to_vec())
}

/// The header of the frame that starts `t`.
pub open spec fn frame_header(t: Seq<u8>) -> MavHeader {
    MavHeader { sequence: t[4], system_id: t[5], component_id: t[6] }
}

/// The message identifier of the frame that starts `t`.
pub open spec fn frame_msgid(t: Seq<u8>) -> u32 {
    (t[7] + t[8] * 0x100 + t[9] * 0x10000) as u32
}

/// The payload of the frame that starts `t`.
pub open spec fn frame_payload(t: Seq<u8>) -> Seq<u8> {
    t.subrange(10, 10 + t[1] as int)
}

/// What the decoder makes of the complete frame that starts `t`: nothing
/// where its checksum does not match (the frame is skipped), otherwise
/// what the dialect parses from its payload.
pub open spec fn frame_message(t: Seq<u8>) -> Option<Result<MavMessage, ParserError>> {
    let plen = t[1] as int;
    let msgid = frame_msgid(t);
    let payload = frame_payload(t);
    let checked = header_bytes(t[1], t[2], t[3], frame_header(t), msgid) + payload + seq![mav_extra_crc(msgid)];
    if crc16_mcrf4xx(checked) == le16(t[10 + plen], t[11 + plen]) {
        Some(mav_parse(msgid, payload))
    } else {
        None
    }
}

/// The result of decoding the stream `s`, and the bytes left after it:
/// bytes before the first start marker are dropped, an incomplete frame
/// stays, a frame with a wrong checksum is skipped, and a complete frame
/// gives its header and the dialect's message, or the parser's error.
pub open spec fn decoded(s: Seq<u8>) -> (Result<Option<(MavHeader, MavMessage)>, ParserError>, Seq<u8>) {
    match first_stx(s) {
        None => (Ok(None), s),
        Some(i) => {
            let t = s.skip(i as int);
            if t.len() < 3 || t.len() < frame_len(t) {
                (Ok(None), t)
            } else {
                let rest = t.skip(frame_len(t) as int);
                match frame_message(t) {
                    None => (Ok(None), rest),
                    Some(Ok(m)) => (Ok(Some((frame_header(t), m))), rest),
                    Some(Err(e)) => (Err(e), rest),
                }
            }
        },
    }
}

impl MavMessageCodec<MavMessage> {
    /// Decodes the next message of the stream in `src`: bytes before the
    /// first start marker are dropped, an incomplete frame waits for more
    /// bytes, a frame whose checksum does not match is skipped, and a
    /// frame whose payload the dialect does not parse is an error.
    pub fn decode(&mut self, src: &mut Vec<u8>) -> (res: Result<Option<(MavHeader, MavMessage)>, ParserError>)
        ensures
            (res, final(src)@) == decoded(old(src)@),
    {
        let ghost s = src@;
        match take_frame(src) {
            None => Ok(None),
            Some(frame) => {
                let ghost t = s.skip(first_stx(s).unwrap() as int);
                assert(frame.payload@ == frame_payload(t));
                let x = extra_crc(frame.msgid);
                if frame.crc_matches(x) {
                    assert(frame.checked_bytes(x) =~= header_bytes(t[1], t[2], t[3], frame_header(t), frame_msgid(t))
                        + frame_payload(t) + seq![mav_extra_crc(frame_msgid(t))]);
                    match parse_message(frame.msgid, frame.payload.as_slice()) {
                        Ok(message) => Ok(Some((frame.header, message))),
                        Err(error) => Err(error),
                    }
                } else {
                    assert(frame.checked_bytes(x) =~= header_bytes(t[1], t[2], t[3], frame_header(t), frame_msgid(t))
                        + frame_payload(t) + seq![mav_extra_crc(frame_msgid(t))]);
                    Ok(None)
                }
            },
        }
    }

    /// Appends the unsigned MAVLink 2 frame of `message` to `dst`: its
    /// identifier and payload, checked with the message type's extra CRC.
    pub fn encode(&mut self, header: MavHeader, message: &MavMessage, dst: &mut Vec<u8>)
        ensures
            ({
                let (msgid, payload) = mav_serialization(*message);
                &&& payload.len() <= 255
                &&& msgid < 0x1000000
                &&& final(dst)@ == old(dst)@ + frame_bytes(header, msgid, payload, mav_extra_crc(msgid))
            }),
    {
        let (msgid, payload) = serialize(message);
        let x = extra_crc(msgid);
        encode_frame(header, msgid, &payload, x, dst);
    }
}

/// A frame carrying `payload` as message `msgid` decodes to what the
/// dialect parses from it, with the frame's header, and is consumed whole.
proof fn lemma_decoded_frame(header: MavHeader, msgid: u32, payload: Seq<u8>, rest: Seq<u8>)
    requires
        payload.len() <= 255,
        msgid < 0x1000000,
    ensures
        decoded(frame_bytes(header, msgid, payload, mav_extra_crc(msgid)) + rest) == (match mav_parse(msgid, payload) {
            Ok(m) => (Ok::<Option<(MavHeader, MavMessage)>, ParserError>(Some((header, m))), rest),
            Err(e) => (Err::<Option<(MavHeader, MavMessage)>, ParserError>(e), rest),
        }),
{
    let x = mav_extra_crc(msgid);
    let head = header_bytes(payload.len() as u8, 0, 0, header, msgid);
    let crc = crc16_mcrf4xx(head + payload + seq![x]);
    let s = frame_bytes(header, msgid, payload, x) + rest;
    let plen = payload.len() as int;
    assert(s[0] == MAV_STX_V2);
    assert(s.skip(0) =~= s);
    let w = choose|i: int| 0 <= i < s.len() && s[i] == MAV_STX_V2
        && forall|j: int| 0 <= j < i ==> s[j] != MAV_STX_V2;
    assert(w == 0);
    assert(s[1] == payload.len() as u8);
    assert(s[2] == 0u8);
    assert(s[3] == 0u8);
    assert(s.skip(frame_len(s) as int) =~= rest);
    assert(frame_payload(s) =~= payload);
    assert(frame_msgid(s) == msgid);
    assert(s[10 + plen] == (crc % 256) as u8);
    assert(s[11 + plen] == (crc / 256) as u8);
    assert(header_bytes(s[1], s[2], s[3], frame_header(s), frame_msgid(s)) + frame_payload(s)
        + seq![mav_extra_crc(frame_msgid(s))] =~= head + payload + seq![x]);
    assert(frame_message(s) == Some(mav_parse(msgid, payload)));
}

/// Decoding undoes encoding: the frame that `encode` appends for a message
/// that the dialect parses back from its own serialization is decoded to
/// the same header and message, and exactly the frame is consumed.
pub proof fn lemma_decode_undoes_encode(header: MavHeader, message: MavMessage, rest: Seq<u8>)
    requires
        mav_serialization(message).1.len() <= 255,
        mav_serialization(message).0 < 0x1000000,
        mav_parse(mav_serialization(message).0, mav_serialization(message).1) == Ok::<MavMessage, ParserError>(message),
    ensures
        ({
            let (msgid, payload) = mav_serialization(message);
            decoded(frame_bytes(header, msgid, payload, mav_extra_crc(msgid)) + rest)
                == (Ok::<Option<(MavHeader, MavMessage)>, ParserError>(Some((header, message))), rest)
        }),
{
    lemma_decoded_frame(header, mav_serialization(message).0, mav_serialization(message).1, rest);
}

} // verus!
