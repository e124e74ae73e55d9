use byteorder::{ByteOrder, NativeEndian};
use vstd::prelude::*;

verus! {

/// Length of the fixed header that precedes the payload bytes.
pub const HEADER_LEN: usize = 20;

/// Message of the error returned when the declared length and the payload disagree.
pub const INVALID_DATA_LENGTH: &'static str = "Invalid data length";

/// Message of the error returned when the buffer cannot hold the fixed header.
pub const TRUNCATED_HEADER: &'static str = "Payload shorter than header";

/// The integer that four bytes hold in the byte order of the build target.
pub uninterp spec fn native_u32(bytes: Seq<u8>) -> u32;

/// The integer that two bytes hold in the byte order of the build target.
pub uninterp spec fn native_u16(bytes: Seq<u8>) -> u16;

/// Relies on byteorder's `NativeEndian::read_u32`: reads four bytes in the
/// target's byte order, which is fixed for a build.
#[verifier::external_body]
fn read_native_u32(buf: &[u8]) -> (r: u32)
    requires
        buf@.len() == 4,
    ensures
        r == native_u32(buf@),
{
    NativeEndian::read_u32(buf)
}

/// Relies on byteorder's `NativeEndian::read_u16`: reads two bytes in the
/// target's byte order, which is fixed for a build.
#[verifier::external_body]
fn read_native_u16(buf: &[u8]) -> (r: u16)
    requires
        buf@.len() == 2,
    ensures
        r == native_u16(buf@),
{
    NativeEndian::read_u16(buf)
}

/// Relies on byteorder's `NativeEndian::write_u32`: it fills the four bytes so
/// that `NativeEndian::read_u32` gives `n` back.
#[verifier::external_body]
fn write_native_u32(buf: &mut [u8; 4], n: u32)
    ensures
        native_u32(final(buf)@) == n,
{
    NativeEndian::write_u32(buf, n)
}

/// Relies on byteorder's `NativeEndian::write_u16`: it fills the two bytes so
/// that `NativeEndian::read_u16` gives `n` back.
#[verifier::external_body]
fn write_native_u16(buf: &mut [u8; 2], n: u16)
    ensures
        native_u16(final(buf)@) == n,
{
    NativeEndian::write_u16(buf, n)
}

/// Identity of a connecting process.
#[derive(Debug, Clone, Copy, PartialEq, Eq, Structural)]
pub struct ConnectorId {
    idx: u32,
    value: u32,
}

/// The one message of the netlink connector protocol.
#[derive(Debug, PartialEq, Eq)]
pub struct ConnectorMessage {
    id: ConnectorId,
    seq: u32,
    ack: u32,
    flags: u16,
    data: Vec<u8>,
}

/// What a message holds, as plain mathematical values.
pub struct MessageView {
    pub idx: u32,
    pub value: u32,
    pub seq: u32,
    pub ack: u32,
    pub flags: u16,
    pub data: Seq<u8>,
}

impl Clone for ConnectorMessage {
    fn clone(&self) -> (r: Self)
        ensures
            r@ == self@,
    {
        proof {
            use_type_invariant(self);
        }
        let data = self.data.clone();
        proof {
            assert(data@ =~= self.data@);
        }
        ConnectorMessage { id: self.id, seq: self.seq, ack: self.ack, flags: self.flags, data }
    }
}

impl View for ConnectorMessage {
    type V = MessageView;

    closed spec fn view(&self) -> MessageView {
        MessageView {
            idx: self.id.idx,
            value: self.id.value,
            seq: self.seq,
            ack: self.ack,
            flags: self.flags,
            data: self.data@,
        }
    }
}

impl ConnectorMessage {
    /// The data of a message always fits the 16-bit length slot of the header.
    #[verifier::type_invariant]
    spec fn data_len_fits(&self) -> bool {
        self.data@.len() <= u16::MAX
    }

    /// Builds a message from its fields; the data must fit the length slot.
    pub fn new(idx: u32, value: u32, seq: u32, ack: u32, flags: u16, data: Vec<u8>) -> (r: Self)
        requires
            data@.len() <= u16::MAX,
        ensures
            r@ == (MessageView { idx, value, seq, ack, flags, data: data@ }),
    {
        ConnectorMessage { id: ConnectorId { idx, value }, seq, ack, flags, data }
    }

    /// The endpoint index of the connector id.
    pub fn idx(&self) -> (r: u32)
        ensures
            r == self@.idx,
    {
        self.id.idx
    }

    /// The endpoint value of the connector id.
    pub fn value(&self) -> (r: u32)
        ensures
            r == self@.value,
    {
        self.id.value
    }

    /// The sequence number.
    pub fn seq(&self) -> (r: u32)
        ensures
            r == self@.seq,
    {
        self.seq
    }

    /// The acknowledgment number.
    pub fn ack(&self) -> (r: u32)
        ensures
            r == self@.ack,
    {
        self.ack
    }

    /// The flag bits.
    pub fn flags(&self) -> (r: u16)
        ensures
            r == self@.flags,
    {
        self.flags
    }

    /// The payload bytes.
    pub fn data(&self) -> (r: &[u8])
        ensures
            r@ == self@.data,
    {
        self.data.as_slice()
    }
}

/// Error returned when a payload cannot be decoded: a static description.
#[derive(Debug, Clone, Copy, PartialEq, Eq)]
pub struct DeserializeError(&'static str);

impl View for DeserializeError {
    type V = Seq<char>;

    closed spec fn view(&self) -> Seq<char> {
        self.0@
    }
}

impl DeserializeError {
    /// The description carried by the error.
    pub fn description(&self) -> (r: &'static str)
        ensures
            r@ == self@,
    {
        self.0
    }
}

/// Decodes the fields of a payload that holds at least the fixed header.
pub open spec fn decoded(bytes: Seq<u8>) -> MessageView
    recommends
        bytes.len() >= HEADER_LEN,
{
    MessageView {
        idx: native_u32(bytes.subrange(0, 4)),
        value: native_u32(bytes.subrange(4, 8)),
        seq: native_u32(bytes.subrange(8, 12)),
        ack: native_u32(bytes.subrange(12, 16)),
        flags: native_u16(bytes.subrange(18, 20)),
        data: bytes.subrange(HEADER_LEN as int, bytes.len() as int),
    }
}

/// The length that the header of a payload declares for the data.
pub open spec fn declared_len(bytes: Seq<u8>) -> u16 {
    native_u16(bytes.subrange(16, 18))
}

/// A payload decodes when it holds the header and exactly the declared data.
pub open spec fn decodable(bytes: Seq<u8>) -> bool {
    bytes.len() >= HEADER_LEN && bytes.len() - HEADER_LEN == declared_len(bytes)
}

/// The message a payload decodes to, or `None` when it is refused.
pub open spec fn decode(bytes: Seq<u8>) -> Option<MessageView> {
    if decodable(bytes) {
        Some(decoded(bytes))
    } else {
        None
    }
}

/// The description of the error with which a refused payload is reported.
pub open spec fn decode_error(bytes: Seq<u8>) -> Seq<char> {
    if bytes.len() < HEADER_LEN {
        TRUNCATED_HEADER@
    } else {
        INVALID_DATA_LENGTH@
    }
}

/// `bytes` is the wire form of `m`: the six header fields at their offsets in
/// the target's byte order, the data length in the length slot, then the data.
pub open spec fn encodes(m: MessageView, bytes: Seq<u8>) -> bool {
    &&& bytes.len() == HEADER_LEN + m.data.len()
    &&& native_u32(bytes.subrange(0, 4)) == m.idx
    &&& native_u32(bytes.subrange(4, 8)) == m.value
    &&& native_u32(bytes.subrange(8, 12)) == m.seq
    &&& native_u32(bytes.subrange(12, 16)) == m.ack
    &&& native_u16(bytes.subrange(16, 18)) == m.data.len()
    &&& native_u16(bytes.subrange(18, 20)) == m.flags
    &&& bytes.subrange(HEADER_LEN as int, bytes.len() as int) == m.data
}

impl ConnectorMessage {
    /// Decodes a payload: the fixed header in the target's byte order, then
    /// the data, whose length must match the one the header declares. A
    /// payload too short for the header is refused with its own error.
    pub fn deserialize(payload: &[u8]) -> (r: Result<ConnectorMessage, DeserializeError>)
        ensures
            match r {
                Ok(m) => decode(payload@) == Some(m@),
                Err(e) => decode(payload@) is None && e@ == decode_error(payload@),
            },
    {
        if payload.len() < HEADER_LEN {
            return Err(DeserializeError(TRUNCATED_HEADER));
        }
        let idx = read_native_u32(&payload[0..4]);
        let value = read_native_u32(&payload[4..8]);
        let seq = read_native_u32(&payload[8..12]);
        let ack = read_native_u32(&payload[12..16]);
        let len = read_native_u16(&payload[16..18]);
        let flags = read_native_u16(&payload[18..20]);
        if payload.len() - HEADER_LEN != len as usize {
            return Err(DeserializeError(INVALID_DATA_LENGTH));
        }
        let data = vstd::slice::slice_to_vec(&payload[HEADER_LEN..payload.len()]);
        Ok(ConnectorMessage { id: ConnectorId { idx, value }, seq, ack, flags, data })
    }
}

/// Decoding the wire form of a message gives the message back, every field
/// and every data byte unchanged.
pub proof fn lemma_round_trip(m: MessageView, bytes: Seq<u8>)
    requires
        encodes(m, bytes),
    ensures
        decode(bytes) == Some(m),
{
    assert(decodable(bytes));
    assert(decoded(bytes) == m);
}

/// The wire form of a message is the header and the data, and its length slot
/// holds the number of data bytes.
pub proof fn lemma_encoded_length(m: MessageView, bytes: Seq<u8>)
    requires
        encodes(m, bytes),
    ensures
        bytes.len() == HEADER_LEN + m.data.len(),
        declared_len(bytes) == m.data.len(),
{
}

/// A payload whose data length differs from the declared one is refused with
/// the length error, and no message comes out of it.
pub proof fn lemma_length_mismatch_rejected(bytes: Seq<u8>)
    requires
        bytes.len() >= HEADER_LEN,
        bytes.len() - HEADER_LEN != declared_len(bytes),
    ensures
        decode(bytes) is None,
        decode_error(bytes) == INVALID_DATA_LENGTH@,
{
}

/// Every value of the numeric fields, from zero to the maximum of its type,
/// comes back from the wire form as it went in.
pub proof fn lemma_fields_unclamped(
    idx: u32,
    value: u32,
    seq: u32,
    ack: u32,
    flags: u16,
    data: Seq<u8>,
    bytes: Seq<u8>,
)
    requires
        encodes(MessageView { idx, value, seq, ack, flags, data }, bytes),
    ensures
        decode(bytes) is Some,
        decode(bytes)->Some_0.idx == idx,
        decode(bytes)->Some_0.value == value,
        decode(bytes)->Some_0.seq == seq,
        decode(bytes)->Some_0.ack == ack,
        decode(bytes)->Some_0.flags == flags,
{
    lemma_round_trip(MessageView { idx, value, seq, ack, flags, data }, bytes);
}

/// A message without data has a wire form of exactly the header, which
/// decodes to a message without data.
pub proof fn lemma_empty_payload(m: MessageView, bytes: Seq<u8>)
    requires
        m.data.len() == 0,
        encodes(m, bytes),
    ensures
        bytes.len() == HEADER_LEN,
        decode(bytes) == Some(m),
        decode(bytes)->Some_0.data.len() == 0,
{
    lemma_round_trip(m, bytes);
}

/// Copies `src` into `buffer` from offset `at`, leaving every other byte as it was.
fn copy_into(buffer: &mut [u8], at: usize, src: &[u8])
    requires
        at + src@.len() <= old(buffer)@.len(),
    ensures
        final(buffer)@.len() == old(buffer)@.len(),
        final(buffer)@.subrange(at as int, at + src@.len()) == src@,
        forall|k: int|
            0 <= k < old(buffer)@.len() && !(at <= k < at + src@.len()) ==> final(buffer)@[k]
                == old(buffer)@[k],
{
    let len = buffer.len();
    let mut i: usize = 0;
    while i < src.len()
        invariant
            i <= src@.len(),
            len == buffer@.len(),
            at + src@.len() <= old(buffer)@.len(),
            buffer@.len() == old(buffer)@.len(),
            forall|k: int| at <= k < at + i ==> buffer@[k] == src@[k - at],
            forall|k: int|
                0 <= k < buffer@.len() && !(at <= k < at + i) ==> buffer@[k] == old(buffer)@[k],
        decreases src@.len() - i,
    {
        buffer[at + i] = src[i];
        i += 1;
    }
    assert(buffer@.subrange(at as int, at + src@.len()) =~= src@);
}

impl ConnectorMessage {
    /// The protocol type tag that the enclosing netlink framing carries.
    pub fn message_type(&self) -> (r: u16)
        ensures
            r == 0,
    {
        0
    }

    /// The number of bytes `serialize` writes: the header and the data.
    pub fn buffer_len(&self) -> (r: usize)
        ensures
            r == HEADER_LEN + self@.data.len(),
    {
        proof {
            use_type_invariant(self);
        }
        HEADER_LEN + self.data.len()
    }

    /// Writes the wire form of the message into a buffer of exactly
    /// `buffer_len()` bytes.
    pub fn serialize(&self, buffer: &mut [u8])
        requires
            old(buffer)@.len() == HEADER_LEN + self@.data.len(),
        ensures
            encodes(self@, final(buffer)@),
    {
        proof {
            use_type_invariant(self);
        }
        let mut word: [u8; 4] = [0u8; 4];
        write_native_u32(&mut word, self.id.idx);
        copy_into(buffer, 0, &word);
        let ghost idx_bytes = word@;
        write_native_u32(&mut word, self.id.value);
        copy_into(buffer, 4, &word);
        let ghost value_bytes = word@;
        write_native_u32(&mut word, self.seq);
        copy_into(buffer, 8, &word);
        let ghost seq_bytes = word@;
        write_native_u32(&mut word, self.ack);
        copy_into(buffer, 12, &word);
        let ghost ack_bytes = word@;
        let mut half: [u8; 2] = [0u8; 2];
        write_native_u16(&mut half, self.data.len() as u16);
        copy_into(buffer, 16, &half);
        let ghost len_bytes = half@;
        write_native_u16(&mut half, self.flags);
        copy_into(buffer, 18, &half);
        copy_into(buffer, HEADER_LEN, self.data.as_slice());
        proof {
            let b = buffer@;
            assert(b.subrange(0, 4) =~= idx_bytes);
            assert(b.subrange(4, 8) =~= value_bytes);
            assert(b.subrange(8, 12) =~= seq_bytes);
            assert(b.subrange(12, 16) =~= ack_bytes);
            assert(b.subrange(16, 18) =~= len_bytes);
            assert(b.subrange(18, 20) =~= half@);
            assert(b.subrange(HEADER_LEN as int, b.len() as int) =~= self@.data);
        }
    }
}

} // verus!
