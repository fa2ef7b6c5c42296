//! The binary frame codec for the display panel's serial protocol.
//!
//! Every frame starts with the two fixed header bytes `0x5A 0xA5`, a length
//! byte counting everything after itself, and an opcode: `0x82` writes a
//! register, `0x83` reads one. A write frame carries the big-endian register
//! address and the raw payload; its length byte is the payload length plus 3
//! (opcode and address). Page changes go through an indirect register at
//! `0x0084` whose payload starts with the sub-header `0x5A 0x01`.
//!
//! Inbound frames are parsed defensively: a frame that does not declare
//! enough bytes for the fields it claims is reported as malformed instead of
//! being read out of bounds.

use vstd::prelude::*;

verus! {

use vstd::string::StringSliceAdditionalSpecFns;

/// High byte of the big-endian encoding of `x`.
pub open spec fn be16_hi(x: u16) -> u8 {
    (x / 256) as u8
}

/// Low byte of the big-endian encoding of `x`.
pub open spec fn be16_lo(x: u16) -> u8 {
    (x % 256) as u8
}

/// The bytes of one register write frame: header, length byte
/// (payload + 3), write opcode, big-endian address, payload.
pub open spec fn write_frame_spec(address: u16, payload: Seq<u8>) -> Seq<u8> {
    seq![
        0x5au8,
        0xa5u8,
        (payload.len() + 3) as u8,
        0x82u8,
        be16_hi(address),
        be16_lo(address),
    ] + payload
}

/// The bytes of one register read frame: header, fixed length 4, read
/// opcode, big-endian address, word count.
pub open spec fn read_frame_spec(address: u16, words: u8) -> Seq<u8> {
    seq![0x5au8, 0xa5u8, 0x04u8, 0x83u8, be16_hi(address), be16_lo(address), words]
}

/// The big-endian two's-complement bytes of a signed 16-bit value.
pub open spec fn i16_be_bytes(v: i16) -> Seq<u8> {
    seq![be16_hi(v as u16), be16_lo(v as u16)]
}

/// The bytes of the page-change frame: a write to the indirect page
/// register `0x0084` whose payload is the sub-header `0x5A 0x01` followed
/// by the big-endian page number.
pub open spec fn page_frame_spec(page: u16) -> Seq<u8> {
    write_frame_spec(0x0084, seq![0x5au8, 0x01u8, be16_hi(page), be16_lo(page)])
}

fn be16(x: u16) -> (r: (u8, u8))
    ensures
        r.0 == be16_hi(x),
        r.1 == be16_lo(x),
{
    ((x / 256) as u8, (x % 256) as u8)
}

/// Builds a write frame for `address` carrying `buffer` as payload.
pub fn construct_write_buf(address: u16, buffer: &[u8]) -> (r: Vec<u8>)
    requires
        buffer@.len() <= 252,
    ensures
        r@ == write_frame_spec(address, buffer@),
{
    let (hi, lo) = be16(address);
    let mut r: Vec<u8> = Vec::new();
    r.push(0x5a);
    r.push(0xa5);
    r.push(buffer.len() as u8 + 3);
    r.push(0x82);
    r.push(hi);
    r.push(lo);
    let ghost head = seq![
        0x5au8,
        0xa5u8,
        (buffer@.len() + 3) as u8,
        0x82u8,
        be16_hi(address),
        be16_lo(address),
    ];
    proof {
        assert(r@ =~= head + buffer@.subrange(0, 0));
    }
    let mut i: usize = 0;
    while i < buffer.len()
        invariant
            i <= buffer.len(),
            buffer@.len() <= 252,
            r@ == head + buffer@.subrange(0, i as int),
        decreases buffer.len() - i,
    {
        r.push(buffer[i]);
        proof {
            assert(buffer@.subrange(0, i + 1) =~= buffer@.subrange(0, i as int) + seq![buffer@[i as int]]);
            assert(r@ =~= head + buffer@.subrange(0, i + 1));
        }
        i += 1;
    }
    proof {
        assert(buffer@.subrange(0, buffer@.len() as int) =~= buffer@);
        assert(r@ =~= write_frame_spec(address, buffer@));
    }
    r
}

/// Builds a write frame whose payload is the signed 16-bit `value` in
/// big-endian two's complement.
pub fn construct_i16(address: u16, value: i16) -> (r: Vec<u8>)
    ensures
        r@ == write_frame_spec(address, i16_be_bytes(value)),
{
    let u: u16 = value as u16;
    let (hi, lo) = be16(u);
    let mut payload: Vec<u8> = Vec::new();
    payload.push(hi);
    payload.push(lo);
    proof {
        assert(payload@ =~= i16_be_bytes(value));
    }
    construct_write_buf(address, payload.as_slice())
}

/// Builds a write frame whose payload is the raw bytes of `value`.
pub fn construct_text(address: u16, value: &str) -> (r: Vec<u8>)
    requires
        value.spec_bytes().len() <= 252,
    ensures
        r@ == write_frame_spec(address, value.spec_bytes()),
{
    construct_write_buf(address, value.as_bytes())
}

/// Builds the frame that navigates the panel to `page_number`.
pub fn construct_change_page(page_number: u16) -> (r: Vec<u8>)
    ensures
        r@ == page_frame_spec(page_number),
{
    let (hi, lo) = be16(page_number);
    let mut payload: Vec<u8> = Vec::new();
    payload.push(0x5a);
    payload.push(0x01);
    payload.push(hi);
    payload.push(lo);
    proof {
        assert(payload@ =~= seq![0x5au8, 0x01u8, be16_hi(page_number), be16_lo(page_number)]);
    }
    construct_write_buf(0x0084, payload.as_slice())
}

/// Builds a read frame for `address` asking for `length` words.
pub fn construct_read_buf(address: u16, length: u8) -> (r: Vec<u8>)
    ensures
        r@ == read_frame_spec(address, length),
{
    let (hi, lo) = be16(address);
    let mut r: Vec<u8> = Vec::new();
    r.push(0x5a);
    r.push(0xa5);
    r.push(0x04);
    r.push(0x83);
    r.push(hi);
    r.push(lo);
    r.push(length);
    proof {
        assert(r@ =~= read_frame_spec(address, length));
    }
    r
}

/// Builds the boot liveness probe: a one-word read of the page register.
pub fn construct_get_page() -> (r: Vec<u8>)
    ensures
        r@ == read_frame_spec(0x0014, 1),
{
    construct_read_buf(0x0014, 1)
}

/// One inbound frame from the panel, already classified.
pub enum InboundFrame {
    /// The panel acknowledged a write. Carries no data.
    WriteAck,
    /// The panel reported a register's value.
    ReadResponse { address: u16, payload: Vec<u8> },
    /// Too short for the fields it claims, or an unknown opcode.
    Malformed,
}

/// True of a buffer whose opcode byte marks a write acknowledgement.
pub open spec fn frame_is_ack(s: Seq<u8>) -> bool {
    s.len() >= 4 && s[3] == 0x82
}

/// True of a buffer that declares a complete read response: read opcode,
/// and at least `7 + 2 * words` bytes so address, word count and payload
/// all lie inside the buffer.
pub open spec fn frame_is_read_response(s: Seq<u8>) -> bool {
    &&& s.len() >= 7
    &&& s[3] == 0x83
    &&& s.len() >= 7 + 2 * (s[6] as int)
}

/// The register address a read response reports on.
pub open spec fn read_response_addr(s: Seq<u8>) -> u16 {
    ((s[4] as int) * 256 + (s[5] as int)) as u16
}

/// The payload of a read response: one word is two bytes.
pub open spec fn read_response_payload(s: Seq<u8>) -> Seq<u8> {
    s.subrange(7, 7 + 2 * (s[6] as int))
}

/// Classifies one inbound buffer. A buffer that declares fewer bytes than
/// its fields need is `Malformed`, never read past its end.
pub fn parse_frame(buf: &[u8]) -> (r: InboundFrame)
    ensures
        r is WriteAck <==> frame_is_ack(buf@),
        r is ReadResponse <==> (!frame_is_ack(buf@) && frame_is_read_response(buf@)),
        r matches InboundFrame::ReadResponse { address, payload } ==> {
            &&& address == read_response_addr(buf@)
            &&& payload@ == read_response_payload(buf@)
        },
{
    if buf.len() < 4 {
        return InboundFrame::Malformed;
    }
    if buf[3] == 0x82 {
        return InboundFrame::WriteAck;
    }
    if buf[3] != 0x83 || buf.len() < 7 {
        return InboundFrame::Malformed;
    }
    let words = buf[6] as usize;
    if buf.len() < 7 + 2 * words {
        return InboundFrame::Malformed;
    }
    let address = (buf[4] as u16) * 256 + (buf[5] as u16);
    let mut payload: Vec<u8> = Vec::new();
    let mut i: usize = 0;
    while i < 2 * words
        invariant
            words <= 255,
            i <= 2 * words,
            buf@.len() >= 7 + 2 * words,
            payload@ == buf@.subrange(7, 7 + i as int),
        decreases 2 * words - i,
    {
        payload.push(buf[7 + i]);
        proof {
            assert(buf@.subrange(7, 7 + (i + 1) as int) =~= buf@.subrange(7, 7 + i as int)
                + seq![buf@[7 + i as int]]);
        }
        i += 1;
    }
    InboundFrame::ReadResponse { address, payload }
}

} // verus!
