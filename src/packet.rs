//! Framing of outbound packets, and parsing of the header that precedes the
//! JSON payload of a status response.
use vstd::prelude::*;
use vstd::string::StringSliceAdditionalSpecFns;
use crate::status::{ServerStatus, StatusError};
use crate::varint::{decode_varint_at, varint_read, varint_spec, VarIntRead};

verus! {

/// `data` preceded by the VarInt of its length.
pub open spec fn pack_spec(data: Seq<u8>) -> Seq<u8> {
    varint_spec(data.len()) + data
}

/// The port as two bytes, most significant first.
pub open spec fn port_bytes(port: u16) -> Seq<u8> {
    seq![(port / 256) as u8, (port % 256) as u8]
}

/// The handshake packet: packet id 0, protocol version 0, the framed
/// address, the port, and next state 1 (status), framed as a whole.
pub open spec fn handshake_spec(host: Seq<u8>, port: u16) -> Seq<u8> {
    pack_spec(seq![0x00u8, 0x00u8] + pack_spec(host) + port_bytes(port) + seq![0x01u8])
}

/// The status request: packet id 0 and no payload, framed.
pub open spec fn request_spec() -> Seq<u8> {
    pack_spec(seq![0x00u8])
}

/// Everything a query sends: the handshake, then the status request.
pub open spec fn outbound_spec(host: Seq<u8>, port: u16) -> Seq<u8> {
    handshake_spec(host, port) + request_spec()
}

/// The longest address, in bytes, that `status_packet` frames: the packet
/// around it must still have a length that fits an `i32`.
pub const MAX_HOST_LEN: usize = 0x7FFF_FFF0;

/// Where a response stands once the three VarInts before its payload have
/// been looked for.
#[derive(Debug, Clone, Copy, PartialEq, Eq)]
pub enum Header {
    /// More bytes are needed to finish the three VarInts.
    Incomplete,
    /// The header takes `header_len` bytes; `json_len` payload bytes follow.
    Ready { json_len: u32, header_len: usize },
}

/// The response header in `s`: packet length and packet id, both read and
/// ignored, then the payload length, held to `max_size`.
pub open spec fn header_spec(s: Seq<u8>, max_size: u32) -> Result<Header, StatusError> {
    match varint_read(s) {
        VarIntRead::Incomplete => Ok(Header::Incomplete),
        VarIntRead::Malformed => Err(StatusError::ProtocolMalformed),
        VarIntRead::Value { len: a, .. } => match varint_read(s.skip(a as int)) {
            VarIntRead::Incomplete => Ok(Header::Incomplete),
            VarIntRead::Malformed => Err(StatusError::ProtocolMalformed),
            VarIntRead::Value { len: b, .. } => match varint_read(s.skip(a + b)) {
                VarIntRead::Incomplete => Ok(Header::Incomplete),
                VarIntRead::Malformed => Err(StatusError::ProtocolMalformed),
                VarIntRead::Value { value, len: c } => if value > max_size {
                    Err(StatusError::ResponseTooLarge)
                } else {
                    Ok(Header::Ready { json_len: value, header_len: (a + b + c) as usize })
                },
            },
        },
    }
}

/// Appends the bytes of `src` to `dst`.
fn extend_bytes(dst: &mut Vec<u8>, src: &[u8])
    ensures
        final(dst)@ == old(dst)@ + src@,
{
    let mut i: usize = 0;
    while i < src.len()
        invariant
            i <= src@.len(),
            dst@ == old(dst)@ + src@.take(i as int),
        decreases src.len() - i,
    {
        dst.push(src[i]);
        i = i + 1;
        assert(src@.take(i as int) =~= src@.take(i - 1).push(src@[i - 1]));
    }
    assert(src@.take(src@.len() as int) =~= src@);
}

impl<'a> ServerStatus<'a> {
    /// The VarInt encoding of `number`.
    pub fn encode(number: i32) -> (r: Vec<u8>)
        requires
            number >= 0,
        ensures
            r@ == varint_spec(number as nat),
    {
        let mut result: Vec<u8> = Vec::new();
        let mut val: u32 = number as u32;
        while val >= 0x80
            invariant
                result@ + varint_spec(val as nat) == varint_spec(number as nat),
            decreases val,
        {
            let low = 0x80u8 | (val as u8);
            assert(0x80u8 | (val as u8) == (val % 128 + 128) as u8) by (bit_vector);
            assert(val >> 7 == val / 128) by (bit_vector);
            assert(varint_spec(val as nat) == seq![low] + varint_spec((val / 128) as nat));
            assert(result@.push(low) + varint_spec((val / 128) as nat) =~= result@ + (seq![low]
                + varint_spec((val / 128) as nat)));
            result.push(low);
            val = val >> 7;
        }
        assert(varint_spec(val as nat) == seq![val as u8]);
        assert(result@ + seq![val as u8] =~= result@.push(val as u8));
        result.push(val as u8);
        result
    }

    /// `data` preceded by the VarInt of its length.
    pub fn pack_data(data: &[u8]) -> (r: Vec<u8>)
        requires
            data@.len() <= i32::MAX,
        ensures
            r@ == pack_spec(data@),
    {
        let mut pack = Self::encode(data.len() as i32);
        extend_bytes(&mut pack, data);
        pack
    }

    /// The bytes that a query sends: the handshake for this host and port,
    /// then the status request.
    pub fn status_packet(&self) -> (r: Vec<u8>)
        requires
            self.host.spec_bytes().len() <= MAX_HOST_LEN,
        ensures
            r@ == outbound_spec(self.host.spec_bytes(), self.port),
    {
        let host = self.host.as_bytes();
        let mut body: Vec<u8> = Vec::new();
        body.push(0x00);
        body.push(0x00);
        let framed_host = Self::pack_data(host);
        extend_bytes(&mut body, framed_host.as_slice());
        body.push((self.port / 256) as u8);
        body.push((self.port % 256) as u8);
        body.push(0x01);
        proof {
            lemma_pack_len(host@);
        }
        assert(body@ =~= seq![0x00u8, 0x00u8] + pack_spec(host@) + port_bytes(self.port) + seq![
            0x01u8,
        ]);
        let mut packet = Self::pack_data(body.as_slice());
        let request = Self::pack_data(&[0x00u8]);
        assert(seq![0x00u8] =~= [0x00u8]@);
        extend_bytes(&mut packet, request.as_slice());
        packet
    }

    /// Reads the response header at the start of `buf`: packet length and
    /// packet id, which are not checked, then the payload length, which must
    /// not exceed `max_size`.
    pub fn read_header(buf: &[u8], max_size: u32) -> (r: Result<Header, StatusError>)
        ensures
            r == header_spec(buf@, max_size),
    {
        let first = decode_varint_at(buf, 0);
        assert(buf@.skip(0) =~= buf@);
        let a = match first {
            VarIntRead::Incomplete => return Ok(Header::Incomplete),
            VarIntRead::Malformed => return Err(StatusError::ProtocolMalformed),
            VarIntRead::Value { len, .. } => len,
        };
        let second = decode_varint_at(buf, a);
        assert(buf@.skip(a as int) =~= buf@.skip(a as int));
        let b = match second {
            VarIntRead::Incomplete => return Ok(Header::Incomplete),
            VarIntRead::Malformed => return Err(StatusError::ProtocolMalformed),
            VarIntRead::Value { len, .. } => len,
        };
        assert(buf@.skip(a as int).skip(b as int) =~= buf@.skip(a + b));
        let third = decode_varint_at(buf, a + b);
        match third {
            VarIntRead::Incomplete => Ok(Header::Incomplete),
            VarIntRead::Malformed => Err(StatusError::ProtocolMalformed),
            VarIntRead::Value { value, len } => {
                if value > max_size {
                    Err(StatusError::ResponseTooLarge)
                } else {
                    Ok(Header::Ready { json_len: value, header_len: a + b + len })
                }
            },
        }
    }
}

/// Framing adds at most five bytes to anything whose length fits an `i32`.
proof fn lemma_pack_len(data: Seq<u8>)
    requires
        data.len() <= i32::MAX,
    ensures
        pack_spec(data).len() <= data.len() + 5,
{
    crate::varint::lemma_varint_round_trip(data.len());
}

} // verus!
