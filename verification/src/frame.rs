use vstd::prelude::*;

verus! {

/// The frame type carried in the low four bits of a frame's first byte.
/// Nibbles with no meaning assigned by the protocol decode to `Reserved`.
#[derive(Clone, Copy, PartialEq, Eq, Structural, Debug)]
pub enum Opcode {
    Continuation,
    Text,
    Binary,
    Close,
    Ping,
    Pong,
    Reserved,
}

/// One WebSocket frame: its opcode, the final-fragment flag, and the
/// (unmasked) payload bytes.
#[derive(Debug, PartialEq, Eq)]
pub struct Frame {
    pub fin: bool,
    pub opcode: Opcode,
    pub payload: Vec<u8>,
}

/// Why a byte buffer does not decode as one complete client frame.
#[derive(Clone, Copy, PartialEq, Eq, Structural, Debug)]
pub enum FrameError {
    /// More bytes are needed before a whole frame is present.
    Incomplete,
    /// A client-to-server frame carried no masking key.
    MissingMask,
    /// The extended payload length is not minimally encoded, or does not
    /// fit this machine.
    BadLength,
}

/// The opcode denoted by a four-bit nibble.
pub open spec fn opcode_of_nibble(n: u8) -> Opcode {
    if n == 0 {
        Opcode::Continuation
    } else if n == 1 {
        Opcode::Text
    } else if n == 2 {
        Opcode::Binary
    } else if n == 8 {
        Opcode::Close
    } else if n == 9 {
        Opcode::Ping
    } else if n == 10 {
        Opcode::Pong
    } else {
        Opcode::Reserved
    }
}

/// The wire nibble used when this library sends a frame. `Reserved` frames
/// are never sent; the value chosen for them here is immaterial.
pub open spec fn nibble_of_opcode(op: Opcode) -> u8 {
    match op {
        Opcode::Continuation => 0,
        Opcode::Text => 1,
        Opcode::Binary => 2,
        Opcode::Close => 8,
        Opcode::Ping => 9,
        Opcode::Pong => 10,
        Opcode::Reserved => 3,
    }
}

/// Executable opcode classification of a nibble.
pub fn opcode_from_nibble(n: u8) -> (op: Opcode)
    ensures
        op == opcode_of_nibble(n),
{
    if n == 0 {
        Opcode::Continuation
    } else if n == 1 {
        Opcode::Text
    } else if n == 2 {
        Opcode::Binary
    } else if n == 8 {
        Opcode::Close
    } else if n == 9 {
        Opcode::Ping
    } else if n == 10 {
        Opcode::Pong
    } else {
        Opcode::Reserved
    }
}

/// The payload-length field of a server-to-client frame: one byte below
/// 126, `126` plus two big-endian bytes up to 65535, `127` plus eight
/// big-endian bytes beyond.
pub open spec fn spec_len_bytes(n: nat) -> Seq<u8> {
    if n < 126 {
        seq![n as u8]
    } else if n < 65536 {
        seq![126u8, (n / 256) as u8, (n % 256) as u8]
    } else {
        seq![
            127u8,
            ((n / 0x100000000000000) % 256) as u8,
            ((n / 0x1000000000000) % 256) as u8,
            ((n / 0x10000000000) % 256) as u8,
            ((n / 0x100000000) % 256) as u8,
            ((n / 0x1000000) % 256) as u8,
            ((n / 0x10000) % 256) as u8,
            ((n / 0x100) % 256) as u8,
            (n % 256) as u8,
        ]
    }
}

/// First byte of a frame: fin flag in the top bit, opcode nibble in the
/// low four bits, reserved bits clear.
pub open spec fn spec_first_byte(fin: bool, op: Opcode) -> u8 {
    (if fin {
        (128 + nibble_of_opcode(op)) as u8
    } else {
        nibble_of_opcode(op)
    })
}

/// The exact bytes of a server-to-client frame: header, length field, then
/// the payload unmasked, as the protocol requires of a server.
pub open spec fn spec_encode_frame(fin: bool, op: Opcode, payload: Seq<u8>) -> Seq<u8> {
    seq![spec_first_byte(fin, op)] + spec_len_bytes(payload.len()) + payload
}

/// Encode one frame for the server-to-client direction (no masking key).
pub fn encode_frame(f: &Frame) -> (r: Vec<u8>)
    requires
        f.opcode != Opcode::Reserved,
        f.payload@.len() < 0x8000000000000000,
    ensures
        r@ == spec_encode_frame(f.fin, f.opcode, f.payload@),
{
    let mut r: Vec<u8> = Vec::new();
    let nib: u8 = match f.opcode {
        Opcode::Continuation => 0,
        Opcode::Text => 1,
        Opcode::Binary => 2,
        Opcode::Close => 8,
        Opcode::Ping => 9,
        Opcode::Pong => 10,
        Opcode::Reserved => 3,
    };
    if f.fin {
        r.push(128 + nib);
    } else {
        r.push(nib);
    }
    let len = f.payload.len();
    if len < 126 {
        r.push(len as u8);
    } else if len < 65536 {
        r.push(126);
        r.push((len / 256) as u8);
        r.push((len % 256) as u8);
    } else {
        let n = len as u64;
        r.push(127);
        r.push(((n / 0x100000000000000) % 256) as u8);
        r.push(((n / 0x1000000000000) % 256) as u8);
        r.push(((n / 0x10000000000) % 256) as u8);
        r.push(((n / 0x100000000) % 256) as u8);
        r.push(((n / 0x1000000) % 256) as u8);
        r.push(((n / 0x10000) % 256) as u8);
        r.push(((n / 0x100) % 256) as u8);
        r.push((n % 256) as u8);
    }
    assert(r@ =~= seq![spec_first_byte(f.fin, f.opcode)] + spec_len_bytes(f.payload@.len()));
    let ghost header = r@;
    let mut i: usize = 0;
    while i < f.payload.len()
        invariant
            i <= f.payload@.len(),
            r@ == header + f.payload@.take(i as int),
        decreases f.payload@.len() - i,
    {
        r.push(f.payload[i]);
        assert(header + f.payload@.take(i as int) + seq![f.payload@[i as int]] =~= header
            + f.payload@.take(i + 1));
        i = i + 1;
    }
    assert(f.payload@.take(f.payload@.len() as int) =~= f.payload@);
    r
}

/// What one well-formed client frame at the front of a buffer denotes.
pub ghost struct ParsedFrame {
    pub fin: bool,
    pub opcode: Opcode,
    pub payload: Seq<u8>,
    pub consumed: int,
}

/// The 64-bit big-endian value of the eight bytes of `s` starting at `i`.
pub open spec fn spec_be64(s: Seq<u8>, i: int) -> nat {
    (s[i] * 0x100000000000000 + s[i + 1] * 0x1000000000000 + s[i + 2] * 0x10000000000 + s[i + 3]
        * 0x100000000 + s[i + 4] * 0x1000000 + s[i + 5] * 0x10000 + s[i + 6] * 0x100 + s[i
        + 7]) as nat
}

/// Tail of frame parsing, once the header says the payload is `len` bytes
/// and the masking key starts at `off`: the payload bytes are the wire
/// bytes XORed with the four-byte key.
pub open spec fn spec_parse_rest(s: Seq<u8>, off: int, len: nat) -> Result<
    ParsedFrame,
    FrameError,
> {
    if s.len() < off + 4 + len {
        Err(FrameError::Incomplete)
    } else {
        Ok(
            (ParsedFrame {
                fin: s[0] >= 128,
                opcode: opcode_of_nibble((s[0] % 16) as u8),
                payload: Seq::new(len, |k: int| s[off + 4 + k] ^ s[off + (k % 4)]),
                consumed: off + 4 + len,
            }),
        )
    }
}

/// Parse one client-to-server frame from the front of a buffer. Client
/// frames must carry a masking key; extended payload lengths must be
/// minimal, below 2^63, and fit a `usize`.
pub open spec fn spec_parse_frame(s: Seq<u8>) -> Result<ParsedFrame, FrameError> {
    if s.len() < 2 {
        Err(FrameError::Incomplete)
    } else if s[1] < 128 {
        Err(FrameError::MissingMask)
    } else {
        let lencode = s[1] % 128;
        if lencode < 126 {
            spec_parse_rest(s, 2, lencode as nat)
        } else if lencode == 126 {
            if s.len() < 4 {
                Err(FrameError::Incomplete)
            } else {
                let n = s[2] * 256 + s[3];
                if n < 126 {
                    Err(FrameError::BadLength)
                } else {
                    spec_parse_rest(s, 4, n as nat)
                }
            }
        } else {
            if s.len() < 10 {
                Err(FrameError::Incomplete)
            } else {
                let n = spec_be64(s, 2);
                if n < 65536 || n >= 0x8000000000000000 || n > usize::MAX as nat {
                    Err(FrameError::BadLength)
                } else {
                    spec_parse_rest(s, 10, n)
                }
            }
        }
    }
}

/// Decode one client frame from the front of `buf`, returning the frame and
/// the number of bytes it occupied, exactly as `spec_parse_frame` says.
pub fn decode_frame(buf: &Vec<u8>) -> (r: Result<(Frame, usize), FrameError>)
    ensures
        match r {
            Ok(p) => spec_parse_frame(buf@) == Ok::<ParsedFrame, FrameError>(
                (ParsedFrame {
                    fin: p.0.fin,
                    opcode: p.0.opcode,
                    payload: p.0.payload@,
                    consumed: p.1 as int,
                }),
            ),
            Err(e) => spec_parse_frame(buf@) == Err::<ParsedFrame, FrameError>(e),
        },
{
    let n = buf.len();
    if n < 2 {
        return Err(FrameError::Incomplete);
    }
    let b0 = buf[0];
    let b1 = buf[1];
    if b1 < 128 {
        return Err(FrameError::MissingMask);
    }
    let lencode = b1 % 128;
    let off: usize;
    let plen: usize;
    if lencode < 126 {
        off = 2;
        plen = lencode as usize;
    } else if lencode == 126 {
        if n < 4 {
            return Err(FrameError::Incomplete);
        }
        let v: usize = (buf[2] as usize) * 256 + (buf[3] as usize);
        if v < 126 {
            return Err(FrameError::BadLength);
        }
        off = 4;
        plen = v;
    } else {
        if n < 10 {
            return Err(FrameError::Incomplete);
        }
        let v: u64 = (buf[2] as u64) * 0x100000000000000 + (buf[3] as u64) * 0x1000000000000 + (
        buf[4] as u64) * 0x10000000000 + (buf[5] as u64) * 0x100000000 + (buf[6] as u64)
            * 0x1000000 + (buf[7] as u64) * 0x10000 + (buf[8] as u64) * 0x100 + (buf[9] as u64);
        assert(v == spec_be64(buf@, 2));
        if v < 65536 || v >= 0x8000000000000000 {
            return Err(FrameError::BadLength);
        }
        if v > (usize::MAX as u64) {
            return Err(FrameError::BadLength);
        }
        off = 10;
        plen = v as usize;
    }
    if n < off + 4 {
        return Err(FrameError::Incomplete);
    }
    if n - off - 4 < plen {
        return Err(FrameError::Incomplete);
    }
    let mut payload: Vec<u8> = Vec::new();
    let mut i: usize = 0;
    while i < plen
        invariant
            i <= plen,
            n == buf@.len(),
            off + 4 + plen <= n,
            off == 2 || off == 4 || off == 10,
            payload@ == Seq::new(i as nat, |k: int| buf@[off + 4 + k] ^ buf@[off + (k % 4)]),
        decreases plen - i,
    {
        let m = buf[off + (i % 4)];
        payload.push(buf[off + 4 + i] ^ m);
        assert(payload@ =~= Seq::new((i + 1) as nat, |k: int| buf@[off + 4 + k] ^ buf@[off + (k % 4)]));
        i = i + 1;
    }
    let fin = b0 >= 128;
    let opcode = opcode_from_nibble(b0 % 16);
    let used = off + 4 + plen;
    Ok((Frame { fin, opcode, payload }, used))
}

} // verus!
