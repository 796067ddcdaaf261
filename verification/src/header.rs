//! The layout of a `.dbc` file and its header.
//!
//! | offset       | size            | field                                     |
//! |--------------|-----------------|-------------------------------------------|
//! | 0            | 10              | preamble; bytes 8 and 9 hold `header_len` |
//! | 10           | header_len - 10 | header body                               |
//! | header_len   | 4               | checksum, read and not verified           |
//! | header_len+4 | the rest        | compressed payload                        |

use vstd::prelude::*;
use vstd::slice::slice_to_vec;

verus! {

/// Length of the preamble, the fixed first region of the file.
pub const PREAMBLE_LEN: usize = 10;

/// Length of the checksum field that follows the header.
pub const CHECKSUM_LEN: usize = 4;

/// The length of the whole header, preamble and body, that a file declares:
/// the little-endian number in bytes 8 and 9 of its preamble.
pub open spec fn declared_len(file: Seq<u8>) -> int
    recommends
        file.len() >= PREAMBLE_LEN,
{
    file[8] as int + 256 * (file[9] as int)
}

/// How the regions of a file lie in the bytes at hand.
pub enum Framing {
    /// There are not even the ten bytes of a preamble.
    MissingHeader,
    /// The declared header length is smaller than the preamble, or the bytes
    /// end before the header body and the checksum field do.
    InvalidHeaderSize,
    /// Preamble, header body and checksum field are all there.
    Framed,
}

/// The framing of the bytes of a file.
pub open spec fn framing(file: Seq<u8>) -> Framing {
    if file.len() < PREAMBLE_LEN {
        Framing::MissingHeader
    } else if declared_len(file) < PREAMBLE_LEN || file.len() < declared_len(file) + CHECKSUM_LEN {
        Framing::InvalidHeaderSize
    } else {
        Framing::Framed
    }
}

/// The header of a framed file: preamble and header body.
pub open spec fn header_of(file: Seq<u8>) -> Seq<u8>
    recommends
        framing(file) is Framed,
{
    file.subrange(0, declared_len(file))
}

/// Where the compressed payload of a framed file begins.
pub open spec fn payload_start(file: Seq<u8>) -> int
    recommends
        framing(file) is Framed,
{
    declared_len(file) + CHECKSUM_LEN
}

/// The compressed payload of a framed file: all that follows the checksum.
pub open spec fn payload_of(file: Seq<u8>) -> Seq<u8>
    recommends
        framing(file) is Framed,
{
    file.subrange(payload_start(file), file.len() as int)
}

/// The header of a file depends on nothing but its first bytes, up to the
/// end of the checksum field: bytes that agree with those of a framed file
/// so far are framed too, with the same header and the payload at the same
/// place, whatever that payload is. So the same stream, split again from its
/// start, gives the same preamble and the same header body.
pub proof fn lemma_header_fixed_by_prefix(file: Seq<u8>, other: Seq<u8>)
    requires
        framing(file) is Framed,
        other.len() >= payload_start(file),
        other.subrange(0, payload_start(file)) == file.subrange(0, payload_start(file)),
    ensures
        framing(other) is Framed,
        header_of(other) == header_of(file),
        payload_start(other) == payload_start(file),
{
    let prefix = file.subrange(0, payload_start(file));
    assert(other[8] == prefix[8] && other[9] == prefix[9]);
    assert(header_of(other) == prefix.subrange(0, declared_len(file)));
}

/// Whether `bytes` are a whole header and nothing else: a preamble that
/// declares just their length.
pub open spec fn is_header(bytes: Seq<u8>) -> bool {
    bytes.len() >= PREAMBLE_LEN && declared_len(bytes) == bytes.len()
}

/// The header length that a preamble declares.
pub fn header_len(preamble: &[u8; 10]) -> (len: usize)
    ensures
        len == declared_len(preamble@),
        len <= 0xffff,
{
    let low: usize = preamble[8] as usize;
    let high: usize = preamble[9] as usize;
    assert(high << 8 == 256 * high) by (bit_vector)
        requires
            high < 256,
    ;
    low + (high << 8)
}

/// The header of a `.dbc` file, which is that of the `.dbf` file inside:
/// the preamble and the header body, whose lengths add up to the length
/// that the preamble declares.
#[derive(Debug)]
pub struct Header {
    preamble: [u8; 10],
    body: Vec<u8>,
}

impl View for Header {
    type V = Seq<u8>;

    /// The bytes of the header: the preamble, then the body.
    closed spec fn view(&self) -> Seq<u8> {
        self.preamble@ + self.body@
    }
}

impl Header {
    #[verifier::type_invariant]
    spec fn consistent(self) -> bool {
        declared_len(self.preamble@) == PREAMBLE_LEN + self.body@.len()
    }

    /// Puts a header together. There is none where the preamble declares
    /// another length than the two regions have.
    pub fn new(preamble: [u8; 10], body: Vec<u8>) -> (header: Option<Header>)
        ensures
            header is Some <==> is_header(preamble@ + body@),
            header matches Some(h) ==> h@ == preamble@ + body@,
    {
        let declared = header_len(&preamble);
        if declared >= PREAMBLE_LEN && body.len() == declared - PREAMBLE_LEN {
            Some(Header::assemble(preamble, body))
        } else {
            None
        }
    }

    /// Puts together a header whose regions are known to fit.
    pub(crate) fn assemble(preamble: [u8; 10], body: Vec<u8>) -> (header: Header)
        requires
            is_header(preamble@ + body@),
        ensures
            header@ == preamble@ + body@,
    {
        Header { preamble, body }
    }

    /// The preamble: the first ten bytes.
    pub fn preamble(&self) -> (preamble: &[u8; 10])
        ensures
            preamble@ == self@.subrange(0, PREAMBLE_LEN as int),
    {
        &self.preamble
    }

    /// The header body: what follows the preamble.
    pub fn body(&self) -> (body: &[u8])
        ensures
            body@ == self@.subrange(PREAMBLE_LEN as int, self@.len() as int),
    {
        self.body.as_slice()
    }

    /// The bytes of the header in one piece.
    pub fn into_bytes(self) -> (bytes: Vec<u8>)
        ensures
            bytes@ == self@,
            is_header(bytes@),
    {
        proof {
            use_type_invariant(&self);
        }
        let mut bytes = slice_to_vec(self.preamble.as_slice());
        let mut body = self.body;
        bytes.append(&mut body);
        bytes
    }

    /// The length of the header, which is the length that it declares.
    pub fn len(&self) -> (len: usize)
        ensures
            len == self@.len(),
            is_header(self@),
            len <= 0xffff,
    {
        proof {
            use_type_invariant(self);
        }
        PREAMBLE_LEN + self.body.len()
    }
}

} // verus!

