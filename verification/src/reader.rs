//! The composed stream: the header as it came, then the decompressed payload.

use crate::error::Error;
use crate::header::Header;
use crate::payload::exploded;
use vstd::math::min;
use vstd::prelude::*;

verus! {

/// Reads a `.dbf` file out of the parts of a `.dbc` file: first the header,
/// byte for byte, then the decompressed payload. The payload is decompressed
/// when a read first reaches it, and not before; it is then decompressed in
/// one piece, so a reader holds the whole payload in memory. A caller that
/// reads a file too large for that splits the header off its stream with a
/// `HeaderSplitter` and decompresses the rest as it reads.
#[derive(Debug)]
pub struct DbfReader {
    /// Preamble and header body.
    header: Vec<u8>,
    /// How much of the header is handed out.
    header_pos: usize,
    /// The payload as it came, until it is decompressed.
    compressed: Option<Vec<u8>>,
    /// The decompressed payload, once there is one.
    plain: Vec<u8>,
    /// How much of the decompressed payload is handed out.
    plain_pos: usize,
}

impl DbfReader {
    #[verifier::type_invariant]
    spec fn consistent(self) -> bool {
        &&& self.header_pos <= self.header@.len()
        &&& self.plain_pos > 0 ==> self.header_pos == self.header@.len()
        &&& self.plain_pos <= self.plain@.len()
        &&& self.compressed is Some ==> self.plain@.len() == 0
    }

    /// The header bytes, which the reader hands out first.
    pub closed spec fn header(&self) -> Seq<u8> {
        self.header@
    }

    /// The decompressed payload, which the reader hands out after the
    /// header; `None` where the payload cannot be decompressed.
    pub closed spec fn payload(&self) -> Option<Seq<u8>> {
        match self.compressed {
            Some(bytes) => exploded(bytes@),
            None => Some(self.plain@),
        }
    }

    /// The number of bytes handed out so far.
    pub closed spec fn position(&self) -> nat {
        (self.header_pos + self.plain_pos) as nat
    }

    /// Whether the payload has been decompressed yet.
    pub closed spec fn pulled(&self) -> bool {
        self.compressed is None
    }

    /// All that the reader hands out, from its start to where it ends or
    /// fails: the header, and the payload where it can be decompressed.
    pub open spec fn stream(&self) -> Seq<u8> {
        match self.payload() {
            Some(payload) => self.header() + payload,
            None => self.header(),
        }
    }

    /// Whether the next read reaches the payload: the header is handed out.
    pub open spec fn at_payload(&self) -> bool {
        self.position() >= self.header().len()
    }

    /// The number of bytes that a read into a buffer of `room` bytes
    /// delivers: as many as fit of what is left of the header, or, once the
    /// header is handed out, of what is left of the payload.
    pub open spec fn next_len(&self, room: nat) -> nat {
        if self.at_payload() {
            min(room as int, self.stream().len() - self.position()) as nat
        } else {
            min(room as int, self.header().len() - self.position()) as nat
        }
    }

    /// A reader over a header and a payload that is still compressed.
    pub fn new(header: Header, compressed: Vec<u8>) -> (reader: DbfReader)
        ensures
            reader.header() == header@,
            reader.payload() == exploded(compressed@),
            reader.position() == 0,
            !reader.pulled(),
    {
        DbfReader {
            header: header.into_bytes(),
            header_pos: 0,
            compressed: Some(compressed),
            plain: Vec::new(),
            plain_pos: 0,
        }
    }

    /// A reader over a header and a payload that is already decompressed.
    pub fn from_parts(header: Header, payload: Vec<u8>) -> (reader: DbfReader)
        ensures
            reader.header() == header@,
            reader.payload() == Some(payload@),
            reader.position() == 0,
            reader.pulled(),
    {
        DbfReader {
            header: header.into_bytes(),
            header_pos: 0,
            compressed: None,
            plain: payload,
            plain_pos: 0,
        }
    }

    /// Reads into `buf` what comes next, as `std::io::Read::read` does:
    /// fills the front of `buf`, says how many bytes it wrote, and writes
    /// none only at the end of the stream or into an empty buffer. One read
    /// delivers bytes of the header or of the payload, never of both. The
    /// payload is decompressed by the first read that reaches it with room
    /// in `buf`; where that cannot be done, this read and all after it fail.
    pub fn read(&mut self, buf: &mut [u8]) -> (r: Result<usize, Error>)
        ensures
            final(self).header() == old(self).header(),
            final(self).payload() == old(self).payload(),
            r is Err <==> old(self).at_payload() && old(buf)@.len() > 0 && old(self).payload()
                is None,
            match r {
                Ok(n) => {
                    &&& n == old(self).next_len(old(buf)@.len())
                    &&& final(self).position() == old(self).position() + n
                    &&& final(buf)@ == old(self).stream().subrange(
                        old(self).position() as int,
                        old(self).position() + n,
                    ) + old(buf)@.subrange(n as int, old(buf)@.len() as int)
                },
                Err(e) => {
                    &&& e is Decompression
                    &&& final(self).position() == old(self).position()
                    &&& final(buf)@ == old(buf)@
                },
            },
            final(self).pulled() <==> old(self).pulled() || (r is Ok && old(self).at_payload()
                && old(buf)@.len() > 0),
    {
        proof {
            use_type_invariant(&*self);
        }
        if self.header_pos < self.header.len() {
            let n = copy_some(self.header.as_slice(), self.header_pos, buf);
            self.header_pos = self.header_pos + n;
            return Ok(n);
        }
        if buf.len() == 0 {
            return Ok(0);
        }
        if let Err(e) = self.pull() {
            return Err(e);
        }
        proof {
            use_type_invariant(&*self);
        }
        let n = copy_some(self.plain.as_slice(), self.plain_pos, buf);
        self.plain_pos = self.plain_pos + n;
        Ok(n)
    }

    /// Reads all that is left of the stream and appends it to `out`, as
    /// `std::io::Read::read_to_end` does; says how many bytes that were.
    /// Where the payload cannot be decompressed it fails, after it has
    /// appended what was left of the header.
    pub fn read_to_end(&mut self, out: &mut Vec<u8>) -> (r: Result<usize, Error>)
        ensures
            final(self).header() == old(self).header(),
            final(self).payload() == old(self).payload(),
            r is Err <==> old(self).payload() is None,
            r matches Ok(n) ==> n == old(self).stream().len() - old(self).position(),
            r matches Err(e) ==> e is Decompression,
            final(out)@ == old(out)@ + old(self).stream().subrange(
                old(self).position() as int,
                old(self).stream().len() as int,
            ),
            final(self).position() == old(self).stream().len(),
            final(self).pulled() <==> old(self).pulled() || r is Ok,
    {
        proof {
            use_type_invariant(&*self);
        }
        let before = out.len();
        append_from(out, self.header.as_slice(), self.header_pos);
        self.header_pos = self.header.len();
        if let Err(e) = self.pull() {
            return Err(e);
        }
        proof {
            use_type_invariant(&*self);
        }
        append_from(out, self.plain.as_slice(), self.plain_pos);
        self.plain_pos = self.plain.len();
        Ok(out.len() - before)
    }

    /// Decompresses the payload, unless that is done.
    fn pull(&mut self) -> (r: Result<(), Error>)
        ensures
            final(self).header() == old(self).header(),
            final(self).payload() == old(self).payload(),
            final(self).position() == old(self).position(),
            r is Err <==> old(self).payload() is None,
            r matches Err(e) ==> e is Decompression,
            final(self).pulled() <==> old(self).pulled() || r is Ok,
    {
        proof {
            use_type_invariant(&*self);
        }
        let result = match &self.compressed {
            Some(bytes) => Some(explode::explode(bytes.as_slice())),
            None => None,
        };
        match result {
            Some(Ok(plain)) => {
                self.compressed = None;
                self.plain = plain;
                Ok(())
            },
            Some(Err(e)) => Err(Error::Decompression(e)),
            None => Ok(()),
        }
    }
}

/// Copies the bytes of `src` from `from` on into the front of `buf`, as many
/// as fit.
fn copy_some(src: &[u8], from: usize, buf: &mut [u8]) -> (n: usize)
    requires
        from <= src@.len(),
    ensures
        n == min(src@.len() - from, old(buf)@.len() as int),
        from + n <= usize::MAX,
        final(buf)@ == src@.subrange(from as int, from + n) + old(buf)@.subrange(
            n as int,
            old(buf)@.len() as int,
        ),
{
    let room = buf.len();
    let left = src.len() - from;
    let n = if left < room {
        left
    } else {
        room
    };
    let ghost before = buf@;
    let mut i: usize = 0;
    while i < n
        invariant
            i <= n,
            n <= room,
            from + n <= src@.len() <= usize::MAX,
            buf@.len() == room,
            before.len() == room,
            forall|j: int| 0 <= j < i ==> buf@[j] == src@[from + j],
            forall|j: int| i <= j < room ==> buf@[j] == before[j],
        decreases n - i,
    {
        buf[i] = src[from + i];
        i += 1;
    }
    n
}

/// Appends to `out` the bytes of `src` from `from` on.
fn append_from(out: &mut Vec<u8>, src: &[u8], from: usize)
    requires
        from <= src@.len(),
    ensures
        final(out)@ == old(out)@ + src@.subrange(from as int, src@.len() as int),
{
    let ghost before = out@;
    let mut i: usize = from;
    while i < src.len()
        invariant
            from <= i <= src@.len(),
            out@ == before + src@.subrange(from as int, i as int),
        decreases src@.len() - i,
    {
        out.push(src[i]);
        i += 1;
    }
}

} // verus!
