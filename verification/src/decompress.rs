//! From the bytes of a `.dbc` file to those of the `.dbf` file inside.

use crate::error::Error;
use crate::header::{declared_len, framing, header_of, payload_of, Framing, PREAMBLE_LEN};
use crate::payload::exploded;
use crate::reader::DbfReader;
use crate::splitter::split_header;
use vstd::prelude::*;
use vstd::slice::{slice_subrange, slice_to_vec};

verus! {

/// The `.dbf` file inside a `.dbc` file: its header as it stands, then its
/// payload decompressed. There is none where the file is not framed or its
/// payload cannot be decompressed.
pub open spec fn converted(file: Seq<u8>) -> Option<Seq<u8>> {
    if framing(file) is Framed {
        match exploded(payload_of(file)) {
            Some(payload) => Some(header_of(file) + payload),
            None => None,
        }
    } else {
        None
    }
}

/// Where a `.dbc` file is converted, the output is as long as preamble,
/// header body and decompressed payload together, and begins with the header
/// of the file, byte for byte.
pub proof fn lemma_converted_shape(file: Seq<u8>)
    requires
        converted(file) is Some,
    ensures
        exploded(payload_of(file)) is Some,
        converted(file).unwrap().len() == PREAMBLE_LEN + (declared_len(file) - PREAMBLE_LEN)
            + exploded(payload_of(file)).unwrap().len(),
        converted(file).unwrap().subrange(0, declared_len(file)) == file.subrange(
            0,
            declared_len(file),
        ),
{
}

/// Transform the bytes of a `.dbc` file into a reader of the `.dbf` file
/// inside. The header is split off at once; the payload is decompressed when
/// a read first reaches it.
pub fn into_dbf_reader(file: &[u8]) -> (r: Result<DbfReader, Error>)
    ensures
        match framing(file@) {
            Framing::Framed => {
                &&& r matches Ok(reader)
                &&& reader.header() == header_of(file@)
                &&& reader.payload() == exploded(payload_of(file@))
                &&& reader.position() == 0
                &&& !reader.pulled()
            },
            Framing::MissingHeader => r matches Err(e) && e is MissingHeader,
            Framing::InvalidHeaderSize => r matches Err(e) && e is InvalidHeaderSize,
        },
{
    match split_header(file) {
        Ok((header, offset)) => {
            let compressed = slice_to_vec(slice_subrange(file, offset, file.len()));
            Ok(DbfReader::new(header, compressed))
        },
        Err(e) => Err(e),
    }
}

/// Decompress the bytes of a `.dbc` file into those of a `.dbf` file.
pub fn decompress(file: &[u8]) -> (r: Result<Vec<u8>, Error>)
    ensures
        match r {
            Ok(dbf) => converted(file@) == Some(dbf@),
            Err(e) => match framing(file@) {
                Framing::MissingHeader => e is MissingHeader,
                Framing::InvalidHeaderSize => e is InvalidHeaderSize,
                Framing::Framed => e is Decompression && exploded(payload_of(file@)) is None,
            },
        },
        r is Ok <==> converted(file@) is Some,
{
    let mut reader = into_dbf_reader(file)?;
    let mut dbf = Vec::new();
    match reader.read_to_end(&mut dbf) {
        Ok(_) => Ok(dbf),
        Err(e) => Err(e),
    }
}

} // verus!
