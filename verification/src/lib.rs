//! Decompress `*.dbc` files, as found on Brazil's DATASUS ftp server, into
//! `*.dbf` files.
//!
//! A `.dbc` file is a `.dbf` file whose records were compressed with the
//! *implode* algorithm of the PKWARE Data Compression Library. Its header
//! is kept as it is, followed by four checksum bytes and the compressed
//! records. This crate frames those regions and composes the output; the
//! decompression itself is done by the `explode` crate.
//!
//! [`decompress`] converts a whole file held in memory, [`into_dbf_reader`]
//! gives a reader that decompresses only once the header has been read, and
//! [`HeaderSplitter`] lets a caller that owns a stream split the header off
//! it read by read.

pub mod decompress;
pub mod error;
pub mod header;
pub mod payload;
pub mod reader;
pub mod splitter;

pub use decompress::{decompress, into_dbf_reader};
pub use error::Error;
pub use header::Header;
pub use reader::DbfReader;
pub use splitter::{split_header, HeaderSplitter, Step};
