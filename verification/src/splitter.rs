//! Splitting the header off a stream, read by read.
//!
//! A `.dbc` stream is read forward only, and how much to read next is known
//! only from what was read before. [`HeaderSplitter`] makes those decisions
//! and leaves the reading to its caller: it says how many bytes it wants,
//! takes what a read of exactly that many bytes gave, and then wants more,
//! hands out the [`Header`], or fails. [`split_header`] drives it over bytes
//! held in memory.

use crate::error::Error;
use crate::header::{
    declared_len, framing, header_len, header_of, payload_start, Framing, Header, CHECKSUM_LEN,
    PREAMBLE_LEN,
};
use vstd::slice::{slice_subrange, slice_to_vec};
use vstd::prelude::*;

verus! {

/// The region that the splitter reads next.
#[derive(Clone, Copy, Debug, PartialEq, Eq, Structural)]
pub enum Stage {
    /// The ten bytes of the preamble.
    Preamble,
    /// The header body, as long as the preamble says.
    Body,
    /// The four bytes of the checksum field.
    Checksum,
}

/// How far a split has come: the region to read next and the header bytes
/// taken in so far.
pub struct Progress {
    pub stage: Stage,
    pub taken: Seq<u8>,
}

/// What a read leads to.
pub enum Outcome {
    /// Another read is wanted.
    Continue(Progress),
    /// The header is complete, and the source stands at the payload.
    Done(Seq<u8>),
    /// The source ended before the preamble did.
    MissingHeader,
    /// The preamble declares less than its own length, or the source ended
    /// before header body and checksum field did.
    InvalidHeaderSize,
}

/// Where every split begins.
pub open spec fn start() -> Progress {
    Progress { stage: Stage::Preamble, taken: Seq::empty() }
}

/// The number of bytes that the next read has to deliver.
pub open spec fn wanted(progress: Progress) -> nat {
    match progress.stage {
        Stage::Preamble => PREAMBLE_LEN as nat,
        Stage::Body => (declared_len(progress.taken) - PREAMBLE_LEN) as nat,
        Stage::Checksum => CHECKSUM_LEN as nat,
    }
}

/// The step of the splitter. `read` is what a read of exactly
/// `wanted(progress)` bytes gave: the bytes, or `None` where the source ended
/// early or failed. Bytes of another length count as a failed read.
pub open spec fn accept(progress: Progress, read: Option<Seq<u8>>) -> Outcome {
    match read {
        Some(bytes) if bytes.len() == wanted(progress) => match progress.stage {
            Stage::Preamble => if declared_len(bytes) < PREAMBLE_LEN {
                Outcome::InvalidHeaderSize
            } else {
                Outcome::Continue(Progress { stage: Stage::Body, taken: bytes })
            },
            Stage::Body => Outcome::Continue(
                Progress { stage: Stage::Checksum, taken: progress.taken + bytes },
            ),
            Stage::Checksum => Outcome::Done(progress.taken),
        },
        _ => match progress.stage {
            Stage::Preamble => Outcome::MissingHeader,
            _ => Outcome::InvalidHeaderSize,
        },
    }
}

/// The bytes of a read, if it delivered any.
pub open spec fn bytes_of(read: Option<Vec<u8>>) -> Option<Seq<u8>> {
    match read {
        Some(bytes) => Some(bytes@),
        None => None,
    }
}

/// Decides, read by read, how the header is split off a `.dbc` stream.
#[derive(Debug)]
pub struct HeaderSplitter {
    stage: Stage,
    preamble: [u8; 10],
    body: Vec<u8>,
}

/// What the splitter asks of its caller after a read.
#[derive(Debug)]
pub enum Step {
    /// Read again, as many bytes as the splitter inside wants.
    Continue(HeaderSplitter),
    /// The header is split off; what the source holds from here on is the
    /// compressed payload.
    Done(Header),
    /// There is no header to split off.
    Failed(Error),
}

impl View for HeaderSplitter {
    type V = Progress;

    closed spec fn view(&self) -> Progress {
        Progress {
            stage: self.stage,
            taken: match self.stage {
                Stage::Preamble => Seq::empty(),
                Stage::Body => self.preamble@,
                Stage::Checksum => self.preamble@ + self.body@,
            },
        }
    }
}

impl HeaderSplitter {
    #[verifier::type_invariant]
    spec fn consistent(self) -> bool {
        match self.stage {
            Stage::Preamble => true,
            Stage::Body => declared_len(self.preamble@) >= PREAMBLE_LEN,
            Stage::Checksum => declared_len(self.preamble@) == PREAMBLE_LEN + self.body@.len(),
        }
    }

    /// A splitter for a source that stands at the start of a `.dbc` file.
    pub fn new() -> (splitter: HeaderSplitter)
        ensures
            splitter@ == start(),
    {
        HeaderSplitter { stage: Stage::Preamble, preamble: [0u8; 10], body: Vec::new() }
    }

    /// The number of bytes that the next read has to deliver.
    pub fn wanted(&self) -> (n: usize)
        ensures
            n == wanted(self@),
    {
        proof {
            use_type_invariant(self);
        }
        match self.stage {
            Stage::Preamble => PREAMBLE_LEN,
            Stage::Body => header_len(&self.preamble) - PREAMBLE_LEN,
            Stage::Checksum => CHECKSUM_LEN,
        }
    }

    /// Takes what a read of exactly `self.wanted()` bytes gave: the bytes,
    /// or `None` where the source ended early or failed.
    pub fn accept(self, read: Option<Vec<u8>>) -> (step: Step)
        ensures
            match accept(self@, bytes_of(read)) {
                Outcome::Continue(progress) => step matches Step::Continue(next) && next@
                    == progress,
                Outcome::Done(header) => step matches Step::Done(h) && h@ == header,
                Outcome::MissingHeader => step matches Step::Failed(e) && e is MissingHeader,
                Outcome::InvalidHeaderSize => step matches Step::Failed(e) && e
                    is InvalidHeaderSize,
            },
    {
        proof {
            use_type_invariant(&self);
        }
        let wanted = self.wanted();
        match read {
            Some(bytes) if bytes.len() == wanted => match self.stage {
                Stage::Preamble => {
                    let preamble = to_preamble(&bytes);
                    if header_len(&preamble) < PREAMBLE_LEN {
                        Step::Failed(Error::InvalidHeaderSize)
                    } else {
                        Step::Continue(
                            HeaderSplitter { stage: Stage::Body, preamble, body: Vec::new() },
                        )
                    }
                },
                Stage::Body => Step::Continue(
                    HeaderSplitter { stage: Stage::Checksum, preamble: self.preamble, body: bytes },
                ),
                Stage::Checksum => Step::Done(Header::assemble(self.preamble, self.body)),
            },
            _ => match self.stage {
                Stage::Preamble => Step::Failed(Error::MissingHeader),
                _ => Step::Failed(Error::InvalidHeaderSize),
            },
        }
    }
}

/// What a source that holds `source` hands to a read of exactly `n` bytes
/// at offset `at`.
pub open spec fn read_exact(source: Seq<u8>, at: int, n: nat) -> Option<Seq<u8>> {
    if 0 <= at && at + n <= source.len() {
        Some(source.subrange(at, at + n))
    } else {
        None
    }
}

/// The steps that a split at `stage` has still to take at most.
pub open spec fn steps_left(stage: Stage) -> nat {
    match stage {
        Stage::Preamble => 3,
        Stage::Body => 2,
        Stage::Checksum => 1,
    }
}

/// How a split ends, and how many bytes of the source the reads that were
/// answered took it to.
pub struct Run {
    pub outcome: Outcome,
    pub read: int,
}

/// Carries on a split at `progress` over a source that holds `source` and
/// stands behind the bytes taken so far: asks for what is wanted, read after
/// read, until the splitter is done or fails.
pub open spec fn drive(progress: Progress, source: Seq<u8>) -> Run
    decreases steps_left(progress.stage),
{
    let at = progress.taken.len() as int;
    let read = read_exact(source, at, wanted(progress));
    match accept(progress, read) {
        Outcome::Continue(next) => drive(next, source),
        outcome => Run { outcome, read: if read is Some { at + wanted(progress) } else { at } },
    }
}

/// Driven over the bytes of a file from its start, the splitter ends as the
/// framing of the file says: with the header of a framed file, and else with
/// the error that names what is missing. It reads no further than the
/// checksum field: when it is done, the reads have taken the header and the
/// four checksum bytes and the source stands at the payload; when it fails,
/// they have taken the preamble, and the header body where that was there.
pub proof fn lemma_drive_follows_framing(file: Seq<u8>)
    ensures
        drive(start(), file) == match framing(file) {
            Framing::Framed => Run {
                outcome: Outcome::Done(header_of(file)),
                read: payload_start(file),
            },
            Framing::InvalidHeaderSize => Run {
                outcome: Outcome::InvalidHeaderSize,
                read: if declared_len(file) < PREAMBLE_LEN || file.len() < declared_len(file) {
                    PREAMBLE_LEN as int
                } else {
                    declared_len(file)
                },
            },
            Framing::MissingHeader => Run { outcome: Outcome::MissingHeader, read: 0 },
        },
        drive(start(), file).read <= file.len(),
{
    reveal_with_fuel(drive, 3);
    if framing(file) is Framed {
        let preamble = file.subrange(0, PREAMBLE_LEN as int);
        let body = file.subrange(PREAMBLE_LEN as int, declared_len(file));
        assert(preamble + body == header_of(file));
    }
}

/// Splits the header off the bytes of a `.dbc` file: gives the header and
/// the offset at which the compressed payload begins.
pub fn split_header(file: &[u8]) -> (split: Result<(Header, usize), Error>)
    ensures
        match framing(file@) {
            Framing::Framed => split matches Ok((header, offset)) && header@ == header_of(file@)
                && offset == payload_start(file@),
            Framing::MissingHeader => split matches Err(e) && e is MissingHeader,
            Framing::InvalidHeaderSize => split matches Err(e) && e is InvalidHeaderSize,
        },
{
    let mut splitter = HeaderSplitter::new();
    let mut at: usize = 0;
    loop
        invariant
            at == splitter@.taken.len(),
            at <= file@.len(),
            drive(splitter@, file@) == drive(start(), file@),
        decreases steps_left(splitter@.stage),
    {
        let wanted = splitter.wanted();
        let read = if wanted <= file.len() - at {
            Some(slice_to_vec(slice_subrange(file, at, at + wanted)))
        } else {
            None
        };
        proof {
            lemma_drive_follows_framing(file@);
        }
        match splitter.accept(read) {
            Step::Continue(next) => {
                splitter = next;
                at = at + wanted;
            },
            Step::Done(header) => {
                return Ok((header, at + wanted));
            },
            Step::Failed(e) => {
                return Err(e);
            },
        }
    }
}

/// The ten bytes as a preamble.
fn to_preamble(bytes: &Vec<u8>) -> (preamble: [u8; 10])
    requires
        bytes@.len() == PREAMBLE_LEN,
    ensures
        preamble@ == bytes@,
{
    let mut preamble = [0u8; 10];
    let mut i: usize = 0;
    while i < PREAMBLE_LEN
        invariant
            i <= PREAMBLE_LEN,
            bytes@.len() == PREAMBLE_LEN,
            forall|j: int| 0 <= j < i ==> preamble@[j] == bytes@[j],
        decreases PREAMBLE_LEN - i,
    {
        preamble[i] = bytes[i];
        i += 1;
    }
    preamble
}

} // verus!
