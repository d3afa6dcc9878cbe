//! Reading the evaluator's output while it still blocks: the bytes seen so
//! far, and the decision after every read whether to read again.

use vstd::prelude::*;
use vstd::slice::slice_subrange;
use crate::error::{io_kind, kind_of, IoKind};
use crate::framing::ends_with;

verus! {

/// The most bytes that one scan looks at.
pub const SCAN_LIMIT: usize = 1024;

/// The bytes that a scan has read so far, at most [`SCAN_LIMIT`] of them.
#[derive(Debug)]
pub struct ScanBuffer {
    bytes: Vec<u8>,
}

impl View for ScanBuffer {
    type V = Seq<u8>;

    closed spec fn view(&self) -> Seq<u8> {
        self.bytes@
    }
}

impl ScanBuffer {
    #[verifier::type_invariant]
    spec fn bounded(self) -> bool {
        self.bytes@.len() <= SCAN_LIMIT
    }

    /// A buffer that has seen nothing yet.
    pub fn new() -> (scan: ScanBuffer)
        ensures
            scan@ == Seq::<u8>::empty(),
    {
        ScanBuffer { bytes: Vec::new() }
    }

    /// The bytes seen so far.
    pub fn as_slice(&self) -> (bytes: &[u8])
        ensures
            bytes@ == self@,
    {
        self.bytes.as_slice()
    }

    /// How many bytes the next read may bring at most.
    pub fn spare(&self) -> (room: usize)
        ensures
            room == SCAN_LIMIT - self@.len(),
    {
        proof {
            use_type_invariant(self);
        }
        SCAN_LIMIT - self.bytes.len()
    }
}

/// How a scan goes on after one read.
#[derive(Debug)]
pub enum Scan {
    /// Read again, into the room that this buffer has left.
    More(ScanBuffer),
    /// The scan is over, with this result.
    Done(Result<(), std::io::Error>),
}

/// The part of `chunk` that a buffer holding `seen` has room for.
pub open spec fn taken(seen: Seq<u8>, chunk: Seq<u8>) -> Seq<u8> {
    if seen.len() + chunk.len() <= SCAN_LIMIT {
        chunk
    } else {
        chunk.take(SCAN_LIMIT - seen.len())
    }
}

/// The bytes seen once `read` has been taken in.
pub open spec fn scanned(seen: Seq<u8>, read: Result<&[u8], std::io::Error>) -> Seq<u8> {
    match read {
        Ok(chunk) => seen + taken(seen, chunk@),
        Err(_) => seen,
    }
}

/// What a scan for `expected_end` does after `read`: `None` to read again,
/// or how the scan ends.
///
/// A read that brings nothing ends the scan, and so does one after which
/// the bytes seen end with `expected_end`. An interrupted read is tried
/// again; any other failure ends the scan with its error.
pub open spec fn scan_verdict(
    seen: Seq<u8>,
    read: Result<&[u8], std::io::Error>,
    expected_end: Seq<u8>,
) -> Option<Result<(), std::io::Error>> {
    match read {
        Ok(chunk) => if taken(seen, chunk@).len() == 0 || expected_end.is_suffix_of(
            scanned(seen, read),
        ) {
            Some(Ok(()))
        } else {
            None
        },
        Err(error) => if io_kind(error) == IoKind::Interrupted {
            None
        } else {
            Some(Err(error))
        },
    }
}

/// Takes the result of one blocking read into `scan` and decides whether
/// the data up to `expected_end` has been cleared.
///
/// The driver reads at most [`ScanBuffer::spare`] bytes at a time and hands
/// each result here until the scan is done. What a read brings beyond the
/// room that is left is not looked at, so a full buffer ends the scan.
pub fn clear_blocking_reader_until(
    scan: ScanBuffer,
    read: Result<&[u8], std::io::Error>,
    expected_end: &[u8],
) -> (next: Scan)
    ensures
        match next {
            Scan::More(rest) => scan_verdict(scan@, read, expected_end@) is None && rest@
                == scanned(scan@, read),
            Scan::Done(result) => scan_verdict(scan@, read, expected_end@) == Some(result),
        },
{
    match read {
        Ok(chunk) => {
            let room = scan.spare();
            let fitting = if chunk.len() <= room {
                chunk
            } else {
                slice_subrange(chunk, 0, room)
            };
            assert(fitting@ =~= taken(scan@, chunk@));
            if fitting.len() == 0 {
                return Scan::Done(Ok(()));
            }
            let mut bytes = scan.bytes;
            bytes.extend_from_slice(fitting);
            if ends_with(bytes.as_slice(), expected_end) {
                Scan::Done(Ok(()))
            } else {
                Scan::More(ScanBuffer { bytes })
            }
        },
        Err(error) => {
            match kind_of(&error) {
                IoKind::Interrupted => Scan::More(scan),
                _ => Scan::Done(Err(error)),
            }
        },
    }
}

} // verus!
