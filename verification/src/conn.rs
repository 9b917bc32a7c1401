//! The decisions of a connection served by hand: read a chunk of bytes,
//! add it to what is pending, try to decode one request, answer it.
//! Reading, decoding, calling the service and writing are done by the
//! caller, who reports each outcome here and performs the action returned.
use vstd::prelude::*;

verus! {

/// The size of the chunk that each read fills.
pub const READ_CHUNK: usize = 4096;

/// What a read of the stream into the chunk gave.
pub enum ReadOutcome {
    /// The read put this many bytes at the front of the chunk.
    Read(usize),
    /// The read failed.
    Failed,
}

/// What to do after a read.
#[derive(PartialEq, Eq, Structural)]
pub enum Step {
    /// The stream is finished: leave the loop.
    Stop,
    /// New bytes are pending: try to decode a request.
    Decode,
}

/// What an attempt to decode a request from the pending bytes gave.
pub enum DecodeOutcome {
    /// A whole request was taken off the pending bytes.
    Frame,
    /// The pending bytes do not yet hold a whole request.
    Incomplete,
    /// The pending bytes are malformed.
    Failed,
}

/// What to do after a decoding attempt.
#[derive(PartialEq, Eq, Structural)]
pub enum Reply {
    /// Call the service, encode its answer, write it and clear the output.
    Answer,
    /// Report that no whole request is pending yet, and read again.
    ReportIncomplete,
    /// Report the decoding error, and read again.
    ReportError,
}

/// The step after a read: a failed read or an empty one ends the loop and
/// leaves `pending` alone; otherwise the bytes read are appended to
/// `pending` and a request is to be decoded.
pub fn after_read(chunk: &Vec<u8>, outcome: ReadOutcome, pending: &mut Vec<u8>) -> (s: Step)
    requires
        outcome matches ReadOutcome::Read(n) ==> n <= chunk@.len(),
    ensures
        match outcome {
            ReadOutcome::Read(n) => if n == 0 {
                s == Step::Stop && final(pending)@ == old(pending)@
            } else {
                s == Step::Decode && final(pending)@ == old(pending)@ + chunk@.take(n as int)
            },
            ReadOutcome::Failed => s == Step::Stop && final(pending)@ == old(pending)@,
        },
{
    match outcome {
        ReadOutcome::Read(n) => {
            if n == 0 {
                Step::Stop
            } else {
                let mut i: usize = 0;
                while i < n
                    invariant
                        n <= chunk@.len(),
                        i <= n,
                        pending@ == old(pending)@ + chunk@.take(i as int),
                    decreases n - i,
                {
                    pending.push(chunk[i]);
                    i = i + 1;
                    assert(chunk@.take(i as int) =~= chunk@.take(i - 1) + seq![chunk@[i - 1]]);
                }
                Step::Decode
            }
        },
        ReadOutcome::Failed => Step::Stop,
    }
}

/// The reply after a decoding attempt: a whole request is answered, and
/// anything else is reported before the next read.
pub fn after_decode(outcome: DecodeOutcome) -> (r: Reply)
    ensures
        outcome is Frame <==> r == Reply::Answer,
        outcome is Incomplete <==> r == Reply::ReportIncomplete,
        outcome is Failed <==> r == Reply::ReportError,
{
    match outcome {
        DecodeOutcome::Frame => Reply::Answer,
        DecodeOutcome::Incomplete => Reply::ReportIncomplete,
        DecodeOutcome::Failed => Reply::ReportError,
    }
}

} // verus!
