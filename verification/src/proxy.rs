//! Forwarding engine logic: the per-packet splice decisions and the byte
//! delivery each splice direction produces.
//!
//! The proxy couples two sockets by running one copy loop per direction.
//! This module holds the loop's decision rule — what each read observation
//! demands — and a driver over a recorded stream of observations, which
//! pins down the bytes a direction delivers and how it ends. The caller
//! performs the actual socket reads and writes and feeds the observations
//! in.

use vstd::prelude::*;

verus! {

/// Why one splice direction stopped.
#[derive(Clone, Copy, PartialEq, Eq, Structural, Debug)]
pub enum SpliceError {
    /// The peer closed its write side: a read yielded zero bytes.
    ConnectionReset,
    /// Any other I/O failure on the read or write side.
    Io,
}

/// One observation a splice loop makes when the input side turns readable.
pub enum ReadEvent {
    /// The read yielded zero bytes: the peer closed cleanly.
    Closed,
    /// The read yielded these bytes.
    Data(Vec<u8>),
    /// The read would block; not a failure.
    WouldBlock,
    /// The read or the following write failed outright.
    Failed,
}

/// What the splice loop must do after an observation.
pub enum SpliceAction {
    /// Write exactly these bytes to the output side, then loop.
    Forward(Vec<u8>),
    /// Wait for readiness again; the observation was not a failure.
    Retry,
    /// Terminate this direction with the given error.
    Stop(SpliceError),
}

/// The splice loop's decision rule: a zero-byte read is treated as
/// connection-reset, data is forwarded verbatim, would-block is retried,
/// anything else terminates the direction.
pub fn splice_step(event: ReadEvent) -> (a: SpliceAction)
    ensures
        match event {
            ReadEvent::Closed => a == SpliceAction::Stop(SpliceError::ConnectionReset),
            ReadEvent::Data(d) => a matches SpliceAction::Forward(f) && f@ == d@,
            ReadEvent::WouldBlock => a == SpliceAction::Retry,
            ReadEvent::Failed => a == SpliceAction::Stop(SpliceError::Io),
        },
{
    match event {
        ReadEvent::Closed => SpliceAction::Stop(SpliceError::ConnectionReset),
        ReadEvent::Data(d) => SpliceAction::Forward(d),
        ReadEvent::WouldBlock => SpliceAction::Retry,
        ReadEvent::Failed => SpliceAction::Stop(SpliceError::Io),
    }
}

/// The bytes one direction delivers to its output side: every data chunk,
/// in order, up to the first terminal observation.
pub open spec fn delivered_bytes(evs: Seq<ReadEvent>) -> Seq<u8>
    decreases evs.len(),
{
    if evs.len() == 0 {
        Seq::empty()
    } else {
        match evs[0] {
            ReadEvent::Data(d) => d@ + delivered_bytes(evs.skip(1)),
            ReadEvent::WouldBlock => delivered_bytes(evs.skip(1)),
            ReadEvent::Closed => Seq::empty(),
            ReadEvent::Failed => Seq::empty(),
        }
    }
}

/// How one direction ends: the error of the first terminal observation, or
/// nothing while the stream is still running.
pub open spec fn splice_outcome(evs: Seq<ReadEvent>) -> Option<SpliceError>
    decreases evs.len(),
{
    if evs.len() == 0 {
        None
    } else {
        match evs[0] {
            ReadEvent::Closed => Some(SpliceError::ConnectionReset),
            ReadEvent::Failed => Some(SpliceError::Io),
            ReadEvent::Data(_) => splice_outcome(evs.skip(1)),
            ReadEvent::WouldBlock => splice_outcome(evs.skip(1)),
        }
    }
}

/// Drive one splice direction over a recorded stream of observations,
/// taking every decision through splice_step: yields exactly the bytes the
/// direction delivers and the way it ends.
pub fn splice_direction(events: Vec<ReadEvent>) -> (r: (Vec<u8>, Option<SpliceError>))
    ensures
        r.0@ == delivered_bytes(events@),
        r.1 == splice_outcome(events@),
{
    let ghost orig = events@;
    let mut events = events;
    let mut out: Vec<u8> = Vec::new();
    let mut outcome: Option<SpliceError> = None;
    while events.len() > 0 && outcome.is_none()
        invariant
            outcome is None ==> delivered_bytes(orig) == out@ + delivered_bytes(events@)
                && splice_outcome(orig) == splice_outcome(events@),
            outcome is Some ==> out@ == delivered_bytes(orig) && outcome == splice_outcome(orig),
        decreases events.len(),
    {
        let ghost evs = events@;
        let ev = events.remove(0);
        proof {
            assert(events@ =~= evs.skip(1));
        }
        match splice_step(ev) {
            SpliceAction::Forward(d) => {
                let mut d = d;
                out.append(&mut d);
            },
            SpliceAction::Retry => {},
            SpliceAction::Stop(e) => {
                outcome = Some(e);
            },
        }
    }
    proof {
        if outcome is None {
            assert(out@ =~= delivered_bytes(orig));
        }
    }
    (out, outcome)
}

/// The forwarding engine's client-to-backend data path: the captured first
/// packet is replayed in full before any spliced byte, so the backend sees
/// the handshake first, then every payload chunk in order.
pub fn replay_and_splice(first_packet: &Vec<u8>, events: Vec<ReadEvent>) -> (r: (
    Vec<u8>,
    Option<SpliceError>,
))
    ensures
        r.0@ == first_packet@ + delivered_bytes(events@),
        r.1 == splice_outcome(events@),
{
    let (spliced, outcome) = splice_direction(events);
    let mut out: Vec<u8> = Vec::new();
    let mut i: usize = 0;
    while i < first_packet.len()
        invariant
            i <= first_packet@.len(),
            out@ == first_packet@.take(i as int),
        decreases first_packet@.len() - i,
    {
        out.push(first_packet[i]);
        proof {
            assert(out@ =~= first_packet@.take(i as int + 1));
        }
        i = i + 1;
    }
    let mut j: usize = 0;
    while j < spliced.len()
        invariant
            j <= spliced@.len(),
            out@ == first_packet@.take(first_packet@.len() as int) + spliced@.take(j as int),
        decreases spliced@.len() - j,
    {
        out.push(spliced[j]);
        proof {
            assert(out@ =~= first_packet@.take(first_packet@.len() as int) + spliced@.take(
                j as int + 1,
            ));
        }
        j = j + 1;
    }
    proof {
        assert(out@ =~= first_packet@ + spliced@);
    }
    (out, outcome)
}

/// If a direction's stream closes (a zero-byte read) before any other
/// failure, the direction stops with connection-reset — never with a
/// process-level failure.
pub proof fn lemma_close_gives_reset(evs: Seq<ReadEvent>, k: int)
    requires
        0 <= k < evs.len(),
        evs[k] is Closed,
        forall|j: int| 0 <= j < k ==> !(evs[j] is Closed) && !(evs[j] is Failed),
    ensures
        splice_outcome(evs) == Some(SpliceError::ConnectionReset),
    decreases k,
{
    if k == 0 {
    } else {
        assert(evs.skip(1)[k - 1] is Closed);
        assert(forall|j: int|
            0 <= j < k - 1 ==> !(evs.skip(1)[j] is Closed) && !(evs.skip(1)[j] is Failed));
        lemma_close_gives_reset(evs.skip(1), k - 1);
    }
}

/// The per-connection epilogue's decision: whether the direction ended
/// cleanly, which the caller logs at a lower severity than an error end.
pub fn connection_ended(result: &Result<(), SpliceError>) -> (clean: bool)
    ensures
        clean <==> result is Ok,
{
    match result {
        Ok(_) => true,
        Err(_) => false,
    }
}

} // verus!
