//! The recording loop's bookkeeping: frame timestamps, when repeated capture
//! errors stop a recording, the capture path it takes, and the conversion of
//! captured shared-memory frames.
use vstd::prelude::*;

verus! {

/// Consecutive capture errors after which a recording stops.
pub const MAX_CONSECUTIVE_ERRORS: u32 = 10;

/// Nanoseconds per second.
pub const NANOS_PER_SEC: u64 = 1_000_000_000;

/// What the recording loop has counted so far.
#[derive(Debug, Clone, Copy, PartialEq, Eq, Structural)]
pub struct RecordingLoop {
    /// Frames captured and handed to the encoder
    pub frame_count: u64,
    /// Capture errors since the last captured frame
    pub consecutive_errors: u32,
}

/// The presentation time of frame `n` at `framerate` frames per second, in
/// nanoseconds (rounded down).
pub open spec fn frame_timestamp(n: int, framerate: int) -> int {
    n * 1_000_000_000 / framerate
}

impl RecordingLoop {
    /// A recording that has not captured anything yet.
    pub fn new() -> (l: RecordingLoop)
        ensures
            l.frame_count == 0,
            l.consecutive_errors == 0,
    {
        RecordingLoop { frame_count: 0, consecutive_errors: 0 }
    }

    /// The timestamp of the next frame.
    pub fn next_timestamp(&self, framerate: u32) -> (t: u64)
        requires
            framerate > 0,
            self.frame_count * 1_000_000_000 <= u64::MAX,
        ensures
            t == frame_timestamp(self.frame_count as int, framerate as int),
    {
        self.frame_count * NANOS_PER_SEC / (framerate as u64)
    }

    /// Count the outcome of one capture: a captured frame resets the error
    /// run; an error lengthens it. Returns whether the recording must stop
    /// (the run reached the limit).
    pub fn record_capture(&mut self, captured: bool) -> (stop: bool)
        requires
            captured ==> old(self).frame_count < u64::MAX,
            !captured ==> old(self).consecutive_errors < u32::MAX,
        ensures
            (*final(self), stop) == capture_step(*old(self), captured),
    {
        if captured {
            self.consecutive_errors = 0;
            self.frame_count = self.frame_count + 1;
            false
        } else {
            self.consecutive_errors = self.consecutive_errors + 1;
            self.consecutive_errors >= MAX_CONSECUTIVE_ERRORS
        }
    }
}

/// One capture counted: the new counts, and whether the recording stops.
pub open spec fn capture_step(l: RecordingLoop, captured: bool) -> (RecordingLoop, bool) {
    if captured {
        (RecordingLoop { frame_count: (l.frame_count + 1) as u64, consecutive_errors: 0 }, false)
    } else {
        let e = (l.consecutive_errors + 1) as u32;
        (RecordingLoop { frame_count: l.frame_count, consecutive_errors: e }, e >= MAX_CONSECUTIVE_ERRORS)
    }
}

/// The counts after `k` capture errors in a row.
pub open spec fn after_errors(l: RecordingLoop, k: nat) -> RecordingLoop
    decreases k,
{
    if k == 0 {
        l
    } else {
        capture_step(after_errors(l, (k - 1) as nat), false).0
    }
}

proof fn lemma_after_errors(l: RecordingLoop, k: nat)
    requires
        l.consecutive_errors + k <= u32::MAX,
    ensures
        after_errors(l, k).consecutive_errors == l.consecutive_errors + k,
        after_errors(l, k).frame_count == l.frame_count,
    decreases k,
{
    if k > 0 {
        lemma_after_errors(l, (k - 1) as nat);
    }
}

/// Law: after a captured frame the recording survives nine capture errors
/// in a row and stops at the tenth; a captured frame in between resets the
/// run (and never stops the recording).
pub proof fn law_stops_at_tenth_error(l: RecordingLoop, k: nat)
    requires
        l.frame_count < u64::MAX,
        1 <= k <= 10,
    ensures
        capture_step(l, true).0.consecutive_errors == 0,
        !capture_step(l, true).1,
        capture_step(after_errors(capture_step(l, true).0, (k - 1) as nat), false).1 <==> k == 10,
{
    let fresh = capture_step(l, true).0;
    lemma_after_errors(fresh, (k - 1) as nat);
}

/// Whether the zero-copy DMA-buf path is used: the compositor's protocol
/// supports it, the GPU context opened, and a format was chosen.
pub fn use_dmabuf_path(has_format: bool, has_context: bool, protocol_supported: bool) -> (b: bool)
    ensures
        b == (has_format && has_context && protocol_supported),
{
    has_format && has_context && protocol_supported
}

/// The size in bytes of a shared-memory frame buffer.
pub fn shm_buffer_len(width: u32, height: u32) -> (n: u32)
    requires
        width * height * 4 <= u32::MAX,
    ensures
        n == width * height * 4,
{
    assert(width * height <= u32::MAX) by (nonlinear_arith)
        requires
            width * height * 4 <= u32::MAX,
    ;
    width * height * 4
}

/// A frame converted from the compositor's ABGR byte order to RGBA: each
/// whole 4-byte pixel reversed (a trailing partial pixel is dropped).
pub open spec fn is_rgba_of_abgr(abgr: Seq<u8>, rgba: Seq<u8>) -> bool {
    &&& rgba.len() == (abgr.len() / 4) * 4
    &&& forall|i: int, c: int|
        0 <= i < abgr.len() / 4 && 0 <= c < 4 ==> #[trigger] rgba[4 * i + c] == abgr[4 * i + 3 - c]
}

/// Convert a captured ABGR frame to RGBA for the encoder.
pub fn abgr_to_rgba(frame: &Vec<u8>) -> (out: Vec<u8>)
    ensures
        is_rgba_of_abgr(frame@, out@),
{
    let len = frame.len();
    let n = len / 4;
    let mut out: Vec<u8> = Vec::with_capacity(n * 4);
    let mut i: usize = 0;
    while i < n
        invariant
            len == frame@.len(),
            n == len / 4,
            i <= n,
            out@.len() == 4 * i,
            forall|j: int, c: int|
                0 <= j < i && 0 <= c < 4 ==> #[trigger] out@[4 * j + c] == frame@[4 * j + 3 - c],
        decreases n - i,
    {
        let base = 4 * i;
        out.push(frame[base + 3]);
        out.push(frame[base + 2]);
        out.push(frame[base + 1]);
        out.push(frame[base]);
        proof {
            assert forall|j: int, c: int|
                0 <= j < i + 1 && 0 <= c < 4 implies #[trigger] out@[4 * j + c] == frame@[4 * j + 3
                - c] by {
                if j < i {
                    assert(4 * j + c < 4 * i);
                } else {
                    assert(j == i);
                }
            }
        }
        i += 1;
    }
    out
}

} // verus!
