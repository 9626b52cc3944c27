//! The active-recording registry: at most one recording runs at a time.
use vstd::prelude::*;

verus! {

/// Recording state metadata.
#[derive(Debug)]
pub struct RecordingState {
    /// Output file path
    pub output_file: String,
    /// Recording region (x, y, width, height)
    pub region: (i32, i32, u32, u32),
    /// Output name being recorded
    pub output_name: String,
    /// When recording started (ISO 8601)
    pub started_at: String,
}

impl Clone for RecordingState {
    fn clone(&self) -> (r: Self)
        ensures
            r == *self,
    {
        RecordingState {
            output_file: self.output_file.clone(),
            region: self.region,
            output_name: self.output_name.clone(),
            started_at: self.started_at.clone(),
        }
    }
}

/// Why a stop or cancel request was refused.
#[derive(Debug, Clone, Copy, PartialEq, Eq, Structural)]
pub enum RecordingError {
    /// No recording is active
    NoActiveRecording,
}

/// Handle to an active recording: what controls it (`C`: the stop flag and
/// the recording thread) and its metadata.
#[derive(Debug)]
pub struct RecordingHandle<C> {
    /// Stop flag and recording thread
    pub control: C,
    /// Recording metadata
    pub state: RecordingState,
}

/// The registry of the active recording: only one recording can be active
/// at a time.
#[derive(Debug)]
pub struct RecordingSlot<C> {
    active: Option<RecordingHandle<C>>,
}

impl<C> RecordingSlot<C> {
    /// The active recording, if any.
    pub closed spec fn spec_active(self) -> Option<RecordingHandle<C>> {
        self.active
    }

    /// An empty slot: nothing is recording.
    pub fn new() -> (s: Self)
        ensures
            s.spec_active() is None,
    {
        RecordingSlot { active: None }
    }

    /// Register an active recording, replacing any previous one.
    pub fn set_recording(&mut self, handle: RecordingHandle<C>)
        ensures
            final(self).spec_active() == Some(handle),
    {
        self.active = Some(handle);
    }

    /// Check if a recording is currently active.
    pub fn is_recording(&self) -> (b: bool)
        ensures
            b == self.spec_active() is Some,
    {
        self.active.is_some()
    }

    /// Get the current recording state (if any).
    pub fn get_recording_state(&self) -> (r: Option<RecordingState>)
        ensures
            r == match self.spec_active() {
                Some(h) => Some(h.state),
                None => None::<RecordingState>,
            },
    {
        match &self.active {
            Some(h) => Some(h.state.clone()),
            None => None,
        }
    }

    /// Stop the active recording: take it out of the slot (its owner then
    /// signals it to stop, waits for it and reports the saved file); refused
    /// when nothing is recording.
    pub fn stop_recording(&mut self) -> (r: Result<RecordingHandle<C>, RecordingError>)
        ensures
            final(self).spec_active() is None,
            r == take_outcome(old(self).spec_active()),
    {
        match self.active.take() {
            Some(h) => Ok(h),
            None => Err(RecordingError::NoActiveRecording),
        }
    }

    /// Cancel the active recording: take it out of the slot (its owner then
    /// stops it and deletes the output file); refused when nothing is
    /// recording.
    pub fn cancel_recording(&mut self) -> (r: Result<RecordingHandle<C>, RecordingError>)
        ensures
            final(self).spec_active() is None,
            r == take_outcome(old(self).spec_active()),
    {
        self.stop_recording()
    }
}

/// What a stop or cancel request answers for the slot's content: the active
/// recording, or the refusal when there is none.
pub open spec fn take_outcome<H>(active: Option<H>) -> Result<H, RecordingError> {
    match active {
        Some(h) => Ok(h),
        None => Err(RecordingError::NoActiveRecording),
    }
}

/// Law: once a recording is registered, stopping it hands back that very
/// recording and empties the slot, so a second stop is refused.
pub proof fn law_stop_after_start<H>(h: H)
    ensures
        take_outcome(Some(h)) == Ok::<H, RecordingError>(h),
        take_outcome::<H>(None) == Err::<H, RecordingError>(RecordingError::NoActiveRecording),
{
}

} // verus!
