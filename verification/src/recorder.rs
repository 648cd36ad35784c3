//! The state of the recorder window: whether a recording runs and what the
//! status line says, driven by the record button and by the capture task.
use vstd::prelude::*;

verus! {

/// What the status line says.
#[derive(Debug, Clone, Copy, PartialEq, Eq, Structural)]
pub enum RecorderStatus {
    /// Idle, ready to record.
    Ready,
    /// A capture runs.
    Recording,
    /// The last capture could not start or failed.
    Error,
}

impl RecorderStatus {
    /// The text of the status line.
    pub fn label(self) -> (s: &'static str)
        ensures
            s@ == match self {
                RecorderStatus::Ready => "Ready"@,
                RecorderStatus::Recording => "Recording..."@,
                RecorderStatus::Error => "Error"@,
            },
    {
        match self {
            RecorderStatus::Ready => "Ready",
            RecorderStatus::Recording => "Recording...",
            RecorderStatus::Error => "Error",
        }
    }
}

/// The recorder window's state.
#[derive(Debug, Clone, Copy)]
pub struct RecorderState {
    pub recording: bool,
    pub status: RecorderStatus,
}

impl RecorderState {
    /// Ready, not recording.
    pub fn new() -> (s: Self)
        ensures
            !s.recording,
            s.status == RecorderStatus::Ready,
    {
        RecorderState { recording: false, status: RecorderStatus::Ready }
    }

    /// A status reported by the capture task; `Ready` means the capture
    /// has ended.
    pub fn on_status(&mut self, status: RecorderStatus)
        ensures
            final(self).status == status,
            final(self).recording == (old(self).recording && status != RecorderStatus::Ready),
    {
        self.status = status;
        if status == RecorderStatus::Ready {
            self.recording = false;
        }
    }

    /// The record button.  While recording it stops the recording; else it
    /// starts one when the configuration is valid, and shows an error when
    /// not.  Returns whether a capture is to be started.
    pub fn on_button(&mut self, config_valid: bool) -> (start: bool)
        ensures
            old(self).recording ==> !start && !final(self).recording && final(self).status == RecorderStatus::Ready,
            !old(self).recording && config_valid ==> start && final(self).recording && final(self).status
                == RecorderStatus::Recording,
            !old(self).recording && !config_valid ==> !start && !final(self).recording && final(self).status
                == RecorderStatus::Error,
    {
        if self.recording {
            self.recording = false;
            self.status = RecorderStatus::Ready;
            false
        } else {
            self.recording = true;
            self.status = RecorderStatus::Recording;
            if !config_valid {
                self.status = RecorderStatus::Error;
                self.recording = false;
                return false;
            }
            true
        }
    }
}

} // verus!
