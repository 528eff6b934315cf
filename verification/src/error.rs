//! The ways a selection session can fail.

use vstd::prelude::*;

verus! {

/// Every failure ends the session: none is retried or survived.
#[derive(Clone, Copy, Debug, PartialEq, Eq, Structural)]
pub enum OverlayError {
    /// Listing the displays or capturing one of them failed.
    StartupFailure,
    /// A window or its surface could not be created, resized or presented.
    SurfaceFailure,
    /// Text recognition failed; nothing is written to the clipboard.
    RecognitionFailure,
    /// The clipboard could not be opened or written.
    ClipboardFailure,
}

impl OverlayError {
    /// The diagnostic that goes with each failure.
    pub open spec fn spec_message(self) -> Seq<char> {
        match self {
            OverlayError::StartupFailure => "could not list or capture the displays"@,
            OverlayError::SurfaceFailure => "could not create or present an overlay window"@,
            OverlayError::RecognitionFailure => "text recognition failed"@,
            OverlayError::ClipboardFailure => "could not write to the clipboard"@,
        }
    }

    /// The diagnostic to report before the process ends.
    pub fn message(&self) -> (text: String)
        ensures
            text@ == self.spec_message(),
    {
        match self {
            OverlayError::StartupFailure => "could not list or capture the displays".to_owned(),
            OverlayError::SurfaceFailure => "could not create or present an overlay window".to_owned(),
            OverlayError::RecognitionFailure => "text recognition failed".to_owned(),
            OverlayError::ClipboardFailure => "could not write to the clipboard".to_owned(),
        }
    }
}

} // verus!
