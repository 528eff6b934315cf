//! The fixed settings of the outside services that a session ends with.
//!
//! The selection is recognised as one block of vertical Japanese text, and
//! the recognised text goes to the clipboard, which may be busy for a
//! moment and is tried a bounded number of times.

use vstd::prelude::*;

verus! {

/// How text recognition is set up.
#[derive(Debug)]
pub struct RecognitionSettings {
    /// The language and script that recognition is trained for.
    pub language: String,
    /// The resolution, in dots per inch, that the engine is told to assume.
    pub dpi: i32,
    /// The number of the engine's page segmentation mode.
    pub page_segmentation: i32,
    /// The number of the engine mode.
    pub engine_mode: i32,
}

/// The language of recognition: Japanese, written vertically.
pub open spec fn recognition_language() -> Seq<char> {
    "jpn_vert"@
}

/// The resolution that the engine is told to assume.
pub open spec fn recognition_dpi() -> int {
    150
}

/// Page segmentation mode 5: one uniform block of vertically aligned text.
pub open spec fn single_block_segmentation() -> int {
    5
}

/// Engine mode 3: whatever the installation has as its default.
pub open spec fn default_engine_mode() -> int {
    3
}

/// How often opening the clipboard may be tried.
pub open spec fn clipboard_retry_bound() -> int {
    10
}

/// The settings with which the selection is recognised: vertical
/// Japanese, 150 dots per inch, one uniform block, the default engine.
pub fn recognition_settings() -> (settings: RecognitionSettings)
    ensures
        settings.language@ == recognition_language(),
        settings.dpi == recognition_dpi(),
        settings.page_segmentation == single_block_segmentation(),
        settings.engine_mode == default_engine_mode(),
{
    RecognitionSettings {
        language: "jpn_vert".to_owned(),
        dpi: 150,
        page_segmentation: 5,
        engine_mode: 3,
    }
}

/// The number of attempts at opening the clipboard before giving up.
pub fn clipboard_attempts() -> (attempts: usize)
    ensures
        attempts == clipboard_retry_bound(),
{
    10
}

} // verus!
