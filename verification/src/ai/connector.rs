//! The interface for image analysis backends.

use vstd::prelude::*;

verus! {

/// A backend that describes an image.  Implementations perform the
/// request round trip themselves; on failure the error carries a
/// human-readable description that the dispatcher classifies.
pub trait AiConnector {
    /// Process an image and return the backend's response text.
    fn process_image(&mut self, image_data: &[u8]) -> Result<String, String>;
}

} // verus!
