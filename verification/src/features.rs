//! What an importer accepts beyond plain glTF.
use vstd::prelude::*;

verus! {

/// Optional behaviour. By default all of it is off.
#[derive(Debug, Clone, Copy, PartialEq, Eq, Structural)]
pub struct Features {
    /// Look at an image's first bytes where its media type does not say its format.
    pub guess_mime_type: bool,
    /// Accept WebP images.
    pub ext_texture_webp: bool,
}

impl Default for Features {
    fn default() -> (features: Features)
        ensures
            features == (Features { guess_mime_type: false, ext_texture_webp: false }),
    {
        Features { guess_mime_type: false, ext_texture_webp: false }
    }
}

} // verus!
