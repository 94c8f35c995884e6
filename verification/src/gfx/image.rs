//! Image-loading capability marker.

use vstd::prelude::*;

verus! {

/// Implemented by types that can stand as an image source.
pub trait ImageLoader {
}

/// Wraps an image source; itself usable wherever a source is expected.
pub struct ImageManager<T: ImageLoader> {
    #[allow(dead_code)]
    loader: T,
}

impl<T: ImageLoader> ImageLoader for ImageManager<T> {
}

} // verus!
