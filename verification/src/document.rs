//! What importing reads of a glTF document.
use crate::buffer::Buffer;
use crate::image::Image;
use vstd::prelude::*;

verus! {

/// A glTF document: where its buffers and images come from, and whatever else it holds.
#[derive(Debug)]
pub struct Document<D> {
    /// The buffers, in the order of their indices.
    pub buffers: Vec<Buffer>,
    /// The images, in the order of their indices.
    pub images: Vec<Image>,
    /// The rest of the document, which importing hands on as it is.
    pub rest: D,
}

/// A document with the binary section of the file it came in, if that had one.
#[derive(Debug)]
pub struct Gltf<D> {
    pub document: Document<D>,
    pub blob: Option<Vec<u8>>,
}

} // verus!
