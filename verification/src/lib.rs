//! Importing a glTF document together with the buffers and images that it refers to.
//!
//! A document names its resources by reference. [`uri`] resolves a reference against the URL of the
//! document, [`importer`] opens the URL, [`buffer`] and [`image`] turn the bytes into buffer data and
//! pixels, and [`import`] does so for every resource of a document. What holds of all this together
//! is stated in [`laws`], and what each step owes its caller in [`guarantees`] and
//! [`import_guarantees`].
pub mod buffer;
pub mod cursor;
pub mod document;
pub mod error;
pub mod features;
pub mod guarantees;
pub mod image;
pub mod import;
pub mod import_guarantees;
pub mod importer;
pub mod laws;
pub mod path;
pub mod resource;
pub mod stream;
pub mod text;
pub mod uri;
