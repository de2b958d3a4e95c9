# gltf_import

Imports a glTF document together with the buffers and images that it refers to: references are
resolved against the URL of the document, `data` URLs are decoded, files are read, buffers are padded
to a multiple of four bytes and held to their declared length, and images are decoded.

- `src/` is the library, written in Verus. Every function states its result in its contract. Calls
  into `url`, `base64`, `image` and `std::path` stand behind small wrappers whose contracts are
  trusted; each says in its doc comment what is claimed of the function it calls.
- `src/laws.rs` states and proves what holds of the functions together.
- `app/` connects the library to the file system: it opens files and finds the current directory.
- `tests/` runs the library with the crates that it calls.

Opening a file and parsing the document itself are functions that the caller passes in, so the
library does no input or output of its own.
