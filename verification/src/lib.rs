//! Repacks a PSP executable (a bare PRX image, or one embedded in a PBP
//! package) into the compressed `~PSP` module format.
//!
//! The crate has two layers. [`bytes`], [`utils`] and [`view`] form a small
//! framework that lays fixed little-endian records over byte ranges after
//! checking length, alignment and a per-record acceptance predicate.
//! [`elf`] and [`psp`] describe the records of the two formats on top of
//! it, [`locate`] finds the module information and the sections of an
//! image, and [`pack`] holds the pipeline that derives the `~PSP` header,
//! compresses the image and assembles the output. [`laws`] states what
//! holds across these functions.
//!
//! The gzip compressor, the random generator that fills the key regions of
//! the header, the reader of the standard library and the address of a
//! buffer are reached through small functions whose contracts are taken on
//! trust; each says in its documentation what it claims. What the output is
//! for a given compressed stream, given filler and given addresses is
//! proved.
pub mod bytes;
pub mod elf;
pub mod error;
pub mod laws;
pub mod locate;
pub mod pack;
pub mod psp;
pub mod utils;
pub mod view;
