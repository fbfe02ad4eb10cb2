//! Decoder for Intan RHS neural-recording files.
//!
//! An RHS file is a header followed by data blocks of 128 samples each. This
//! library turns the bytes of such a file into a recording: the header with
//! its channel lists, and one matrix per kind of signal with a row per
//! channel and a column per sample. Several recordings of one session can be
//! combined into one.
//!
//! The functions are verified against contracts that say what they return
//! for each input. The contracts speak of the bytes of the file, so that what
//! a recording holds is stated in terms of the file format itself. The calls
//! into `byteorder`, `ndarray` and the standard library are made by small
//! functions whose contracts are taken on trust; each says above its header
//! what it claims.
//!
//! The library works in exact arithmetic. Numbers that the file stores as
//! 32-bit floats are kept as their bit patterns, and scaled signals are
//! integers in a fixed unit. Reading files from disk and presenting values as
//! floating-point numbers is left to the caller.
//!
//! The modules, from the bytes upwards:
//!
//! - [`wire`]: little-endian integers on a byte stream;
//! - [`arrays`]: the arrays that hold the signals;
//! - [`types`]: header, channels, signals, recording and errors;
//! - [`header`]: parsing of the header and its channel catalog;
//! - [`layout`]: the size of a data block and the number of blocks;
//! - [`blocks`]: decoding of the data blocks into raw matrices;
//! - [`signal`]: scaling of raw samples, and unpacking of stimulation and
//!   digital words;
//! - [`reader`]: loading a whole file;
//! - [`combine`]: combining the files of a session.

pub mod arrays;
pub mod blocks;
pub mod combine;
pub mod header;
pub mod layout;
pub mod reader;
pub mod signal;
pub mod types;
pub mod wire;

pub use crate::types::{
    ChannelInfo, FrequencyParameters, IntanError, Notes, RhsData, RhsFile, RhsHeader,
    SpikeTrigger, StimParameters, Version,
};
