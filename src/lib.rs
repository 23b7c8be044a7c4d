//! Loudness normalisation of a DJ track library.
//!
//! The library reads a library document into a model, applies loudness
//! measurements to its track records through a cache keyed by audio
//! fingerprint, and writes the document back with every other element kept.
//! Decibel quantities are held in fixed point, as integer micro-decibels
//! (one millionth of a decibel), which is also the precision with which the
//! library document stores them; decoded audio is held as 32-bit full-scale
//! integer samples.

pub mod audio;
pub mod cache;
pub mod document;
pub mod error;
pub mod gain;
pub mod logging;
pub mod models;
pub mod parse;
pub mod read;
pub mod serialize;
pub mod text;
pub mod walker;
pub mod xml;
