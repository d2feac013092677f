//! Turns a video into a "timeline barcode": each sampled frame is reduced to a
//! single column of per-row average colours, and the columns are laid out
//! left-to-right in playback order.
//!
//! The library holds the verified pipeline logic: sampling stride and frame
//! selection, per-row colour reduction, ordered reassembly of results that may
//! complete out of order, transposition into the final pixel buffer, and the
//! output header. Decoding and the worker pool that drives the pipeline live
//! outside the library and hand it plain values.

pub mod assemble;
pub mod collect;
pub mod colour;
pub mod error;
pub mod pipeline;
pub mod ppm;
pub mod reduce;
pub mod select;
