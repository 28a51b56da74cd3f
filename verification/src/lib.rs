//! The resource and window authority of an X11 frontend: the decoding of a
//! client's request bytes, resource tables keyed by client-chosen ids, the
//! window tree and its map states, graphics contexts, GLX aliases, RENDER
//! pictures and glyph sets, XFIXES regions, shapes, selections and pointer
//! queries, each with the access rules a client request is checked against,
//! and the pixel operations of the CPU drawing path: the updates a
//! presentation ships (whole buffers, or patch batches a receiver writes over
//! its copy) and the damage kept for exported pixmaps.
#![allow(unused_imports)]

pub mod ids;
pub mod table;
pub mod geometry;
pub mod resources;
pub mod window;
pub mod raster;
pub mod software;
pub mod wire;
pub mod request;
pub mod render;
pub mod gc;
pub mod selection;
pub mod runtime;
pub mod observation;
pub mod laws;
