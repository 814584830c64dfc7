//! Incremental texture builds: channel transcoding of RGBA images, staleness of cached
//! artifacts, per-unit build plans and the batch outcome of a build run.

pub mod error;
pub mod raster;
pub mod staleness;
pub mod unit;
pub mod text;
pub mod codec;
pub mod dds;
pub mod builder;
pub mod schedule;
pub mod version;
pub mod ini;
pub mod script;
