//! Batch renaming and re-encoding of image files: the naming scheme, the
//! choice of output format, the content probe and the per-entry decisions of
//! a directory run.

pub mod decimal;
pub mod stamp;
pub mod naming;
pub mod convert;
pub mod driver;
pub mod logfmt;
