//! Icon rendering for a game asset archive.
//!
//! A request names a base icon and up to five further layers. Each name is
//! normalised to a canonical record id, each record is read from the archive
//! as a 32x32 RGBA raster, the rasters are stacked in a fixed order, and the
//! finished canvas is scaled by a whole factor and encoded as PNG.
//!
//! Everything that decides or computes lives here and is verified. Reading
//! the catalog and the archive is left to the caller, who feeds the results
//! to [`pipeline::IconPipeline`].
//!
//! From the leaves up: [`decimal`] and [`ident`] read numbers and
//! identifiers, [`names`] and [`request`] resolve a whole request,
//! [`db`] turns a catalog row into the span to fetch, [`raster`],
//! [`compose`] and [`encode`] make the image, and [`pipeline`] drives one
//! request through all of it, with what holds of every run proved in
//! [`pipeline_lemmas`]. [`range`] and [`openapi`] serve the tools around the
//! service.

pub mod error;
pub mod decimal;
pub mod ident;
pub mod names;
pub mod request;
pub mod db;
pub mod raster;
pub mod compose;
pub mod encode;
pub mod pipeline;
pub mod pipeline_lemmas;
pub mod range;
pub mod openapi;
