//! A verified rasterization engine for binary Mandelbrot-set masks.
//!
//! The plane is described in a fixed-point encoding (see [`fixed`]), each
//! point is classified by the escape-time evaluator in [`complex`], and the
//! image is produced either by the banded CPU pipeline in [`cpu`] or by the
//! batched dispatcher in [`gpu`]. Both pipelines are proved to assemble the
//! one canonical row-major pixel buffer described by
//! [`params::RenderParameters::image_spec`].

pub mod complex;
pub mod cpu;
pub mod fixed;
pub mod gpu;
pub mod params;
pub mod partition;
pub mod progress;
