//! Verified core of a Monte Carlo ray tracer: the pixel grid that the
//! parallel renderer works over, the text and raster framing of a finished
//! image, the bounce budget of a light path and the layout of the cover scene.
pub mod cover;
pub mod path;
pub mod ppm;
pub mod raster;
pub mod rgb;
