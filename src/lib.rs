//! The verified core of a small path tracer: picking the nearest hit among a
//! scene's objects, bounding how far a light path may bounce, and holding and
//! encoding the finished picture as a plain-text pixmap.
pub mod bounce;
pub mod image;
pub mod material;
pub mod nearest;
pub mod ppm;
