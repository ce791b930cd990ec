//! Integer core of a Monte-Carlo path tracer: render settings and their
//! validation, the layout of pixels in the frame buffer, the depth-bounded
//! control of each light path, and the plain-text PPM encoding of the image.

pub mod settings;
pub mod layout;
pub mod path;
pub mod ppm;
