//! What the devices on the board do with the values that their drivers hand over.

pub mod encoder;
pub mod mic;
pub mod screen;
pub mod speaker;
