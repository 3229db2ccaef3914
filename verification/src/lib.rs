//! Weighted random character art for a terminal: a palette of weighted
//! characters, frames sampled from it, and the decisions of the render loop.

pub mod driver;
pub mod frame;
pub mod palette;
pub mod sampling;
pub mod span;
