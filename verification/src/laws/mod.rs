//! What holds of the library as a whole.

pub mod engine;
pub mod led;
pub mod link;
pub mod ota;
pub mod sk6812;
pub mod strip_test;
