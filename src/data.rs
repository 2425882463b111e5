//! Values decoded from the instrument's responses.
pub mod awg;
pub mod head;
pub mod measurement;
pub mod units;
