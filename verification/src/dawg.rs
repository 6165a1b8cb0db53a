//! The packed dictionary and the codec of its units.

pub mod dictionary;
pub mod error;
pub mod gzip;
pub mod lemmas;
pub mod model;
pub mod units;
