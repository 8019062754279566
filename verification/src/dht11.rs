//! The DHT11 driver, also reachable at the crate's top level.

pub use crate::drivers::dht11::{Dht11, DhtError, PinStep};
