//! Drivers of the board's sensors, RFID reader and serial console.

pub mod aht20;
pub mod bmp280;
pub mod dht11;
pub mod display;
pub mod i2c;
pub mod rc522;
pub mod rc522_link;
pub mod serial;

pub use aht20::{Aht20, Aht20Error};
pub use bmp280::{Bmp280, Bmp280Error};
pub use dht11::{Dht11, DhtError};
pub use i2c::I2cStep;
pub use serial::SerialTx;
