//! Sensor, RFID and display logic of an STM32H750 environment monitor.
//!
//! Every bus transaction, delay and pin access is outside work: the drivers
//! here are step machines that say which transaction comes next and decide on
//! what came back, while the firmware around them performs the transactions.

pub mod cli;
pub mod dht11;
pub mod display;
pub mod drivers;
pub mod monitor;
pub mod profiler;
pub mod rc522;
pub mod types;
pub mod ui;
