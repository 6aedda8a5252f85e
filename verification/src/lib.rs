//! # Generic client for the LTC2949 battery stack monitor
//!
//! [`client`] holds the client with decoded results, [`ltc2949`] the one with raw results. Both
//! talk through a [`link`], which asks for the actions of a [`bus`] and is handed their replies.
//! [`laws`] and [`replay`] state what holds across operations.
pub use heapless;

pub mod binary;
pub mod bus;
pub mod bytes;
pub mod client;
pub mod compensation;
pub mod config;
pub mod dcmd;
pub mod device;
pub mod effects;
pub mod error;
pub mod example;
pub mod fifo;
pub mod float24;
pub mod laws;
pub mod link;
pub mod ltc2949;
pub mod measurements;
pub mod pec15;
pub mod polling;
pub mod readout;
pub mod registers;
pub mod replay;
pub mod rounding;
pub mod thresholds;
