//! Temperature acquisition over a shared 1-Wire bus and delivery of the
//! readings over a serial link.

pub mod channel;
pub mod checksum;
pub mod control;
pub mod ds28ea00;
pub mod exclusion;
pub mod fingerprint;
pub mod hdc1010;
pub mod measurement;
pub mod onewire;
pub mod producer;
pub mod sim;
pub mod sink;
