//! Escrow and settlement for ride payments.
//!
//! A passenger's funds are locked in a custody account when a ride starts.
//! When the backend confirms that the ride is completed, the funds are
//! released: a twentieth to the platform, the rest to the driver. A ride is
//! settled once, by the backend authority alone, and only to the recipients
//! on record.
//!
//! - [`fee`] splits an amount into the two payments.
//! - [`config`] and [`ride`] hold the records and the rules that depend on a
//!   record alone: who may change the configuration, who may settle, and that
//!   a ride is completed once.
//! - [`address`] derives the addresses of the records, and [`context`] names
//!   the accounts and the caller of each operation.
//! - [`model`] states each operation as a step of a state machine, and
//!   [`laws`] what holds of every such step: custody holds exactly what is
//!   locked, funds are neither created nor destroyed, and only the backend
//!   authority releases them.
//! - [`ledger`] carries the operations out on balances held in memory, kept
//!   in a [`bank`] over a [`table`] of addresses; [`error`] lists the ways in
//!   which an operation is rejected.

pub mod address;
pub mod bank;
pub mod config;
pub mod context;
pub mod error;
pub mod fee;
pub mod laws;
pub mod ledger;
pub mod model;
pub mod ride;
pub mod table;

pub use crate::address::Address;
pub use crate::config::Config;
pub use crate::context::{CompleteRide, InitializeConfig, InitializeRide, UpdateConfig};
pub use crate::error::RideError;
pub use crate::fee::Settlement;
pub use crate::ledger::{complete_ride, initialize_config, initialize_ride, update_config, Ledger};
pub use crate::ride::{Escrow, RideAccount};
